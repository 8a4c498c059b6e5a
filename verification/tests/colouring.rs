use logs_analyzer::colorize::{
    apply_colors, color_plan, level_style, method_style, paint, status_style,
};
use colored::Colorize;
use logs_analyzer::{colorize_line, ColorMode, Style};

fn caps(groups: &[Option<&str>]) -> Option<Vec<Option<String>>> {
    Some(groups.iter().map(|g| g.map(|s| s.to_string())).collect())
}

#[test]
fn status_colours() {
    for s in ["404", "500", "503", "403"] {
        assert_eq!(status_style(s), Some(Style::Red));
    }
    for s in ["200", "203", "204"] {
        assert_eq!(status_style(s), Some(Style::Green));
    }
    assert_eq!(status_style("301"), None);
}

#[test]
fn method_colours() {
    assert_eq!(method_style("GET"), Some(Style::Green));
    assert_eq!(method_style("POST"), Some(Style::Blue));
    assert_eq!(method_style("OPTIONS"), Some(Style::Blue));
    assert_eq!(method_style("PUT"), Some(Style::Yellow));
    assert_eq!(method_style("DELETE"), Some(Style::Red));
    assert_eq!(method_style("PATCH"), Some(Style::Olive));
    assert_eq!(method_style("get"), None);
}

#[test]
fn level_colours() {
    assert_eq!(level_style("WARNING"), Some(Style::Yellow));
    assert_eq!(level_style("ERROR"), Some(Style::Red));
    assert_eq!(level_style("CRITICAL"), Some(Style::Red));
    assert_eq!(level_style("SUCCESS"), Some(Style::Green));
    assert_eq!(level_style("INFO"), Some(Style::Blue));
    assert_eq!(level_style("DEBUG"), Some(Style::Cyan));
    assert_eq!(level_style("TRACE"), None);
}

#[test]
fn plan_of_http_line() {
    let http = caps(&[Some("whole"), Some("2025-05-09 08:00:41"), Some("INFO"), Some("request"), Some("PUT"), Some("/x"), Some("200")]);
    let symfony = caps(&[Some("whole"), Some("2025-05-09 08:00:41"), Some("INFO"), Some("request"), Some("PUT /x 200")]);
    let full = color_plan(&http, &None, &symfony, &None, ColorMode::Full);
    let expected: Vec<(String, Style)> = vec![
        ("2025-05-09 08:00:41".to_string(), Style::GreenBold),
        ("200".to_string(), Style::Green),
        ("PUT".to_string(), Style::Yellow),
        ("2025-05-09 08:00:41".to_string(), Style::GreenBold),
        ("INFO".to_string(), Style::Blue),
    ];
    assert_eq!(full, expected);
    let filtered = color_plan(&http, &None, &symfony, &None, ColorMode::Filtered);
    let expected_filtered: Vec<(String, Style)> = vec![
        ("2025-05-09 08:00:41".to_string(), Style::GreenBold),
        ("200".to_string(), Style::Green),
        ("PUT".to_string(), Style::Yellow),
        ("INFO".to_string(), Style::Blue),
        ("2025-05-09 08:00:41".to_string(), Style::GreenBold),
    ];
    assert_eq!(filtered, expected_filtered);
}

#[test]
fn plan_of_syslog_line() {
    let syslog = caps(&[Some("all"), Some("Apr 10 12:00:00"), Some("host"), Some("sshd"), Some("msg")]);
    let full = color_plan(&None, &None, &None, &syslog, ColorMode::Full);
    let expected: Vec<(String, Style)> = vec![
        ("host".to_string(), Style::BlueBold),
        ("sshd".to_string(), Style::Yellow),
        ("Apr 10 12:00:00".to_string(), Style::GreenBold),
        ("host".to_string(), Style::BlueBold),
        ("sshd".to_string(), Style::Yellow),
    ];
    assert_eq!(full, expected);
    let filtered = color_plan(&None, &None, &None, &syslog, ColorMode::Filtered);
    assert_eq!(filtered, vec![("Apr 10 12:00:00".to_string(), Style::GreenBold)]);
}

#[test]
fn replacements_apply_in_order_to_first_occurrence() {
    let reps = vec![
        ("a".to_string(), "<A>".to_string()),
        ("A".to_string(), "b".to_string()),
        ("zz".to_string(), "!".to_string()),
    ];
    assert_eq!(apply_colors("xa a", &reps), "x<b> a");
}

#[test]
fn painted_text_is_plain_or_in_its_colour() {
    let codes = [
        (Style::GreenBold, "1;32"),
        (Style::BlueBold, "1;34"),
        (Style::Red, "31"),
        (Style::Green, "32"),
        (Style::Blue, "34"),
        (Style::Yellow, "33"),
        (Style::Cyan, "36"),
    ];
    for (style, code) in codes {
        let out = paint("INFO", style);
        assert!(out == "INFO" || out == format!("\u{1b}[{code}mINFO\u{1b}[0m"), "{out:?}");
    }
}

#[test]
fn paint_writes_escape_of_its_colour_when_colouring_is_on() {
    colored::control::set_override(true);
    assert_eq!(paint("404", Style::Red), "\u{1b}[31m404\u{1b}[0m");
    assert_eq!(paint("200", Style::Green), "\u{1b}[32m200\u{1b}[0m");
    assert_eq!(paint("POST", Style::Blue), "\u{1b}[34mPOST\u{1b}[0m");
    assert_eq!(paint("PUT", Style::Yellow), "\u{1b}[33mPUT\u{1b}[0m");
    assert_eq!(paint("DEBUG", Style::Cyan), "\u{1b}[36mDEBUG\u{1b}[0m");
    assert_eq!(paint("2025", Style::GreenBold), "\u{1b}[1;32m2025\u{1b}[0m");
    assert_eq!(paint("host", Style::BlueBold), "\u{1b}[1;34mhost\u{1b}[0m");
    let olive = paint("PATCH", Style::Olive);
    assert!(
        olive == "\u{1b}[38;2;128;128;0mPATCH\u{1b}[0m" || olive == "\u{1b}[33mPATCH\u{1b}[0m",
        "{olive:?}"
    );
}

#[test]
fn paint_writes_colour_again_after_inner_reset() {
    colored::control::set_override(true);
    assert_eq!(
        paint("a\u{1b}[0mb", Style::Red),
        "\u{1b}[31ma\u{1b}[0m\u{1b}[31mb\u{1b}[0m"
    );
}

#[test]
fn paint_keeps_text_when_colouring_is_off() {
    colored::control::set_override(false);
    assert_eq!(paint("404", Style::Red), "404");
    assert_eq!(paint("PATCH", Style::Olive), "PATCH");
}

#[test]
fn filtered_line_colours_status_method_level_and_date() {
    colored::control::set_override(true);
    let line = "[2025-05-09 08:00:41] ERROR [request] DELETE /api/v1/users/42 500 12ms";
    let out = colorize_line(line, ColorMode::Filtered);
    assert!(out.contains(&"500".red().to_string()), "{out:?}");
    assert!(out.contains(&"DELETE".red().to_string()), "{out:?}");
    assert!(out.contains(&"ERROR".red().to_string()), "{out:?}");
    assert!(out.contains(&"2025-05-09 08:00:41".green().bold().to_string()), "{out:?}");
    assert_eq!(strip_escapes(&out), line);
}

#[test]
fn syslog_line_colours_host_process_and_date() {
    colored::control::set_override(true);
    let line = "Mar 10 12:00:00 server sshd: Failed password";
    let out = colorize_line(line, ColorMode::Full);
    assert!(out.contains(&"server".blue().bold().to_string()), "{out:?}");
    assert!(out.contains(&"sshd".yellow().to_string()), "{out:?}");
    assert!(out.contains(&"Mar 10 12:00:00".green().bold().to_string()), "{out:?}");
    assert_eq!(strip_escapes(&out), line);
}

#[test]
fn colourless_line_is_unchanged() {
    let line = "nothing to colour here";
    assert_eq!(colorize_line(line, ColorMode::Full), line);
    assert_eq!(colorize_line(line, ColorMode::Filtered), line);
}

#[test]
fn coloured_line_keeps_its_text() {
    let line = "[2025-05-09 08:00:41] INFO [request] PUT /api/v1/users/42 200 262ms";
    let out = colorize_line(line, ColorMode::Full);
    let stripped = strip_escapes(&out);
    assert_eq!(stripped, line);
}

fn strip_escapes(s: &str) -> String {
    let mut out = String::new();
    let mut chars = s.chars().peekable();
    while let Some(c) = chars.next() {
        if c == '\u{1b}' {
            for d in chars.by_ref() {
                if d == 'm' {
                    break;
                }
            }
        } else {
            out.push(c);
        }
    }
    out
}

#[test]
fn compiled_patterns_colour_like_fresh_ones() {
    colored::control::set_override(true);
    let patterns = logs_analyzer::parser::LogPatterns::new();
    let line = "2026-03-26 19:45:02 [WARNING] [SFTP] slow";
    for mode in [ColorMode::Full, ColorMode::Filtered] {
        let out = logs_analyzer::colorize::colorize_line_with(&patterns, line, mode);
        assert_eq!(out, colorize_line(line, mode));
        assert!(out.contains(&"WARNING".yellow().to_string()), "{out:?}");
        assert_eq!(strip_escapes(&out), line);
    }
}
