use logs_analyzer::parser::{split_symfony, syslog_level};
use logs_analyzer::LogEntry;

const SYMFONY_HTTP: &str = "[2025-05-09 08:00:41] INFO [request] PUT /api/v1/users/42 200 262ms";

#[test]
fn symfony_http_line_is_parsed() {
    let e = LogEntry::parse_symfony(SYMFONY_HTTP).unwrap().unwrap();
    assert_eq!(e.raw, SYMFONY_HTTP);
    assert_eq!(e.date.as_deref(), Some("2025-05-09T08:00:41+00:00"));
    assert_eq!(e.level.as_deref(), Some("INFO"));
    assert_eq!(e.request.as_deref(), Some("request"));
    assert_eq!(e.message.as_deref(), Some("PUT /api/v1/users/42 200 262ms"));
    assert_eq!(e.endpoint.as_deref(), Some("/api/v1/users/42"));
    assert_eq!(e.httpmethod.as_deref(), Some("PUT"));
}

#[test]
fn symfony_plain_line_has_no_request_data() {
    let line = "[2024-01-01 12:00:00] ERROR [app] Database connection lost";
    let e = LogEntry::parse_symfony(line).unwrap().unwrap();
    assert_eq!(e.date.as_deref(), Some("2024-01-01T12:00:00+00:00"));
    assert_eq!(e.level.as_deref(), Some("ERROR"));
    assert_eq!(e.request.as_deref(), Some("app"));
    assert_eq!(e.message.as_deref(), Some("Database connection lost"));
    assert_eq!(e.endpoint, None);
    assert_eq!(e.httpmethod, None);
}

#[test]
fn symfony_needs_leading_bracket() {
    assert!(LogEntry::parse_symfony("2024-01-01 [x] y z").unwrap().is_none());
    assert!(LogEntry::parse_symfony("").unwrap().is_none());
}

#[test]
fn symfony_missing_closing_bracket() {
    let err = LogEntry::parse_symfony("[2024-01-01 12:00:00 INFO").err().unwrap();
    assert_eq!(err, "date fermante manquante");
}

#[test]
fn symfony_missing_source() {
    let err = LogEntry::parse_symfony("[2024-01-01 12:00:00]   INFO  ").err().unwrap();
    assert_eq!(err, "source manquante");
}

#[test]
fn symfony_missing_message() {
    let err = LogEntry::parse_symfony("[2024-01-01 12:00:00] INFO [app]").err().unwrap();
    assert_eq!(err, "message manquant");
}

#[test]
fn symfony_invalid_date() {
    let err = LogEntry::parse_symfony("[not a date] INFO [app] hello").err().unwrap();
    assert!(err.starts_with("date invalide: "), "{err}");
    assert!(err.len() > "date invalide: ".len());
}

#[test]
fn symfony_split_keeps_empty_words_and_strips_brackets() {
    let f = split_symfony("[d]  x  [[app]]] rest of it").unwrap().unwrap();
    assert_eq!(f.raw_date, "d");
    assert_eq!(f.level, "x");
    assert_eq!(f.request, "");
    assert_eq!(f.message, "[[app]]] rest of it");
    let g = split_symfony("[d] lvl [[app]]] rest").unwrap().unwrap();
    assert_eq!(g.request, "app");
    assert_eq!(g.message, "rest");
}

#[test]
fn custom_ssh_line_is_parsed() {
    let line = "2026-03-26 19:45:02 [INFO] [SFTP] session opened";
    let e = LogEntry::parse_ssh(line).unwrap().unwrap();
    assert_eq!(e.raw, line);
    assert_eq!(e.date.as_deref(), Some("2026-03-26 19:45:02"));
    assert_eq!(e.level.as_deref(), Some("INFO"));
    assert_eq!(e.request.as_deref(), Some("ssh"));
    assert_eq!(e.message.as_deref(), Some("session opened"));
    assert_eq!(e.endpoint, None);
    assert_eq!(e.httpmethod, None);
}

#[test]
fn custom_ssh_line_without_context() {
    let e = LogEntry::parse_ssh("2024-01-01 12:00:00 [ERROR] disk full").unwrap().unwrap();
    assert_eq!(e.level.as_deref(), Some("ERROR"));
    assert_eq!(e.message.as_deref(), Some("disk full"));
}

#[test]
fn syslog_failure_is_error() {
    let line = "Apr 10 12:00:00 hostname sshd[1234]: Failed password for root from 10.0.0.1";
    let e = LogEntry::parse_ssh(line).unwrap().unwrap();
    assert_eq!(e.date.as_deref(), Some("Apr 10 12:00:00"));
    assert_eq!(e.request.as_deref(), Some("sshd[1234]"));
    assert_eq!(e.message.as_deref(), Some("Failed password for root from 10.0.0.1"));
    assert_eq!(e.level.as_deref(), Some("ERROR"));
}

#[test]
fn syslog_accepted_is_info() {
    let line = "Apr  9 08:15:22 server sshd: Accepted publickey for alice";
    let e = LogEntry::parse_ssh(line).unwrap().unwrap();
    assert_eq!(e.level.as_deref(), Some("INFO"));
    assert_eq!(e.request.as_deref(), Some("sshd"));
}

#[test]
fn syslog_other_message_has_no_level() {
    let line = "Apr 10 12:00:00 box cron[42]: running job";
    let e = LogEntry::parse_ssh(line).unwrap().unwrap();
    assert_eq!(e.level, None);
    assert_eq!(e.request.as_deref(), Some("cron[42]"));
}

#[test]
fn ssh_unrecognised_line() {
    assert!(LogEntry::parse_ssh("just some text").unwrap().is_none());
}

#[test]
fn syslog_level_rules() {
    assert_eq!(syslog_level("connection error").as_deref(), Some("ERROR"));
    assert_eq!(syslog_level("invalid user").as_deref(), Some("ERROR"));
    assert_eq!(syslog_level("accepted but failed").as_deref(), Some("ERROR"));
    assert_eq!(syslog_level("session started").as_deref(), Some("INFO"));
    assert_eq!(syslog_level("port opened").as_deref(), Some("INFO"));
    assert_eq!(syslog_level("nothing to see").as_deref(), None);
    assert_eq!(syslog_level("ERROR").as_deref(), None);
}

#[test]
fn unknown_line_keeps_everything() {
    let line = "client did GET /api/users?id=3 today";
    let e = LogEntry::parse_unknown(line);
    assert_eq!(e.raw, line);
    assert_eq!(e.message.as_deref(), Some(line));
    assert_eq!(e.endpoint.as_deref(), Some("/api/users?id=3"));
    assert_eq!(e.httpmethod, None);
    assert_eq!(e.date, None);
    assert_eq!(e.level, None);
    assert_eq!(e.request, None);
}

#[test]
fn parse_tries_formats_in_order() {
    let s = LogEntry::parse(SYMFONY_HTTP);
    assert_eq!(s.request.as_deref(), Some("request"));
    let ssh = LogEntry::parse("2026-03-26 19:45:02 [WARNING] slow login");
    assert_eq!(ssh.request.as_deref(), Some("ssh"));
    assert_eq!(ssh.level.as_deref(), Some("WARNING"));
    let other = LogEntry::parse("hello world");
    assert_eq!(other.message.as_deref(), Some("hello world"));
    assert_eq!(other.level, None);
}

#[test]
fn malformed_symfony_line_falls_back_and_is_reported() {
    let line = "[2024-01-01 12:00:00] INFO";
    let (e, report) = LogEntry::parse_reporting(line);
    assert_eq!(e.raw, line);
    assert_eq!(e.message.as_deref(), Some(line));
    assert_eq!(e.date, None);
    assert_eq!(
        report.as_deref(),
        Some("Ligne ignoree (symfony): source manquante | [2024-01-01 12:00:00] INFO")
    );
    let (_, none) = LogEntry::parse_reporting(SYMFONY_HTTP);
    assert_eq!(none, None);
}

#[test]
fn parse_keeps_raw_line() {
    for line in [SYMFONY_HTTP, "[oops", "Apr 10 12:00:00 h p: m", "", "  x  "] {
        assert_eq!(LogEntry::parse(line).raw, line);
    }
}

#[test]
fn symfony_parser_is_total_on_odd_lines() {
    for line in ["[", "[]", "[]]", "[é] ü x", "[2024-01-01 12:00:00] é ü ö", "ü[x] a b", "[\u{3000}] a b c"] {
        let _ = LogEntry::parse_symfony(line);
        let _ = LogEntry::parse(line);
    }
    assert_eq!(LogEntry::parse_symfony("[").err().as_deref(), Some("date fermante manquante"));
    assert_eq!(LogEntry::parse_symfony("[]").err().as_deref(), Some("source manquante"));
    let e = LogEntry::parse_symfony("[é] ü x y").err().unwrap();
    assert!(e.starts_with("date invalide: "), "{e}");
}

#[test]
fn compiled_patterns_parse_like_fresh_ones() {
    let patterns = logs_analyzer::parser::LogPatterns::new();
    for line in [
        SYMFONY_HTTP,
        "[2024-01-01 12:00:00] INFO",
        "2026-03-26 19:45:02 [INFO] [SFTP] session opened",
        "Apr 10 12:00:00 box cron[42]: running job",
        "client did GET /api/users?id=3 today",
    ] {
        let (a, ra) = LogEntry::parse_reporting_with(&patterns, line);
        let (b, rb) = LogEntry::parse_reporting(line);
        assert_eq!(format!("{a:?}"), format!("{b:?}"));
        assert_eq!(ra, rb);
        assert_eq!(format!("{:?}", LogEntry::parse_unknown_with(&patterns, line)), format!("{:?}", LogEntry::parse_unknown(line)));
    }
}
