use logs_analyzer::entry::{filter_entries, opt_contains_ignore_case};
use logs_analyzer::LogEntry;

fn entry() -> LogEntry {
    LogEntry::parse("[2025-05-09 08:00:41] ERROR [request] DELETE /api/v1/users/42 500 12ms")
}

#[test]
fn getters_return_fields() {
    let e = entry();
    assert_eq!(e.get_level(), Some("ERROR"));
    assert_eq!(e.get_request(), Some("request"));
    assert_eq!(e.get_endpoint(), Some("/api/v1/users/42"));
    assert_eq!(e.get_http_method(), Some("DELETE"));
    assert_eq!(e.get_message(), Some("DELETE /api/v1/users/42 500 12ms"));
    let u = LogEntry::parse_unknown("plain");
    assert_eq!(u.get_level(), None);
    assert_eq!(u.get_request(), None);
}

#[test]
fn filter_ignores_case_and_accepts_substrings() {
    let e = entry();
    assert!(e.matches_filter("level", "error"));
    assert!(e.matches_filter("level", "ERR"));
    assert!(e.matches_filter("endpoint", "/API/v1"));
    assert!(e.matches_filter("httpmethod", "delete"));
    assert!(e.matches_filter("message", "users/42 500"));
    assert!(!e.matches_filter("level", "info"));
}

#[test]
fn filter_ignores_brackets_and_whitespace() {
    let e = entry();
    assert!(e.matches_filter("level", "[ERROR]"));
    assert!(e.matches_filter("request", "[request]"));
    assert!(e.matches_filter("level", "  error "));
}

#[test]
fn filter_unsupported_field_matches_nothing() {
    let e = entry();
    assert!(!e.matches_filter("date", "2025"));
    assert!(!e.matches_filter("Level", "error"));
    assert!(!e.matches_filter("", ""));
}

#[test]
fn filter_absent_field_matches_nothing() {
    let u = LogEntry::parse_unknown("plain text");
    assert!(!u.matches_filter("level", ""));
    assert!(u.matches_filter("message", "TEXT"));
}

#[test]
fn filter_finds_own_value() {
    let e = entry();
    for (field, value) in [("level", "ERROR"), ("request", "request"), ("message", "DELETE /api/v1/users/42 500 12ms")] {
        assert!(e.matches_filter(field, value));
    }
}

#[test]
fn contains_ignore_case_on_values() {
    assert!(opt_contains_ignore_case(Some("[Kernel]"), "kernel"));
    assert!(opt_contains_ignore_case(Some("ÉCHEC"), "échec"));
    assert!(!opt_contains_ignore_case(None, ""));
    assert!(opt_contains_ignore_case(Some("x"), " [] "));
}

#[test]
fn filter_entries_keeps_matching_in_order() {
    let lines = [
        "[2024-01-01 12:00:00] ERROR [app] first",
        "[2024-01-01 12:00:01] INFO [app] second",
        "2024-01-01 12:00:02 [ERROR] third",
        "no format here error",
    ];
    let entries: Vec<LogEntry> = lines.iter().map(|l| LogEntry::parse(l)).collect();
    let kept = filter_entries(entries, "level", "error");
    let raws: Vec<&str> = kept.iter().map(|e| e.raw.as_str()).collect();
    assert_eq!(raws, vec![lines[0], lines[2]]);
    let none = filter_entries(Vec::new(), "level", "error");
    assert!(none.is_empty());
}

#[test]
fn filter_ascii_case_variants_select_alike() {
    let e = entry();
    for v in ["error", "Error", "eRRoR", "ERROR"] {
        assert!(e.matches_filter("level", v), "{v}");
    }
    for v in ["REQUEST", "[Request]", "ReQuEsT"] {
        assert!(e.matches_filter("request", v), "{v}");
    }
}
