//! Parsing of the supported log formats: Symfony/app lines, custom SSH lines,
//! traditional syslog lines, and a fallback for anything else.

use vstd::prelude::*;

use crate::entry::{EntryView, LogEntry};
use crate::outside::{
    captures, compile, lowercase, parse_utc_rfc3339, regex_captures, to_lowercase, utc_rfc3339,
    Pattern,
};
use crate::text::{
    chars_of, contains, contains_chars, copy_range, find_char, position_of, string_of, strip,
    trim, unbracket, CharClass,
};

verus! {

/// Minimal pattern that extracts an HTTP endpoint from a line.
pub const RE: &'static str = r#"(?:GET|POST|PUT|DELETE|PATCH)\s+(/[^\s"]+)"#;

/// Pattern of HTTP lines in the Symfony/app format, such as
/// `[2025-05-09 08:00:41] INFO [request] PUT /api/v1/users/42 200 262ms ...`.
pub const RE_HTTP_METHOD: &'static str = r"\[(?P<date>\d{4}-\d{2}-\d{2} \d{2}:\d{2}:\d{2})]\s+(?P<level>INFO|WARNING|ERROR|SUCCESS|DEBUG|CRITICAL)\s+\[(?P<channel>[^]]+)]\s+(?P<method>GET|POST|PUT|PATCH|DELETE|OPTIONS)\s+(?P<path>/\S+)\s+(?P<status>\d{3})";

/// Pattern of generic Symfony lines, with or without an HTTP request.
pub const RE_SYMFONY: &'static str = r"\[(?P<date>\d{4}-\d{2}-\d{2} \d{2}:\d{2}:\d{2})]\s+(?P<level>INFO|WARNING|ERROR|SUCCESS|DEBUG|CRITICAL)\s+\[(?P<channel>[^]]+)]\s+(?P<message>.+)$";

/// Pattern of custom SSH lines such as `2026-03-26 19:45:02 [INFO] [SFTP] message`.
pub const RE_CUSTOM: &'static str = r"^(?P<date>\d{4}-\d{2}-\d{2} \d{2}:\d{2}:\d{2})\s+\[(?P<level>DEBUG|INFO|WARNING|ERROR|CRITICAL|SUCCESS)](?:\s+\[(?P<context>[^]]+)])?\s+(?P<message>.+)$";

/// Pattern of traditional syslog lines.
pub const RE_SYSLOG: &'static str = r"^(?P<date>[A-Z][a-z]{2}\s+\d{1,2}\s+\d{2}:\d{2}:\d{2})\s+(?P<host>\S+)\s+(?P<process>[^\s:]+)(?:\[\d+])?:\s+(?P<message>.+)$";

/// Group of the endpoint path in [`RE`].
pub const ENDPOINT_PATH: usize = 1;

/// Groups of [`RE_HTTP_METHOD`].
pub const HTTP_DATE: usize = 1;
pub const HTTP_METHOD: usize = 4;
pub const HTTP_STATUS: usize = 6;

/// Groups of [`RE_SYMFONY`].
pub const SYMFONY_DATE: usize = 1;
pub const SYMFONY_LEVEL: usize = 2;

/// Groups of [`RE_CUSTOM`].
pub const CUSTOM_DATE: usize = 1;
pub const CUSTOM_LEVEL: usize = 2;
pub const CUSTOM_MESSAGE: usize = 4;

/// Groups of [`RE_SYSLOG`].
pub const SYSLOG_DATE: usize = 1;
pub const SYSLOG_HOST: usize = 2;
pub const SYSLOG_PROCESS: usize = 3;
pub const SYSLOG_MESSAGE: usize = 4;

/// The format of the date between the brackets of a Symfony line.
pub const SYMFONY_DATE_FORMAT: &'static str = "%Y-%m-%d %H:%M:%S";

/// The text of group `i` in a regex result, if the regex matched and the
/// group took part in the match.
pub open spec fn group(caps: Option<Seq<Option<Seq<char>>>>, i: int) -> Option<Seq<char>> {
    match caps {
        Some(g) => if 0 <= i < g.len() {
            g[i]
        } else {
            None
        },
        None => None,
    }
}

/// The text of group `i` in a regex result.
pub fn group_text(caps: &Option<Vec<Option<String>>>, i: usize) -> (r: Option<String>)
    ensures
        r.deep_view() == group(caps.deep_view(), i as int),
{
    match caps {
        Some(g) => {
            if i < g.len() {
                match &g[i] {
                    Some(s) => Some(s.clone()),
                    None => None,
                }
            } else {
                None
            }
        },
        None => None,
    }
}

/// The view of a parse result that yields an entry or an error message.
pub open spec fn entry_result(r: Result<LogEntry, String>) -> Result<EntryView, Seq<char>> {
    match r {
        Ok(e) => Ok(e@),
        Err(m) => Err(m@),
    }
}

/// The view of a parse result that may also report that the format does not apply.
pub open spec fn opt_entry_result(r: Result<Option<LogEntry>, String>) -> Result<
    Option<EntryView>,
    Seq<char>,
> {
    match r {
        Ok(Some(e)) => Ok(Some(e@)),
        Ok(None) => Ok(None),
        Err(m) => Err(m@),
    }
}

// ---------------------------------------------------------------------------
// Fallback

/// The entry of a line in no known format: the whole line is the message,
/// and the method and endpoint are taken from the given regex results.
pub open spec fn unknown_entry_spec(
    line: Seq<char>,
    method_caps: Option<Seq<Option<Seq<char>>>>,
    endpoint_caps: Option<Seq<Option<Seq<char>>>>,
) -> EntryView {
    EntryView {
        raw: line,
        date: None,
        level: None,
        request: None,
        endpoint: group(endpoint_caps, ENDPOINT_PATH as int),
        message: Some(line),
        httpmethod: group(method_caps, HTTP_METHOD as int),
    }
}

/// What [`LogEntry::parse_unknown`] makes of a line.
pub open spec fn parse_unknown_spec(line: Seq<char>) -> EntryView {
    unknown_entry_spec(
        line,
        regex_captures(RE_HTTP_METHOD@, line),
        regex_captures(RE@, line),
    )
}

// ---------------------------------------------------------------------------
// Symfony

/// The pieces of a Symfony line before the date is read.
pub struct SymfonyFields {
    /// The text between the first `[` and the first `]`.
    pub raw_date: String,
    /// The first word after the date.
    pub level: String,
    /// The second word, without its leading `[` and trailing `]`.
    pub request: String,
    /// The rest of the line.
    pub message: String,
}

pub struct SymfonyFieldsView {
    pub raw_date: Seq<char>,
    pub level: Seq<char>,
    pub request: Seq<char>,
    pub message: Seq<char>,
}

impl View for SymfonyFields {
    type V = SymfonyFieldsView;

    open spec fn view(&self) -> SymfonyFieldsView {
        SymfonyFieldsView {
            raw_date: self.raw_date@,
            level: self.level@,
            request: self.request@,
            message: self.message@,
        }
    }
}

/// How a Symfony line splits: `Ok(None)` when it does not start with `[`;
/// otherwise the date is what stands between the `[` and the first `]`, and
/// the rest, trimmed, splits at its first two spaces into level, source and
/// message. A missing `]`, a missing source or a missing message is an error.
pub open spec fn split_symfony_spec(line: Seq<char>) -> Result<Option<SymfonyFieldsView>, Seq<char>> {
    if !(line.len() > 0 && line[0] == '[') {
        Ok(None)
    } else {
        match find_char(line, ']') {
            None => Err("date fermante manquante"@),
            Some(end) => {
                let rest = trim(line.subrange(end + 1, line.len() as int));
                match find_char(rest, ' ') {
                    None => Err("source manquante"@),
                    Some(i) => {
                        let after = rest.subrange(i + 1, rest.len() as int);
                        match find_char(after, ' ') {
                            None => Err("message manquant"@),
                            Some(j) => Ok(
                                Some(
                                    SymfonyFieldsView {
                                        raw_date: line.subrange(1, end),
                                        level: rest.subrange(0, i),
                                        request: unbracket(after.subrange(0, j)),
                                        message: after.subrange(j + 1, after.len() as int),
                                    },
                                ),
                            ),
                        }
                    },
                }
            },
        }
    }
}

/// The entry of a Symfony line from its pieces, from what `chrono` made of
/// its date and from the regex results that give its endpoint and method.
pub open spec fn symfony_entry_spec(
    line: Seq<char>,
    fields: SymfonyFieldsView,
    date: Result<Seq<char>, Seq<char>>,
    endpoint_caps: Option<Seq<Option<Seq<char>>>>,
    method_caps: Option<Seq<Option<Seq<char>>>>,
) -> Result<EntryView, Seq<char>> {
    match date {
        Err(e) => Err("date invalide: "@ + e),
        Ok(d) => Ok(
            EntryView {
                raw: line,
                date: Some(d),
                level: Some(fields.level),
                request: Some(fields.request),
                endpoint: group(endpoint_caps, ENDPOINT_PATH as int),
                message: Some(fields.message),
                httpmethod: group(method_caps, HTTP_METHOD as int),
            },
        ),
    }
}

/// What [`LogEntry::parse_symfony`] makes of a line.
pub open spec fn parse_symfony_spec(line: Seq<char>) -> Result<Option<EntryView>, Seq<char>> {
    match split_symfony_spec(line) {
        Err(e) => Err(e),
        Ok(None) => Ok(None),
        Ok(Some(f)) => match symfony_entry_spec(
            line,
            f,
            utc_rfc3339(f.raw_date, SYMFONY_DATE_FORMAT@),
            regex_captures(RE@, line),
            regex_captures(RE_HTTP_METHOD@, line),
        ) {
            Ok(e) => Ok(Some(e)),
            Err(m) => Err(m),
        },
    }
}

/// A string holding `a` followed by `b`.
pub fn join(a: &str, b: &str) -> (r: String)
    ensures
        r@ == a@ + b@,
{
    let mut s = String::from_str(a);
    s.append(b);
    s
}

/// Splits a Symfony line into its date, level, source and message, before
/// the date is read.
pub fn split_symfony(line: &str) -> (r: Result<Option<SymfonyFields>, String>)
    ensures
        match r {
            Ok(Some(f)) => split_symfony_spec(line@) == Ok::<_, Seq<char>>(Some(f@)),
            Ok(None) => split_symfony_spec(line@) == Ok::<_, Seq<char>>(None::<SymfonyFieldsView>),
            Err(m) => split_symfony_spec(line@) == Err::<Option<SymfonyFieldsView>, _>(m@),
        },
{
    let v = chars_of(line);
    if v.len() == 0 || v[0] != '[' {
        return Ok(None);
    }
    let end: usize = match position_of(v.as_slice(), ']') {
        Some(end) => end,
        None => {
            return Err(String::from_str("date fermante manquante"));
        },
    };
    let raw_date = copy_range(v.as_slice(), 1, end);
    let tail = copy_range(v.as_slice(), end + 1, v.len());
    let rest = strip(tail.as_slice(), CharClass::WhiteSpace, CharClass::WhiteSpace);
    let i: usize = match position_of(rest.as_slice(), ' ') {
        Some(i) => i,
        None => {
            return Err(String::from_str("source manquante"));
        },
    };
    let after = copy_range(rest.as_slice(), i + 1, rest.len());
    let j: usize = match position_of(after.as_slice(), ' ') {
        Some(j) => j,
        None => {
            return Err(String::from_str("message manquant"));
        },
    };
    let level = copy_range(rest.as_slice(), 0, i);
    let request_part = copy_range(after.as_slice(), 0, j);
    let request = strip(
        request_part.as_slice(),
        CharClass::OpenBracket,
        CharClass::CloseBracket,
    );
    let message = copy_range(after.as_slice(), j + 1, after.len());
    Ok(
        Some(
            SymfonyFields {
                raw_date: string_of(raw_date.as_slice()),
                level: string_of(level.as_slice()),
                request: string_of(request.as_slice()),
                message: string_of(message.as_slice()),
            },
        ),
    )
}

/// Builds the entry of a Symfony line from its pieces, from what `chrono`
/// made of its date and from the regex results that give its endpoint and
/// its HTTP method.
pub fn symfony_entry(
    line: &str,
    fields: SymfonyFields,
    date: Result<String, String>,
    endpoint_caps: &Option<Vec<Option<String>>>,
    method_caps: &Option<Vec<Option<String>>>,
) -> (r: Result<LogEntry, String>)
    ensures
        entry_result(r) == symfony_entry_spec(
            line@,
            fields@,
            match date {
                Ok(d) => Ok::<Seq<char>, Seq<char>>(d@),
                Err(e) => Err::<Seq<char>, Seq<char>>(e@),
            },
            endpoint_caps.deep_view(),
            method_caps.deep_view(),
        ),
{
    match date {
        Err(e) => Err(join("date invalide: ", e.as_str())),
        Ok(d) => Ok(
            LogEntry {
                raw: String::from_str(line),
                date: Some(d),
                level: Some(fields.level),
                request: Some(fields.request),
                endpoint: group_text(endpoint_caps, ENDPOINT_PATH),
                message: Some(fields.message),
                httpmethod: group_text(method_caps, HTTP_METHOD),
            },
        ),
    }
}

// ---------------------------------------------------------------------------
// SSH and syslog

/// The entry of a custom SSH line from the groups of [`RE_CUSTOM`].
pub open spec fn custom_entry_spec(line: Seq<char>, caps: Seq<Option<Seq<char>>>) -> Result<
    EntryView,
    Seq<char>,
> {
    let c = Some(caps);
    match group(c, CUSTOM_DATE as int) {
        None => Err("date ssh manquante"@),
        Some(date) => match group(c, CUSTOM_LEVEL as int) {
            None => Err("niveau ssh manquant"@),
            Some(level) => match group(c, CUSTOM_MESSAGE as int) {
                None => Err("message ssh manquant"@),
                Some(message) => Ok(
                    EntryView {
                        raw: line,
                        date: Some(date),
                        level: Some(level),
                        request: Some("ssh"@),
                        endpoint: None,
                        message: Some(message),
                        httpmethod: None,
                    },
                ),
            },
        },
    }
}

/// The level of a syslog line, from its lowercased message: `ERROR` for a
/// message that speaks of an error, a failure or something invalid; else
/// `INFO` for one that speaks of something accepted, opened or started; else
/// none.
pub open spec fn syslog_level_spec(lowered: Seq<char>) -> Option<Seq<char>> {
    if contains(lowered, "error"@) || contains(lowered, "failed"@) || contains(
        lowered,
        "invalid"@,
    ) {
        Some("ERROR"@)
    } else if contains(lowered, "accepted"@) || contains(lowered, "opened"@) || contains(
        lowered,
        "started"@,
    ) {
        Some("INFO"@)
    } else {
        None
    }
}

/// The entry of a syslog line from the groups of [`RE_SYSLOG`]; the source
/// is the process.
pub open spec fn syslog_entry_spec(line: Seq<char>, caps: Seq<Option<Seq<char>>>) -> Result<
    EntryView,
    Seq<char>,
> {
    let c = Some(caps);
    match group(c, SYSLOG_DATE as int) {
        None => Err("date ssh manquante"@),
        Some(date) => match group(c, SYSLOG_PROCESS as int) {
            None => Err("process ssh manquant"@),
            Some(process) => match group(c, SYSLOG_MESSAGE as int) {
                None => Err("message ssh manquant"@),
                Some(message) => Ok(
                    EntryView {
                        raw: line,
                        date: Some(date),
                        level: syslog_level_spec(lowercase(message)),
                        request: Some(process),
                        endpoint: None,
                        message: Some(message),
                        httpmethod: None,
                    },
                ),
            },
        },
    }
}

/// What [`LogEntry::parse_ssh`] makes of a line: the custom format first, then syslog.
pub open spec fn parse_ssh_spec(line: Seq<char>) -> Result<Option<EntryView>, Seq<char>> {
    match regex_captures(RE_CUSTOM@, line) {
        Some(c) => match custom_entry_spec(line, c) {
            Ok(e) => Ok(Some(e)),
            Err(m) => Err(m),
        },
        None => match regex_captures(RE_SYSLOG@, line) {
            None => Ok(None),
            Some(s) => match syslog_entry_spec(line, s) {
                Ok(e) => Ok(Some(e)),
                Err(m) => Err(m),
            },
        },
    }
}

/// Builds the entry of a custom SSH line from the groups of [`RE_CUSTOM`].
pub fn custom_entry(line: &str, caps: &Vec<Option<String>>) -> (r: Result<LogEntry, String>)
    ensures
        entry_result(r) == custom_entry_spec(line@, caps.deep_view()),
{
    let c = Some(caps.clone());
    assert(c.deep_view() == Some(caps.deep_view()));
    let date = match group_text(&c, CUSTOM_DATE) {
        Some(d) => d,
        None => {
            return Err(String::from_str("date ssh manquante"));
        },
    };
    let level = match group_text(&c, CUSTOM_LEVEL) {
        Some(l) => l,
        None => {
            return Err(String::from_str("niveau ssh manquant"));
        },
    };
    let message = match group_text(&c, CUSTOM_MESSAGE) {
        Some(m) => m,
        None => {
            return Err(String::from_str("message ssh manquant"));
        },
    };
    Ok(
        LogEntry {
            raw: String::from_str(line),
            date: Some(date),
            level: Some(level),
            request: Some(String::from_str("ssh")),
            endpoint: None,
            message: Some(message),
            httpmethod: None,
        },
    )
}

/// The level of a syslog line from its lowercased message.
pub fn syslog_level(lowered: &str) -> (r: Option<String>)
    ensures
        r.deep_view() == syslog_level_spec(lowered@),
{
    let l = chars_of(lowered);
    let error = chars_of("error");
    let failed = chars_of("failed");
    let invalid = chars_of("invalid");
    let accepted = chars_of("accepted");
    let opened = chars_of("opened");
    let started = chars_of("started");
    if contains_chars(l.as_slice(), error.as_slice()) || contains_chars(
        l.as_slice(),
        failed.as_slice(),
    ) || contains_chars(l.as_slice(), invalid.as_slice()) {
        Some(String::from_str("ERROR"))
    } else if contains_chars(l.as_slice(), accepted.as_slice()) || contains_chars(
        l.as_slice(),
        opened.as_slice(),
    ) || contains_chars(l.as_slice(), started.as_slice()) {
        Some(String::from_str("INFO"))
    } else {
        None
    }
}

/// Builds the entry of a syslog line from the groups of [`RE_SYSLOG`].
pub fn syslog_entry(line: &str, caps: &Vec<Option<String>>) -> (r: Result<LogEntry, String>)
    ensures
        entry_result(r) == syslog_entry_spec(line@, caps.deep_view()),
{
    let c = Some(caps.clone());
    assert(c.deep_view() == Some(caps.deep_view()));
    let date = match group_text(&c, SYSLOG_DATE) {
        Some(d) => d,
        None => {
            return Err(String::from_str("date ssh manquante"));
        },
    };
    let process = match group_text(&c, SYSLOG_PROCESS) {
        Some(p) => p,
        None => {
            return Err(String::from_str("process ssh manquant"));
        },
    };
    let message = match group_text(&c, SYSLOG_MESSAGE) {
        Some(m) => m,
        None => {
            return Err(String::from_str("message ssh manquant"));
        },
    };
    let lowered = to_lowercase(message.as_str());
    let level = syslog_level(lowered.as_str());
    Ok(
        LogEntry {
            raw: String::from_str(line),
            date: Some(date),
            level,
            request: Some(process),
            endpoint: None,
            message: Some(message),
            httpmethod: None,
        },
    )
}

// ---------------------------------------------------------------------------
// Dispatch

/// What [`LogEntry::parse_reporting`] returns: the entry of the first format
/// that recognises the line (Symfony, then SSH/syslog), or the fallback entry
/// when none does or when a recognised line is malformed; with, in that last
/// case, the message that reports the malformed line.
pub open spec fn parse_reporting_spec(line: Seq<char>) -> (EntryView, Option<Seq<char>>) {
    match parse_symfony_spec(line) {
        Ok(Some(e)) => (e, None),
        Err(m) => (
            parse_unknown_spec(line),
            Some(rejection_spec("symfony"@, m, line)),
        ),
        Ok(None) => match parse_ssh_spec(line) {
            Ok(Some(e)) => (e, None),
            Err(m) => (
                parse_unknown_spec(line),
                Some(rejection_spec("ssh"@, m, line)),
            ),
            Ok(None) => (parse_unknown_spec(line), None),
        },
    }
}

/// The message that reports a line of format `kind` found malformed, with
/// the error `err`: `Ligne ignoree (kind): err | line`.
pub open spec fn rejection_spec(kind: Seq<char>, err: Seq<char>, line: Seq<char>) -> Seq<char> {
    "Ligne ignoree ("@ + kind + "): "@ + err + " | "@ + line
}

/// The message that reports a malformed line of format `kind`.
fn rejection(kind: &str, err: &str, line: &str) -> (r: String)
    ensures
        r@ == rejection_spec(kind@, err@, line@),
{
    let a = join("Ligne ignoree (", kind);
    let b = join(a.as_str(), "): ");
    let c = join(b.as_str(), err);
    let d = join(c.as_str(), " | ");
    join(d.as_str(), line)
}

/// The patterns of the supported formats, each compiled once: build them
/// with [`LogPatterns::new`] and hand them to the `*_with` parsers to read a
/// large file without compiling a pattern per line.
pub struct LogPatterns {
    endpoint: Pattern,
    http_method: Pattern,
    symfony: Pattern,
    custom: Pattern,
    syslog: Pattern,
}

impl LogPatterns {
    /// Each pattern was compiled from the text of its format.
    #[verifier::type_invariant]
    spec fn compiled_from_formats(self) -> bool {
        &&& self.endpoint.source() == RE@
        &&& self.http_method.source() == RE_HTTP_METHOD@
        &&& self.symfony.source() == RE_SYMFONY@
        &&& self.custom.source() == RE_CUSTOM@
        &&& self.syslog.source() == RE_SYSLOG@
    }

    /// Compiles the patterns of all the supported formats.
    pub fn new() -> (r: Self) {
        LogPatterns {
            endpoint: compile(RE),
            http_method: compile(RE_HTTP_METHOD),
            symfony: compile(RE_SYMFONY),
            custom: compile(RE_CUSTOM),
            syslog: compile(RE_SYSLOG),
        }
    }

    /// What [`RE`] captures in `line`.
    pub fn endpoint_captures(&self, line: &str) -> (r: Option<Vec<Option<String>>>)
        ensures
            r.deep_view() == regex_captures(RE@, line@),
    {
        proof {
            use_type_invariant(self);
        }
        captures(&self.endpoint, line)
    }

    /// What [`RE_HTTP_METHOD`] captures in `line`.
    pub fn http_method_captures(&self, line: &str) -> (r: Option<Vec<Option<String>>>)
        ensures
            r.deep_view() == regex_captures(RE_HTTP_METHOD@, line@),
    {
        proof {
            use_type_invariant(self);
        }
        captures(&self.http_method, line)
    }

    /// What [`RE_SYMFONY`] captures in `line`.
    pub fn symfony_captures(&self, line: &str) -> (r: Option<Vec<Option<String>>>)
        ensures
            r.deep_view() == regex_captures(RE_SYMFONY@, line@),
    {
        proof {
            use_type_invariant(self);
        }
        captures(&self.symfony, line)
    }

    /// What [`RE_CUSTOM`] captures in `line`.
    pub fn custom_captures(&self, line: &str) -> (r: Option<Vec<Option<String>>>)
        ensures
            r.deep_view() == regex_captures(RE_CUSTOM@, line@),
    {
        proof {
            use_type_invariant(self);
        }
        captures(&self.custom, line)
    }

    /// What [`RE_SYSLOG`] captures in `line`.
    pub fn syslog_captures(&self, line: &str) -> (r: Option<Vec<Option<String>>>)
        ensures
            r.deep_view() == regex_captures(RE_SYSLOG@, line@),
    {
        proof {
            use_type_invariant(self);
        }
        captures(&self.syslog, line)
    }
}

impl LogEntry {
    /// Parses a line in no supported format, extracting what can be: the
    /// HTTP method and the endpoint, with the whole line as the message.
    /// This is the fallback when no supported format matches. The patterns
    /// are compiled for this call; see [`LogEntry::parse_unknown_with`].
    pub fn parse_unknown(line: &str) -> (r: Self)
        ensures
            r@ == parse_unknown_spec(line@),
    {
        Self::parse_unknown_with(&LogPatterns::new(), line)
    }

    /// [`LogEntry::parse_unknown`] with patterns compiled beforehand.
    pub fn parse_unknown_with(patterns: &LogPatterns, line: &str) -> (r: Self)
        ensures
            r@ == parse_unknown_spec(line@),
    {
        let method_caps = patterns.http_method_captures(line);
        let endpoint_caps = patterns.endpoint_captures(line);
        Self::unknown_entry(line, &method_caps, &endpoint_caps)
    }

    /// Builds the fallback entry of a line from the regex results that give
    /// its HTTP method and its endpoint.
    pub fn unknown_entry(
        line: &str,
        method_caps: &Option<Vec<Option<String>>>,
        endpoint_caps: &Option<Vec<Option<String>>>,
    ) -> (r: Self)
        ensures
            r@ == unknown_entry_spec(line@, method_caps.deep_view(), endpoint_caps.deep_view()),
    {
        LogEntry {
            raw: String::from_str(line),
            date: None,
            level: None,
            request: None,
            endpoint: group_text(endpoint_caps, ENDPOINT_PATH),
            message: Some(String::from_str(line)),
            httpmethod: group_text(method_caps, HTTP_METHOD),
        }
    }

    /// Parses a line in the Symfony/app format. Returns `Ok(Some(entry))`
    /// when the format is recognised, `Ok(None)` when the line does not look
    /// like a Symfony line, and `Err` when it looks like one but is malformed.
    /// The patterns are compiled for this call; see
    /// [`LogEntry::parse_symfony_with`].
    pub fn parse_symfony(line: &str) -> (r: Result<Option<Self>, String>)
        ensures
            opt_entry_result(r) == parse_symfony_spec(line@),
    {
        Self::parse_symfony_with(&LogPatterns::new(), line)
    }

    /// [`LogEntry::parse_symfony`] with patterns compiled beforehand.
    pub fn parse_symfony_with(patterns: &LogPatterns, line: &str) -> (r: Result<Option<Self>, String>)
        ensures
            opt_entry_result(r) == parse_symfony_spec(line@),
    {
        let fields = match split_symfony(line) {
            Ok(Some(f)) => f,
            Ok(None) => {
                return Ok(None);
            },
            Err(e) => {
                return Err(e);
            },
        };
        let date = parse_utc_rfc3339(fields.raw_date.as_str(), SYMFONY_DATE_FORMAT);
        let endpoint_caps = patterns.endpoint_captures(line);
        let method_caps = patterns.http_method_captures(line);
        match symfony_entry(line, fields, date, &endpoint_caps, &method_caps) {
            Ok(e) => Ok(Some(e)),
            Err(m) => Err(m),
        }
    }

    /// Parses a custom SSH line or a syslog line, trying the custom format
    /// first and then the classic syslog format. The patterns are compiled
    /// for this call; see [`LogEntry::parse_ssh_with`].
    pub fn parse_ssh(line: &str) -> (r: Result<Option<Self>, String>)
        ensures
            opt_entry_result(r) == parse_ssh_spec(line@),
    {
        Self::parse_ssh_with(&LogPatterns::new(), line)
    }

    /// [`LogEntry::parse_ssh`] with patterns compiled beforehand.
    pub fn parse_ssh_with(patterns: &LogPatterns, line: &str) -> (r: Result<Option<Self>, String>)
        ensures
            opt_entry_result(r) == parse_ssh_spec(line@),
    {
        let custom = patterns.custom_captures(line);
        if let Some(caps) = &custom {
            return match custom_entry(line, caps) {
                Ok(e) => Ok(Some(e)),
                Err(m) => Err(m),
            };
        }
        let syslog = patterns.syslog_captures(line);
        match &syslog {
            None => Ok(None),
            Some(caps) => match syslog_entry(line, caps) {
                Ok(e) => Ok(Some(e)),
                Err(m) => Err(m),
            },
        }
    }

    /// Parses a line, trying the known formats in order (Symfony/app, then
    /// SSH custom/syslog, then the fallback), and reports a line that a
    /// format recognised but found malformed. The patterns are compiled for
    /// this call; see [`LogEntry::parse_reporting_with`].
    pub fn parse_reporting(line: &str) -> (r: (Self, Option<String>))
        ensures
            (r.0@, r.1.deep_view()) == parse_reporting_spec(line@),
    {
        Self::parse_reporting_with(&LogPatterns::new(), line)
    }

    /// [`LogEntry::parse_reporting`] with patterns compiled beforehand.
    pub fn parse_reporting_with(patterns: &LogPatterns, line: &str) -> (r: (Self, Option<String>))
        ensures
            (r.0@, r.1.deep_view()) == parse_reporting_spec(line@),
    {
        match Self::parse_symfony_with(patterns, line) {
            Ok(Some(entry)) => {
                return (entry, None);
            },
            Ok(None) => {},
            Err(err) => {
                let report = rejection("symfony", err.as_str(), line);
                return (Self::parse_unknown_with(patterns, line), Some(report));
            },
        }
        match Self::parse_ssh_with(patterns, line) {
            Ok(Some(entry)) => {
                return (entry, None);
            },
            Ok(None) => {},
            Err(err) => {
                let report = rejection("ssh", err.as_str(), line);
                return (Self::parse_unknown_with(patterns, line), Some(report));
            },
        }
        (Self::parse_unknown_with(patterns, line), None)
    }

    /// Parses a line, trying the known formats in order: Symfony/app, then
    /// SSH custom/syslog, then the fallback.
    pub fn parse(line: &str) -> (r: Self)
        ensures
            r@ == parse_reporting_spec(line@).0,
    {
        Self::parse_reporting(line).0
    }
}

// ---------------------------------------------------------------------------
// Laws of the parsers

/// Every parsed entry keeps the line as it was read.
pub proof fn law_parse_keeps_raw_line(line: Seq<char>)
    ensures
        parse_reporting_spec(line).0.raw == line,
{
}

/// A line in no known format is kept whole as the message, with no date,
/// level or source.
pub proof fn law_unknown_line_is_kept_as_message(line: Seq<char>)
    ensures
        parse_unknown_spec(line).message == Some(line),
        parse_unknown_spec(line).date is None,
        parse_unknown_spec(line).level is None,
        parse_unknown_spec(line).request is None,
{
}

/// A line is reported only when it falls back to the generic entry.
pub proof fn law_reported_lines_fall_back(line: Seq<char>)
    ensures
        parse_reporting_spec(line).1 is Some ==> parse_reporting_spec(line).0 == parse_unknown_spec(
            line,
        ),
{
}

/// A line that does not start with `[` is never a Symfony line.
pub proof fn law_symfony_lines_start_with_bracket(line: Seq<char>)
    requires
        line.len() == 0 || line[0] != '[',
    ensures
        parse_symfony_spec(line) == Ok::<Option<EntryView>, Seq<char>>(None),
{
}

/// A Symfony entry has a date, a level, a source and a message, and keeps its line.
pub proof fn law_symfony_entries_are_complete(line: Seq<char>)
    ensures
        parse_symfony_spec(line) matches Ok(Some(e)) ==> {
            &&& e.raw == line
            &&& e.date is Some
            &&& e.level is Some
            &&& e.request is Some
            &&& e.message is Some
        },
{
}

/// An SSH or syslog entry has a date, a source and a message, keeps its
/// line, and carries no HTTP method or endpoint.
pub proof fn law_ssh_entries_carry_no_request(line: Seq<char>)
    ensures
        parse_ssh_spec(line) matches Ok(Some(e)) ==> {
            &&& e.raw == line
            &&& e.date is Some
            &&& e.request is Some
            &&& e.message is Some
            &&& e.endpoint is None
            &&& e.httpmethod is None
        },
{
}

/// A syslog message that speaks of an error, a failure or something invalid
/// is an error, whatever else it says.
pub proof fn law_syslog_errors_take_precedence(lowered: Seq<char>)
    requires
        contains(lowered, "error"@) || contains(lowered, "failed"@) || contains(
            lowered,
            "invalid"@,
        ),
    ensures
        syslog_level_spec(lowered) == Some("ERROR"@),
{
}

/// The custom SSH format is tried first and wins: a line that it matches
/// with its date, level and message groups gives the entry of those groups,
/// whatever the syslog pattern would make of the line.
pub proof fn law_custom_format_wins(line: Seq<char>, caps: Seq<Option<Seq<char>>>)
    requires
        regex_captures(RE_CUSTOM@, line) == Some(caps),
        group(Some(caps), CUSTOM_DATE as int) is Some,
        group(Some(caps), CUSTOM_LEVEL as int) is Some,
        group(Some(caps), CUSTOM_MESSAGE as int) is Some,
    ensures
        parse_ssh_spec(line) == Ok::<Option<EntryView>, Seq<char>>(
            Some(
                EntryView {
                    raw: line,
                    date: group(Some(caps), CUSTOM_DATE as int),
                    level: group(Some(caps), CUSTOM_LEVEL as int),
                    request: Some("ssh"@),
                    endpoint: None,
                    message: group(Some(caps), CUSTOM_MESSAGE as int),
                    httpmethod: None,
                },
            ),
        ),
{
}

/// A syslog line that the custom format does not match gives, from its
/// date, process and message groups, the entry whose source is the process
/// and whose level follows from the lowercased message.
pub proof fn law_syslog_entry(line: Seq<char>, caps: Seq<Option<Seq<char>>>)
    requires
        regex_captures(RE_CUSTOM@, line) is None,
        regex_captures(RE_SYSLOG@, line) == Some(caps),
        group(Some(caps), SYSLOG_DATE as int) is Some,
        group(Some(caps), SYSLOG_PROCESS as int) is Some,
        group(Some(caps), SYSLOG_MESSAGE as int) is Some,
    ensures
        parse_ssh_spec(line) == Ok::<Option<EntryView>, Seq<char>>(
            Some(
                EntryView {
                    raw: line,
                    date: group(Some(caps), SYSLOG_DATE as int),
                    level: syslog_level_spec(
                        lowercase(group(Some(caps), SYSLOG_MESSAGE as int)->0),
                    ),
                    request: group(Some(caps), SYSLOG_PROCESS as int),
                    endpoint: None,
                    message: group(Some(caps), SYSLOG_MESSAGE as int),
                    httpmethod: None,
                },
            ),
        ),
{
}

/// A line that looks like a Symfony line but is malformed is reported with
/// the Symfony error, and only then is it handled by the fallback.
pub proof fn law_symfony_errors_are_reported(line: Seq<char>, m: Seq<char>)
    requires
        parse_symfony_spec(line) == Err::<Option<EntryView>, Seq<char>>(m),
    ensures
        parse_reporting_spec(line) == (parse_unknown_spec(line), Some(rejection_spec("symfony"@, m, line))),
{
}

/// The level of a syslog message follows its keywords and nothing else: it
/// is `ERROR` exactly when the lowercased message speaks of an error, a
/// failure or something invalid; `INFO` exactly when it does not but speaks
/// of something accepted, opened or started; and there is none exactly when
/// it holds none of these six words.
pub proof fn law_syslog_level_follows_keywords(lowered: Seq<char>)
    ensures
        (syslog_level_spec(lowered) == Some("ERROR"@)) == (contains(lowered, "error"@) || contains(
            lowered,
            "failed"@,
        ) || contains(lowered, "invalid"@)),
        (syslog_level_spec(lowered) == Some("INFO"@)) == (!(contains(lowered, "error"@)
            || contains(lowered, "failed"@) || contains(lowered, "invalid"@)) && (contains(
            lowered,
            "accepted"@,
        ) || contains(lowered, "opened"@) || contains(lowered, "started"@))),
        (syslog_level_spec(lowered) is None) == !(contains(lowered, "error"@) || contains(
            lowered,
            "failed"@,
        ) || contains(lowered, "invalid"@) || contains(lowered, "accepted"@) || contains(
            lowered,
            "opened"@,
        ) || contains(lowered, "started"@)),
{
    reveal_strlit("ERROR");
    reveal_strlit("INFO");
    assert("ERROR"@ != "INFO"@) by {
        assert("ERROR"@.len() != "INFO"@.len());
    }
}

/// The level of a parsed syslog entry follows the keywords of its lowercased
/// message: a message with none of error, failed, invalid, accepted, opened,
/// started gets no level.
pub proof fn law_syslog_entry_level(line: Seq<char>, caps: Seq<Option<Seq<char>>>)
    requires
        syslog_entry_spec(line, caps) is Ok,
    ensures
        ({
            let e = syslog_entry_spec(line, caps)->Ok_0;
            let l = lowercase(e.message->0);
            &&& e.message is Some
            &&& (e.level == Some("ERROR"@)) == (contains(l, "error"@) || contains(l, "failed"@)
                || contains(l, "invalid"@))
            &&& (e.level is None) == !(contains(l, "error"@) || contains(l, "failed"@) || contains(
                l,
                "invalid"@,
            ) || contains(l, "accepted"@) || contains(l, "opened"@) || contains(l, "started"@))
        }),
{
    let e = syslog_entry_spec(line, caps)->Ok_0;
    law_syslog_level_follows_keywords(lowercase(e.message->0));
}

/// The endpoint and the method of a Symfony entry come from their own
/// patterns, wherever they stand in the line: the endpoint is group 1 of the
/// endpoint pattern [`RE`], the method group 4 of [`RE_HTTP_METHOD`]; and the
/// entry keeps its line.
pub proof fn law_symfony_endpoint_and_method(line: Seq<char>)
    ensures
        parse_symfony_spec(line) matches Ok(Some(e)) ==> {
            &&& e.raw == line
            &&& e.endpoint == match regex_captures(RE@, line) {
                Some(g) => if 1 < g.len() {
                    g[1]
                } else {
                    None
                },
                None => None,
            }
            &&& e.httpmethod == match regex_captures(RE_HTTP_METHOD@, line) {
                Some(g) => if 4 < g.len() {
                    g[4]
                } else {
                    None
                },
                None => None,
            }
        },
{
}

/// The same holds of the fallback entry.
pub proof fn law_unknown_endpoint_and_method(line: Seq<char>)
    ensures
        ({
            let e = parse_unknown_spec(line);
            &&& e.endpoint == match regex_captures(RE@, line) {
                Some(g) => if 1 < g.len() {
                    g[1]
                } else {
                    None
                },
                None => None,
            }
            &&& e.httpmethod == match regex_captures(RE_HTTP_METHOD@, line) {
                Some(g) => if 4 < g.len() {
                    g[4]
                } else {
                    None
                },
                None => None,
            }
        }),
{
}

} // verus!
