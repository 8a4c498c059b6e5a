//! The calls into `regex`, `chrono`, `colored` and the parts of std that vstd
//! does not specify. Every item here is trusted: Verus believes its contract.

use vstd::prelude::*;

use colored::Colorize;

use crate::text::{ascii_lower, first_occurrence, is_ascii_text};

verus! {

/// The groups that the `regex` crate captures when `pattern`, compiled by
/// `regex::Regex::new`, is run with `Regex::captures` on `haystack`: `None`
/// when the regex finds no match (or the pattern does not compile); otherwise
/// one entry per capture group, in the order of their opening parentheses and
/// group 0 (the whole match) first, holding the text that the group matched or
/// `None` for a group that took no part in the match.
pub uninterp spec fn regex_captures(pattern: Seq<char>, haystack: Seq<char>) -> Option<
    Seq<Option<Seq<char>>>,
>;

#[verifier::external_type_specification]
#[verifier::external_body]
pub struct ExRegex(regex::Regex);

/// A pattern compiled once by `regex::Regex::new`, with the text it was
/// compiled from. Its fields are private to this module, and only
/// [`compile`] builds one, so the compiled regex is always that of `source`
/// (`None` when the pattern does not compile).
pub struct Pattern {
    source: String,
    compiled: Option<regex::Regex>,
}

impl Pattern {
    /// The text the pattern was compiled from.
    pub closed spec fn source(&self) -> Seq<char> {
        self.source@
    }
}

/// Compiles `pattern` with `regex::Regex::new`, keeping the pattern's text
/// beside the result. The contract claims only that the text kept is
/// `pattern`; a pattern that does not compile is kept without a regex.
#[verifier::external_body]
pub(crate) fn compile(pattern: &str) -> (p: Pattern)
    ensures
        p.source() == pattern@,
{
    Pattern { source: pattern.to_string(), compiled: regex::Regex::new(pattern).ok() }
}

/// Runs `Regex::captures` of the compiled pattern on `haystack` and returns
/// the text of each group (`Captures::iter`, then `Match::as_str`); `None`
/// when the pattern did not compile. The contract claims only that the
/// result is the named value `regex_captures(source, haystack)` of the text
/// the pattern was compiled from. What the regex engine matches is not stated.
#[verifier::external_body]
pub(crate) fn captures(pattern: &Pattern, haystack: &str) -> (r: Option<Vec<Option<String>>>)
    ensures
        r.deep_view() == regex_captures(pattern.source(), haystack@),
{
    match &pattern.compiled {
        Some(re) => re.captures(haystack).map(
            |caps| caps.iter().map(|m| m.map(|m| m.as_str().to_string())).collect(),
        ),
        None => None,
    }
}

/// What `chrono` makes of `raw` read with the format `format`:
/// `NaiveDateTime::parse_from_str`, taken as a UTC instant and written with
/// `DateTime::to_rfc3339`; or, when parsing fails, the text of the
/// `chrono::ParseError`.
pub uninterp spec fn utc_rfc3339(raw: Seq<char>, format: Seq<char>) -> Result<
    Seq<char>,
    Seq<char>,
>;

/// Parses `raw` with `chrono::NaiveDateTime::parse_from_str(raw, format)`,
/// turns it into a `DateTime<Utc>` (`DateTime::from_naive_utc_and_offset`)
/// and writes it with `to_rfc3339`; a parse error is returned as its display
/// text. The contract claims only that the result is the named value
/// `utc_rfc3339(raw, format)`; which texts parse, and how they are written,
/// is not stated.
#[verifier::external_body]
pub(crate) fn parse_utc_rfc3339(raw: &str, format: &str) -> (r: Result<String, String>)
    ensures
        match r {
            Ok(s) => utc_rfc3339(raw@, format@) == Ok::<Seq<char>, Seq<char>>(s@),
            Err(e) => utc_rfc3339(raw@, format@) == Err::<Seq<char>, Seq<char>>(e@),
        },
{
    match chrono::NaiveDateTime::parse_from_str(raw, format) {
        Ok(naive) => Ok(
            chrono::DateTime::<chrono::Utc>::from_naive_utc_and_offset(
                naive,
                chrono::Utc,
            ).to_rfc3339(),
        ),
        Err(e) => Err(e.to_string()),
    }
}

/// What `str::to_lowercase` returns for `s`: its Unicode lowercase mapping.
pub uninterp spec fn lowercase(s: Seq<char>) -> Seq<char>;

/// `str::to_lowercase`. The contract claims that the result is the named
/// value `lowercase(s)` and, for an ASCII text, that it is the text with
/// `A`..`Z` turned into `a`..`z` (the Unicode lowercase mapping of ASCII);
/// the mapping of other characters is not stated.
#[verifier::external_body]
pub(crate) fn to_lowercase(s: &str) -> (r: String)
    ensures
        r@ == lowercase(s@),
        is_ascii_text(s@) ==> r@ == ascii_lower(s@),
{
    s.to_lowercase()
}

/// `String::push`: appends one character.
#[verifier::external_body]
pub(crate) fn push_char(s: &mut String, c: char)
    ensures
        final(s)@ == old(s)@.push(c),
{
    s.push(c);
}

/// The reset sequence `ESC [0m` that ends a coloured text.
pub open spec fn reset_sequence() -> Seq<char> {
    seq!['\u{1b}', '[', '0', 'm']
}

/// The escape sequence `ESC [ code m` that starts a coloured text.
pub open spec fn escape_sequence(code: Seq<char>) -> Seq<char> {
    seq!['\u{1b}', '['] + code + seq!['m']
}

/// `text` with `prefix` written again after each reset sequence in it, as
/// `colored` does so that a reset inside a coloured text does not end the
/// colour.
pub open spec fn reapply_after_resets(text: Seq<char>, prefix: Seq<char>) -> Seq<char>
    decreases text.len(),
{
    match first_occurrence(text, reset_sequence()) {
        Some(i) => if 0 <= i && i + 4 <= text.len() {
            text.subrange(0, i + 4) + prefix + reapply_after_resets(
                text.subrange(i + 4, text.len() as int),
                prefix,
            )
        } else {
            text
        },
        None => text,
    }
}

/// What `colored` writes for `text` with the style `code` when colouring is
/// on: the escape sequence, the text (with the escape written again after
/// each reset inside it) and the reset sequence.
pub open spec fn styled(text: Seq<char>, code: Seq<char>) -> Seq<char> {
    escape_sequence(code) + reapply_after_resets(text, escape_sequence(code)) + reset_sequence()
}

/// What holds of every text that `colored` writes for `text` with the style
/// `code`: `text` itself when colouring is off (which depends on the
/// environment and on whether standard output is a terminal), else
/// `styled(text, code)`.
pub open spec fn plain_or_styled(text: Seq<char>, code: Seq<char>, out: Seq<char>) -> bool {
    out == text || out == styled(text, code)
}

/// The decimal digit `d`.
pub open spec fn digit(d: int) -> char {
    (48 + d) as char
}

/// The decimal writing of `n` (what `u8`'s `Display` writes).
pub open spec fn decimal(n: u8) -> Seq<char> {
    let m: int = n as int;
    if m < 10 {
        seq![digit(m)]
    } else if m < 100 {
        seq![digit(m / 10), digit(m % 10)]
    } else {
        seq![digit(m / 100), digit((m / 10) % 10), digit(m % 10)]
    }
}

/// The style code of the true colour `(r, g, b)`: `38;2;r;g;b`.
pub open spec fn truecolor_code(r: u8, g: u8, b: u8) -> Seq<char> {
    "38;2;"@ + decimal(r) + ";"@ + decimal(g) + ";"@ + decimal(b)
}

/// The foreground codes of the sixteen plain colours.
pub open spec fn plain_color_code(code: Seq<char>) -> bool {
    ||| code == "30"@ || code == "31"@ || code == "32"@ || code == "33"@
    ||| code == "34"@ || code == "35"@ || code == "36"@ || code == "37"@
    ||| code == "90"@ || code == "91"@ || code == "92"@ || code == "93"@
    ||| code == "94"@ || code == "95"@ || code == "96"@ || code == "97"@
}

/// `text.green().bold().to_string()` with `colored`: the text, or the text
/// in the style `1;32`.
#[verifier::external_body]
pub(crate) fn green_bold(text: &str) -> (r: String)
    ensures
        plain_or_styled(text@, "1;32"@, r@),
{
    text.green().bold().to_string()
}

/// `text.blue().bold().to_string()` with `colored`: the text, or the text in
/// the style `1;34`.
#[verifier::external_body]
pub(crate) fn blue_bold(text: &str) -> (r: String)
    ensures
        plain_or_styled(text@, "1;34"@, r@),
{
    text.blue().bold().to_string()
}

/// `text.red().to_string()` with `colored`: the text, or the text in the
/// style `31`.
#[verifier::external_body]
pub(crate) fn red(text: &str) -> (r: String)
    ensures
        plain_or_styled(text@, "31"@, r@),
{
    text.red().to_string()
}

/// `text.green().to_string()` with `colored`: the text, or the text in the
/// style `32`.
#[verifier::external_body]
pub(crate) fn green(text: &str) -> (r: String)
    ensures
        plain_or_styled(text@, "32"@, r@),
{
    text.green().to_string()
}

/// `text.blue().to_string()` with `colored`: the text, or the text in the
/// style `34`.
#[verifier::external_body]
pub(crate) fn blue(text: &str) -> (r: String)
    ensures
        plain_or_styled(text@, "34"@, r@),
{
    text.blue().to_string()
}

/// `text.yellow().to_string()` with `colored`: the text, or the text in the
/// style `33`.
#[verifier::external_body]
pub(crate) fn yellow(text: &str) -> (r: String)
    ensures
        plain_or_styled(text@, "33"@, r@),
{
    text.yellow().to_string()
}

/// `text.cyan().to_string()` with `colored`: the text, or the text in the
/// style `36`.
#[verifier::external_body]
pub(crate) fn cyan(text: &str) -> (r: String)
    ensures
        plain_or_styled(text@, "36"@, r@),
{
    text.cyan().to_string()
}

/// `text.truecolor(r, g, b).to_string()` with `colored`: the text; or the
/// text in the style `38;2;r;g;b` when the terminal announces true colour
/// (`COLORTERM`); or else the text in the plain colour nearest to `(r, g, b)`,
/// which for `(128, 128, 0)` is yellow (`33`). Which plain colour is nearest
/// for other colours is not stated.
#[verifier::external_body]
pub(crate) fn truecolor(text: &str, r: u8, g: u8, b: u8) -> (out: String)
    ensures
        ({
            ||| out@ == text@
            ||| out@ == styled(text@, truecolor_code(r, g, b))
            ||| exists|code: Seq<char>|
                plain_color_code(code) && out@ == styled(text@, code) && (r == 128 && g == 128
                    && b == 0 ==> code == "33"@)
        }),
{
    text.truecolor(r, g, b).to_string()
}

} // verus!
