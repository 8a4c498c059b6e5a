//! Colouring of log lines for the terminal: which parts of a line are
//! coloured, in which colour, and how the coloured parts replace the plain ones.

use vstd::prelude::*;

use crate::outside::{
    blue, blue_bold, cyan, decimal, digit, escape_sequence, green, green_bold,
    plain_or_styled, reapply_after_resets, red, regex_captures, reset_sequence, styled, truecolor,
    truecolor_code, yellow,
};
use crate::parser::{
    group, group_text, LogPatterns, HTTP_DATE, HTTP_METHOD, HTTP_STATUS, RE_CUSTOM, RE_HTTP_METHOD, RE_SYMFONY,
    RE_SYSLOG, CUSTOM_DATE, CUSTOM_LEVEL, SYMFONY_DATE, SYMFONY_LEVEL, SYSLOG_DATE, SYSLOG_HOST,
    SYSLOG_PROCESS,
};
use crate::text::{
    chars_of, first_occurrence, lemma_first_occurrence_from_occurs,
    lemma_replace_first_identity, occurs_at, replace_first, replace_first_spec, same_text,
    string_of,
};

verus! {

/// The colours in which parts of a line are written.
#[derive(Clone, Copy, Debug, PartialEq, Eq)]
pub enum Style {
    /// Bold green: dates.
    GreenBold,
    /// Bold blue: hosts.
    BlueBold,
    Red,
    Green,
    Blue,
    Yellow,
    Cyan,
    /// The true colour (128, 128, 0): the `PATCH` method.
    Olive,
}

/// Which parts of a line are coloured.
#[derive(Clone, Copy, Debug, PartialEq, Eq)]
pub enum ColorMode {
    /// Everything that the patterns find: dates, status codes, methods,
    /// hosts, processes and levels (the display of a whole file).
    Full,
    /// Dates, status codes, methods and levels (the display of filtered entries).
    Filtered,
}

/// The colour of an HTTP status code: red for 404, 500, 503 and 403, green
/// for 200, 203 and 204, none for the others.
pub open spec fn status_style_spec(s: Seq<char>) -> Option<Style> {
    if s == "404"@ || s == "500"@ || s == "503"@ || s == "403"@ {
        Some(Style::Red)
    } else if s == "200"@ || s == "203"@ || s == "204"@ {
        Some(Style::Green)
    } else {
        None
    }
}

/// The colour of an HTTP method: green for GET, blue for POST and OPTIONS,
/// yellow for PUT, red for DELETE, olive for PATCH, none for the others.
pub open spec fn method_style_spec(m: Seq<char>) -> Option<Style> {
    if m == "GET"@ {
        Some(Style::Green)
    } else if m == "POST"@ || m == "OPTIONS"@ {
        Some(Style::Blue)
    } else if m == "PUT"@ {
        Some(Style::Yellow)
    } else if m == "DELETE"@ {
        Some(Style::Red)
    } else if m == "PATCH"@ {
        Some(Style::Olive)
    } else {
        None
    }
}

/// The colour of a log level: yellow for WARNING, red for ERROR and
/// CRITICAL, green for SUCCESS, blue for INFO, cyan for DEBUG, none for the
/// others.
pub open spec fn level_style_spec(l: Seq<char>) -> Option<Style> {
    if l == "WARNING"@ {
        Some(Style::Yellow)
    } else if l == "ERROR"@ || l == "CRITICAL"@ {
        Some(Style::Red)
    } else if l == "SUCCESS"@ {
        Some(Style::Green)
    } else if l == "INFO"@ {
        Some(Style::Blue)
    } else if l == "DEBUG"@ {
        Some(Style::Cyan)
    } else {
        None
    }
}

/// The colour of an HTTP status code.
pub fn status_style(s: &str) -> (r: Option<Style>)
    ensures
        r == status_style_spec(s@),
{
    if same_text(s, "404") || same_text(s, "500") || same_text(s, "503") || same_text(s, "403") {
        Some(Style::Red)
    } else if same_text(s, "200") || same_text(s, "203") || same_text(s, "204") {
        Some(Style::Green)
    } else {
        None
    }
}

/// The colour of an HTTP method.
pub fn method_style(m: &str) -> (r: Option<Style>)
    ensures
        r == method_style_spec(m@),
{
    if same_text(m, "GET") {
        Some(Style::Green)
    } else if same_text(m, "POST") || same_text(m, "OPTIONS") {
        Some(Style::Blue)
    } else if same_text(m, "PUT") {
        Some(Style::Yellow)
    } else if same_text(m, "DELETE") {
        Some(Style::Red)
    } else if same_text(m, "PATCH") {
        Some(Style::Olive)
    } else {
        None
    }
}

/// The colour of a log level.
pub fn level_style(l: &str) -> (r: Option<Style>)
    ensures
        r == level_style_spec(l@),
{
    if same_text(l, "WARNING") {
        Some(Style::Yellow)
    } else if same_text(l, "ERROR") || same_text(l, "CRITICAL") {
        Some(Style::Red)
    } else if same_text(l, "SUCCESS") {
        Some(Style::Green)
    } else if same_text(l, "INFO") {
        Some(Style::Blue)
    } else if same_text(l, "DEBUG") {
        Some(Style::Cyan)
    } else {
        None
    }
}

/// How a part of the line is coloured: always in `style`, or in the colour
/// that a rule gives its text.
#[derive(Clone, Copy, Debug, PartialEq, Eq)]
pub enum Coloring {
    Always(Style),
    ByStatus,
    ByMethod,
    ByLevel,
}

/// The colour that `coloring` gives the text `t`.
pub open spec fn coloring_style(coloring: Coloring, t: Seq<char>) -> Option<Style> {
    match coloring {
        Coloring::Always(s) => Some(s),
        Coloring::ByStatus => status_style_spec(t),
        Coloring::ByMethod => method_style_spec(t),
        Coloring::ByLevel => level_style_spec(t),
    }
}

/// The replacement that one captured part contributes: none when the part
/// is absent or its text has no colour.
pub open spec fn part(text: Option<Seq<char>>, coloring: Coloring) -> Seq<(Seq<char>, Style)> {
    match text {
        Some(t) => match coloring_style(coloring, t) {
            Some(s) => seq![(t, s)],
            None => seq![],
        },
        None => seq![],
    }
}

/// The group at `idx`, when the pattern has such a group.
pub open spec fn named(caps: Option<Seq<Option<Seq<char>>>>, idx: Option<usize>) -> Option<
    Seq<char>,
> {
    match idx {
        Some(i) => group(caps, i as int),
        None => None,
    }
}

/// The parts coloured from a match of [`RE_HTTP_METHOD`]: its date, its
/// status code and its method.
pub open spec fn http_plan(caps: Option<Seq<Option<Seq<char>>>>) -> Seq<(Seq<char>, Style)> {
    part(group(caps, HTTP_DATE as int), Coloring::Always(Style::GreenBold)) + part(
        group(caps, HTTP_STATUS as int),
        Coloring::ByStatus,
    ) + part(group(caps, HTTP_METHOD as int), Coloring::ByMethod)
}

/// The parts coloured from a match of one of the line patterns, given where
/// the pattern has its host, process, date and level groups. In full mode:
/// host, process, date, host again, process again, level; in filtered mode:
/// level, date.
pub open spec fn line_plan(
    caps: Option<Seq<Option<Seq<char>>>>,
    host: Option<usize>,
    process: Option<usize>,
    date: Option<usize>,
    level: Option<usize>,
    mode: ColorMode,
) -> Seq<(Seq<char>, Style)> {
    let h = part(named(caps, host), Coloring::Always(Style::BlueBold));
    let p = part(named(caps, process), Coloring::Always(Style::Yellow));
    let d = part(named(caps, date), Coloring::Always(Style::GreenBold));
    let l = part(named(caps, level), Coloring::ByLevel);
    match mode {
        ColorMode::Full => h + p + d + h + p + l,
        ColorMode::Filtered => l + d,
    }
}

/// All the parts of a line that are coloured, in the order in which they
/// are replaced: those of the HTTP pattern, then those of the custom SSH,
/// Symfony and syslog patterns.
pub open spec fn color_plan_spec(
    http: Option<Seq<Option<Seq<char>>>>,
    custom: Option<Seq<Option<Seq<char>>>>,
    symfony: Option<Seq<Option<Seq<char>>>>,
    syslog: Option<Seq<Option<Seq<char>>>>,
    mode: ColorMode,
) -> Seq<(Seq<char>, Style)> {
    http_plan(http) + line_plan(
        custom,
        None,
        None,
        Some(CUSTOM_DATE),
        Some(CUSTOM_LEVEL),
        mode,
    ) + line_plan(symfony, None, None, Some(SYMFONY_DATE), Some(SYMFONY_LEVEL), mode) + line_plan(
        syslog,
        Some(SYSLOG_HOST),
        Some(SYSLOG_PROCESS),
        Some(SYSLOG_DATE),
        None,
        mode,
    )
}

/// The parts of a plan as characters.
pub open spec fn plan_view(plan: Seq<(String, Style)>) -> Seq<(Seq<char>, Style)> {
    plan.map_values(|p: (String, Style)| (p.0@, p.1))
}

/// Appends to `plan` the part that `text` contributes.
fn push_part(plan: &mut Vec<(String, Style)>, text: Option<String>, coloring: Coloring)
    ensures
        plan_view(final(plan)@) == plan_view(old(plan)@) + part(text.deep_view(), coloring),
{
    let ghost before = plan@;
    if let Some(t) = text {
        let style = match coloring {
            Coloring::Always(s) => Some(s),
            Coloring::ByStatus => status_style(t.as_str()),
            Coloring::ByMethod => method_style(t.as_str()),
            Coloring::ByLevel => level_style(t.as_str()),
        };
        if let Some(s) = style {
            plan.push((t, s));
            assert(plan_view(plan@) =~= plan_view(before) + part(Some(t@), coloring));
            return;
        }
    }
    assert(plan_view(plan@) =~= plan_view(before) + part(text.deep_view(), coloring));
}

/// The group at `idx`, when the pattern has such a group.
fn named_text(caps: &Option<Vec<Option<String>>>, idx: Option<usize>) -> (r: Option<String>)
    ensures
        r.deep_view() == named(caps.deep_view(), idx),
{
    match idx {
        Some(i) => group_text(caps, i),
        None => None,
    }
}

/// Appends to `plan` the parts coloured from a match of a line pattern.
fn push_line_plan(
    plan: &mut Vec<(String, Style)>,
    caps: &Option<Vec<Option<String>>>,
    host: Option<usize>,
    process: Option<usize>,
    date: Option<usize>,
    level: Option<usize>,
    mode: ColorMode,
)
    ensures
        plan_view(final(plan)@) == plan_view(old(plan)@) + line_plan(
            caps.deep_view(),
            host,
            process,
            date,
            level,
            mode,
        ),
{
    let ghost c = caps.deep_view();
    let ghost h = part(named(c, host), Coloring::Always(Style::BlueBold));
    let ghost p = part(named(c, process), Coloring::Always(Style::Yellow));
    let ghost d = part(named(c, date), Coloring::Always(Style::GreenBold));
    let ghost l = part(named(c, level), Coloring::ByLevel);
    let ghost start = plan_view(plan@);
    match mode {
        ColorMode::Full => {
            push_part(plan, named_text(caps, host), Coloring::Always(Style::BlueBold));
            push_part(plan, named_text(caps, process), Coloring::Always(Style::Yellow));
            push_part(plan, named_text(caps, date), Coloring::Always(Style::GreenBold));
            push_part(plan, named_text(caps, host), Coloring::Always(Style::BlueBold));
            push_part(plan, named_text(caps, process), Coloring::Always(Style::Yellow));
            push_part(plan, named_text(caps, level), Coloring::ByLevel);
            assert(plan_view(plan@) =~= start + (h + p + d + h + p + l));
        },
        ColorMode::Filtered => {
            push_part(plan, named_text(caps, level), Coloring::ByLevel);
            push_part(plan, named_text(caps, date), Coloring::Always(Style::GreenBold));
            assert(plan_view(plan@) =~= start + (l + d));
        },
    }
}

/// All the parts of a line that are coloured, from the results of the HTTP,
/// custom SSH, Symfony and syslog patterns on it.
pub fn color_plan(
    http: &Option<Vec<Option<String>>>,
    custom: &Option<Vec<Option<String>>>,
    symfony: &Option<Vec<Option<String>>>,
    syslog: &Option<Vec<Option<String>>>,
    mode: ColorMode,
) -> (r: Vec<(String, Style)>)
    ensures
        plan_view(r@) == color_plan_spec(
            http.deep_view(),
            custom.deep_view(),
            symfony.deep_view(),
            syslog.deep_view(),
            mode,
        ),
{
    let mut plan: Vec<(String, Style)> = Vec::new();
    assert(plan_view(plan@) =~= Seq::empty());
    push_part(&mut plan, group_text(http, HTTP_DATE), Coloring::Always(Style::GreenBold));
    push_part(&mut plan, group_text(http, HTTP_STATUS), Coloring::ByStatus);
    push_part(&mut plan, group_text(http, HTTP_METHOD), Coloring::ByMethod);
    let ghost after_http = plan_view(plan@);
    assert(after_http =~= http_plan(http.deep_view()));
    push_line_plan(&mut plan, custom, None, None, Some(CUSTOM_DATE), Some(CUSTOM_LEVEL), mode);
    push_line_plan(&mut plan, symfony, None, None, Some(SYMFONY_DATE), Some(SYMFONY_LEVEL), mode);
    push_line_plan(
        &mut plan,
        syslog,
        Some(SYSLOG_HOST),
        Some(SYSLOG_PROCESS),
        Some(SYSLOG_DATE),
        None,
        mode,
    );
    assert(plan_view(plan@) =~= color_plan_spec(
        http.deep_view(),
        custom.deep_view(),
        symfony.deep_view(),
        syslog.deep_view(),
        mode,
    ));
    plan
}

/// The style code that `colored` writes for `style` (for the olive true
/// colour, when the terminal announces true colour).
pub open spec fn style_code(style: Style) -> Seq<char> {
    match style {
        Style::GreenBold => "1;32"@,
        Style::BlueBold => "1;34"@,
        Style::Red => "31"@,
        Style::Green => "32"@,
        Style::Blue => "34"@,
        Style::Yellow => "33"@,
        Style::Cyan => "36"@,
        Style::Olive => truecolor_code(128, 128, 0),
    }
}

/// What may be written for `text` in `style`: the text itself when colouring
/// is off, else the text in the code of `style`; the olive true colour is
/// written in yellow, the nearest plain colour, on a terminal without true
/// colour.
pub open spec fn painted_as(text: Seq<char>, style: Style, out: Seq<char>) -> bool {
    ||| plain_or_styled(text, style_code(style), out)
    ||| (style == Style::Olive && out == styled(text, "33"@))
}

/// Writes `text` in the colour `style` (as `colored` does).
pub fn paint(text: &str, style: Style) -> (r: String)
    ensures
        painted_as(text@, style, r@),
{
    match style {
        Style::GreenBold => green_bold(text),
        Style::BlueBold => blue_bold(text),
        Style::Red => red(text),
        Style::Green => green(text),
        Style::Blue => blue(text),
        Style::Yellow => yellow(text),
        Style::Cyan => cyan(text),
        Style::Olive => truecolor(text, 128, 128, 0),
    }
}

/// `line` after each replacement in turn: the first occurrence of the plain
/// text of a replacement, in the line as the earlier replacements left it,
/// gives way to its coloured text.
pub open spec fn apply_spec(line: Seq<char>, reps: Seq<(Seq<char>, Seq<char>)>) -> Seq<char>
    decreases reps.len(),
{
    if reps.len() == 0 {
        line
    } else {
        replace_first_spec(apply_spec(line, reps.drop_last()), reps.last().0, reps.last().1)
    }
}

/// The replacements as characters.
pub open spec fn reps_view(reps: Seq<(String, String)>) -> Seq<(Seq<char>, Seq<char>)> {
    reps.map_values(|p: (String, String)| (p.0@, p.1@))
}

/// Applies the replacements in order, each to the first occurrence of its
/// plain text.
pub fn apply_colors(line: &str, reps: &Vec<(String, String)>) -> (r: String)
    ensures
        r@ == apply_spec(line@, reps_view(reps@)),
{
    let mut cur = chars_of(line);
    let mut k: usize = 0;
    while k < reps.len()
        invariant
            0 <= k <= reps@.len(),
            cur@ == apply_spec(line@, reps_view(reps@).take(k as int)),
        decreases reps.len() - k,
    {
        let from = chars_of(reps[k].0.as_str());
        let to = chars_of(reps[k].1.as_str());
        cur = replace_first(cur.as_slice(), from.as_slice(), to.as_slice());
        assert(reps_view(reps@).take(k + 1).drop_last() =~= reps_view(reps@).take(k as int));
        k += 1;
    }
    assert(reps_view(reps@).take(reps@.len() as int) =~= reps_view(reps@));
    string_of(cur.as_slice())
}

/// Whether `reps` pairs each part of `plan` with a text that `colored` may
/// write for it in the part's colour.
pub open spec fn painted_plan(
    plan: Seq<(Seq<char>, Style)>,
    reps: Seq<(Seq<char>, Seq<char>)>,
) -> bool {
    &&& reps.len() == plan.len()
    &&& forall|k: int|
        0 <= k < plan.len() ==> #[trigger] reps[k].0 == plan[k].0 && painted_as(
            plan[k].0,
            plan[k].1,
            reps[k].1,
        )
}

/// The plan of a line, from the regex results on it.
pub open spec fn line_color_plan(line: Seq<char>, mode: ColorMode) -> Seq<(Seq<char>, Style)> {
    color_plan_spec(
        regex_captures(RE_HTTP_METHOD@, line),
        regex_captures(RE_CUSTOM@, line),
        regex_captures(RE_SYMFONY@, line),
        regex_captures(RE_SYSLOG@, line),
        mode,
    )
}

/// The line with its dates, status codes, methods, hosts, processes and
/// levels coloured (`mode` says which), each coloured text replacing the
/// first occurrence of its plain text. The patterns are compiled for this
/// call; see [`colorize_line_with`].
pub fn colorize_line(line: &str, mode: ColorMode) -> (r: String)
    ensures
        exists|reps: Seq<(Seq<char>, Seq<char>)>|
            painted_plan(line_color_plan(line@, mode), reps) && r@ == apply_spec(line@, reps),
{
    colorize_line_with(&LogPatterns::new(), line, mode)
}

/// [`colorize_line`] with patterns compiled beforehand.
pub fn colorize_line_with(patterns: &LogPatterns, line: &str, mode: ColorMode) -> (r: String)
    ensures
        exists|reps: Seq<(Seq<char>, Seq<char>)>|
            painted_plan(line_color_plan(line@, mode), reps) && r@ == apply_spec(line@, reps),
{
    let http = patterns.http_method_captures(line);
    let custom = patterns.custom_captures(line);
    let symfony = patterns.symfony_captures(line);
    let syslog = patterns.syslog_captures(line);
    let plan = color_plan(&http, &custom, &symfony, &syslog, mode);
    let ghost pv = plan_view(plan@);
    let mut reps: Vec<(String, String)> = Vec::new();
    let mut k: usize = 0;
    while k < plan.len()
        invariant
            0 <= k <= plan@.len(),
            pv == plan_view(plan@),
            reps@.len() == k,
            forall|m: int|
                0 <= m < k ==> #[trigger] reps_view(reps@)[m].0 == pv[m].0 && painted_as(
                    pv[m].0,
                    pv[m].1,
                    reps_view(reps@)[m].1,
                ),
        decreases plan.len() - k,
    {
        let text = plan[k].0.clone();
        let colored = paint(text.as_str(), plan[k].1);
        let ghost before = reps@;
        let ghost t = text@;
        let ghost c = colored@;
        assert(pv[k as int].0 == t);
        reps.push((text, colored));
        assert forall|m: int| 0 <= m < k + 1 implies #[trigger] reps_view(reps@)[m].0 == pv[m].0
            && painted_as(pv[m].0, pv[m].1, reps_view(reps@)[m].1) by {
            if m < k {
                assert(reps@[m] == before[m]);
                assert(reps_view(before)[m].0 == pv[m].0);
                assert(reps_view(reps@)[m] == reps_view(before)[m]);
            } else {
                assert(reps_view(reps@)[m] == (t, c));
            }
        }
        k += 1;
    }
    let r = apply_colors(line, &reps);
    assert(painted_plan(pv, reps_view(reps@)));
    r
}

// ---------------------------------------------------------------------------
// Laws of the colouring

/// When colouring is off, every coloured text is its plain text, and the
/// line is shown as it is.
pub proof fn law_uncoloured_replacements_keep_line(
    line: Seq<char>,
    reps: Seq<(Seq<char>, Seq<char>)>,
)
    requires
        forall|k: int| 0 <= k < reps.len() ==> #[trigger] reps[k].0 == reps[k].1,
    ensures
        apply_spec(line, reps) == line,
    decreases reps.len(),
{
    if reps.len() > 0 {
        law_uncoloured_replacements_keep_line(line, reps.drop_last());
        assert(reps[reps.len() - 1].0 == reps[reps.len() - 1].1);
        lemma_replace_first_identity(apply_spec(line, reps.drop_last()), reps.last().0);
    }
}

/// A line that none of the patterns matches is shown as it is.
pub proof fn law_unmatched_line_is_not_coloured(
    line: Seq<char>,
    mode: ColorMode,
    reps: Seq<(Seq<char>, Seq<char>)>,
)
    requires
        regex_captures(RE_HTTP_METHOD@, line) is None,
        regex_captures(RE_CUSTOM@, line) is None,
        regex_captures(RE_SYMFONY@, line) is None,
        regex_captures(RE_SYSLOG@, line) is None,
        painted_plan(line_color_plan(line, mode), reps),
    ensures
        apply_spec(line, reps) == line,
{
    assert(line_color_plan(line, mode) =~= Seq::<(Seq<char>, Style)>::empty());
}

// ---------------------------------------------------------------------------
// Escape sequences

/// The escape character `ESC`.
pub open spec fn esc() -> char {
    '\u{1b}'
}

/// Whether `c` may stand among the parameters of an escape sequence: a digit
/// or `;`.
pub open spec fn is_sgr_param(c: char) -> bool {
    (48 <= (c as u32) <= 57) || c == ';'
}

/// Where the parameters that start at `j` in `s` end with `m`: the index
/// just past the `m`.
pub open spec fn sgr_end_from(s: Seq<char>, j: int) -> Option<int>
    decreases s.len() - j,
{
    if j < 0 || j >= s.len() {
        None
    } else if s[j] == 'm' {
        Some(j + 1)
    } else if is_sgr_param(s[j]) {
        sgr_end_from(s, j + 1)
    } else {
        None
    }
}

/// `s` without its escape sequences `ESC [ params m` (what a terminal shows
/// of it, colours aside).
pub open spec fn strip_escapes(s: Seq<char>) -> Seq<char>
    decreases s.len(),
{
    if s.len() == 0 {
        s
    } else if s.len() >= 2 && s[0] == esc() && s[1] == '[' && sgr_end_from(s, 2) is Some && 0
        < sgr_end_from(s, 2)->0 <= s.len() {
        strip_escapes(s.skip(sgr_end_from(s, 2)->0))
    } else {
        seq![s[0]] + strip_escapes(s.drop_first())
    }
}

/// Whether `s` holds no `ESC`.
pub open spec fn escape_free(s: Seq<char>) -> bool {
    forall|i: int| 0 <= i < s.len() ==> s[i] != esc()
}

/// Whether `code` is made of escape-sequence parameters.
pub open spec fn sgr_params(code: Seq<char>) -> bool {
    forall|i: int| 0 <= i < code.len() ==> is_sgr_param(code[i])
}

/// The parameters of an escape sequence run up to its `m`.
pub proof fn lemma_sgr_end(code: Seq<char>, rest: Seq<char>, j: int)
    requires
        sgr_params(code),
        2 <= j <= code.len() + 2,
    ensures
        sgr_end_from(escape_sequence(code) + rest, j) == Some(code.len() as int + 3),
    decreases code.len() + 2 - j,
{
    let s = escape_sequence(code) + rest;
    assert(s[j] == if j < code.len() + 2 {
        code[j - 2]
    } else {
        'm'
    });
    if j < code.len() + 2 {
        lemma_sgr_end(code, rest, j + 1);
    }
}

/// An escape-free prefix is kept as it is.
pub proof fn lemma_strip_escape_free_prefix(t: Seq<char>, u: Seq<char>)
    requires
        escape_free(t),
    ensures
        strip_escapes(t + u) == t + strip_escapes(u),
    decreases t.len(),
{
    if t.len() == 0 {
        assert(t + u =~= u);
    } else {
        assert((t + u)[0] == t[0]);
        assert((t + u).drop_first() =~= t.drop_first() + u);
        lemma_strip_escape_free_prefix(t.drop_first(), u);
        assert(t + strip_escapes(u) =~= seq![t[0]] + (t.drop_first() + strip_escapes(u)));
    }
}

/// An escape-free text holds no reset sequence, so nothing is written again in it.
pub proof fn lemma_reapply_escape_free(text: Seq<char>, prefix: Seq<char>)
    requires
        escape_free(text),
    ensures
        reapply_after_resets(text, prefix) == text,
{
    lemma_first_occurrence_from_occurs(text, reset_sequence(), 0);
    if first_occurrence(text, reset_sequence()) is Some {
        let i = first_occurrence(text, reset_sequence())->0;
        assert(occurs_at(text, reset_sequence(), i));
        assert(text.subrange(i, i + 4)[0] == text[i]);
    }
}

/// What `colored` writes for an escape-free text in a style made of digits
/// and `;` shows that text once its escape sequences are removed.
pub proof fn law_styled_text_shows_text(text: Seq<char>, code: Seq<char>)
    requires
        escape_free(text),
        sgr_params(code),
    ensures
        strip_escapes(styled(text, code)) == text,
{
    lemma_reapply_escape_free(text, escape_sequence(code));
    let s = styled(text, code);
    let k: int = code.len() as int + 3;
    assert(s =~= escape_sequence(code) + (text + reset_sequence()));
    lemma_sgr_end(code, text + reset_sequence(), 2);
    assert(s[0] == esc() && s[1] == '[');
    assert(s.skip(k) =~= text + reset_sequence());
    lemma_strip_escape_free_prefix(text, reset_sequence());
    let r = reset_sequence();
    assert(sgr_end_from(r, 3) == Some(4int));
    assert(sgr_end_from(r, 2) == Some(4int));
    assert(r.skip(4) =~= Seq::<char>::empty());
    assert(strip_escapes(r) == strip_escapes(r.skip(4)));
    assert(strip_escapes(r) =~= Seq::<char>::empty());
    assert(text + Seq::<char>::empty() =~= text);
    assert(s.len() >= 2 && sgr_end_from(s, 2) == Some(k) && 0 < k <= s.len());
    assert(strip_escapes(s) == strip_escapes(s.skip(k)));
    assert(strip_escapes(text + reset_sequence()) == text);
}

/// The codes of all the styles are made of digits and `;`.
pub proof fn lemma_style_codes_are_params(style: Style)
    ensures
        sgr_params(style_code(style)),
        sgr_params("33"@),
{
    reveal_strlit("1;32");
    reveal_strlit("1;34");
    reveal_strlit("31");
    reveal_strlit("32");
    reveal_strlit("34");
    reveal_strlit("33");
    reveal_strlit("36");
    reveal_strlit("38;2;");
    reveal_strlit(";");
    assert(decimal(128) == seq![digit(1), digit(2), digit(8)]);
    assert(decimal(0) == seq![digit(0)]);
}

/// Whatever the colouring, a part painted in its colour shows its text once
/// escape sequences are removed: colouring never changes what is written.
pub proof fn law_painted_part_shows_text(text: Seq<char>, style: Style, out: Seq<char>)
    requires
        escape_free(text),
        painted_as(text, style, out),
    ensures
        strip_escapes(out) == text,
{
    lemma_style_codes_are_params(style);
    if out == text {
        lemma_strip_escape_free_prefix(text, Seq::<char>::empty());
        assert(text + Seq::<char>::empty() =~= text);
    } else if out == styled(text, style_code(style)) {
        law_styled_text_shows_text(text, style_code(style));
    } else {
        law_styled_text_shows_text(text, "33"@);
    }
}

} // verus!
