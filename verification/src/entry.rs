//! The normalised log line, its accessors and the field/value filter.

use vstd::prelude::*;

use crate::outside::{lowercase, to_lowercase};
use crate::text::{
    ascii_lower, is_ascii_text, lemma_strip_end_ascii, lemma_strip_end_ascii_lower,
    lemma_strip_start_ascii, lemma_strip_start_ascii_lower, chars_of, contains, contains_chars, lemma_contains_self, lemma_strip_end_snoc,
    lemma_strip_start_append, lemma_strip_start_cons, same_text, string_of, strip, strip_end,
    strip_start, trim, trim_brackets, trim_str, CharClass,
};

verus! {

/// A log line in normalised form. Not every format carries every piece of
/// information, so all fields but the raw line are optional and filled when
/// the parser of the line's format can extract them.
#[derive(Debug)]
pub struct LogEntry {
    /// The line as it stands in the source file.
    pub raw: String,
    /// The date, when it could be extracted.
    pub date: Option<String>,
    /// The log level (`INFO`, `ERROR`, `DEBUG`, ...).
    pub level: Option<String>,
    /// The source or channel of the line (`request`, `kernel`, `ssh`, ...).
    pub request: Option<String>,
    /// The HTTP method, when the line records a request.
    pub httpmethod: Option<String>,
    /// The HTTP endpoint found in the line.
    pub endpoint: Option<String>,
    /// The main message of the line.
    pub message: Option<String>,
}

/// The contents of a [`LogEntry`], each text as its characters.
pub struct EntryView {
    pub raw: Seq<char>,
    pub date: Option<Seq<char>>,
    pub level: Option<Seq<char>>,
    pub request: Option<Seq<char>>,
    pub httpmethod: Option<Seq<char>>,
    pub endpoint: Option<Seq<char>>,
    pub message: Option<Seq<char>>,
}

impl View for LogEntry {
    type V = EntryView;

    open spec fn view(&self) -> EntryView {
        EntryView {
            raw: self.raw@,
            date: self.date.deep_view(),
            level: self.level.deep_view(),
            request: self.request.deep_view(),
            httpmethod: self.httpmethod.deep_view(),
            endpoint: self.endpoint.deep_view(),
            message: self.message.deep_view(),
        }
    }
}

/// The value of the field that a filter names: `None` when the filter names
/// no supported field, `Some(v)` with the field's (optional) value otherwise.
/// The supported fields are `level`, `request`, `endpoint`, `httpmethod` and
/// `message`.
pub open spec fn filtered_field(e: EntryView, field: Seq<char>) -> Option<Option<Seq<char>>> {
    if field == "level"@ {
        Some(e.level)
    } else if field == "request"@ {
        Some(e.request)
    } else if field == "endpoint"@ {
        Some(e.endpoint)
    } else if field == "httpmethod"@ {
        Some(e.httpmethod)
    } else if field == "message"@ {
        Some(e.message)
    } else {
        None
    }
}

/// The form in which a value and a filter are compared: trimmed of
/// whitespace, then of surrounding brackets, then lowercased.
pub open spec fn filter_key(s: Seq<char>) -> Seq<char> {
    lowercase(trim_brackets(trim(s)))
}

/// Whether an optional value contains the needle, ignoring case, surrounding
/// whitespace and surrounding brackets on both sides.
pub open spec fn contains_ignore_case(value: Option<Seq<char>>, needle: Seq<char>) -> bool {
    match value {
        Some(v) => contains(filter_key(v), filter_key(needle)),
        None => false,
    }
}

/// Whether the entry passes the filter `field` = `val`.
pub open spec fn passes_filter(e: EntryView, field: Seq<char>, val: Seq<char>) -> bool {
    match filtered_field(e, field) {
        Some(value) => contains_ignore_case(value, val),
        None => false,
    }
}

/// The form of an ASCII text in which it is compared: trimmed of
/// whitespace, then of surrounding brackets, then with `A`..`Z` lowercased.
pub open spec fn ascii_key(s: Seq<char>) -> Seq<char> {
    ascii_lower(trim_brackets(trim(s)))
}

/// Whether an optional value contains the needle, for ASCII texts: ignoring
/// the case of `A`..`Z`, surrounding whitespace and surrounding brackets.
pub open spec fn contains_ignore_ascii_case(value: Option<Seq<char>>, needle: Seq<char>) -> bool {
    match value {
        Some(v) => contains(ascii_key(v), ascii_key(needle)),
        None => false,
    }
}

/// Whether the value and the needle of a filter are ASCII texts.
pub open spec fn ascii_filter(value: Option<Seq<char>>, needle: Seq<char>) -> bool {
    &&& is_ascii_text(needle)
    &&& value matches Some(v) ==> is_ascii_text(v)
}

/// Whether the entry passes the filter `field` = `val`, for an ASCII field
/// value and an ASCII filter value.
pub open spec fn passes_filter_ascii(e: EntryView, field: Seq<char>, val: Seq<char>) -> bool {
    match filtered_field(e, field) {
        Some(value) => contains_ignore_ascii_case(value, val),
        None => false,
    }
}

/// Whether the filtered value of the entry and the filter value are ASCII texts.
pub open spec fn ascii_filter_inputs(e: EntryView, field: Seq<char>, val: Seq<char>) -> bool {
    match filtered_field(e, field) {
        Some(value) => ascii_filter(value, val),
        None => is_ascii_text(val),
    }
}

/// Puts `s` in the form of [`filter_key`].
fn filter_key_of(s: &str) -> (r: Vec<char>)
    ensures
        r@ == filter_key(s@),
        is_ascii_text(s@) ==> r@ == ascii_key(s@),
{
    let trimmed = trim_str(s);
    let unbracketed = strip(trimmed.as_slice(), CharClass::Brackets, CharClass::Brackets);
    proof {
        if is_ascii_text(s@) {
            lemma_strip_start_ascii(s@, CharClass::WhiteSpace);
            lemma_strip_end_ascii(strip_start(s@, CharClass::WhiteSpace), CharClass::WhiteSpace);
            lemma_strip_start_ascii(trimmed@, CharClass::Brackets);
            lemma_strip_end_ascii(strip_start(trimmed@, CharClass::Brackets), CharClass::Brackets);
        }
    }
    let text = string_of(unbracketed.as_slice());
    let lowered = to_lowercase(text.as_str());
    chars_of(lowered.as_str())
}

/// Compares an optional value with a needle, ignoring case. Surrounding
/// whitespace and brackets are ignored on both sides, so that filters on
/// fields such as `[request]` or `[INFO]` are simple to write.
pub fn opt_contains_ignore_case(value: Option<&str>, needle: &str) -> (r: bool)
    ensures
        r == contains_ignore_case(value.deep_view(), needle@),
        ascii_filter(value.deep_view(), needle@) ==> r == contains_ignore_ascii_case(
            value.deep_view(),
            needle@,
        ),
{
    let key = filter_key_of(needle);
    match value {
        Some(s) => {
            let v = filter_key_of(s);
            contains_chars(v.as_slice(), key.as_slice())
        },
        None => false,
    }
}

impl LogEntry {
    /// Whether the entry matches a simple `field`/`val` filter. The supported
    /// fields are `level`, `request`, `endpoint`, `httpmethod` and `message`;
    /// any other field matches nothing. The search ignores case and accepts
    /// substrings.
    pub fn matches_filter(&self, field: &str, val: &str) -> (r: bool)
        ensures
            r == passes_filter(self@, field@, val@),
            ascii_filter_inputs(self@, field@, val@) ==> r == passes_filter_ascii(
                self@,
                field@,
                val@,
            ),
    {
        if same_text(field, "level") {
            opt_contains_ignore_case(self.get_level(), val)
        } else if same_text(field, "request") {
            opt_contains_ignore_case(self.get_request(), val)
        } else if same_text(field, "endpoint") {
            opt_contains_ignore_case(self.get_endpoint(), val)
        } else if same_text(field, "httpmethod") {
            opt_contains_ignore_case(self.get_http_method(), val)
        } else if same_text(field, "message") {
            opt_contains_ignore_case(self.get_message(), val)
        } else {
            false
        }
    }

    /// The log level, if present.
    pub fn get_level(&self) -> (r: Option<&str>)
        ensures
            r.deep_view() == self@.level,
    {
        match &self.level {
            Some(s) => Some(s.as_str()),
            None => None,
        }
    }

    /// The source or channel, if present.
    pub fn get_request(&self) -> (r: Option<&str>)
        ensures
            r.deep_view() == self@.request,
    {
        match &self.request {
            Some(s) => Some(s.as_str()),
            None => None,
        }
    }

    /// The HTTP endpoint, if present.
    pub fn get_endpoint(&self) -> (r: Option<&str>)
        ensures
            r.deep_view() == self@.endpoint,
    {
        match &self.endpoint {
            Some(s) => Some(s.as_str()),
            None => None,
        }
    }

    /// The message, if present.
    pub fn get_message(&self) -> (r: Option<&str>)
        ensures
            r.deep_view() == self@.message,
    {
        match &self.message {
            Some(s) => Some(s.as_str()),
            None => None,
        }
    }

    /// The HTTP method, if present.
    pub fn get_http_method(&self) -> (r: Option<&str>)
        ensures
            r.deep_view() == self@.httpmethod,
    {
        match &self.httpmethod {
            Some(s) => Some(s.as_str()),
            None => None,
        }
    }
}

/// The entries of `views` that pass the filter `field` = `val`, in their order.
pub open spec fn kept_entries(views: Seq<EntryView>, field: Seq<char>, val: Seq<char>) -> Seq<
    EntryView,
>
    decreases views.len(),
{
    if views.len() == 0 {
        Seq::empty()
    } else {
        let rest = kept_entries(views.drop_last(), field, val);
        if passes_filter(views.last(), field, val) {
            rest.push(views.last())
        } else {
            rest
        }
    }
}

/// The views of a sequence of entries.
pub open spec fn entry_views(entries: Seq<LogEntry>) -> Seq<EntryView> {
    entries.map_values(|e: LogEntry| e@)
}

/// Keeps the entries that match the filter `field` = `val`, in their order.
pub fn filter_entries(entries: Vec<LogEntry>, field: &str, val: &str) -> (r: Vec<LogEntry>)
    ensures
        entry_views(r@) == kept_entries(entry_views(entries@), field@, val@),
{
    let ghost all = entry_views(entries@);
    let mut kept: Vec<LogEntry> = Vec::new();
    for e in it: entries
        invariant
            all == entry_views(it.seq()),
            entry_views(kept@) == kept_entries(all.take(it.index() as int), field@, val@),
    {
        let ghost k = it.index() as int;
        assert(all.take(k + 1).drop_last() =~= all.take(k));
        assert(all.take(k + 1).last() == e@);
        let ghost before = kept@;
        if e.matches_filter(field, val) {
            kept.push(e);
            assert(entry_views(kept@) =~= entry_views(before).push(all.take(k + 1).last()));
        }
    }
    assert(all.take(all.len() as int) =~= all);
    kept
}

// ---------------------------------------------------------------------------
// Laws of the filter

/// A field that the filter does not support matches nothing.
pub proof fn law_unsupported_field_matches_nothing(e: EntryView, field: Seq<char>, val: Seq<char>)
    requires
        field != "level"@,
        field != "request"@,
        field != "endpoint"@,
        field != "httpmethod"@,
        field != "message"@,
    ensures
        !passes_filter(e, field, val),
{
}

/// An entry whose filtered field is absent matches no value.
pub proof fn law_absent_field_matches_nothing(e: EntryView, field: Seq<char>, val: Seq<char>)
    requires
        filtered_field(e, field) == Some(None::<Seq<char>>),
    ensures
        !passes_filter(e, field, val),
{
}

/// An entry matches the filter that asks for the value its field holds.
pub proof fn law_filter_finds_own_value(e: EntryView, field: Seq<char>, v: Seq<char>)
    requires
        filtered_field(e, field) == Some(Some(v)),
    ensures
        passes_filter(e, field, v),
{
    lemma_contains_self(filter_key(v));
}

/// Only the normalised form of the filter value counts: two values that
/// lowercase alike once trimmed of whitespace and brackets select the same
/// entries (so the search ignores case, as far as `str::to_lowercase` maps
/// the two values alike).
pub proof fn law_filter_depends_on_normalised_value(
    e: EntryView,
    field: Seq<char>,
    a: Seq<char>,
    b: Seq<char>,
)
    requires
        filter_key(a) == filter_key(b),
    ensures
        passes_filter(e, field, a) == passes_filter(e, field, b),
{
}

/// A filter value written between brackets selects what the bare value
/// selects: `[INFO]` filters as `INFO`, for a value without surrounding
/// whitespace.
pub proof fn law_brackets_around_filter_value(e: EntryView, field: Seq<char>, x: Seq<char>)
    requires
        trim(x) == x,
    ensures
        passes_filter(e, field, seq!['['] + x + seq![']']) == passes_filter(e, field, x),
{
    let b = seq!['['] + x + seq![']'];
    let ws = CharClass::WhiteSpace;
    let br = CharClass::Brackets;
    assert(b.len() > 0 && b[0] == '[' && b.last() == ']');
    assert(strip_start(b, ws) == b);
    assert(strip_end(b, ws) == b);
    assert(trim(b) == b);
    assert(seq!['['] + (x + seq![']']) =~= b);
    lemma_strip_start_cons('[', x + seq![']'], br);
    lemma_strip_start_append(x, seq![']'], br);
    if strip_start(x, br).len() == 0 {
        let close = seq![']'];
        assert(close.drop_first() =~= Seq::<char>::empty());
        assert(strip_start(close, br) == strip_start(Seq::<char>::empty(), br));
        assert(strip_start(x, br) =~= Seq::<char>::empty());
    } else {
        lemma_strip_end_snoc(strip_start(x, br), ']', br);
    }
    assert(trim_brackets(trim(b)) == trim_brackets(trim(x)));
}

/// Filtering keeps only entries that pass the filter, and never more
/// entries than it was given.
pub proof fn law_filtered_entries_pass(views: Seq<EntryView>, field: Seq<char>, val: Seq<char>)
    ensures
        kept_entries(views, field, val).len() <= views.len(),
        forall|i: int|
            0 <= i < kept_entries(views, field, val).len() ==> passes_filter(
                #[trigger] kept_entries(views, field, val)[i],
                field,
                val,
            ),
    decreases views.len(),
{
    if views.len() > 0 {
        law_filtered_entries_pass(views.drop_last(), field, val);
    }
}

/// Filtering loses no entry that passes the filter.
pub proof fn law_passing_entries_are_kept(views: Seq<EntryView>, field: Seq<char>, val: Seq<char>)
    ensures
        forall|i: int|
            0 <= i < views.len() && passes_filter(#[trigger] views[i], field, val)
                ==> kept_entries(views, field, val).contains(views[i]),
    decreases views.len(),
{
    if views.len() > 0 {
        let rest = views.drop_last();
        law_passing_entries_are_kept(rest, field, val);
        assert forall|i: int|
            0 <= i < views.len() && passes_filter(#[trigger] views[i], field, val)
            implies kept_entries(views, field, val).contains(views[i]) by {
            let kept = kept_entries(views, field, val);
            let kept_rest = kept_entries(rest, field, val);
            if i == views.len() - 1 {
                assert(kept[kept.len() - 1] == views[i]);
            } else {
                assert(rest[i] == views[i]);
                let j: int = choose|j: int| 0 <= j < kept_rest.len() && kept_rest[j] == views[i];
                assert(kept[j] == views[i]);
            }
        }
    }
}

/// The ASCII form of a text can be taken before or after trimming.
proof fn lemma_ascii_key_of_lowered(s: Seq<char>)
    ensures
        ascii_key(s) == trim_brackets(trim(ascii_lower(s))),
{
    let ws = CharClass::WhiteSpace;
    let br = CharClass::Brackets;
    lemma_strip_start_ascii_lower(s, ws);
    lemma_strip_end_ascii_lower(strip_start(s, ws), ws);
    lemma_strip_start_ascii_lower(trim(s), br);
    lemma_strip_end_ascii_lower(strip_start(trim(s), br), br);
}

/// For ASCII texts the filter ignores case: two filter values that differ
/// only in the case of their letters select the same entries.
pub proof fn law_filter_ignores_ascii_case(e: EntryView, field: Seq<char>, a: Seq<char>, b: Seq<char>)
    requires
        ascii_lower(a) == ascii_lower(b),
    ensures
        passes_filter_ascii(e, field, a) == passes_filter_ascii(e, field, b),
{
    lemma_ascii_key_of_lowered(a);
    lemma_ascii_key_of_lowered(b);
}

/// For ASCII texts an entry matches its own field value written in any case:
/// `level` = `error` finds the entries of level `ERROR`.
pub proof fn law_filter_finds_own_value_in_any_case(
    e: EntryView,
    field: Seq<char>,
    v: Seq<char>,
    w: Seq<char>,
)
    requires
        filtered_field(e, field) == Some(Some(v)),
        ascii_lower(v) == ascii_lower(w),
    ensures
        passes_filter_ascii(e, field, w),
{
    lemma_ascii_key_of_lowered(v);
    lemma_ascii_key_of_lowered(w);
    lemma_contains_self(ascii_key(v));
}

/// Each supported field is filtered on its own value and on nothing else:
/// the filter `field` = `v` holds exactly when the field is present and its
/// value, trimmed of whitespace and then of brackets and lowercased,
/// contains `v` put in the same form. An entry without an endpoint matches
/// no `endpoint` filter, whatever its message says.
pub proof fn law_each_field_filters_its_own_value(e: EntryView, v: Seq<char>)
    ensures
        passes_filter(e, "level"@, v) == (e.level matches Some(x) && contains(
            lowercase(trim_brackets(trim(x))),
            lowercase(trim_brackets(trim(v))),
        )),
        passes_filter(e, "request"@, v) == (e.request matches Some(x) && contains(
            lowercase(trim_brackets(trim(x))),
            lowercase(trim_brackets(trim(v))),
        )),
        passes_filter(e, "endpoint"@, v) == (e.endpoint matches Some(x) && contains(
            lowercase(trim_brackets(trim(x))),
            lowercase(trim_brackets(trim(v))),
        )),
        passes_filter(e, "httpmethod"@, v) == (e.httpmethod matches Some(x) && contains(
            lowercase(trim_brackets(trim(x))),
            lowercase(trim_brackets(trim(v))),
        )),
        passes_filter(e, "message"@, v) == (e.message matches Some(x) && contains(
            lowercase(trim_brackets(trim(x))),
            lowercase(trim_brackets(trim(v))),
        )),
        e.endpoint is None ==> !passes_filter(e, "endpoint"@, v),
{
    reveal_strlit("level");
    reveal_strlit("request");
    reveal_strlit("endpoint");
    reveal_strlit("httpmethod");
    reveal_strlit("message");
    assert("request"@ != "level"@) by {
        assert("request"@.len() != "level"@.len());
    }
    assert("endpoint"@ != "level"@) by {
        assert("endpoint"@.len() != "level"@.len());
    }
    assert("endpoint"@ != "request"@) by {
        assert("endpoint"@.len() != "request"@.len());
    }
    assert("httpmethod"@ != "level"@) by {
        assert("httpmethod"@.len() != "level"@.len());
    }
    assert("httpmethod"@ != "request"@) by {
        assert("httpmethod"@.len() != "request"@.len());
    }
    assert("httpmethod"@ != "endpoint"@) by {
        assert("httpmethod"@.len() != "endpoint"@.len());
    }
    assert("message"@ != "level"@) by {
        assert("message"@[0] != "level"@[0]);
    }
    assert("message"@ != "request"@) by {
        assert("message"@[0] != "request"@[0]);
    }
    assert("message"@ != "endpoint"@) by {
        assert("message"@.len() != "endpoint"@.len());
    }
    assert("message"@ != "httpmethod"@) by {
        assert("message"@.len() != "httpmethod"@.len());
    }
}

/// Filtering keeps exactly the entries that pass, each as often as it
/// stands in the input and in the input's order: it is `Seq::filter` with
/// the filter as predicate.
pub proof fn law_filtering_is_seq_filter(views: Seq<EntryView>, field: Seq<char>, val: Seq<char>)
    ensures
        kept_entries(views, field, val) == views.filter(|x: EntryView| passes_filter(x, field, val)),
    decreases views.len(),
{
    let pred = |x: EntryView| passes_filter(x, field, val);
    reveal(Seq::filter);
    if views.len() > 0 {
        law_filtering_is_seq_filter(views.drop_last(), field, val);
        assert(views.drop_last().filter(pred) == kept_entries(views.drop_last(), field, val));
        assert(views.filter(pred) == if pred(views.last()) {
            views.drop_last().filter(pred).push(views.last())
        } else {
            views.drop_last().filter(pred)
        });
    } else {
        assert(views.filter(pred) == views);
        assert(views =~= Seq::<EntryView>::empty());
    }
}

/// Adding an entry at the end adds it to what is kept exactly when it
/// passes, even when it equals the entry kept before it.
pub proof fn law_filtering_appends(
    views: Seq<EntryView>,
    x: EntryView,
    field: Seq<char>,
    val: Seq<char>,
)
    ensures
        passes_filter(x, field, val) ==> kept_entries(views.push(x), field, val) == kept_entries(
            views,
            field,
            val,
        ).push(x),
        !passes_filter(x, field, val) ==> kept_entries(views.push(x), field, val) == kept_entries(
            views,
            field,
            val,
        ),
{
    assert(views.push(x).drop_last() =~= views);
    assert(views.push(x).last() == x);
}

} // verus!
