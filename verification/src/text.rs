//! Character-level text operations on which the log parsers are built:
//! whitespace and bracket trimming, character and substring search, and
//! first-occurrence replacement, each stated over `Seq<char>`.

use vstd::prelude::*;

use crate::outside::push_char;

verus! {

/// Whether `c` has the Unicode `White_Space` property, the property that
/// `char::is_whitespace` (and hence `str::trim`) tests.
pub open spec fn is_white_space(c: char) -> bool {
    let n = c as u32;
    ||| 0x09 <= n <= 0x0d
    ||| n == 0x20
    ||| n == 0x85
    ||| n == 0xa0
    ||| n == 0x1680
    ||| 0x2000 <= n <= 0x200a
    ||| n == 0x2028
    ||| n == 0x2029
    ||| n == 0x202f
    ||| n == 0x205f
    ||| n == 0x3000
}

/// Tests the Unicode `White_Space` property of a character.
pub fn is_whitespace_char(c: char) -> (b: bool)
    ensures
        b == is_white_space(c),
{
    let n: u32 = c as u32;
    (0x09 <= n && n <= 0x0d) || n == 0x20 || n == 0x85 || n == 0xa0 || n == 0x1680 || (0x2000 <= n
        && n <= 0x200a) || n == 0x2028 || n == 0x2029 || n == 0x202f || n == 0x205f || n == 0x3000
}

/// The sets of characters that the trimming operations remove.
#[derive(Clone, Copy, Debug, PartialEq, Eq)]
pub enum CharClass {
    /// Characters with the `White_Space` property.
    WhiteSpace,
    /// `[` and `]`.
    Brackets,
    /// `[` alone.
    OpenBracket,
    /// `]` alone.
    CloseBracket,
}

pub open spec fn in_class(class: CharClass, c: char) -> bool {
    match class {
        CharClass::WhiteSpace => is_white_space(c),
        CharClass::Brackets => c == '[' || c == ']',
        CharClass::OpenBracket => c == '[',
        CharClass::CloseBracket => c == ']',
    }
}

/// Tests whether `c` belongs to `class`.
pub fn class_contains(class: CharClass, c: char) -> (b: bool)
    ensures
        b == in_class(class, c),
{
    match class {
        CharClass::WhiteSpace => is_whitespace_char(c),
        CharClass::Brackets => c == '[' || c == ']',
        CharClass::OpenBracket => c == '[',
        CharClass::CloseBracket => c == ']',
    }
}

/// `s` without its leading characters of `class`.
pub open spec fn strip_start(s: Seq<char>, class: CharClass) -> Seq<char>
    decreases s.len(),
{
    if s.len() > 0 && in_class(class, s[0]) {
        strip_start(s.drop_first(), class)
    } else {
        s
    }
}

/// `s` without its trailing characters of `class`.
pub open spec fn strip_end(s: Seq<char>, class: CharClass) -> Seq<char>
    decreases s.len(),
{
    if s.len() > 0 && in_class(class, s.last()) {
        strip_end(s.drop_last(), class)
    } else {
        s
    }
}

/// What `str::trim` leaves of `s`.
pub open spec fn trim(s: Seq<char>) -> Seq<char> {
    strip_end(strip_start(s, CharClass::WhiteSpace), CharClass::WhiteSpace)
}

/// What `str::trim_matches(['[', ']'])` leaves of `s`.
pub open spec fn trim_brackets(s: Seq<char>) -> Seq<char> {
    strip_end(strip_start(s, CharClass::Brackets), CharClass::Brackets)
}

/// What `s.trim_start_matches('[').trim_end_matches(']')` leaves of `s`.
pub open spec fn unbracket(s: Seq<char>) -> Seq<char> {
    strip_end(strip_start(s, CharClass::OpenBracket), CharClass::CloseBracket)
}

/// Copies `s[from..to]` into a new vector.
pub fn copy_range(s: &[char], from: usize, to: usize) -> (r: Vec<char>)
    requires
        from <= to <= s@.len(),
    ensures
        r@ == s@.subrange(from as int, to as int),
{
    let mut r: Vec<char> = Vec::new();
    let mut k: usize = from;
    while k < to
        invariant
            from <= k <= to <= s@.len(),
            r@ == s@.subrange(from as int, k as int),
        decreases to - k,
    {
        r.push(s[k]);
        k += 1;
        assert(r@ =~= s@.subrange(from as int, k as int));
    }
    r
}

/// Removes the leading characters of `lead` and then the trailing characters of `trail`.
pub fn strip(s: &[char], lead: CharClass, trail: CharClass) -> (r: Vec<char>)
    ensures
        r@ == strip_end(strip_start(s@, lead), trail),
{
    let len: usize = s.len();
    let mut i: usize = 0;
    assert(s@.subrange(0, len as int) =~= s@);
    while i < len && class_contains(lead, s[i])
        invariant
            len == s@.len(),
            0 <= i <= len,
            strip_start(s@, lead) == strip_start(s@.subrange(i as int, len as int), lead),
        decreases len - i,
    {
        assert(s@.subrange(i as int, len as int).drop_first() =~= s@.subrange(
            i + 1,
            len as int,
        ));
        i += 1;
    }
    let ghost middle = s@.subrange(i as int, len as int);
    assert(strip_start(s@, lead) == middle);
    let mut j: usize = len;
    while j > i && class_contains(trail, s[j - 1])
        invariant
            len == s@.len(),
            0 <= i <= j <= len,
            strip_end(middle, trail) == strip_end(s@.subrange(i as int, j as int), trail),
        decreases j,
    {
        assert(s@.subrange(i as int, j as int).drop_last() =~= s@.subrange(i as int, j - 1));
        j -= 1;
    }
    copy_range(s, i, j)
}

/// The index of the first `c` in `s`, if any.
pub open spec fn find_char(s: Seq<char>, c: char) -> Option<int>
    decreases s.len(),
{
    if s.len() == 0 {
        None
    } else if s[0] == c {
        Some(0)
    } else {
        match find_char(s.drop_first(), c) {
            Some(i) => Some(i + 1),
            None => None,
        }
    }
}

/// `o` with `d` added to the index it holds.
pub open spec fn shift(o: Option<int>, d: int) -> Option<int> {
    match o {
        Some(i) => Some(i + d),
        None => None,
    }
}

/// Finds the first occurrence of `c` in `s`.
pub fn position_of(s: &[char], c: char) -> (r: Option<usize>)
    ensures
        match r {
            Some(i) => find_char(s@, c) == Some(i as int) && i < s@.len() && s@[i as int] == c,
            None => find_char(s@, c) is None,
        },
{
    let len: usize = s.len();
    let mut i: usize = 0;
    assert(s@.subrange(0, len as int) =~= s@);
    while i < len
        invariant
            len == s@.len(),
            0 <= i <= len,
            find_char(s@, c) == shift(find_char(s@.subrange(i as int, len as int), c), i as int),
        decreases len - i,
    {
        if s[i] == c {
            return Some(i);
        }
        assert(s@.subrange(i as int, len as int).drop_first() =~= s@.subrange(
            i + 1,
            len as int,
        ));
        i += 1;
    }
    None
}

/// Whether `pat` occurs in `hay` at index `i`.
pub open spec fn occurs_at(hay: Seq<char>, pat: Seq<char>, i: int) -> bool {
    &&& 0 <= i
    &&& i + pat.len() <= hay.len()
    &&& hay.subrange(i, i + pat.len()) == pat
}

/// Whether `pat` is a substring of `hay` (what `str::contains` tests for a string pattern).
pub open spec fn contains(hay: Seq<char>, pat: Seq<char>) -> bool {
    exists|i: int| occurs_at(hay, pat, i)
}

/// The first index at or after `i` where `pat` occurs in `hay`.
pub open spec fn first_occurrence_from(hay: Seq<char>, pat: Seq<char>, i: int) -> Option<int>
    decreases hay.len() + 1 - i,
{
    if i < 0 || i + pat.len() > hay.len() {
        None
    } else if occurs_at(hay, pat, i) {
        Some(i)
    } else {
        first_occurrence_from(hay, pat, i + 1)
    }
}

/// The first index where `pat` occurs in `hay`.
pub open spec fn first_occurrence(hay: Seq<char>, pat: Seq<char>) -> Option<int> {
    first_occurrence_from(hay, pat, 0)
}

/// What `hay.replacen(pat, rep, 1)` returns: `hay` with the first occurrence of
/// `pat` replaced by `rep`, or `hay` itself when `pat` does not occur.
pub open spec fn replace_first_spec(hay: Seq<char>, pat: Seq<char>, rep: Seq<char>) -> Seq<char> {
    match first_occurrence(hay, pat) {
        Some(i) => hay.subrange(0, i) + rep + hay.subrange(i + pat.len(), hay.len() as int),
        None => hay,
    }
}

/// Tests whether `pat` occurs in `hay` at index `i`.
pub fn matches_at(hay: &[char], pat: &[char], i: usize) -> (b: bool)
    ensures
        b == occurs_at(hay@, pat@, i as int),
{
    if i > hay.len() || pat.len() > hay.len() - i {
        return false;
    }
    let mut k: usize = 0;
    while k < pat.len()
        invariant
            i + pat.len() <= hay.len(),
            0 <= k <= pat@.len(),
            forall|m: int| 0 <= m < k ==> hay@[i + m] == pat@[m],
        decreases pat.len() - k,
    {
        if hay[i + k] != pat[k] {
            assert(hay@.subrange(i as int, i + pat@.len())[k as int] != pat@[k as int]);
            return false;
        }
        k += 1;
    }
    assert(hay@.subrange(i as int, i + pat@.len()) =~= pat@);
    true
}

/// Finds the first occurrence of `pat` in `hay`.
pub fn find_substring(hay: &[char], pat: &[char]) -> (r: Option<usize>)
    ensures
        match r {
            Some(i) => first_occurrence(hay@, pat@) == Some(i as int) && occurs_at(hay@, pat@, i as int),
            None => first_occurrence(hay@, pat@) is None,
        },
        r is None <==> !contains(hay@, pat@),
{
    if pat.len() > hay.len() {
        assert(!contains(hay@, pat@));
        return None;
    }
    let last: usize = hay.len() - pat.len();
    let mut i: usize = 0;
    while i <= last
        invariant
            last + pat@.len() == hay@.len(),
            0 <= i <= last + 1,
            first_occurrence(hay@, pat@) == first_occurrence_from(hay@, pat@, i as int),
            forall|k: int| 0 <= k < i ==> !occurs_at(hay@, pat@, k),
        decreases last + 1 - i,
    {
        if matches_at(hay, pat, i) {
            return Some(i);
        }
        if i == last {
            assert(first_occurrence_from(hay@, pat@, i + 1) is None);
            assert forall|k: int| !occurs_at(hay@, pat@, k) by {
                if 0 <= k < i {
                }
            }
            return None;
        }
        i += 1;
    }
    assert forall|k: int| !occurs_at(hay@, pat@, k) by {
        if 0 <= k < i {
        }
    }
    None
}

/// Tests whether `pat` is a substring of `hay`.
pub fn contains_chars(hay: &[char], pat: &[char]) -> (b: bool)
    ensures
        b == contains(hay@, pat@),
{
    find_substring(hay, pat).is_some()
}

/// Replaces the first occurrence of `pat` in `hay` by `rep`.
pub fn replace_first(hay: &[char], pat: &[char], rep: &[char]) -> (r: Vec<char>)
    ensures
        r@ == replace_first_spec(hay@, pat@, rep@),
{
    match find_substring(hay, pat) {
        Some(i) => {
            let hay_len: usize = hay.len();
            assert(i + pat.len() <= hay_len);
            let mut r = copy_range(hay, 0, i);
            let mut k: usize = 0;
            while k < rep.len()
                invariant
                    0 <= k <= rep@.len(),
                    i + pat@.len() <= hay@.len(),
                    r@ == hay@.subrange(0, i as int) + rep@.subrange(0, k as int),
                decreases rep.len() - k,
            {
                r.push(rep[k]);
                k += 1;
                assert(r@ =~= hay@.subrange(0, i as int) + rep@.subrange(0, k as int));
            }
            let mut m: usize = i + pat.len();
            while m < hay.len()
                invariant
                    i + pat@.len() <= m <= hay@.len(),
                    r@ == hay@.subrange(0, i as int) + rep@ + hay@.subrange(
                        i + pat@.len(),
                        m as int,
                    ),
                decreases hay.len() - m,
            {
                r.push(hay[m]);
                m += 1;
                assert(r@ =~= hay@.subrange(0, i as int) + rep@ + hay@.subrange(
                    i + pat@.len(),
                    m as int,
                ));
            }
            assert(rep@.subrange(0, rep@.len() as int) =~= rep@);
            r
        },
        None => copy_range(hay, 0, hay.len()),
    }
}

/// The characters of a string slice.
pub fn chars_of(s: &str) -> (v: Vec<char>)
    ensures
        v@ == s@,
{
    let mut v: Vec<char> = Vec::new();
    for c in it: s.chars()
        invariant
            v@ == it.seq().take(it.index() as int),
    {
        v.push(c);
    }
    v
}

/// A string made of the given characters.
pub fn string_of(v: &[char]) -> (s: String)
    ensures
        s@ == v@,
{
    let mut s = String::new();
    let mut k: usize = 0;
    while k < v.len()
        invariant
            0 <= k <= v@.len(),
            s@ == v@.subrange(0, k as int),
        decreases v.len() - k,
    {
        push_char(&mut s, v[k]);
        k += 1;
        assert(s@ =~= v@.subrange(0, k as int));
    }
    assert(v@.subrange(0, v@.len() as int) =~= v@);
    s
}

/// Tests whether two character sequences are equal.
pub fn same_chars(a: &[char], b: &[char]) -> (r: bool)
    ensures
        r == (a@ == b@),
{
    if a.len() != b.len() {
        return false;
    }
    let mut k: usize = 0;
    while k < a.len()
        invariant
            a@.len() == b@.len(),
            0 <= k <= a@.len(),
            forall|m: int| 0 <= m < k ==> a@[m] == b@[m],
        decreases a.len() - k,
    {
        if a[k] != b[k] {
            return false;
        }
        k += 1;
    }
    assert(a@ =~= b@);
    true
}

/// Tests whether two strings hold the same characters.
pub fn same_text(a: &str, b: &str) -> (r: bool)
    ensures
        r == (a@ == b@),
{
    let va = chars_of(a);
    let vb = chars_of(b);
    same_chars(va.as_slice(), vb.as_slice())
}

/// `str::trim`.
pub fn trim_str(s: &str) -> (r: Vec<char>)
    ensures
        r@ == trim(s@),
{
    let v = chars_of(s);
    strip(v.as_slice(), CharClass::WhiteSpace, CharClass::WhiteSpace)
}

/// Every sequence contains itself.
pub proof fn lemma_contains_self(s: Seq<char>)
    ensures
        contains(s, s),
{
    assert(s.subrange(0, s.len() as int) =~= s);
    assert(occurs_at(s, s, 0));
}

/// Replacing the first occurrence of a text by itself changes nothing.
pub proof fn lemma_replace_first_identity(hay: Seq<char>, pat: Seq<char>)
    ensures
        replace_first_spec(hay, pat, pat) == hay,
{
    match first_occurrence(hay, pat) {
        Some(i) => {
            lemma_first_occurrence_from_occurs(hay, pat, 0);
            assert(hay.subrange(0, i) + pat + hay.subrange(i + pat.len(), hay.len() as int) =~= hay);
        },
        None => {},
    }
}

/// What the search finds is an occurrence.
pub proof fn lemma_first_occurrence_from_occurs(hay: Seq<char>, pat: Seq<char>, i: int)
    ensures
        first_occurrence_from(hay, pat, i) matches Some(j) ==> occurs_at(hay, pat, j),
    decreases hay.len() + 1 - i,
{
    if i < 0 || i + pat.len() > hay.len() {
    } else if occurs_at(hay, pat, i) {
    } else {
        lemma_first_occurrence_from_occurs(hay, pat, i + 1);
    }
}

/// A leading character of the class is stripped.
pub proof fn lemma_strip_start_cons(c: char, s: Seq<char>, class: CharClass)
    requires
        in_class(class, c),
    ensures
        strip_start(seq![c] + s, class) == strip_start(s, class),
{
    assert((seq![c] + s).drop_first() =~= s);
}

/// A trailing character of the class is stripped.
pub proof fn lemma_strip_end_snoc(s: Seq<char>, c: char, class: CharClass)
    requires
        in_class(class, c),
    ensures
        strip_end(s + seq![c], class) == strip_end(s, class),
{
    assert((s + seq![c]).drop_last() =~= s);
}

/// Stripping the start of `s + t` strips `s` first, and reaches `t` only
/// when all of `s` goes.
pub proof fn lemma_strip_start_append(s: Seq<char>, t: Seq<char>, class: CharClass)
    ensures
        strip_start(s + t, class) == if strip_start(s, class).len() == 0 {
            strip_start(t, class)
        } else {
            strip_start(s, class) + t
        },
    decreases s.len(),
{
    if s.len() == 0 {
        assert(s + t =~= t);
    } else if in_class(class, s[0]) {
        assert((s + t).drop_first() =~= s.drop_first() + t);
        lemma_strip_start_append(s.drop_first(), t, class);
    } else {
        assert((s + t)[0] == s[0]);
    }
}

/// Whether every character of `s` is ASCII.
pub open spec fn is_ascii_text(s: Seq<char>) -> bool {
    forall|i: int| 0 <= i < s.len() ==> (s[i] as u32) < 128
}

/// The ASCII lowercase of a character: `A`..`Z` become `a`..`z`, every other
/// character stays.
pub open spec fn ascii_lower_char(c: char) -> char {
    if 65 <= (c as u32) <= 90 {
        ((c as u32) + 32) as char
    } else {
        c
    }
}

/// The ASCII lowercase of a text.
pub open spec fn ascii_lower(s: Seq<char>) -> Seq<char> {
    Seq::new(s.len(), |i: int| ascii_lower_char(s[i]))
}

/// Lowercasing a character does not change whether it is trimmed.
pub proof fn lemma_class_ignores_ascii_case(class: CharClass, c: char)
    ensures
        in_class(class, ascii_lower_char(c)) == in_class(class, c),
{
    if 65 <= (c as u32) <= 90 {
        assert(97 <= (ascii_lower_char(c) as u32) <= 122);
    }
}

/// Stripping the start and lowercasing commute.
pub proof fn lemma_strip_start_ascii_lower(s: Seq<char>, class: CharClass)
    ensures
        ascii_lower(strip_start(s, class)) == strip_start(ascii_lower(s), class),
    decreases s.len(),
{
    if s.len() > 0 {
        lemma_class_ignores_ascii_case(class, s[0]);
        assert(ascii_lower(s)[0] == ascii_lower_char(s[0]));
        if in_class(class, s[0]) {
            assert(ascii_lower(s).drop_first() =~= ascii_lower(s.drop_first()));
            lemma_strip_start_ascii_lower(s.drop_first(), class);
        }
    } else {
        assert(ascii_lower(s) =~= s);
    }
}

/// Stripping the end and lowercasing commute.
pub proof fn lemma_strip_end_ascii_lower(s: Seq<char>, class: CharClass)
    ensures
        ascii_lower(strip_end(s, class)) == strip_end(ascii_lower(s), class),
    decreases s.len(),
{
    if s.len() > 0 {
        lemma_class_ignores_ascii_case(class, s.last());
        assert(ascii_lower(s).last() == ascii_lower_char(s.last()));
        if in_class(class, s.last()) {
            assert(ascii_lower(s).drop_last() =~= ascii_lower(s.drop_last()));
            lemma_strip_end_ascii_lower(s.drop_last(), class);
        }
    } else {
        assert(ascii_lower(s) =~= s);
    }
}

/// Stripping the start keeps an ASCII text ASCII.
pub proof fn lemma_strip_start_ascii(s: Seq<char>, class: CharClass)
    requires
        is_ascii_text(s),
    ensures
        is_ascii_text(strip_start(s, class)),
    decreases s.len(),
{
    if s.len() > 0 && in_class(class, s[0]) {
        lemma_strip_start_ascii(s.drop_first(), class);
    }
}

/// Stripping the end keeps an ASCII text ASCII.
pub proof fn lemma_strip_end_ascii(s: Seq<char>, class: CharClass)
    requires
        is_ascii_text(s),
    ensures
        is_ascii_text(strip_end(s, class)),
    decreases s.len(),
{
    if s.len() > 0 && in_class(class, s.last()) {
        lemma_strip_end_ascii(s.drop_last(), class);
    }
}

} // verus!
