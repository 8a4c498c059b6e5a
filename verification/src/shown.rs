//! What a coloured line shows: colouring a line only wraps parts of it in
//! escape sequences, so that, once these are removed, the line is what it was.

use vstd::prelude::*;

use crate::colorize::{
    apply_spec, esc, escape_free, lemma_reapply_escape_free, lemma_sgr_end,
    lemma_strip_escape_free_prefix, lemma_style_codes_are_params, line_color_plan, painted_as,
    painted_plan, sgr_params, strip_escapes, style_code, ColorMode, Style,
};
use crate::outside::{escape_sequence, reset_sequence, styled, truecolor_code};
use crate::text::{contains, first_occurrence, first_occurrence_from, occurs_at, replace_first_spec};

verus! {

/// The style codes that the colouring writes, with `0`, the code of the
/// reset sequence, first.
pub open spec fn color_codes() -> Seq<Seq<char>> {
    seq!["0"@, "1;32"@, "1;34"@, "31"@, "32"@, "34"@, "33"@, "36"@, truecolor_code(128, 128, 0)]
}

/// Whether `h` starts with the escape sequence of `code`.
pub open spec fn starts_with_escape(h: Seq<char>, code: Seq<char>) -> bool {
    &&& escape_sequence(code).len() <= h.len()
    &&& h.take(escape_sequence(code).len() as int) == escape_sequence(code)
}

/// Whether `h` is made of characters other than `ESC` and of whole escape
/// sequences of the colouring's codes.
pub open spec fn well_formed(h: Seq<char>) -> bool
    decreases h.len(), color_codes().len() + 1,
{
    if h.len() == 0 {
        true
    } else if h[0] != esc() {
        well_formed(h.drop_first())
    } else {
        well_formed_escape(h, 0)
    }
}

/// Whether `h` starts with the escape sequence of one of the codes from the
/// `k`-th on, followed by a well-formed rest.
pub open spec fn well_formed_escape(h: Seq<char>, k: int) -> bool
    decreases h.len(), color_codes().len() - k,
{
    if k < 0 || k >= color_codes().len() {
        false
    } else {
        let e = escape_sequence(color_codes()[k]);
        ||| (starts_with_escape(h, color_codes()[k]) && 0 < e.len() && well_formed(
            h.skip(e.len() as int),
        ))
        ||| well_formed_escape(h, k + 1)
    }
}

/// Whether a coloured part's text can only be found outside escape
/// sequences: it is not empty, holds no `ESC` and no `m`, and stands inside
/// none of the escape sequences of the colouring.
pub open spec fn fits_outside_escapes(p: Seq<char>) -> bool {
    &&& p.len() > 0
    &&& escape_free(p)
    &&& forall|i: int| 0 <= i < p.len() ==> p[i] != 'm'
    &&& forall|k: int| 0 <= k < color_codes().len() ==> !contains(seq!['['] + color_codes()[k], p)
}

/// The codes are made of digits and `;`.
proof fn lemma_codes_are_params(k: int)
    requires
        0 <= k < color_codes().len(),
    ensures
        sgr_params(color_codes()[k]),
{
    reveal_strlit("0");
    lemma_style_codes_are_params(Style::GreenBold);
    lemma_style_codes_are_params(Style::BlueBold);
    lemma_style_codes_are_params(Style::Red);
    lemma_style_codes_are_params(Style::Green);
    lemma_style_codes_are_params(Style::Blue);
    lemma_style_codes_are_params(Style::Yellow);
    lemma_style_codes_are_params(Style::Cyan);
    lemma_style_codes_are_params(Style::Olive);
}

/// The reset sequence is the escape sequence of the code `0`.
proof fn lemma_reset_is_escape()
    ensures
        reset_sequence() == escape_sequence(color_codes()[0]),
{
    reveal_strlit("0");
    assert(reset_sequence() =~= escape_sequence("0"@));
}

/// The code that a well-formed escape starts with.
proof fn lemma_escape_code(h: Seq<char>, j: int) -> (k: int)
    requires
        well_formed_escape(h, j),
    ensures
        j <= k < color_codes().len(),
        starts_with_escape(h, color_codes()[k]),
        0 < escape_sequence(color_codes()[k]).len(),
        well_formed(h.skip(escape_sequence(color_codes()[k]).len() as int)),
    decreases color_codes().len() - j,
{
    let e = escape_sequence(color_codes()[j]);
    if starts_with_escape(h, color_codes()[j]) && 0 < e.len() && well_formed(h.skip(e.len() as int)) {
        j
    } else {
        lemma_escape_code(h, j + 1)
    }
}

/// An escape of code `k` followed by a well-formed rest is well formed.
proof fn lemma_escape_then_well_formed(k: int, rest: Seq<char>)
    requires
        0 <= k < color_codes().len(),
        well_formed(rest),
    ensures
        well_formed(escape_sequence(color_codes()[k]) + rest),
{
    let e = escape_sequence(color_codes()[k]);
    let h = e + rest;
    assert(h.take(e.len() as int) =~= e);
    assert(h.skip(e.len() as int) =~= rest);
    assert(h[0] == esc());
    lemma_escape_from(h, 0, k);
}

/// A well-formed escape found at code `k` is found from any earlier code.
proof fn lemma_escape_from(h: Seq<char>, j: int, k: int)
    requires
        0 <= j <= k < color_codes().len(),
        starts_with_escape(h, color_codes()[k]),
        well_formed(h.skip(escape_sequence(color_codes()[k]).len() as int)),
    ensures
        well_formed_escape(h, j),
    decreases k - j,
{
    if j < k {
        lemma_escape_from(h, j + 1, k);
    }
}

/// Plain characters in front of a well-formed text keep it well formed.
proof fn lemma_plain_then_well_formed(x: Seq<char>, y: Seq<char>)
    requires
        escape_free(x),
        well_formed(y),
    ensures
        well_formed(x + y),
    decreases x.len(),
{
    if x.len() == 0 {
        assert(x + y =~= y);
    } else {
        assert((x + y)[0] == x[0]);
        assert((x + y).drop_first() =~= x.drop_first() + y);
        lemma_plain_then_well_formed(x.drop_first(), y);
    }
}

/// What follows plain characters at the start of a well-formed text is well formed.
proof fn lemma_well_formed_after_plain(x: Seq<char>, y: Seq<char>)
    requires
        escape_free(x),
        well_formed(x + y),
    ensures
        well_formed(y),
    decreases x.len(),
{
    if x.len() == 0 {
        assert(x + y =~= y);
    } else {
        assert((x + y)[0] == x[0]);
        assert((x + y).drop_first() =~= x.drop_first() + y);
        lemma_well_formed_after_plain(x.drop_first(), y);
    }
}

/// An escape sequence of the colouring shows nothing.
proof fn lemma_strip_escape(k: int, rest: Seq<char>)
    requires
        0 <= k < color_codes().len(),
    ensures
        strip_escapes(escape_sequence(color_codes()[k]) + rest) == strip_escapes(rest),
{
    let c = color_codes()[k];
    lemma_codes_are_params(k);
    let h = escape_sequence(c) + rest;
    let n: int = c.len() as int + 3;
    lemma_sgr_end(c, rest, 2);
    assert(h[0] == esc() && h[1] == '[');
    assert(h.skip(n) =~= rest);
}

/// The index of `code` among the codes, for the codes that painting writes.
proof fn lemma_painted_code(style: Style) -> (k: int)
    ensures
        0 <= k < color_codes().len(),
        color_codes()[k] == style_code(style),
{
    match style {
        Style::GreenBold => 1,
        Style::BlueBold => 2,
        Style::Red => 3,
        Style::Green => 4,
        Style::Blue => 5,
        Style::Yellow => 6,
        Style::Cyan => 7,
        Style::Olive => 8,
    }
}

/// What is painted for an escape-free text, in front of a well-formed text,
/// keeps it well formed and shows the text.
proof fn lemma_painted_then_well_formed(p: Seq<char>, style: Style, o: Seq<char>, rest: Seq<char>)
    requires
        escape_free(p),
        painted_as(p, style, o),
        well_formed(rest),
    ensures
        well_formed(o + rest),
        strip_escapes(o + rest) == p + strip_escapes(rest),
{
    if o == p {
        lemma_plain_then_well_formed(p, rest);
        lemma_strip_escape_free_prefix(p, rest);
    } else {
        let k: int = if o == styled(p, style_code(style)) {
            lemma_painted_code(style)
        } else {
            6
        };
        let c = color_codes()[k];
        assert(o == styled(p, c));
        lemma_reapply_escape_free(p, escape_sequence(c));
        lemma_reset_is_escape();
        let tail = escape_sequence(color_codes()[0]) + rest;
        assert(o + rest =~= escape_sequence(c) + (p + tail));
        lemma_escape_then_well_formed(0, rest);
        lemma_plain_then_well_formed(p, tail);
        lemma_escape_then_well_formed(k, p + tail);
        lemma_strip_escape(k, p + tail);
        lemma_strip_escape_free_prefix(p, tail);
        lemma_strip_escape(0, rest);
    }
}

/// A part that fits outside escape sequences cannot be found inside one.
proof fn lemma_not_inside_escape(k: int, rest: Seq<char>, p: Seq<char>, j: int)
    requires
        0 <= k < color_codes().len(),
        fits_outside_escapes(p),
        0 <= j < escape_sequence(color_codes()[k]).len(),
    ensures
        !occurs_at(escape_sequence(color_codes()[k]) + rest, p, j),
{
    let c = color_codes()[k];
    let e = escape_sequence(c);
    let h = e + rest;
    let n: int = p.len() as int;
    lemma_codes_are_params(k);
    if occurs_at(h, p, j) {
        assert(h.subrange(j, j + n)[0] == h[j]);
        if j == 0 {
            assert(p[0] == esc());
        } else if j + n <= e.len() - 1 {
            let b = seq!['['] + c;
            assert forall|t: int| 0 <= t < n implies b.subrange(j - 1, j - 1 + n)[t] == p[t] by {
                assert(h.subrange(j, j + n)[t] == h[j + t]);
                assert(h[j + t] == e[j + t]);
            }
            assert(b.subrange(j - 1, j - 1 + n) =~= p);
            assert(occurs_at(b, p, j - 1));
            assert(contains(b, p));
        } else {
            let t: int = e.len() - 1 - j;
            assert(h.subrange(j, j + n)[t] == h[e.len() - 1]);
            assert(p[t] == 'm');
        }
    }
}

/// Searching from `i` finds what searching from `k` finds when nothing
/// occurs in between.
proof fn lemma_first_occurrence_skip(h: Seq<char>, p: Seq<char>, i: int, k: int)
    requires
        0 <= i <= k,
        forall|j: int| i <= j < k ==> !occurs_at(h, p, j),
    ensures
        first_occurrence_from(h, p, i) == first_occurrence_from(h, p, k),
    decreases k - i,
{
    if i < k {
        if i + p.len() > h.len() {
            assert(first_occurrence_from(h, p, k) is None);
        } else {
            lemma_first_occurrence_skip(h, p, i + 1, k);
        }
    }
}

/// Searching past a prefix is searching the rest.
proof fn lemma_first_occurrence_shift(pre: Seq<char>, rest: Seq<char>, p: Seq<char>, j: int)
    requires
        0 <= j,
    ensures
        first_occurrence_from(pre + rest, p, pre.len() + j) == match first_occurrence_from(
            rest,
            p,
            j,
        ) {
            Some(m) => Some(m + pre.len()),
            None => None::<int>,
        },
    decreases rest.len() + 1 - j,
{
    let h = pre + rest;
    let m: int = pre.len() as int;
    if j + p.len() <= rest.len() {
        assert(h.subrange(m + j, m + j + p.len()) =~= rest.subrange(j, j + p.len()));
        assert(occurs_at(h, p, m + j) == occurs_at(rest, p, j));
        lemma_first_occurrence_shift(pre, rest, p, j + 1);
    }
}

/// Replacing the first occurrence after a prefix in which nothing occurs
/// leaves the prefix.
proof fn lemma_replace_after_prefix(pre: Seq<char>, rest: Seq<char>, p: Seq<char>, o: Seq<char>)
    requires
        forall|j: int| 0 <= j < pre.len() ==> !occurs_at(pre + rest, p, j),
    ensures
        replace_first_spec(pre + rest, p, o) == pre + replace_first_spec(rest, p, o),
{
    let h = pre + rest;
    lemma_first_occurrence_skip(h, p, 0, pre.len() as int);
    lemma_first_occurrence_shift(pre, rest, p, 0);
    assert(pre.len() + 0 == pre.len());
    match first_occurrence(rest, p) {
        Some(m) => {
            let i: int = m + pre.len();
            assert(first_occurrence(h, p) == Some(i));
            crate::text::lemma_first_occurrence_from_occurs(rest, p, 0);
            assert(h.subrange(0, i) =~= pre + rest.subrange(0, m));
            assert(h.subrange(i + p.len(), h.len() as int) =~= rest.subrange(
                m + p.len(),
                rest.len() as int,
            ));
            assert(replace_first_spec(h, p, o) =~= pre + replace_first_spec(rest, p, o));
        },
        None => {},
    }
}

/// Replacing the first occurrence of a part that fits outside escape
/// sequences by what is painted for it keeps a text well formed and keeps
/// what it shows.
proof fn lemma_replace_keeps_shown(h: Seq<char>, p: Seq<char>, style: Style, o: Seq<char>)
    requires
        well_formed(h),
        fits_outside_escapes(p),
        painted_as(p, style, o),
    ensures
        well_formed(replace_first_spec(h, p, o)),
        strip_escapes(replace_first_spec(h, p, o)) == strip_escapes(h),
    decreases h.len(),
{
    let n: int = p.len() as int;
    if h.len() == 0 {
        assert(first_occurrence(h, p) is None);
    } else if h[0] != esc() {
        if occurs_at(h, p, 0) {
            let rest = h.skip(n);
            assert(first_occurrence(h, p) == Some(0int));
            assert(h =~= p + rest);
            assert(h.subrange(0, 0) + o + h.subrange(n, h.len() as int) =~= o + rest);
            lemma_well_formed_after_plain(p, rest);
            lemma_painted_then_well_formed(p, style, o, rest);
            lemma_strip_escape_free_prefix(p, rest);
        } else {
            let pre = seq![h[0]];
            let rest = h.drop_first();
            assert(h =~= pre + rest);
            lemma_replace_after_prefix(pre, rest, p, o);
            lemma_replace_keeps_shown(rest, p, style, o);
            lemma_plain_then_well_formed(pre, replace_first_spec(rest, p, o));
            lemma_strip_escape_free_prefix(pre, replace_first_spec(rest, p, o));
            lemma_strip_escape_free_prefix(pre, rest);
        }
    } else {
        let k = lemma_escape_code(h, 0);
        let e = escape_sequence(color_codes()[k]);
        let rest = h.skip(e.len() as int);
        assert(h =~= e + rest);
        assert forall|j: int| 0 <= j < e.len() implies !occurs_at(e + rest, p, j) by {
            lemma_not_inside_escape(k, rest, p, j);
        }
        lemma_replace_after_prefix(e, rest, p, o);
        lemma_replace_keeps_shown(rest, p, style, o);
        lemma_escape_then_well_formed(k, replace_first_spec(rest, p, o));
        lemma_strip_escape(k, replace_first_spec(rest, p, o));
        lemma_strip_escape(k, rest);
    }
}

/// Applying painted replacements whose parts fit outside escape sequences
/// keeps a line well formed and keeps what it shows.
proof fn lemma_apply_keeps_shown(
    line: Seq<char>,
    plan: Seq<(Seq<char>, Style)>,
    reps: Seq<(Seq<char>, Seq<char>)>,
)
    requires
        escape_free(line),
        painted_plan(plan, reps),
        forall|k: int| 0 <= k < plan.len() ==> fits_outside_escapes(#[trigger] plan[k].0),
    ensures
        well_formed(apply_spec(line, reps)),
        strip_escapes(apply_spec(line, reps)) == line,
    decreases reps.len(),
{
    if reps.len() == 0 {
        lemma_plain_then_well_formed(line, Seq::<char>::empty());
        lemma_strip_escape_free_prefix(line, Seq::<char>::empty());
        assert(line + Seq::<char>::empty() =~= line);
    } else {
        let last: int = reps.len() - 1;
        assert(painted_plan(plan.drop_last(), reps.drop_last())) by {
            assert forall|k: int| 0 <= k < plan.drop_last().len() implies #[trigger] reps.drop_last()[k].0
                == plan.drop_last()[k].0 && painted_as(
                plan.drop_last()[k].0,
                plan.drop_last()[k].1,
                reps.drop_last()[k].1,
            ) by {
                assert(reps[k].0 == plan[k].0);
            }
        }
        assert forall|k: int| 0 <= k < plan.drop_last().len() implies fits_outside_escapes(
            #[trigger] plan.drop_last()[k].0,
        ) by {
            assert(fits_outside_escapes(plan[k].0));
        }
        lemma_apply_keeps_shown(line, plan.drop_last(), reps.drop_last());
        assert(reps[last].0 == plan[last].0);
        assert(fits_outside_escapes(plan[last].0));
        lemma_replace_keeps_shown(
            apply_spec(line, reps.drop_last()),
            plan[last].0,
            plan[last].1,
            reps[last].1,
        );
    }
}

/// Colouring a line keeps what it shows: once the escape sequences are
/// removed, the coloured line is the line, provided the line holds no `ESC`
/// and the text of every coloured part can only be found outside the escape
/// sequences (no `m`, no `ESC`, inside none of the colouring's escape
/// sequences). This holds whatever the colouring writes, on or off.
pub proof fn law_coloured_line_shows_line(
    line: Seq<char>,
    mode: ColorMode,
    reps: Seq<(Seq<char>, Seq<char>)>,
)
    requires
        escape_free(line),
        painted_plan(line_color_plan(line, mode), reps),
        forall|k: int|
            0 <= k < line_color_plan(line, mode).len() ==> fits_outside_escapes(
                #[trigger] line_color_plan(line, mode)[k].0,
            ),
    ensures
        strip_escapes(apply_spec(line, reps)) == line,
{
    lemma_apply_keeps_shown(line, line_color_plan(line, mode), reps);
}

/// Colouring one part of an escape-free line, whatever the colouring, keeps
/// what the line shows: with its escape sequences removed it is the line.
pub proof fn law_one_coloured_part_keeps_line(
    line: Seq<char>,
    text: Seq<char>,
    style: Style,
    out: Seq<char>,
)
    requires
        escape_free(line),
        painted_as(text, style, out),
    ensures
        strip_escapes(replace_first_spec(line, text, out)) == line,
{
    crate::text::lemma_first_occurrence_from_occurs(line, text, 0);
    match first_occurrence(line, text) {
        Some(i) => {
            let a = line.subrange(0, i);
            let b = line.subrange(i + text.len(), line.len() as int);
            assert(occurs_at(line, text, i));
            assert(escape_free(text)) by {
                assert forall|j: int| 0 <= j < text.len() implies text[j] != esc() by {
                    assert(line.subrange(i, i + text.len())[j] == line[i + j]);
                }
            }
            assert(line =~= a + (text + b));
            assert(replace_first_spec(line, text, out) =~= a + (out + b));
            lemma_plain_then_well_formed(b, Seq::<char>::empty());
            lemma_strip_escape_free_prefix(b, Seq::<char>::empty());
            assert(b + Seq::<char>::empty() =~= b);
            lemma_painted_then_well_formed(text, style, out, b);
            lemma_strip_escape_free_prefix(a, out + b);
        },
        None => {
            lemma_strip_escape_free_prefix(line, Seq::<char>::empty());
            assert(line + Seq::<char>::empty() =~= line);
        },
    }
}

} // verus!
