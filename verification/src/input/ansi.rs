//! Cutting styled text to a width without breaking its control sequences.
use vstd::prelude::*;

use crate::terminal_width::{char_display_width, count_columns, escape_end_at, is_escape_at};
use crate::terminal_width::{columns, columns_from, escape_at, escape_end, lemma_escape_end};
use crate::text::{chars_of, char_count, copy_text, push_text, same_text, split_char, text_between};
use crate::text::{pieces, texts};

verus! {

/// The first visible character, from index `i` on, from which the rest of the
/// text fits in `width` columns.
pub open spec fn suffix_cut(s: Seq<char>, i: int, width: nat) -> Option<int>
    decreases s.len() - i,
{
    if i < 0 || i >= s.len() {
        None
    } else if escape_at(s, i) {
        let e = escape_end(s, i + 2);
        if i < e <= s.len() {
            suffix_cut(s, e, width)
        } else {
            None
        }
    } else if columns_from(s, i) <= width {
        Some(i)
    } else {
        suffix_cut(s, i + 1, width)
    }
}

/// The codes that take further codes as arguments.
pub open spec fn is_color_code(code: Seq<char>) -> bool {
    code == "38"@ || code == "48"@ || code == "58"@
}

/// Whether the style codes, from index `k` on, clear the style.
pub open spec fn codes_reset(codes: Seq<Seq<char>>, k: int) -> bool
    decreases codes.len() + 5 - k,
{
    if k < 0 || k >= codes.len() {
        false
    } else if codes[k].len() == 0 || codes[k] == "0"@ {
        true
    } else if is_color_code(codes[k]) && k + 1 < codes.len() && codes[k + 1] == "2"@ {
        codes_reset(codes, k + 5)
    } else if is_color_code(codes[k]) && k + 1 < codes.len() && codes[k + 1] == "5"@ {
        codes_reset(codes, k + 3)
    } else {
        codes_reset(codes, k + 1)
    }
}

/// Whether a style sequence (`ESC [ .. m`) clears the style.
pub open spec fn is_style_reset(sequence: Seq<char>) -> bool {
    let codes = sequence.subrange(2, sequence.len() - 1);
    codes.len() == 0 || codes_reset(pieces(codes, ';'), 0)
}

/// The style sequence in force at index `end`, where `cur` is in force at `i`.
pub open spec fn active_style(
    s: Seq<char>,
    i: int,
    end: int,
    cur: Option<Seq<char>>,
) -> Option<Seq<char>>
    decreases s.len() - i,
{
    if i < 0 || i >= end || i >= s.len() {
        cur
    } else if escape_at(s, i) {
        let e = escape_end(s, i + 2);
        if i < e <= s.len() {
            let sequence = s.subrange(i, e);
            let next = if sequence.last() != 'm' {
                cur
            } else if is_style_reset(sequence) {
                None
            } else {
                Some(sequence)
            };
            active_style(s, e, end, next)
        } else {
            cur
        }
    } else {
        active_style(s, i + 1, end, cur)
    }
}

pub open spec fn text_or_empty(o: Option<Seq<char>>) -> Seq<char> {
    match o {
        Some(s) => s,
        None => Seq::empty(),
    }
}

/// The end of a text that fits in `width` columns, in the style that it has there.
pub open spec fn visible_end(s: Seq<char>, width: nat) -> Seq<char> {
    if width == 0 {
        Seq::empty()
    } else if columns(s) <= width {
        s
    } else {
        match suffix_cut(s, 0, width) {
            Some(k) => text_or_empty(active_style(s, 0, k, None)) + s.skip(k),
            None => Seq::empty(),
        }
    }
}

fn color_code(code: &str) -> (r: bool)
    ensures
        r == is_color_code(code@),
{
    same_text(code, "38") || same_text(code, "48") || same_text(code, "58")
}

fn is_sgr_reset(v: &Vec<char>, from: usize, to: usize) -> (r: bool)
    requires
        from + 3 <= to <= v.len(),
    ensures
        r == is_style_reset(v@.subrange(from as int, to as int)),
{
    let body = text_between(v, from + 2, to - 1);
    let ghost sequence = v@.subrange(from as int, to as int);
    assert(sequence.subrange(2, sequence.len() - 1) =~= body@);
    if char_count(body.as_str()) == 0 {
        return true;
    }
    let codes = split_char(body.as_str(), ';');
    let ghost list = pieces(body@, ';');
    let mut k: usize = 0;
    while k < codes.len()
        invariant
            texts(codes@) == list,
            is_style_reset(v@.subrange(from as int, to as int)) == codes_reset(list, k as int),
        decreases codes.len() - k,
    {
        let code = codes[k].as_str();
        assert(code@ == list[k as int]);
        if char_count(code) == 0 || same_text(code, "0") {
            return true;
        }
        let mut step: usize = 1;
        if color_code(code) && codes.len() - k > 1 {
            let next = codes[k + 1].as_str();
            assert(next@ == list[k + 1]);
            if same_text(next, "2") {
                step = 5;
            } else if same_text(next, "5") {
                step = 3;
            }
        }
        if codes.len() - k <= step {
            assert(!codes_reset(list, k + step));
            return false;
        }
        k += step;
    }
    false
}

proof fn lemma_sequence_len(s: Seq<char>, i: int)
    requires
        escape_at(s, i),
    ensures
        i + 2 <= escape_end(s, i + 2) <= s.len(),
        s[escape_end(s, i + 2) - 1] == 'm' ==> i + 3 <= escape_end(s, i + 2),
{
    lemma_escape_end(s, i + 2);
}

fn active_sgr_before(v: &Vec<char>, end: usize) -> (r: Option<(usize, usize)>)
    requires
        end <= v.len(),
    ensures
        match r {
            Some(range) => range.0 <= range.1 <= v.len() && active_style(
                v@,
                0,
                end as int,
                None,
            ) == Some(v@.subrange(range.0 as int, range.1 as int)),
            None => active_style(v@, 0, end as int, None) is None,
        },
{
    let mut active: Option<(usize, usize)> = None;
    let ghost mut cur: Option<Seq<char>> = None;
    let mut i: usize = 0;
    while i < end
        invariant
            i <= v.len(),
            end <= v.len(),
            active_style(v@, 0, end as int, None) == active_style(v@, i as int, end as int, cur),
            match active {
                Some(range) => range.0 <= range.1 <= v.len() && cur == Some(
                    v@.subrange(range.0 as int, range.1 as int),
                ),
                None => cur is None,
            },
        decreases v.len() - i,
    {
        if is_escape_at(v, i) {
            let e = escape_end_at(v, i + 2);
            proof {
                lemma_sequence_len(v@, i as int);
            }
            assert(v@.subrange(i as int, e as int).last() == v@[e - 1]);
            if v[e - 1] == 'm' {
                if is_sgr_reset(v, i, e) {
                    active = None;
                    proof {
                        cur = None;
                    }
                } else {
                    active = Some((i, e));
                    proof {
                        cur = Some(v@.subrange(i as int, e as int));
                    }
                }
            }
            i = e;
        } else {
            i += 1;
        }
    }
    active
}

pub fn visible_suffix(text: &str, width: usize) -> (r: String)
    ensures
        r@ == visible_end(text@, width as nat),
{
    if width == 0 {
        return String::new();
    }
    let v = chars_of(text);
    let total = count_columns(&v);
    if total <= width as u128 {
        return copy_text(text);
    }
    let mut remaining: u128 = total;
    let mut i: usize = 0;
    while i < v.len()
        invariant
            i <= v.len(),
            v@ == text@,
            width > 0,
            columns(text@) > width,
            remaining == columns_from(v@, i as int),
            suffix_cut(v@, 0, width as nat) == suffix_cut(v@, i as int, width as nat),
        decreases v.len() - i,
    {
        if is_escape_at(&v, i) {
            let e = escape_end_at(&v, i + 2);
            proof {
                lemma_escape_end(v@, i + 2);
            }
            i = e;
        } else if remaining <= width as u128 {
            let mut out = String::new();
            if let Some(range) = active_sgr_before(&v, i) {
                out = text_between(&v, range.0, range.1);
            }
            let rest = text_between(&v, i, v.len());
            push_text(&mut out, rest.as_str());
            assert(v@.subrange(i as int, v.len() as int) =~= v@.skip(i as int));
            return out;
        } else {
            remaining = remaining - char_display_width(v[i]) as u128;
            i += 1;
        }
    }
    String::new()
}

// ---------------------------------------------------------------------------
// The visible end fits
// ---------------------------------------------------------------------------

pub proof fn lemma_escape_end_shift(s: Seq<char>, k: int, i: int)
    requires
        0 <= k <= s.len(),
        0 <= i <= s.len() - k,
    ensures
        escape_end(s.skip(k), i) + k == escape_end(s, i + k),
    decreases s.len() - k - i,
{
    if i < s.len() - k {
        assert(s.skip(k)[i] == s[i + k]);
        if !('@' <= s[i + k] <= '~') {
            lemma_escape_end_shift(s, k, i + 1);
        }
    }
}

/// The columns of a text from an index on are those of what follows it.
pub proof fn lemma_columns_shift(s: Seq<char>, k: int, i: int)
    requires
        0 <= k <= s.len(),
        0 <= i <= s.len() - k,
    ensures
        columns_from(s.skip(k), i) == columns_from(s, i + k),
    decreases s.len() - k - i,
{
    if i < s.len() - k {
        assert(s.skip(k)[i] == s[i + k]);
        if i + 1 < s.len() - k {
            assert(s.skip(k)[i + 1] == s[i + k + 1]);
        }
        assert(escape_at(s.skip(k), i) == escape_at(s, i + k));
        if escape_at(s, i + k) {
            lemma_escape_end_shift(s, k, i + 2);
            lemma_escape_end(s, i + k + 2);
            lemma_columns_shift(s, k, escape_end(s, i + k + 2) - k);
        } else {
            lemma_columns_shift(s, k, i + 1);
        }
    }
}

proof fn lemma_escape_end_prefix(a: Seq<char>, b: Seq<char>, i: int)
    requires
        0 <= i < a.len(),
        '@' <= a.last() <= '~',
    ensures
        escape_end(a + b, i) == escape_end(a, i),
    decreases a.len() - i,
{
    assert((a + b)[i] == a[i]);
    if !('@' <= a[i] <= '~') {
        lemma_escape_end_prefix(a, b, i + 1);
    }
}

proof fn lemma_escape_end_minimal(s: Seq<char>, i: int, e: int)
    requires
        0 <= i < e <= s.len(),
        e == escape_end(s, i),
        '@' <= s[e - 1] <= '~',
    ensures
        escape_end(s.take(e), i) == e,
    decreases e - i,
{
    assert(s.take(e)[i] == s[i]);
    if !('@' <= s[i] <= '~') {
        assert(i + 1 < e);
        lemma_escape_end_minimal(s, i + 1, e);
    }
}

/// A whole style sequence takes no columns in front of a text.
proof fn lemma_style_takes_no_columns(style: Seq<char>, t: Seq<char>)
    requires
        style.len() >= 3,
        escape_at(style, 0),
        style.last() == 'm',
        escape_end(style, 2) == style.len(),
    ensures
        columns(style + t) == columns(t),
{
    let s = style + t;
    assert(s[0] == style[0] && s[1] == style[1]);
    lemma_escape_end_prefix(style, t, 2);
    assert(s.skip(style.len() as int) =~= t);
    lemma_columns_shift(s, style.len() as int, 0);
}

/// The style in force is a whole style sequence.
proof fn lemma_active_style_whole(s: Seq<char>, i: int, end: int, cur: Option<Seq<char>>)
    requires
        0 <= i,
        cur matches Some(c) ==> c.len() >= 3 && escape_at(c, 0) && c.last() == 'm' && escape_end(
            c,
            2,
        ) == c.len(),
    ensures
        active_style(s, i, end, cur) matches Some(c) ==> c.len() >= 3 && escape_at(c, 0) && c.last()
            == 'm' && escape_end(c, 2) == c.len(),
    decreases s.len() - i,
{
    if i < end && i < s.len() {
        if escape_at(s, i) {
            lemma_sequence_len(s, i);
            let e = escape_end(s, i + 2);
            let sequence = s.subrange(i, e);
            if sequence.last() == 'm' && !is_style_reset(sequence) {
                assert(s.skip(i)[0] == s[i] && s.skip(i)[1] == s[i + 1]);
                lemma_escape_end_shift(s, i, 2);
                assert(s.skip(i).take(e - i) =~= sequence);
                assert(s.skip(i)[e - i - 1] == 'm');
                lemma_escape_end_minimal(s.skip(i), 2, e - i);
                lemma_active_style_whole(s, e, end, Some(sequence));
            } else if sequence.last() == 'm' {
                lemma_active_style_whole(s, e, end, None);
            } else {
                lemma_active_style_whole(s, e, end, cur);
            }
        } else {
            lemma_active_style_whole(s, i + 1, end, cur);
        }
    }
}

proof fn lemma_cut_fits(s: Seq<char>, i: int, width: nat)
    requires
        0 <= i,
    ensures
        suffix_cut(s, i, width) matches Some(k) ==> i <= k < s.len() && columns_from(s, k) <= width,
    decreases s.len() - i,
{
    if i < s.len() {
        if escape_at(s, i) {
            lemma_escape_end(s, i + 2);
            lemma_cut_fits(s, escape_end(s, i + 2), width);
        } else if columns_from(s, i) > width {
            lemma_cut_fits(s, i + 1, width);
        }
    }
}

/// The visible end of a text never takes more columns than it was given.
pub proof fn law_visible_end_fits(s: Seq<char>, width: nat)
    ensures
        columns(visible_end(s, width)) <= width,
{
    if width > 0 && columns(s) > width {
        lemma_cut_fits(s, 0, width);
        if let Some(k) = suffix_cut(s, 0, width) {
            lemma_columns_shift(s, k, 0);
            lemma_active_style_whole(s, 0, k, None);
            match active_style(s, 0, k, None) {
                Some(style) => {
                    lemma_style_takes_no_columns(style, s.skip(k));
                },
                None => {
                    assert(Seq::<char>::empty() + s.skip(k) =~= s.skip(k));
                },
            }
        }
    }
}

} // verus!
