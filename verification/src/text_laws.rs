//! What holds of the operations on texts.
use vstd::prelude::*;

use crate::text::{all_digits, decimal, digit_char, digits_value, has_text, is_digit, is_space, joined, lemma_next_char, lemma_skip_space, lemma_space_end, lines_from, lower_text, next_char, occurs_at, pieces, pieces_from, replaced, replaced_from, skip_space, space_end, text_lines, trimmed, trimmed_start};

verus! {

// ---------------------------------------------------------------------------
// White space
// ---------------------------------------------------------------------------

/// Blanks and line ends are white space; letters, digits and punctuation are
/// not.
pub proof fn law_white_space(c: char)
    ensures
        is_space(' ') && is_space('\t') && is_space('\n') && is_space('\r'),
        '!' <= c <= '~' ==> !is_space(c),
{
}

/// Only white space.
pub open spec fn all_space(s: Seq<char>) -> bool {
    forall|i: int| 0 <= i < s.len() ==> is_space(#[trigger] s[i])
}

/// No white space at either end.
pub open spec fn ends_clean(s: Seq<char>) -> bool {
    s.len() > 0 ==> !is_space(s[0]) && !is_space(s.last())
}

proof fn lemma_trimmed_parts(s: Seq<char>)
    ensures
        ({
            let a = skip_space(s, 0);
            let e = space_end(trimmed_start(s), trimmed_start(s).len() as int);
            &&& 0 <= a <= a + e <= s.len()
            &&& s == s.take(a) + trimmed(s) + s.skip(a + e)
            &&& all_space(s.take(a))
            &&& all_space(s.skip(a + e))
            &&& ends_clean(trimmed(s))
        }),
{
    lemma_skip_space(s, 0);
    let a = skip_space(s, 0);
    let t = s.skip(a);
    lemma_space_end(t, t.len() as int);
    let e = space_end(t, t.len() as int);
    assert(trimmed(s) =~= t.take(e));
    assert(s =~= s.take(a) + trimmed(s) + s.skip(a + e));
    assert forall|i: int| 0 <= i < s.skip(a + e).len() implies is_space(
        #[trigger] s.skip(a + e)[i],
    ) by {
        assert(s.skip(a + e)[i] == t[e + i]);
    }
    if e > 0 {
        assert(trimmed(s)[0] == s[a]);
        assert(trimmed(s).last() == t[e - 1]);
    }
}

/// Trimming takes white space off both ends, all of it and nothing else.
pub proof fn law_trimming_drops_outer_space(front: Seq<char>, s: Seq<char>, back: Seq<char>)
    requires
        all_space(front),
        all_space(back),
        ends_clean(s),
    ensures
        trimmed(front + s + back) == s,
{
    let whole = front + s + back;
    lemma_trimmed_parts(whole);
    let a = skip_space(whole, 0);
    let e = space_end(trimmed_start(whole), trimmed_start(whole).len() as int);
    lemma_skip_space(whole, 0);
    if s.len() == 0 {
        if trimmed(whole).len() > 0 {
            assert(trimmed(whole)[0] == whole[a]);
            if a < front.len() {
                assert(whole[a] == front[a]);
            } else {
                assert(whole[a] == back[a - front.len()]);
            }
        }
        assert(trimmed(whole) =~= s);
    } else {
        let n = front.len() as int;
        assert(whole[n] == s[0]);
        assert(a == n) by {
            if a < n {
                assert(is_space(front[a]));
                assert(whole[a] == front[a]);
            } else if a > n {
                assert(is_space(whole[n]));
            }
        }
        let last = n + s.len() - 1;
        assert(whole[last] == s.last());
        let stop = a + e;
        if stop <= last {
            assert(whole.skip(stop)[last - stop] == whole[last]);
        } else if stop > last + 1 {
            assert(trimmed(whole).last() == whole[stop - 1]);
            assert(whole[stop - 1] == back[stop - 1 - n - s.len()]);
        }
        assert(trimmed(whole) =~= s);
    }
}

/// A trimmed text is trimmed already.
pub proof fn law_trimming_twice_changes_nothing(s: Seq<char>)
    ensures
        trimmed(trimmed(s)) == trimmed(s),
        ends_clean(trimmed(s)),
{
    lemma_trimmed_parts(s);
    let none = Seq::<char>::empty();
    law_trimming_drops_outer_space(none, trimmed(s), none);
    assert(none + trimmed(s) + none =~= trimmed(s));
}

// ---------------------------------------------------------------------------
// Numbers
// ---------------------------------------------------------------------------

/// A number is written with digits only, without a zero before it, and reads as
/// the number.
pub proof fn law_decimal_reads_back(n: nat)
    ensures
        all_digits(decimal(n)),
        digits_value(decimal(n)) == n,
        decimal(n).len() > 0,
        n > 0 ==> decimal(n)[0] != '0',
        n == 0 ==> decimal(n) == seq!['0'],
    decreases n,
{
    let d = decimal(n);
    if n < 10 {
        assert(d.drop_last() =~= Seq::<char>::empty());
        assert(digits_value(d.drop_last()) == 0);
        assert(is_digit(digit_char(n)));
    } else {
        law_decimal_reads_back(n / 10);
        assert(d.drop_last() =~= decimal(n / 10));
        assert(is_digit(digit_char(n % 10)));
        assert(d[0] == decimal(n / 10)[0]);
    }
}

/// Different numbers are written differently.
pub proof fn law_decimals_differ(m: nat, n: nat)
    ensures
        decimal(m) == decimal(n) <==> m == n,
{
    law_decimal_reads_back(m);
    law_decimal_reads_back(n);
}

/// The value of digits: each stands for ten times what stands behind it.
pub proof fn law_digits_count_in_tens(s: Seq<char>, c: char)
    ensures
        digits_value(Seq::empty()) == 0,
        '0' <= c <= '9' ==> digits_value(s.push(c)) == 10 * digits_value(s) + (c as u32 - '0' as u32),
{
    assert(s.push(c).drop_last() =~= s);
}

// ---------------------------------------------------------------------------
// Joining and cutting
// ---------------------------------------------------------------------------

/// Joined texts stand one after the other, with the separator between them and
/// nowhere else.
pub proof fn law_joined_texts_follow_each_other(
    parts: Seq<Seq<char>>,
    last: Seq<char>,
    sep: Seq<char>,
)
    ensures
        joined(Seq::empty(), sep) == Seq::<char>::empty(),
        joined(seq![last], sep) == last,
        parts.len() > 0 ==> joined(parts.push(last), sep) == joined(parts, sep) + sep + last,
{
    assert(parts.push(last).drop_last() =~= parts);
}

/// No `c` in the text.
pub open spec fn is_free_of(s: Seq<char>, c: char) -> bool {
    forall|i: int| 0 <= i < s.len() ==> #[trigger] s[i] != c
}

proof fn lemma_next_char_moves(front: Seq<char>, s: Seq<char>, c: char, i: int)
    requires
        0 <= i <= s.len(),
    ensures
        next_char(front + s, c, front.len() + i) == front.len() + next_char(s, c, i),
    decreases s.len() - i,
{
    if i < s.len() {
        assert((front + s)[front.len() + i] == s[i]);
        lemma_next_char_moves(front, s, c, i + 1);
    }
}

proof fn lemma_pieces_move(front: Seq<char>, s: Seq<char>, c: char, i: int)
    requires
        0 <= i <= s.len(),
    ensures
        pieces_from(front + s, c, front.len() + i) == pieces_from(s, c, i),
    decreases s.len() - i,
{
    lemma_next_char_moves(front, s, c, i);
    lemma_next_char(s, c, i);
    let e = next_char(s, c, i);
    let n = front.len() as int;
    if e < s.len() {
        assert((front + s).subrange(n + i, n + e) =~= s.subrange(i, e));
        lemma_pieces_move(front, s, c, e + 1);
    } else {
        assert((front + s).skip(n + i) =~= s.skip(i));
    }
}

/// A text is cut at each separator: the first piece ends at the first one, and
/// the rest is cut in the same way. Without one, the text is its only piece.
pub proof fn law_pieces_lie_between_separators(first: Seq<char>, c: char, rest: Seq<char>)
    requires
        is_free_of(first, c),
    ensures
        pieces(first, c) == seq![first],
        pieces(first.push(c) + rest, c) == seq![first] + pieces(rest, c),
{
    lemma_next_char(first, c, 0);
    assert(next_char(first, c, 0) == first.len());
    assert(first.skip(0) =~= first);
    let whole = first.push(c) + rest;
    lemma_next_char(whole, c, 0);
    let e = next_char(whole, c, 0);
    assert(whole[first.len() as int] == c);
    assert(e == first.len()) by {
        if e < first.len() {
            assert(whole[e] == first[e]);
        }
    }
    assert(whole.subrange(0, e) =~= first);
    lemma_pieces_move(first.push(c), rest, c, 0);
}

proof fn lemma_lines_move(front: Seq<char>, s: Seq<char>, i: int)
    requires
        0 <= i <= s.len(),
    ensures
        lines_from(front + s, front.len() + i) == lines_from(s, i),
    decreases s.len() - i,
{
    if i < s.len() {
        lemma_next_char_moves(front, s, '\n', i);
        lemma_next_char(s, '\n', i);
        let e = next_char(s, '\n', i);
        let n = front.len() as int;
        if e < s.len() {
            assert((front + s).subrange(n + i, n + e) =~= s.subrange(i, e));
            lemma_lines_move(front, s, e + 1);
        } else {
            assert((front + s).skip(n + i) =~= s.skip(i));
        }
    }
}

/// A line ends at the first line feed, and what follows is cut into lines in the
/// same way; a carriage return before the line feed belongs to the line's end.
pub proof fn law_lines_end_at_line_feeds(first: Seq<char>, rest: Seq<char>)
    requires
        is_free_of(first, '\n'),
        first.len() > 0 ==> first.last() != '\r',
    ensures
        text_lines(first.push('\n') + rest) == seq![first] + text_lines(rest),
        text_lines(first.push('\r').push('\n') + rest) == seq![first] + text_lines(rest),
        first.len() > 0 ==> text_lines(first) == seq![first],
        text_lines(Seq::empty()) == Seq::<Seq<char>>::empty(),
{
    let one = first.push('\n');
    let whole = one + rest;
    lemma_next_char(whole, '\n', 0);
    assert(whole[first.len() as int] == '\n');
    let e = next_char(whole, '\n', 0);
    assert(e == first.len()) by {
        if e < first.len() {
            assert(whole[e] == first[e]);
        }
    }
    assert(whole.subrange(0, e) =~= first);
    lemma_lines_move(one, rest, 0);
    let two = first.push('\r').push('\n');
    let other = two + rest;
    lemma_next_char(other, '\n', 0);
    assert(other[first.len() as int + 1] == '\n');
    assert(other[first.len() as int] == '\r');
    let f = next_char(other, '\n', 0);
    assert(f == first.len() + 1) by {
        if f < first.len() {
            assert(other[f] == first[f]);
        }
    }
    assert(other.subrange(0, f) =~= first.push('\r'));
    assert(first.push('\r').drop_last() =~= first);
    assert(first.push('\r').take(first.len() as int) =~= first);
    lemma_lines_move(two, rest, 0);
    if first.len() > 0 {
        lemma_next_char(first, '\n', 0);
        assert(first.skip(0) =~= first);
    }
}

// ---------------------------------------------------------------------------
// Replacing
// ---------------------------------------------------------------------------

proof fn lemma_occurs_moves(front: Seq<char>, s: Seq<char>, p: Seq<char>, i: int)
    requires
        0 <= i,
    ensures
        occurs_at(front + s, p, front.len() + i) == occurs_at(s, p, i),
{
    if i + p.len() <= s.len() {
        assert((front + s).subrange(front.len() + i, front.len() + i + p.len()) =~= s.subrange(
            i,
            i + p.len(),
        ));
    }
}

proof fn lemma_replaced_moves(front: Seq<char>, s: Seq<char>, p: Seq<char>, q: Seq<char>, i: int)
    requires
        0 <= i,
    ensures
        replaced_from(front + s, p, q, front.len() + i) == replaced_from(s, p, q, i),
    decreases s.len() - i,
{
    if i < s.len() {
        lemma_occurs_moves(front, s, p, i);
        if p.len() > 0 && occurs_at(s, p, i) {
            lemma_replaced_moves(front, s, p, q, i + p.len());
        } else {
            assert((front + s)[front.len() + i] == s[i]);
            lemma_replaced_moves(front, s, p, q, i + 1);
        }
    }
}

/// Replacing goes from left to right: where the pattern stands, the new text
/// stands instead, and any other character stays.
pub proof fn law_replacing_goes_left_to_right(
    p: Seq<char>,
    q: Seq<char>,
    c: char,
    rest: Seq<char>,
)
    requires
        p.len() > 0,
    ensures
        replaced(p + rest, p, q) == q + replaced(rest, p, q),
        !occurs_at(seq![c] + rest, p, 0) ==> replaced(seq![c] + rest, p, q) == seq![c] + replaced(
            rest,
            p,
            q,
        ),
        replaced(Seq::empty(), p, q) == Seq::<char>::empty(),
{
    assert((p + rest).subrange(0, p.len() as int) =~= p);
    lemma_replaced_moves(p, rest, p, q, 0);
    lemma_replaced_moves(seq![c], rest, p, q, 0);
}

/// A text without the pattern stays as it is.
pub proof fn law_nothing_to_replace(s: Seq<char>, p: Seq<char>, q: Seq<char>)
    requires
        !has_text(s, p),
    ensures
        replaced(s, p, q) == s,
{
    lemma_not_replaced(s, p, q, 0);
    assert(s.skip(0) =~= s);
}

proof fn lemma_not_replaced(s: Seq<char>, p: Seq<char>, q: Seq<char>, i: int)
    requires
        !has_text(s, p),
        0 <= i <= s.len(),
    ensures
        replaced_from(s, p, q, i) == s.skip(i),
    decreases s.len() - i,
{
    if i < s.len() {
        assert(!occurs_at(s, p, i));
        lemma_not_replaced(s, p, q, i + 1);
        assert(seq![s[i]] + s.skip(i + 1) =~= s.skip(i));
    } else {
        assert(s.skip(i) =~= Seq::empty());
    }
}

// ---------------------------------------------------------------------------
// Letter case
// ---------------------------------------------------------------------------

/// Small letters: capitals become small, one for one; all else stays.
pub proof fn law_lower_case(s: Seq<char>, i: int)
    requires
        0 <= i < s.len(),
    ensures
        lower_text(s).len() == s.len(),
        'A' <= s[i] <= 'Z' ==> lower_text(s)[i] as u32 == s[i] as u32 + 32,
        !('A' <= s[i] <= 'Z') ==> lower_text(s)[i] == s[i],
{
}

} // verus!
