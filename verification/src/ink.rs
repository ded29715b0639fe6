//! Reading styled text: what of it is seen.
use vstd::prelude::*;

use crate::text::{is_space, repeated, skip_space, trimmed, word_end, words, words_from};
use crate::text_laws::is_free_of;

verus! {

/// A character that a style is made of.
pub open spec fn is_style_char(c: char) -> bool {
    '0' <= c <= '9' || c == ';'
}

/// The index after the `m` that ends a style, or the index of what does not
/// belong to one.
pub open spec fn style_end(s: Seq<char>, i: int) -> int
    decreases s.len() - i,
{
    if i < 0 || i >= s.len() {
        i
    } else if is_style_char(s[i]) {
        style_end(s, i + 1)
    } else if s[i] == 'm' {
        i + 1
    } else {
        i
    }
}

/// A whole style stands at index `i`.
pub open spec fn style_at(s: Seq<char>, i: int) -> bool {
    &&& 0 <= i && i + 2 < s.len()
    &&& s[i] == '\x1b' && s[i + 1] == '['
    &&& i + 2 < style_end(s, i + 2) <= s.len()
    &&& s[style_end(s, i + 2) - 1] == 'm'
}

/// From index `i` on, the text is made of characters and whole styles.
pub open spec fn settled_from(s: Seq<char>, i: int) -> bool
    decreases s.len() - i,
{
    if i < 0 || i >= s.len() {
        i == s.len()
    } else if s[i] == '\x1b' {
        style_at(s, i) && settled_from(s, style_end(s, i + 2))
    } else {
        settled_from(s, i + 1)
    }
}

/// A text made of characters and whole styles.
pub open spec fn settled(s: Seq<char>) -> bool {
    settled_from(s, 0)
}

/// A character that leaves a mark of its own: neither white space nor a sign
/// that structures a markdown text.
pub open spec fn is_ink(c: char) -> bool {
    &&& !is_space(c)
    &&& c != '*' && c != '`' && c != '#' && c != '-' && c != '+' && c != '|'
}

/// The marks from index `i` on, read by someone who sees column `column` of a
/// table only, where `bars` bars stand before on the line; every column where
/// `column` is negative.
pub open spec fn marks_from(s: Seq<char>, i: int, bars: int, column: int) -> Seq<char>
    decreases s.len() - i,
{
    if i < 0 || i >= s.len() {
        Seq::empty()
    } else if s[i] == '\x1b' {
        if style_at(s, i) {
            marks_from(s, style_end(s, i + 2), bars, column)
        } else {
            Seq::empty()
        }
    } else {
        (if is_ink(s[i]) && (column < 0 || bars == column + 1) {
            seq![s[i]]
        } else {
            Seq::empty()
        }) + marks_from(
            s,
            i + 1,
            if s[i] == '\n' {
                0
            } else if s[i] == '|' {
                bars + 1
            } else {
                bars
            },
            column,
        )
    }
}

/// The bars on the line that the text from index `i` on ends in.
pub open spec fn bars_from(s: Seq<char>, i: int, bars: int) -> int
    decreases s.len() - i,
{
    if i < 0 || i >= s.len() {
        bars
    } else if s[i] == '\x1b' {
        if style_at(s, i) {
            bars_from(s, style_end(s, i + 2), bars)
        } else {
            bars
        }
    } else {
        bars_from(
            s,
            i + 1,
            if s[i] == '\n' {
                0
            } else if s[i] == '|' {
                bars + 1
            } else {
                bars
            },
        )
    }
}

/// What is seen of a styled text, without white space and structure.
pub open spec fn ink(s: Seq<char>) -> Seq<char> {
    marks_from(s, 0, 0, -1)
}

/// What is seen of one column of the rows of a table.
pub open spec fn column_ink(s: Seq<char>, column: int) -> Seq<char> {
    marks_from(s, 0, 0, column)
}

/// No style in the text.
pub open spec fn is_unstyled(s: Seq<char>) -> bool {
    is_free_of(s, '\x1b')
}

// ---------------------------------------------------------------------------
// One text after another
// ---------------------------------------------------------------------------

proof fn lemma_style_end(s: Seq<char>, i: int)
    requires
        0 <= i <= s.len(),
    ensures
        i <= style_end(s, i) <= s.len(),
        forall|j: int|
            i <= j < style_end(s, i) ==> is_style_char(#[trigger] s[j]) || s[j] == 'm',
    decreases s.len() - i,
{
    if i < s.len() && is_style_char(s[i]) {
        lemma_style_end(s, i + 1);
    }
}

proof fn lemma_style_end_stays(a: Seq<char>, b: Seq<char>, i: int)
    requires
        0 <= i <= a.len(),
        style_end(a, i) > i,
        a[style_end(a, i) - 1] == 'm',
        style_end(a, i) <= a.len(),
    ensures
        style_end(a + b, i) == style_end(a, i),
    decreases a.len() - i,
{
    assert((a + b)[i] == a[i]);
    if is_style_char(a[i]) {
        lemma_style_end(a, i + 1);
        if style_end(a, i + 1) == i + 1 {
            assert(a[i] == 'm');
        } else {
            lemma_style_end_stays(a, b, i + 1);
        }
    }
}

proof fn lemma_style_end_moves(a: Seq<char>, b: Seq<char>, i: int)
    requires
        0 <= i,
    ensures
        style_end(a + b, a.len() + i) == a.len() + style_end(b, i),
    decreases b.len() - i,
{
    if i < b.len() {
        assert((a + b)[a.len() + i] == b[i]);
        lemma_style_end_moves(a, b, i + 1);
    }
}

proof fn lemma_reading_moves(a: Seq<char>, b: Seq<char>, i: int, bars: int, column: int)
    requires
        0 <= i,
    ensures
        marks_from(a + b, a.len() + i, bars, column) == marks_from(b, i, bars, column),
        bars_from(a + b, a.len() + i, bars) == bars_from(b, i, bars),
        i <= b.len() ==> settled_from(a + b, a.len() + i) == settled_from(b, i),
    decreases b.len() - i,
{
    let s = a + b;
    let n = a.len() as int;
    if i < b.len() {
        assert(s[n + i] == b[i]);
        if b[i] == '\x1b' {
            lemma_style_end_moves(a, b, i + 2);
            if i + 2 < b.len() {
                lemma_style_end(b, i + 2);
                assert(s[n + i + 1] == b[i + 1]);
                let e = style_end(b, i + 2);
                if e > i + 2 {
                    assert(s[n + e - 1] == b[e - 1]);
                }
            }
            assert(style_at(s, n + i) == style_at(b, i));
            if style_at(b, i) {
                lemma_reading_moves(a, b, style_end(b, i + 2), bars, column);
            }
        } else {
            let next = if b[i] == '\n' {
                0
            } else if b[i] == '|' {
                bars + 1
            } else {
                bars
            };
            lemma_reading_moves(a, b, i + 1, next, column);
        }
    }
}

proof fn lemma_reading_goes_on(a: Seq<char>, b: Seq<char>, i: int, bars: int, column: int)
    requires
        0 <= i <= a.len(),
        settled_from(a, i),
    ensures
        marks_from(a + b, i, bars, column) == marks_from(a, i, bars, column) + marks_from(
            b,
            0,
            bars_from(a, i, bars),
            column,
        ),
        bars_from(a + b, i, bars) == bars_from(b, 0, bars_from(a, i, bars)),
        settled(b) ==> settled_from(a + b, i),
    decreases a.len() - i,
{
    let s = a + b;
    if i == a.len() {
        lemma_reading_moves(a, b, 0, bars, column);
        assert(Seq::<char>::empty() + marks_from(b, 0, bars, column) =~= marks_from(
            b,
            0,
            bars,
            column,
        ));
    } else if a[i] == '\x1b' {
        lemma_style_end_stays(a, b, i + 2);
        let e = style_end(a, i + 2);
        assert(s[i] == a[i] && s[i + 1] == a[i + 1] && s[e - 1] == a[e - 1]);
        lemma_reading_goes_on(a, b, e, bars, column);
    } else {
        assert(s[i] == a[i]);
        let next = if a[i] == '\n' {
            0
        } else if a[i] == '|' {
            bars + 1
        } else {
            bars
        };
        lemma_reading_goes_on(a, b, i + 1, next, column);
        let one = if is_ink(a[i]) && (column < 0 || bars == column + 1) {
            seq![a[i]]
        } else {
            Seq::empty()
        };
        let rest = marks_from(b, 0, bars_from(a, i + 1, next), column);
        assert(one + (marks_from(a, i + 1, next, column) + rest) =~= (one + marks_from(
            a,
            i + 1,
            next,
            column,
        )) + rest);
    }
}

/// What is read of two texts is what is read of each, one after the other.
pub proof fn lemma_read_on(a: Seq<char>, b: Seq<char>, bars: int, column: int)
    requires
        settled(a),
    ensures
        marks_from(a + b, 0, bars, column) == marks_from(a, 0, bars, column) + marks_from(
            b,
            0,
            bars_from(a, 0, bars),
            column,
        ),
        bars_from(a + b, 0, bars) == bars_from(b, 0, bars_from(a, 0, bars)),
        settled(b) ==> settled(a + b),
{
    lemma_reading_goes_on(a, b, 0, bars, column);
}

/// Reading all columns does not depend on the bars before.
pub proof fn lemma_all_columns(s: Seq<char>, i: int, x: int, y: int)
    ensures
        marks_from(s, i, x, -1) == marks_from(s, i, y, -1),
    decreases s.len() - i,
{
    if 0 <= i < s.len() {
        if s[i] == '\x1b' {
            if style_at(s, i) {
                lemma_all_columns(s, style_end(s, i + 2), x, y);
            }
        } else {
            let nx = if s[i] == '\n' {
                0
            } else if s[i] == '|' {
                x + 1
            } else {
                x
            };
            let ny = if s[i] == '\n' {
                0
            } else if s[i] == '|' {
                y + 1
            } else {
                y
            };
            lemma_all_columns(s, i + 1, nx, ny);
        }
    }
}

/// What is seen of two texts is what is seen of each, one after the other.
pub proof fn lemma_ink_on(a: Seq<char>, b: Seq<char>)
    requires
        settled(a),
    ensures
        ink(a + b) == ink(a) + ink(b),
        settled(b) ==> settled(a + b),
{
    lemma_read_on(a, b, 0, -1);
    lemma_all_columns(b, 0, bars_from(a, 0, 0), 0);
}

// ---------------------------------------------------------------------------
// Texts of one kind
// ---------------------------------------------------------------------------

proof fn lemma_unstyled_from(s: Seq<char>, i: int)
    requires
        is_unstyled(s),
        0 <= i <= s.len(),
    ensures
        settled_from(s, i),
    decreases s.len() - i,
{
    if i < s.len() {
        lemma_unstyled_from(s, i + 1);
    }
}

/// Text without styles is settled.
pub proof fn lemma_unstyled(s: Seq<char>)
    requires
        is_unstyled(s),
    ensures
        settled(s),
{
    lemma_unstyled_from(s, 0);
}

proof fn lemma_blank_from(s: Seq<char>, i: int)
    requires
        0 <= i <= s.len(),
        is_unstyled(s),
        forall|j: int| 0 <= j < s.len() ==> !is_ink(#[trigger] s[j]),
    ensures
        forall|bars: int, column: int| #[trigger]
            marks_from(s, i, bars, column) == Seq::<char>::empty(),
    decreases s.len() - i,
{
    if i < s.len() {
        lemma_blank_from(s, i + 1);
        assert forall|bars: int, column: int| #[trigger]
            marks_from(s, i, bars, column) == Seq::<char>::empty() by {
            let next = if s[i] == '\n' {
                0
            } else if s[i] == '|' {
                bars + 1
            } else {
                bars
            };
            assert(marks_from(s, i + 1, next, column) == Seq::<char>::empty());
            assert(Seq::<char>::empty() + Seq::<char>::empty() =~= Seq::<char>::empty());
        }
    }
}

/// Nothing is seen of a text that has no ink.
pub proof fn lemma_blank(s: Seq<char>)
    requires
        is_unstyled(s),
        forall|j: int| 0 <= j < s.len() ==> !is_ink(#[trigger] s[j]),
    ensures
        settled(s),
        ink(s) == Seq::<char>::empty(),
        forall|bars: int, column: int| #[trigger]
            marks_from(s, 0, bars, column) == Seq::<char>::empty(),
{
    lemma_unstyled(s);
    lemma_blank_from(s, 0);
}

proof fn lemma_code_end(s: Seq<char>, i: int)
    requires
        0 <= i < s.len(),
        s.last() == 'm',
        forall|j: int| i <= j < s.len() - 1 ==> is_style_char(#[trigger] s[j]),
    ensures
        style_end(s, i) == s.len(),
    decreases s.len() - i,
{
    if i < s.len() - 1 {
        assert(is_style_char(s[i]));
        lemma_code_end(s, i + 1);
    }
}

/// Nothing is seen of a style.
pub proof fn lemma_style(code: Seq<char>)
    requires
        forall|i: int| 0 <= i < code.len() ==> is_style_char(#[trigger] code[i]),
    ensures
        ({
            let s = "\x1b["@ + code + "m"@;
            &&& settled(s)
            &&& ink(s) == Seq::<char>::empty()
            &&& forall|bars: int, column: int| #[trigger]
                marks_from(s, 0, bars, column) == Seq::<char>::empty()
            &&& forall|bars: int| #[trigger] bars_from(s, 0, bars) == bars
        }),
{
    reveal_strlit("\x1b[");
    reveal_strlit("m");
    let s = "\x1b["@ + code + "m"@;
    assert forall|j: int| 2 <= j < s.len() - 1 implies is_style_char(#[trigger] s[j]) by {
        assert(s[j] == code[j - 2]);
    }
    lemma_code_end(s, 2);
    assert(s[s.len() - 1] == 'm');
    assert(style_at(s, 0));
    reveal_with_fuel(settled_from, 2);
    reveal_with_fuel(marks_from, 2);
    reveal_with_fuel(bars_from, 2);
    assert(settled(s));
    assert forall|bars: int, column: int| #[trigger]
        marks_from(s, 0, bars, column) == Seq::<char>::empty() by {
        assert(marks_from(s, s.len() as int, bars, column) == Seq::<char>::empty());
    }
    assert forall|bars: int| #[trigger] bars_from(s, 0, bars) == bars by {
        assert(bars_from(s, s.len() as int, bars) == bars);
    }
}

proof fn lemma_cell_from(s: Seq<char>, i: int, bars: int, column: int)
    requires
        0 <= i,
        is_free_of(s, '|'),
        is_free_of(s, '\n'),
    ensures
        bars_from(s, i, bars) == bars,
        column >= 0 && bars != column + 1 ==> marks_from(s, i, bars, column)
            == Seq::<char>::empty(),
        column >= 0 && bars == column + 1 ==> marks_from(s, i, bars, column) == marks_from(
            s,
            i,
            0,
            -1,
        ),
    decreases s.len() - i,
{
    if i < s.len() {
        if s[i] == '\x1b' {
            if style_at(s, i) {
                lemma_cell_from(s, style_end(s, i + 2), bars, column);
            }
        } else {
            assert(s[i] != '|' && s[i] != '\n');
            lemma_cell_from(s, i + 1, bars, column);
            assert(Seq::<char>::empty() + Seq::<char>::empty() =~= Seq::<char>::empty());
        }
    }
}

/// Text without bars and line feeds is read in one column.
pub proof fn lemma_cell(s: Seq<char>, bars: int, column: int)
    requires
        is_free_of(s, '|'),
        is_free_of(s, '\n'),
        column >= 0,
    ensures
        bars_from(s, 0, bars) == bars,
        marks_from(s, 0, bars, column) == if bars == column + 1 {
            ink(s)
        } else {
            Seq::<char>::empty()
        },
{
    lemma_cell_from(s, 0, bars, column);
}

// ---------------------------------------------------------------------------
// Words
// ---------------------------------------------------------------------------

/// Nothing is seen of white space round a text.
pub proof fn lemma_ink_of_trimmed(s: Seq<char>)
    requires
        is_unstyled(s),
    ensures
        ink(trimmed(s)) == ink(s),
        is_unstyled(trimmed(s)),
{
    crate::text::lemma_skip_space(s, 0);
    let a = skip_space(s, 0);
    let t = s.skip(a);
    crate::text::lemma_space_end(t, t.len() as int);
    let e = crate::text::space_end(t, t.len() as int);
    let front = s.take(a);
    let mid = t.take(e);
    let back = t.skip(e);
    assert(trimmed(s) =~= mid);
    assert(s =~= front + mid + back);
    assert forall|j: int| 0 <= j < back.len() implies !is_ink(#[trigger] back[j]) by {
        assert(back[j] == t[e + j]);
    }
    lemma_blank(front);
    lemma_blank(back);
    lemma_unstyled(mid);
    lemma_ink_on(front, mid);
    lemma_ink_on(front + mid, back);
    assert(Seq::<char>::empty() + ink(mid) =~= ink(mid));
    assert(ink(mid) + Seq::<char>::empty() =~= ink(mid));
}

/// The inks of a list of texts, one after the other.
pub open spec fn inks(list: Seq<Seq<char>>) -> Seq<char>
    decreases list.len(),
{
    if list.len() == 0 {
        Seq::empty()
    } else {
        inks(list.drop_last()) + ink(list.last())
    }
}

pub proof fn lemma_inks_on(a: Seq<Seq<char>>, b: Seq<Seq<char>>)
    ensures
        inks(a + b) == inks(a) + inks(b),
    decreases b.len(),
{
    if b.len() == 0 {
        assert(a + b =~= a);
        assert(inks(a) + inks(b) =~= inks(a));
    } else {
        assert((a + b).drop_last() =~= a + b.drop_last());
        lemma_inks_on(a, b.drop_last());
        assert(inks(a) + inks(b.drop_last()) + ink(b.last()) =~= inks(a) + (inks(b.drop_last())
            + ink(b.last())));
    }
}

pub proof fn lemma_inks_of_one(x: Seq<char>)
    ensures
        inks(seq![x]) == ink(x),
{
    reveal_with_fuel(inks, 2);
    assert(seq![x].drop_last() =~= Seq::<Seq<char>>::empty());
    assert(Seq::<char>::empty() + ink(x) =~= ink(x));
}

proof fn lemma_inks_of_words(s: Seq<char>, i: int)
    requires
        is_unstyled(s),
        0 <= i <= s.len(),
    ensures
        inks(words_from(s, i)) == ink(s.skip(i)),
        forall|k: int| 0 <= k < words_from(s, i).len() ==> is_unstyled(#[trigger] words_from(s, i)[k]),
    decreases s.len() - i,
{
    crate::text::lemma_skip_space(s, i);
    let a = skip_space(s, i);
    crate::text::lemma_word_end(s, a);
    let b = word_end(s, a);
    let gap = s.subrange(i, a);
    lemma_blank(gap);
    if a < b {
        let word = s.subrange(a, b);
        let rest = words_from(s, b);
        lemma_inks_of_words(s, b);
        lemma_unstyled(word);
        assert(s.skip(i) =~= gap + word + s.skip(b));
        lemma_ink_on(gap, word);
        lemma_ink_on(gap + word, s.skip(b));
        lemma_inks_on(seq![word], rest);
        lemma_inks_of_one(word);
        assert(Seq::<char>::empty() + ink(word) =~= ink(word));
        assert forall|k: int| 0 <= k < words_from(s, i).len() implies is_unstyled(
            #[trigger] words_from(s, i)[k],
        ) by {
            if k > 0 {
                assert(words_from(s, i)[k] == rest[k - 1]);
            }
        }
    } else {
        assert(a == s.len());
        assert(s.skip(i) =~= gap);
    }
}

/// What is seen of a text is what is seen of its words.
pub proof fn lemma_ink_of_words(s: Seq<char>)
    requires
        is_unstyled(s),
    ensures
        inks(words(s)) == ink(s),
        forall|k: int| 0 <= k < words(s).len() ==> is_unstyled(#[trigger] words(s)[k]),
{
    lemma_inks_of_words(s, 0);
    assert(s.skip(0) =~= s);
}

/// Repeated spaces are not seen.
pub proof fn lemma_spaces(n: nat)
    ensures
        settled(repeated(' ', n)),
        ink(repeated(' ', n)) == Seq::<char>::empty(),
        is_free_of(repeated(' ', n), '|'),
        is_free_of(repeated(' ', n), '\n'),
        is_unstyled(repeated(' ', n)),
{
    lemma_blank(repeated(' ', n));
}

} // verus!
