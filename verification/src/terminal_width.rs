//! How many terminal columns a text takes, and wrapping text to a width.
use vstd::prelude::*;

use crate::text::{chars_of, char_is_control, copy_text, push_list, push_text, repeat_char, split_whitespace, text_of};
use crate::text::{is_control, lemma_texts_empty, lemma_texts_push, repeated, skip_space, texts, word_end, words, words_from};

verus! {

/// East Asian wide characters and pictographs.
pub open spec fn is_wide(c: char) -> bool {
    let n = c as u32;
    ||| 0x1100 <= n <= 0x115f
    ||| 0x2329 <= n <= 0x232a
    ||| 0x2e80 <= n <= 0xa4cf
    ||| 0xac00 <= n <= 0xd7a3
    ||| 0xf900 <= n <= 0xfaff
    ||| 0xfe10 <= n <= 0xfe19
    ||| 0xfe30 <= n <= 0xfe6f
    ||| 0xff00 <= n <= 0xff60
    ||| 0xffe0 <= n <= 0xffe6
    ||| 0x1f300 <= n <= 0x1faff
}

/// The columns of one character.
pub open spec fn char_columns(c: char) -> nat {
    if is_control(c) {
        0
    } else if is_wide(c) {
        2
    } else {
        1
    }
}

fn is_wide_char(c: char) -> (r: bool)
    ensures
        r == is_wide(c),
{
    let n: u32 = c as u32;
    (0x1100 <= n && n <= 0x115f) || (0x2329 <= n && n <= 0x232a) || (0x2e80 <= n && n <= 0xa4cf)
        || (0xac00 <= n && n <= 0xd7a3) || (0xf900 <= n && n <= 0xfaff)
        || (0xfe10 <= n && n <= 0xfe19) || (0xfe30 <= n && n <= 0xfe6f)
        || (0xff00 <= n && n <= 0xff60) || (0xffe0 <= n && n <= 0xffe6)
        || (0x1f300 <= n && n <= 0x1faff)
}

pub fn char_display_width(ch: char) -> (r: usize)
    ensures
        r == char_columns(ch),
        r <= 2,
{
    if char_is_control(ch) {
        0
    } else if is_wide_char(ch) {
        2
    } else {
        1
    }
}

// ---------------------------------------------------------------------------
// Escape sequences and display width
// ---------------------------------------------------------------------------

/// A control sequence (`ESC [`) starts at index `i`.
pub open spec fn escape_at(s: Seq<char>, i: int) -> bool {
    0 <= i && i + 1 < s.len() && s[i] == '\x1b' && s[i + 1] == '['
}

/// The index after the byte that ends a control sequence, from index `i` on.
pub open spec fn escape_end(s: Seq<char>, i: int) -> int
    decreases s.len() - i,
{
    if i < 0 || i >= s.len() {
        s.len() as int
    } else if '@' <= s[i] <= '~' {
        i + 1
    } else {
        escape_end(s, i + 1)
    }
}

/// The columns of a text from index `i` on; control sequences take none.
pub open spec fn columns_from(s: Seq<char>, i: int) -> nat
    decreases s.len() - i,
{
    if i < 0 || i >= s.len() {
        0
    } else if escape_at(s, i) {
        let e = escape_end(s, i + 2);
        if i < e <= s.len() {
            columns_from(s, e)
        } else {
            0
        }
    } else {
        char_columns(s[i]) + columns_from(s, i + 1)
    }
}

/// The columns of a text.
pub open spec fn columns(s: Seq<char>) -> nat {
    columns_from(s, 0)
}

/// A count of columns as a machine word holds it.
pub open spec fn saturated(n: nat) -> nat {
    if n > usize::MAX {
        usize::MAX as nat
    } else {
        n
    }
}

pub proof fn lemma_escape_end(s: Seq<char>, i: int)
    requires
        0 <= i <= s.len(),
    ensures
        i <= escape_end(s, i) <= s.len(),
        i < s.len() ==> i < escape_end(s, i),
    decreases s.len() - i,
{
    if i < s.len() && !('@' <= s[i] <= '~') {
        lemma_escape_end(s, i + 1);
    }
}

pub proof fn lemma_columns_bound(s: Seq<char>, i: int)
    requires
        0 <= i <= s.len(),
    ensures
        columns_from(s, i) <= 2 * (s.len() - i),
    decreases s.len() - i,
{
    if i < s.len() {
        if escape_at(s, i) {
            lemma_escape_end(s, i + 2);
            lemma_columns_bound(s, escape_end(s, i + 2));
        } else {
            lemma_columns_bound(s, i + 1);
        }
    }
}

/// The index after the control sequence whose body starts at `from`.
pub fn escape_end_at(v: &Vec<char>, from: usize) -> (r: usize)
    requires
        from <= v.len(),
    ensures
        r == escape_end(v@, from as int),
        from <= r <= v.len(),
{
    let mut i: usize = from;
    while i < v.len()
        invariant
            from <= i <= v.len(),
            escape_end(v@, from as int) == escape_end(v@, i as int),
        decreases v.len() - i,
    {
        if '@' <= v[i] && v[i] <= '~' {
            return i + 1;
        }
        i += 1;
    }
    i
}

/// Whether a control sequence starts at index `i`.
pub fn is_escape_at(v: &Vec<char>, i: usize) -> (r: bool)
    ensures
        r == escape_at(v@, i as int),
{
    i < v.len() && v[i] == '\x1b' && i < v.len() - 1 && v[i + 1] == '['
}

/// The exact number of columns of a text.
pub fn count_columns(v: &Vec<char>) -> (r: u128)
    ensures
        r == columns(v@),
        r <= 2 * v.len(),
{
    let mut total: u128 = 0;
    let mut i: usize = 0;
    while i < v.len()
        invariant
            i <= v.len(),
            total + columns_from(v@, i as int) == columns(v@),
            total <= 2 * i,
        decreases v.len() - i,
    {
        if is_escape_at(v, i) {
            let e = escape_end_at(v, i + 2);
            proof {
                lemma_escape_end(v@, i + 2);
            }
            i = e;
        } else {
            total = total + char_display_width(v[i]) as u128;
            i += 1;
        }
    }
    total
}

pub fn display_width(text: &str) -> (r: usize)
    ensures
        r == saturated(columns(text@)),
{
    let n = count_columns(&chars_of(text));
    if n > usize::MAX as u128 {
        usize::MAX
    } else {
        n as usize
    }
}

/// The text with spaces behind it up to `width` columns.
pub open spec fn padded(s: Seq<char>, width: nat) -> Seq<char> {
    if columns(s) >= width {
        s
    } else {
        s + repeated(' ', (width - columns(s)) as nat)
    }
}

pub fn pad_display_width(text: &str, width: usize) -> (r: String)
    ensures
        r@ == padded(text@, width as nat),
{
    let len = display_width(text);
    if len >= width {
        return copy_text(text);
    }
    let spaces = repeat_char(' ', width - len);
    let mut out = copy_text(text);
    push_text(&mut out, spaces.as_str());
    out
}

// ---------------------------------------------------------------------------
// Wrapping
// ---------------------------------------------------------------------------

/// The columns of a text, each character counted for itself.
pub open spec fn raw_columns(s: Seq<char>) -> nat
    decreases s.len(),
{
    if s.len() == 0 {
        0
    } else {
        raw_columns(s.drop_last()) + char_columns(s.last())
    }
}

/// The pieces of an over-long word, from index `i` on, after the open piece `cur`.
pub open spec fn chunks_from(s: Seq<char>, i: int, cur: Seq<char>, width: nat) -> Seq<Seq<char>>
    decreases s.len() - i,
{
    if i < 0 || i >= s.len() {
        if cur.len() == 0 {
            Seq::empty()
        } else {
            seq![cur]
        }
    } else if raw_columns(cur) + char_columns(s[i]) > width && cur.len() > 0 {
        seq![cur] + chunks_from(s, i + 1, seq![s[i]], width)
    } else {
        chunks_from(s, i + 1, cur.push(s[i]), width)
    }
}

/// An over-long word cut, left to right, into the longest pieces that fit.
pub open spec fn chunks(s: Seq<char>, width: nat) -> Seq<Seq<char>> {
    chunks_from(s, 0, Seq::empty(), width)
}

/// A line as a list: nothing where it is empty.
pub open spec fn open_line(cur: Seq<char>) -> Seq<Seq<char>> {
    if cur.len() == 0 {
        Seq::empty()
    } else {
        seq![cur]
    }
}

/// The lines that the words from index `i` on are set in, after the open line
/// `cur` of `used` columns.
pub open spec fn wrapped_from(
    ws: Seq<Seq<char>>,
    i: int,
    cur: Seq<char>,
    used: nat,
    width: nat,
) -> Seq<Seq<char>>
    decreases ws.len() - i,
{
    if i < 0 || i >= ws.len() {
        open_line(cur)
    } else {
        let w = ws[i];
        if columns(w) > width {
            open_line(cur) + chunks(w, width) + wrapped_from(ws, i + 1, Seq::empty(), 0, width)
        } else if cur.len() == 0 {
            wrapped_from(ws, i + 1, w, columns(w), width)
        } else if used + 1 + columns(w) > width {
            open_line(cur) + wrapped_from(ws, i + 1, w, columns(w), width)
        } else {
            wrapped_from(ws, i + 1, cur.push(' ') + w, used + 1 + columns(w), width)
        }
    }
}

/// Width 0 counts as one column.
pub open spec fn at_least_one(width: nat) -> nat {
    if width == 0 {
        1
    } else {
        width
    }
}

/// The lines of a text set to `width` columns: words stay whole and in order,
/// each line takes as many as fit, and a word that fits no line is cut.
pub open spec fn wrapped(s: Seq<char>, width: nat) -> Seq<Seq<char>> {
    let lines = wrapped_from(words(s), 0, Seq::empty(), 0, at_least_one(width));
    if lines.len() == 0 {
        seq![Seq::empty()]
    } else {
        lines
    }
}

fn chunk_long_word(word: &str, width: usize) -> (r: Vec<String>)
    ensures
        texts(r@) == chunks(word@, width as nat),
{
    broadcast use lemma_texts_push, lemma_texts_empty;

    let v = chars_of(word);
    let mut out: Vec<String> = Vec::new();
    let mut cur: Vec<char> = Vec::new();
    let mut used: u128 = 0;
    let mut i: usize = 0;
    assert(texts(out@) + chunks_from(v@, 0, cur@, width as nat) =~= chunks(word@, width as nat));
    while i < v.len()
        invariant
            i <= v.len(),
            v@ == word@,
            used == raw_columns(cur@),
            used <= 2 * i,
            texts(out@) + chunks_from(v@, i as int, cur@, width as nat) == chunks(
                word@,
                width as nat,
            ),
        decreases v.len() - i,
    {
        let c = v[i];
        let w = char_display_width(c) as u128;
        if used + w > width as u128 && cur.len() > 0 {
            let ghost before = texts(out@);
            let ghost rest = chunks_from(v@, i + 1, seq![c], width as nat);
            out.push(text_of(&cur));
            assert(before + (seq![cur@] + rest) =~= before.push(cur@) + rest);
            cur = Vec::new();
            used = 0;
            assert(cur@.push(c) =~= seq![c]);
            assert(raw_columns(cur@) == 0);
        }
        assert(cur@.push(c).drop_last() =~= cur@);
        cur.push(c);
        used = used + w;
        i += 1;
    }
    if cur.len() > 0 {
        let ghost before = texts(out@);
        out.push(text_of(&cur));
        assert(before + seq![cur@] =~= before.push(cur@));
    } else {
        assert(texts(out@) + Seq::<Seq<char>>::empty() =~= texts(out@));
    }
    out
}

pub fn wrap_plain_text(text: &str, width: usize) -> (r: Vec<String>)
    ensures
        texts(r@) == wrapped(text@, width as nat),
        r.len() > 0,
{
    broadcast use lemma_texts_push, lemma_texts_empty;

    let width: usize = if width == 0 { 1 } else { width };
    let list = split_whitespace(text);
    let ghost ws = words(text@);
    let mut out: Vec<String> = Vec::new();
    let mut cur = String::new();
    let mut used: usize = 0;
    let mut i: usize = 0;
    let ghost all = wrapped_from(ws, 0, Seq::empty(), 0, width as nat);
    assert(texts(out@) + wrapped_from(ws, 0, cur@, 0, width as nat) =~= all);
    while i < list.len()
        invariant
            i <= list.len(),
            ws == texts(list@),
            used <= width,
            texts(out@) + wrapped_from(ws, i as int, cur@, used as nat, width as nat) == all,
        decreases list.len() - i,
    {
        let word = list[i].as_str();
        assert(word@ == ws[i as int]);
        let v = chars_of(word);
        let word_width = count_columns(&v);
        let ghost before = texts(out@);
        let empty = chars_of(cur.as_str()).len() == 0;
        if word_width > width as u128 {
            let ghost rest = wrapped_from(ws, i + 1, Seq::empty(), 0, width as nat);
            assert(before + (open_line(cur@) + chunks(word@, width as nat) + rest) =~= before
                + open_line(cur@) + chunks(word@, width as nat) + rest);
            if !empty {
                out.push(cur);
                assert(before + open_line(cur@) =~= before.push(cur@));
            } else {
                assert(before + open_line(cur@) =~= before);
            }
            cur = String::new();
            used = 0;
            let parts = chunk_long_word(word, width);
            push_list(&mut out, &parts);
            assert(cur@ =~= Seq::<char>::empty());
            i += 1;
            continue;
        }
        let w = word_width as usize;
        if empty {
            cur = copy_text(word);
            used = w;
        } else if width - used < 1 || width - used - 1 < w {
            let ghost rest = wrapped_from(ws, i + 1, word@, w as nat, width as nat);
            assert(before + (open_line(cur@) + rest) =~= before.push(cur@) + rest);
            out.push(cur);
            cur = copy_text(word);
            used = w;
        } else {
            cur.push(' ');
            push_text(&mut cur, word);
            used = used + 1 + w;
        }
        i += 1;
    }
    let empty = chars_of(cur.as_str()).len() == 0;
    let ghost before = texts(out@);
    if !empty {
        out.push(cur);
        assert(before + open_line(cur@) =~= before.push(cur@));
    } else {
        assert(before + open_line(cur@) =~= before);
    }
    if out.len() == 0 {
        out.push(String::new());
        assert(texts(out@) =~= seq![Seq::<char>::empty()]);
    } else {
        assert(texts(out@).len() == out.len());
    }
    out
}

// ---------------------------------------------------------------------------
// Plain text
// ---------------------------------------------------------------------------

/// A text without the character that starts control sequences.
pub open spec fn is_plain(s: Seq<char>) -> bool {
    forall|i: int| 0 <= i < s.len() ==> #[trigger] s[i] != '\x1b'
}

proof fn lemma_plain_columns_from(s: Seq<char>, i: int)
    requires
        is_plain(s),
        0 <= i <= s.len(),
    ensures
        raw_columns(s.take(i)) + columns_from(s, i) == raw_columns(s),
    decreases s.len() - i,
{
    if i < s.len() {
        assert(s[i] != '\x1b');
        assert(s.take(i + 1).drop_last() =~= s.take(i));
        lemma_plain_columns_from(s, i + 1);
    } else {
        assert(s.take(i) =~= s);
    }
}

/// In plain text each character counts for itself.
pub proof fn lemma_plain_columns(s: Seq<char>)
    requires
        is_plain(s),
    ensures
        columns(s) == raw_columns(s),
{
    assert(s.take(0) =~= Seq::<char>::empty());
    lemma_plain_columns_from(s, 0);
}

/// A plain text padded to a width that it does not exceed takes exactly that width.
pub proof fn law_padded_text_fills_the_width(s: Seq<char>, width: nat)
    requires
        is_plain(s),
    ensures
        columns(padded(s, width)) == if columns(s) >= width { columns(s) } else { width },
        is_plain(padded(s, width)),
{
    lemma_plain_columns(s);
    if columns(s) < width {
        let n = (width - columns(s)) as nat;
        crate::input::visible::lemma_raw_columns_concat(s, repeated(' ', n));
        crate::input::visible::lemma_raw_columns_repeated(' ', n);
        assert(n * char_columns(' ') == n) by (nonlinear_arith)
            requires
                char_columns(' ') == 1,
        ;
        assert(is_plain(padded(s, width)));
        lemma_plain_columns(padded(s, width));
    }
}

/// A plain text of at most `width` columns.
pub open spec fn fits(s: Seq<char>, width: nat) -> bool {
    is_plain(s) && raw_columns(s) <= width
}

/// Each text of a list is plain and takes at most `width` columns.
pub open spec fn all_fit(l: Seq<Seq<char>>, width: nat) -> bool {
    forall|k: int| 0 <= k < l.len() ==> fits(#[trigger] l[k], width)
}

proof fn lemma_all_fit_concat(a: Seq<Seq<char>>, b: Seq<Seq<char>>, width: nat)
    requires
        all_fit(a, width),
        all_fit(b, width),
    ensures
        all_fit(a + b, width),
{
    assert forall|k: int| 0 <= k < (a + b).len() implies fits(#[trigger] (a + b)[k], width) by {
        if k < a.len() {
            assert((a + b)[k] == a[k]);
        } else {
            assert((a + b)[k] == b[k - a.len()]);
        }
    }
}

proof fn lemma_chunks_fit(s: Seq<char>, i: int, cur: Seq<char>, width: nat)
    requires
        0 <= i <= s.len(),
        width >= 2,
        raw_columns(cur) <= width,
        is_plain(s),
        is_plain(cur),
    ensures
        all_fit(chunks_from(s, i, cur, width), width),
    decreases s.len() - i,
{
    if i < s.len() {
        if raw_columns(cur) + char_columns(s[i]) > width && cur.len() > 0 {
            assert(seq![s[i]].drop_last() =~= Seq::<char>::empty());
            assert(raw_columns(Seq::<char>::empty()) == 0);
            lemma_chunks_fit(s, i + 1, seq![s[i]], width);
            lemma_all_fit_concat(
                seq![cur],
                chunks_from(s, i + 1, seq![s[i]], width),
                width,
            );
        } else {
            assert(cur.push(s[i]).drop_last() =~= cur);
            if cur.len() == 0 {
                assert(raw_columns(cur) == 0);
            }
            lemma_chunks_fit(s, i + 1, cur.push(s[i]), width);
        }
    }
}

proof fn lemma_wrapped_fit(ws: Seq<Seq<char>>, i: int, cur: Seq<char>, used: nat, width: nat)
    requires
        0 <= i <= ws.len(),
        width >= 2,
        forall|k: int| 0 <= k < ws.len() ==> is_plain(#[trigger] ws[k]),
        raw_columns(cur) <= used <= width,
        is_plain(cur),
    ensures
        all_fit(wrapped_from(ws, i, cur, used, width), width),
    decreases ws.len() - i,
{
    if i < ws.len() {
        let w = ws[i];
        lemma_plain_columns(w);
        assert(raw_columns(Seq::<char>::empty()) == 0);
        if columns(w) > width {
            lemma_chunks_fit(w, 0, Seq::empty(), width);
            lemma_wrapped_fit(ws, i + 1, Seq::empty(), 0, width);
            lemma_all_fit_concat(open_line(cur), chunks(w, width), width);
            lemma_all_fit_concat(
                open_line(cur) + chunks(w, width),
                wrapped_from(ws, i + 1, Seq::empty(), 0, width),
                width,
            );
        } else if cur.len() == 0 {
            lemma_wrapped_fit(ws, i + 1, w, columns(w), width);
        } else if used + 1 + columns(w) > width {
            lemma_wrapped_fit(ws, i + 1, w, columns(w), width);
            lemma_all_fit_concat(
                open_line(cur),
                wrapped_from(ws, i + 1, w, columns(w), width),
                width,
            );
        } else {
            crate::input::visible::lemma_raw_columns_concat(cur.push(' '), w);
            assert(cur.push(' ').drop_last() =~= cur);
            assert(char_columns(' ') == 1);
            lemma_wrapped_fit(ws, i + 1, cur.push(' ') + w, used + 1 + columns(w), width);
        }
    }
}

proof fn lemma_words_plain(s: Seq<char>, i: int)
    requires
        is_plain(s),
        0 <= i <= s.len(),
    ensures
        forall|k: int|
            0 <= k < words_from(s, i).len() ==> is_plain(#[trigger] words_from(s, i)[k]),
    decreases s.len() - i,
{
    let a = skip_space(s, i);
    let b = word_end(s, a);
    if 0 <= i <= a < b <= s.len() {
        lemma_words_plain(s, b);
        assert(is_plain(s.subrange(a, b)));
        let rest = words_from(s, b);
        assert forall|k: int| 0 <= k < words_from(s, i).len() implies is_plain(
            #[trigger] words_from(s, i)[k],
        ) by {
            if k > 0 {
                assert(words_from(s, i)[k] == rest[k - 1]);
            }
        }
    }
}

/// No line of a wrapped plain text takes more columns than the width, where a
/// wide character fits.
pub proof fn law_wrapped_lines_fit(s: Seq<char>, width: nat)
    requires
        is_plain(s),
        width >= 2,
    ensures
        all_fit(wrapped(s, width), width),
{
    lemma_words_plain(s, 0);
    assert(raw_columns(Seq::<char>::empty()) == 0);
    lemma_wrapped_fit(words(s), 0, Seq::empty(), 0, width);
}

} // verus!
