//! Setting a prompt and a draft in rows, and cutting text with an ellipsis.
use vstd::prelude::*;

use crate::terminal_width::{char_display_width, count_columns, display_width, escape_end_at, is_escape_at};
use crate::terminal_width::{char_columns, columns, columns_from, escape_at, escape_end, lemma_escape_end, raw_columns, saturated};
use crate::text::{chars_of, copy_text, push_text, repeat_char, text_between};
use crate::text::{lemma_texts_empty, lemma_texts_push, repeated, texts};

verus! {

/// Rows of text, and the column behind the last character of the last row.
#[verifier::ext_equal]
pub struct RowsView {
    pub rows: Seq<Seq<char>>,
    pub col: nat,
}

pub open spec fn no_rows() -> RowsView {
    RowsView { rows: seq![Seq::empty()], col: 0 }
}

/// The rows with `t` behind the last one.
pub open spec fn extended(l: RowsView, t: Seq<char>, col: nat) -> RowsView {
    RowsView { rows: l.rows.drop_last().push(l.rows.last() + t), col }
}

/// The rows after one more character: a line feed or a full row starts a new
/// row, and a character without columns is left out.
pub open spec fn put_char(l: RowsView, c: char, width: nat) -> RowsView {
    let w = char_columns(c);
    if c == '\n' {
        RowsView { rows: l.rows.push(Seq::empty()), col: 0 }
    } else if w == 0 {
        l
    } else if saturated(l.col + w) > width {
        RowsView { rows: l.rows.push(seq![c]), col: w }
    } else {
        extended(l, seq![c], saturated(l.col + w))
    }
}

/// The rows after a styled text, from index `i` on; its control sequences take
/// no columns.
pub open spec fn put_styled(l: RowsView, s: Seq<char>, i: int, width: nat) -> RowsView
    decreases s.len() - i,
{
    if i < 0 || i >= s.len() {
        l
    } else if escape_at(s, i) {
        let e = escape_end(s, i + 2);
        if i < e <= s.len() {
            put_styled(extended(l, s.subrange(i, e), l.col), s, e, width)
        } else {
            l
        }
    } else {
        put_styled(put_char(l, s[i], width), s, i + 1, width)
    }
}

/// The rows after the first `n` characters of a plain text.
pub open spec fn put_plain(l: RowsView, s: Seq<char>, n: int, width: nat) -> RowsView
    decreases n,
{
    if n <= 0 || n > s.len() {
        l
    } else {
        put_char(put_plain(l, s, n - 1, width), s[n - 1], width)
    }
}

/// The rows of the dock's input, and where the cursor stands in them.
#[derive(Debug)]
pub struct ComposedDockRows {
    pub lines: Vec<String>,
    pub cursor_row: usize,
    pub cursor_col: usize,
}

#[verifier::ext_equal]
pub struct DockRowsView {
    pub lines: Seq<Seq<char>>,
    pub cursor_row: nat,
    pub cursor_col: nat,
}

impl View for ComposedDockRows {
    type V = DockRowsView;

    open spec fn view(&self) -> DockRowsView {
        DockRowsView {
            lines: texts(self.lines@),
            cursor_row: self.cursor_row as nat,
            cursor_col: self.cursor_col as nat,
        }
    }
}

pub open spec fn wide_enough(width: nat) -> nat {
    if width < 1 {
        1
    } else {
        width
    }
}

/// Where the cursor counts as standing.
pub open spec fn shown_cursor(buffer: Seq<char>, cursor: nat) -> int {
    if cursor < buffer.len() {
        cursor as int
    } else {
        buffer.len() as int
    }
}

/// The prompt and the draft, set in rows of `width` columns.
pub open spec fn dock_rows(
    prompt: Seq<char>,
    buffer: Seq<char>,
    cursor: nat,
    width: nat,
) -> DockRowsView {
    let w = wide_enough(width);
    let start = put_styled(no_rows(), prompt, 0, w);
    let at = put_plain(start, buffer, shown_cursor(buffer, cursor), w);
    DockRowsView {
        lines: put_plain(start, buffer, buffer.len() as int, w).rows,
        cursor_row: (at.rows.len() - 1) as nat,
        cursor_col: at.col,
    }
}

/// Rows in the making: the finished ones and the open one.
struct RowWriter {
    done: Vec<String>,
    open: String,
    col: usize,
}

impl View for RowWriter {
    type V = RowsView;

    closed spec fn view(&self) -> RowsView {
        RowsView { rows: texts(self.done@).push(self.open@), col: self.col as nat }
    }
}

impl RowWriter {
    fn start() -> (r: RowWriter)
        ensures
            r@ == no_rows(),
    {
        broadcast use lemma_texts_empty;

        let r = RowWriter { done: Vec::new(), open: String::new(), col: 0 };
        assert(r@.rows =~= no_rows().rows);
        r
    }

    fn break_row(&mut self)
        ensures
            final(self)@ == (RowsView { rows: old(self)@.rows.push(Seq::empty()), col: 0 }),
            texts(final(self).done@) == old(self)@.rows,
            final(self).open@.len() == 0,
    {
        broadcast use lemma_texts_push;

        let ghost before = self@;
        let open = copy_text(self.open.as_str());
        self.done.push(open);
        self.open = String::new();
        self.col = 0;
        assert(self@.rows =~= before.rows.push(Seq::empty()));
    }

    fn put(&mut self, c: char, width: usize)
        ensures
            final(self)@ == put_char(old(self)@, c, width as nat),
    {
        let ghost before = self@;
        if c == '\n' {
            self.break_row();
            return;
        }
        let w = char_display_width(c);
        if w == 0 {
            return;
        }
        if self.col.saturating_add(w) > width {
            self.break_row();
            self.open.push(c);
            self.col = w;
            assert(self.open@ =~= seq![c]);
            assert(self@.rows =~= before.rows.push(seq![c]));
        } else {
            self.open.push(c);
            self.col = self.col.saturating_add(w);
            assert(self.open@ =~= before.rows.last() + seq![c]);
            assert(self@.rows =~= extended(before, seq![c], self.col as nat).rows);
        }
    }

    fn put_sequence(&mut self, t: &str)
        ensures
            final(self)@ == extended(old(self)@, t@, old(self)@.col),
    {
        let ghost before = self@;
        push_text(&mut self.open, t);
        assert(self@.rows =~= extended(before, t@, before.col).rows);
    }

    fn put_styled_text(&mut self, text: &str, width: usize)
        ensures
            final(self)@ == put_styled(old(self)@, text@, 0, width as nat),
    {
        let v = chars_of(text);
        let ghost all = put_styled(self@, text@, 0, width as nat);
        let mut i: usize = 0;
        while i < v.len()
            invariant
                i <= v.len(),
                v@ == text@,
                put_styled(self@, v@, i as int, width as nat) == all,
            decreases v.len() - i,
        {
            if is_escape_at(&v, i) {
                let e = escape_end_at(&v, i + 2);
                proof {
                    lemma_escape_end(v@, i + 2);
                }
                let sequence = text_between(&v, i, e);
                self.put_sequence(sequence.as_str());
                i = e;
            } else {
                self.put(v[i], width);
                i += 1;
            }
        }
    }

    fn finish(self) -> (r: Vec<String>)
        ensures
            texts(r@) == self@.rows,
    {
        broadcast use lemma_texts_push;

        let mut out = self.done;
        out.push(self.open);
        out
    }
}

pub fn compose_dock_rows(prompt: &str, buffer: &str, cursor: usize, width: usize) -> (r:
    ComposedDockRows)
    ensures
        r@ == dock_rows(prompt@, buffer@, cursor as nat, width as nat),
        r.cursor_row < r.lines.len(),
{
    let width: usize = if width < 1 { 1 } else { width };
    let mut rows = RowWriter::start();
    rows.put_styled_text(prompt, width);
    let ghost start = rows@;
    let v = chars_of(buffer);
    let at: usize = if cursor < v.len() { cursor } else { v.len() };
    let mut i: usize = 0;
    while i < at
        invariant
            i <= at <= v.len(),
            rows@ == put_plain(start, v@, i as int, width as nat),
        decreases at - i,
    {
        rows.put(v[i], width);
        i += 1;
    }
    let cursor_row = rows.done.len();
    let cursor_col = rows.col;
    let ghost marked = rows@;
    while i < v.len()
        invariant
            at <= i <= v.len(),
            rows@ == put_plain(start, v@, i as int, width as nat),
            rows@.rows.len() >= marked.rows.len(),
        decreases v.len() - i,
    {
        rows.put(v[i], width);
        i += 1;
    }
    let lines = rows.finish();
    assert(texts(lines@).len() == lines.len());
    ComposedDockRows { lines, cursor_row, cursor_col }
}

pub fn visible_len(text: &str) -> (r: usize)
    ensures
        r == saturated(columns(text@)),
{
    display_width(text)
}

/// How many characters from index `i` on fit in `room` columns after `used`.
pub open spec fn fitting_end(s: Seq<char>, i: int, used: nat, room: nat) -> int
    decreases s.len() - i,
{
    if i < 0 || i >= s.len() || used + char_columns(s[i]) > room {
        i
    } else {
        fitting_end(s, i + 1, used + char_columns(s[i]), room)
    }
}

/// The text, or its start with an ellipsis, in `width` columns.
pub open spec fn shortened(s: Seq<char>, width: nat) -> Seq<char> {
    if width == 0 {
        Seq::empty()
    } else if columns(s) <= width {
        s
    } else if width <= 3 {
        repeated('.', width)
    } else {
        s.take(fitting_end(s, 0, 0, (width - 3) as nat)) + "..."@
    }
}

pub fn truncate_display_text(text: &str, width: usize) -> (r: String)
    ensures
        r@ == shortened(text@, width as nat),
{
    if width == 0 {
        return String::new();
    }
    let v = chars_of(text);
    if count_columns(&v) <= width as u128 {
        return copy_text(text);
    }
    if width <= 3 {
        return repeat_char('.', width);
    }
    let room: usize = width - 3;
    let mut used: usize = 0;
    let mut i: usize = 0;
    let mut more = true;
    while i < v.len() && more
        invariant
            i <= v.len(),
            used <= room,
            more ==> fitting_end(v@, 0, 0, room as nat) == fitting_end(
                v@,
                i as int,
                used as nat,
                room as nat,
            ),
            !more ==> fitting_end(v@, 0, 0, room as nat) == i,
        decreases v.len() - i, (if more { 1int } else { 0int }),
    {
        let w = char_display_width(v[i]);
        if w > room - used {
            more = false;
        } else {
            used = used + w;
            i += 1;
        }
    }
    let mut out = text_between(&v, 0, i);
    assert(v@.subrange(0, i as int) =~= v@.take(i as int));
    push_text(&mut out, "...");
    out
}

// ---------------------------------------------------------------------------
// The shortened text fits
// ---------------------------------------------------------------------------

pub proof fn lemma_raw_columns_step(s: Seq<char>, i: int)
    requires
        0 <= i < s.len(),
    ensures
        raw_columns(s.take(i + 1)) == raw_columns(s.take(i)) + char_columns(s[i]),
{
    assert(s.take(i + 1).drop_last() =~= s.take(i));
}

proof fn lemma_fitting_end(s: Seq<char>, i: int, used: nat, room: nat)
    requires
        0 <= i <= s.len(),
        used == raw_columns(s.take(i)),
        used <= room,
    ensures
        i <= fitting_end(s, i, used, room) <= s.len(),
        raw_columns(s.take(fitting_end(s, i, used, room))) <= room,
    decreases s.len() - i,
{
    if i < s.len() && used + char_columns(s[i]) <= room {
        lemma_raw_columns_step(s, i);
        lemma_fitting_end(s, i + 1, used + char_columns(s[i]), room);
    }
}

/// Control sequences only ever lower the count of columns.
pub proof fn lemma_columns_at_most_raw(s: Seq<char>, i: int)
    requires
        0 <= i <= s.len(),
    ensures
        raw_columns(s.take(i)) + columns_from(s, i) <= raw_columns(s),
    decreases s.len() - i,
{
    if i < s.len() {
        if escape_at(s, i) {
            let e = escape_end(s, i + 2);
            lemma_escape_end(s, i + 2);
            lemma_columns_at_most_raw(s, e);
            lemma_raw_columns_grow(s, i, e);
        } else {
            lemma_raw_columns_step(s, i);
            lemma_columns_at_most_raw(s, i + 1);
        }
    } else {
        assert(s.take(i) =~= s);
    }
}

proof fn lemma_raw_columns_grow(s: Seq<char>, i: int, j: int)
    requires
        0 <= i <= j <= s.len(),
    ensures
        raw_columns(s.take(i)) <= raw_columns(s.take(j)),
    decreases j - i,
{
    if i < j {
        lemma_raw_columns_step(s, j - 1);
        lemma_raw_columns_grow(s, i, j - 1);
    }
}

pub proof fn lemma_raw_columns_concat(a: Seq<char>, b: Seq<char>)
    ensures
        raw_columns(a + b) == raw_columns(a) + raw_columns(b),
    decreases b.len(),
{
    if b.len() == 0 {
        assert(a + b =~= a);
    } else {
        assert((a + b).drop_last() =~= a + b.drop_last());
        lemma_raw_columns_concat(a, b.drop_last());
    }
}

pub proof fn lemma_raw_columns_repeated(c: char, n: nat)
    ensures
        raw_columns(repeated(c, n)) == n * char_columns(c),
    decreases n,
{
    if n > 0 {
        assert(repeated(c, n).drop_last() =~= repeated(c, (n - 1) as nat));
        lemma_raw_columns_repeated(c, (n - 1) as nat);
        assert(n * char_columns(c) == (n - 1) * char_columns(c) + char_columns(c))
            by (nonlinear_arith);
    } else {
        assert(n * char_columns(c) == 0) by (nonlinear_arith)
            requires
                n == 0,
        ;
    }
}

/// A shortened text never takes more columns than it was given.
pub proof fn law_shortened_text_fits(s: Seq<char>, width: nat)
    ensures
        columns(shortened(s, width)) <= width,
{
    let r = shortened(s, width);
    if width > 0 && columns(s) > width {
        lemma_columns_at_most_raw(r, 0);
        assert(r.take(0) =~= Seq::<char>::empty());
        if width <= 3 {
            lemma_raw_columns_repeated('.', width);
            assert(width * char_columns('.') == width) by (nonlinear_arith)
                requires
                    char_columns('.') == 1,
            ;
        } else {
            let e = fitting_end(s, 0, 0, (width - 3) as nat);
            assert(s.take(0) =~= Seq::<char>::empty());
            lemma_fitting_end(s, 0, 0, (width - 3) as nat);
            reveal_strlit("...");
            assert("..."@ =~= repeated('.', 3));
            lemma_raw_columns_repeated('.', 3);
            lemma_raw_columns_concat(s.take(e), "..."@);
        }
    }
}

/// Shortening keeps a text plain.
pub proof fn lemma_shortened_plain(s: Seq<char>, width: nat)
    requires
        crate::terminal_width::is_plain(s),
    ensures
        crate::terminal_width::is_plain(shortened(s, width)),
{
    if width > 3 && columns(s) > width {
        assert(s.take(0) =~= Seq::<char>::empty());
        lemma_fitting_end(s, 0, 0, (width - 3) as nat);
        reveal_strlit("...");
        let kept = s.take(fitting_end(s, 0, 0, (width - 3) as nat));
        assert(crate::terminal_width::is_plain(kept));
    }
}

} // verus!
