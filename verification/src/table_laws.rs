//! What holds of documents and tables that are set for the terminal.
use vstd::prelude::*;

use crate::ink::{bars_from, column_ink, ink, inks, is_ink, is_unstyled, lemma_blank, lemma_cell, lemma_ink_of_words, lemma_ink_on, lemma_inks_of_one, lemma_inks_on, lemma_read_on, lemma_spaces, lemma_style, lemma_unstyled, marks_from, settled};
use crate::markdown_laws::{law_lines_show_what_they_say, lemma_inline};
use crate::terminal_markdown::{body_text, cell_at, cell_lines, column_count, column_width, column_widths, is_table, is_table_line, markdown_from, markdown_line, muted_text, row_height, row_line, row_text, rule_text, table_cells, table_end, table_rows, table_text, terminal_markdown, whole_row};
use crate::terminal_width::{at_least_one, chunks, chunks_from, columns, open_line, padded, wrapped, wrapped_from};
use crate::text::{has_prefix, lemma_next_char, lines_from, next_char, repeated, skip_space, text_lines, trimmed, without_cr, word_end, words, words_from};
use crate::text_laws::is_free_of;

verus! {

// ---------------------------------------------------------------------------
// Cells
// ---------------------------------------------------------------------------

/// A text that can stand in a cell: without styles, bars and line feeds.
pub open spec fn is_cell(s: Seq<char>) -> bool {
    is_unstyled(s) && is_free_of(s, '|') && is_free_of(s, '\n')
}

pub open spec fn are_cells(list: Seq<Seq<char>>) -> bool {
    forall|i: int| 0 <= i < list.len() ==> is_cell(#[trigger] list[i])
}

proof fn lemma_cells_on(a: Seq<Seq<char>>, b: Seq<Seq<char>>)
    requires
        are_cells(a),
        are_cells(b),
    ensures
        are_cells(a + b),
{
    assert forall|i: int| 0 <= i < (a + b).len() implies is_cell(#[trigger] (a + b)[i]) by {
        if i < a.len() {
            assert((a + b)[i] == a[i]);
        } else {
            assert((a + b)[i] == b[i - a.len()]);
        }
    }
}

proof fn lemma_words_are_cells(s: Seq<char>, i: int)
    requires
        is_cell(s),
        0 <= i <= s.len(),
    ensures
        are_cells(words_from(s, i)),
    decreases s.len() - i,
{
    let a = skip_space(s, i);
    let b = word_end(s, a);
    if 0 <= i <= a < b <= s.len() {
        lemma_words_are_cells(s, b);
        assert(is_cell(s.subrange(a, b)));
        lemma_cells_on(seq![s.subrange(a, b)], words_from(s, b));
    }
}

proof fn lemma_chunks(s: Seq<char>, i: int, cur: Seq<char>, width: nat)
    requires
        is_cell(s),
        is_cell(cur),
        0 <= i <= s.len(),
    ensures
        inks(chunks_from(s, i, cur, width)) == ink(cur) + ink(s.skip(i)),
        are_cells(chunks_from(s, i, cur, width)),
    decreases s.len() - i,
{
    let none = Seq::<char>::empty();
    lemma_unstyled(cur);
    if i == s.len() {
        assert(s.skip(i) =~= none);
        assert(ink(cur) + none =~= ink(cur));
        if cur.len() == 0 {
            assert(cur =~= none);
        } else {
            lemma_inks_of_one(cur);
        }
    } else {
        let one = seq![s[i]];
        let rest = s.skip(i + 1);
        assert(one + rest =~= s.skip(i));
        lemma_unstyled(one);
        lemma_ink_on(one, rest);
        if crate::terminal_width::raw_columns(cur) + crate::terminal_width::char_columns(s[i])
            > width && cur.len() > 0 {
            lemma_chunks(s, i + 1, one, width);
            let more = chunks_from(s, i + 1, one, width);
            lemma_inks_on(seq![cur], more);
            lemma_inks_of_one(cur);
            lemma_cells_on(seq![cur], more);
        } else {
            let longer = cur.push(s[i]);
            assert(longer =~= cur + one);
            lemma_ink_on(cur, one);
            lemma_chunks(s, i + 1, longer, width);
            assert(ink(cur) + ink(one) + ink(rest) =~= ink(cur) + (ink(one) + ink(rest)));
        }
    }
}

proof fn lemma_wrapped_from(ws: Seq<Seq<char>>, i: int, cur: Seq<char>, used: nat, width: nat)
    requires
        are_cells(ws),
        is_cell(cur),
        0 <= i <= ws.len(),
    ensures
        inks(wrapped_from(ws, i, cur, used, width)) == ink(cur) + inks(ws.skip(i)),
        are_cells(wrapped_from(ws, i, cur, used, width)),
    decreases ws.len() - i,
{
    let none = Seq::<char>::empty();
    lemma_unstyled(cur);
    lemma_open_line(cur);
    if i == ws.len() {
        assert(ws.skip(i) =~= Seq::<Seq<char>>::empty());
        assert(ink(cur) + none =~= ink(cur));
    } else {
        let w = ws[i];
        let rest = ws.skip(i + 1);
        assert(is_cell(w));
        assert(seq![w] + rest =~= ws.skip(i));
        lemma_inks_on(seq![w], rest);
        lemma_inks_of_one(w);
        lemma_unstyled(w);
        if columns(w) > width {
            let more = wrapped_from(ws, i + 1, Seq::empty(), 0, width);
            lemma_wrapped_from(ws, i + 1, Seq::empty(), 0, width);
            lemma_chunks(w, 0, Seq::empty(), width);
            assert(w.skip(0) =~= w);
            lemma_inks_on(open_line(cur), chunks(w, width));
            lemma_inks_on(open_line(cur) + chunks(w, width), more);
            lemma_cells_on(open_line(cur), chunks(w, width));
            lemma_cells_on(open_line(cur) + chunks(w, width), more);
            assert(ink(cur) + (none + ink(w)) + (none + inks(rest)) =~= ink(cur) + (ink(w) + inks(
                rest,
            )));
        } else if cur.len() == 0 {
            assert(cur =~= none);
            lemma_wrapped_from(ws, i + 1, w, columns(w), width);
            assert(none + (ink(w) + inks(rest)) =~= ink(w) + inks(rest));
        } else if used + 1 + columns(w) > width {
            let more = wrapped_from(ws, i + 1, w, columns(w), width);
            lemma_wrapped_from(ws, i + 1, w, columns(w), width);
            lemma_inks_on(open_line(cur), more);
            lemma_cells_on(open_line(cur), more);
        } else {
            let gap = seq![' '];
            let longer = cur.push(' ') + w;
            assert(longer =~= cur + gap + w);
            lemma_blank(gap);
            lemma_ink_on(cur, gap);
            lemma_ink_on(cur + gap, w);
            lemma_wrapped_from(ws, i + 1, longer, used + 1 + columns(w), width);
            assert(ink(cur) + none + ink(w) + inks(rest) =~= ink(cur) + (ink(w) + inks(rest)));
        }
    }
}

proof fn lemma_open_line(cur: Seq<char>)
    requires
        is_cell(cur),
    ensures
        inks(open_line(cur)) == ink(cur),
        are_cells(open_line(cur)),
{
    if cur.len() == 0 {
        assert(cur =~= Seq::<char>::empty());
    } else {
        lemma_inks_of_one(cur);
    }
}

/// Wrapping loses nothing: what is seen of the lines, one after the other, is
/// what is seen of the text.
pub proof fn law_wrapping_loses_nothing(s: Seq<char>, width: nat)
    requires
        is_cell(s),
    ensures
        inks(wrapped(s, width)) == ink(s),
        are_cells(wrapped(s, width)),
{
    let none = Seq::<char>::empty();
    lemma_words_are_cells(s, 0);
    lemma_ink_of_words(s);
    lemma_wrapped_from(words(s), 0, none, 0, at_least_one(width));
    assert(words(s).skip(0) =~= words(s));
    assert(none + inks(words(s)) =~= inks(words(s)));
    let lines = wrapped_from(words(s), 0, none, 0, at_least_one(width));
    if lines.len() == 0 {
        lemma_inks_of_one(none);
        assert(is_cell(none));
    }
}

// ---------------------------------------------------------------------------
// Rows
// ---------------------------------------------------------------------------

proof fn lemma_bar()
    ensures
        settled(muted_text("|"@)),
        forall|bars: int, column: int| #[trigger]
            marks_from(muted_text("|"@), 0, bars, column) == Seq::<char>::empty(),
        forall|bars: int| #[trigger] bars_from(muted_text("|"@), 0, bars) == bars + 1,
{
    reveal_strlit("|");
    lemma_muted("|"@);
    assert forall|bars: int| #[trigger] bars_from(muted_text("|"@), 0, bars) == bars + 1 by {
        reveal_with_fuel(bars_from, 2);
        assert(bars_from("|"@, 0, bars) == bars + 1);
    }
}

/// A muted text without ink is not seen, and counts its bars.
proof fn lemma_muted(s: Seq<char>)
    requires
        is_unstyled(s),
        forall|i: int| 0 <= i < s.len() ==> !is_ink(#[trigger] s[i]),
    ensures
        settled(muted_text(s)),
        forall|bars: int, column: int| #[trigger]
            marks_from(muted_text(s), 0, bars, column) == Seq::<char>::empty(),
        forall|bars: int| #[trigger] bars_from(muted_text(s), 0, bars) == bars_from(s, 0, bars),
{
    reveal_strlit("90");
    reveal_strlit("\x1b[0m");
    reveal_strlit("\x1b[");
    reveal_strlit("m");
    let none = Seq::<char>::empty();
    let on = "\x1b["@ + "90"@ + "m"@;
    let off = "\x1b[0m"@;
    lemma_style("90"@);
    assert(off =~= "\x1b["@ + seq!['0'] + "m"@);
    lemma_style(seq!['0']);
    lemma_blank(s);
    assert(muted_text(s) =~= on + s + off);
    assert forall|bars: int, column: int| #[trigger]
        marks_from(muted_text(s), 0, bars, column) == none by {
        lemma_read_on(on, s, bars, column);
        lemma_read_on(on + s, off, bars, column);
        assert(marks_from(on, 0, bars, column) == none);
        assert(marks_from(s, 0, bars_from(on, 0, bars), column) == none);
        assert(marks_from(off, 0, bars_from(on + s, 0, bars), column) == none);
        assert(none + none + none =~= none);
    }
    assert forall|bars: int| #[trigger]
        bars_from(muted_text(s), 0, bars) == bars_from(s, 0, bars) by {
        lemma_read_on(on, s, bars, 0);
        lemma_read_on(on + s, off, bars, 0);
        assert(bars_from(on, 0, bars) == bars);
        assert(bars_from(off, 0, bars_from(s, 0, bars)) == bars_from(s, 0, bars));
    }
    lemma_read_on(on, s, 0, 0);
    lemma_read_on(on + s, off, 0, 0);
}

/// A padded cell is read as the cell.
proof fn lemma_padded(line: Seq<char>, width: nat, bars: int, column: int)
    requires
        is_cell(line),
        column >= 0,
    ensures
        ({
            let r = " "@ + padded(crate::terminal_markdown::inline(line), width) + " "@;
            &&& settled(r)
            &&& bars_from(r, 0, bars) == bars
            &&& marks_from(r, 0, bars, column) == if bars == column + 1 {
                ink(line)
            } else {
                Seq::<char>::empty()
            }
        }),
{
    reveal_strlit(" ");
    let none = Seq::<char>::empty();
    let x = crate::terminal_markdown::inline(line);
    lemma_inline(line);
    let n = (width - columns(x)) as nat;
    lemma_spaces(n);
    let fill = if columns(x) >= width {
        none
    } else {
        repeated(' ', n)
    };
    lemma_unstyled(none);
    let y = padded(x, width);
    assert(y =~= x + fill);
    lemma_ink_on(x, fill);
    assert(ink(fill) =~= none);
    assert(ink(x) + none =~= ink(x));
    let gap = " "@;
    lemma_blank(gap);
    lemma_ink_on(gap, y);
    lemma_ink_on(gap + y, gap);
    let r = gap + y + gap;
    assert(none + ink(y) + none =~= ink(y));
    assert forall|i: int| 0 <= i < r.len() implies #[trigger] r[i] != '|' && r[i] != '\n' by {
        if 1 <= i < 1 + x.len() {
            assert(r[i] == x[i - 1]);
        } else if 1 + x.len() <= i < 1 + y.len() {
            assert(r[i] == fill[i - 1 - x.len()]);
        }
    }
    lemma_cell(r, bars, column);
}

proof fn lemma_row_line(row: Seq<Seq<char>>, widths: Seq<int>, k: int, n: int, column: int)
    requires
        are_cells(row),
        0 <= n <= widths.len(),
        column >= 0,
    ensures
        settled(row_line(row, widths, k, n)),
        bars_from(row_line(row, widths, k, n), 0, 0) == n + 1,
        column_ink(row_line(row, widths, k, n), column) == if column < n {
            ink(cell_at(cell_lines(row, widths, column), k))
        } else {
            Seq::<char>::empty()
        },
    decreases n,
{
    let none = Seq::<char>::empty();
    lemma_bar();
    if n > 0 {
        lemma_row_line(row, widths, k, n - 1, column);
        let before = row_line(row, widths, k, n - 1);
        let c = n - 1;
        let width = widths[c] as nat;
        assert(is_cell(none));
        assert(is_cell(cell_at(row, c)));
        law_wrapping_loses_nothing(cell_at(row, c), width);
        let line = cell_at(cell_lines(row, widths, c), k);
        assert(is_cell(line));
        let body = " "@ + padded(crate::terminal_markdown::inline(line), width) + " "@;
        lemma_padded(line, width, n as int, column);
        let bar = muted_text("|"@);
        lemma_read_on(before, body, 0, column);
        lemma_read_on(before + body, bar, 0, column);
        assert(marks_from(bar, 0, n as int, column) == none);
        assert(bars_from(bar, 0, n as int) == n + 1);
        let whole = row_line(row, widths, k, n);
        assert(whole =~= before + body + bar);
        if column < c {
            let seen = ink(cell_at(cell_lines(row, widths, column), k));
            assert(seen + none + none =~= seen);
        } else if column == c {
            assert(none + ink(line) + none =~= ink(line));
        } else {
            assert(none + none + none =~= none);
        }
    } else {
        assert(marks_from(muted_text("|"@), 0, 0, column) == none);
        assert(bars_from(muted_text("|"@), 0, 0) == 1);
    }
}

/// What is seen of the first `n` lines of a cell.
spec fn lines_ink(lines: Seq<Seq<char>>, n: int) -> Seq<char>
    decreases n,
{
    if n <= 0 {
        Seq::empty()
    } else {
        lines_ink(lines, n - 1) + ink(cell_at(lines, n - 1))
    }
}

proof fn lemma_lines_ink(lines: Seq<Seq<char>>, n: int)
    requires
        n >= 0,
    ensures
        n <= lines.len() ==> lines_ink(lines, n) == inks(lines.take(n)),
        n >= lines.len() ==> lines_ink(lines, n) == inks(lines),
    decreases n,
{
    let none = Seq::<char>::empty();
    if n == 0 {
        assert(lines.take(0) =~= Seq::<Seq<char>>::empty());
        if lines.len() == 0 {
            assert(lines =~= Seq::<Seq<char>>::empty());
        }
    } else {
        lemma_lines_ink(lines, n - 1);
        if n <= lines.len() {
            assert(lines.take(n).drop_last() =~= lines.take(n - 1));
            assert(lines.take(lines.len() as int) =~= lines);
        } else {
            lemma_unstyled(none);
            assert(ink(none) =~= none);
            assert(inks(lines) + none =~= inks(lines));
        }
    }
}

proof fn lemma_row_text(row: Seq<Seq<char>>, widths: Seq<int>, n: int, column: int)
    requires
        are_cells(row),
        0 <= n,
        0 <= column < widths.len(),
    ensures
        settled(row_text(row, widths, n)),
        bars_from(row_text(row, widths, n), 0, 0) == 0,
        column_ink(row_text(row, widths, n), column) == lines_ink(
            cell_lines(row, widths, column),
            n,
        ),
    decreases n,
{
    reveal_strlit("\n");
    let none = Seq::<char>::empty();
    if n > 0 {
        lemma_row_text(row, widths, n - 1, column);
        let before = row_text(row, widths, n - 1);
        let line = row_line(row, widths, n - 1, widths.len() as int);
        lemma_row_line(row, widths, n - 1, widths.len() as int, column);
        lemma_blank("\n"@);
        lemma_read_on(before, line, 0, column);
        lemma_read_on(before + line, "\n"@, 0, column);
        let bars = bars_from(before + line, 0, 0);
        assert(marks_from("\n"@, 0, bars, column) == none);
        assert(bars_from("\n"@, 0, bars) == 0) by {
            reveal_with_fuel(bars_from, 2);
        }
        let seen = lines_ink(cell_lines(row, widths, column), n - 1);
        let now = ink(cell_at(cell_lines(row, widths, column), n - 1));
        assert(seen + now + none =~= seen + now);
    } else {
        lemma_unstyled(none);
    }
}

proof fn lemma_row_height(row: Seq<Seq<char>>, widths: Seq<int>, n: int, column: int)
    requires
        0 <= column < n <= widths.len(),
    ensures
        row_height(row, widths, n) >= cell_lines(row, widths, column).len(),
    decreases n,
{
    if column < n - 1 {
        lemma_row_height(row, widths, n - 1, column);
    }
}

/// A row of a table shows each of its cells in its own column, whole.
pub proof fn law_rows_show_their_cells(row: Seq<Seq<char>>, widths: Seq<int>, column: int)
    requires
        are_cells(row),
        0 <= column < widths.len(),
    ensures
        column_ink(whole_row(row, widths), column) == ink(cell_at(row, column)),
        settled(whole_row(row, widths)),
        bars_from(whole_row(row, widths), 0, 0) == 0,
{
    let n = row_height(row, widths, widths.len() as int);
    lemma_row_height(row, widths, widths.len() as int, column);
    lemma_row_text(row, widths, n, column);
    let lines = cell_lines(row, widths, column);
    lemma_lines_ink(lines, n);
    assert(is_cell(Seq::<char>::empty()));
    assert(is_cell(cell_at(row, column)));
    law_wrapping_loses_nothing(cell_at(row, column), widths[column] as nat);
}

// ---------------------------------------------------------------------------
// Tables
// ---------------------------------------------------------------------------

proof fn lemma_rule(widths: Seq<int>, n: int, column: int)
    requires
        0 <= n <= widths.len(),
        column >= 0,
    ensures
        settled(rule_text(widths, n)),
        column_ink(rule_text(widths, n), column) == Seq::<char>::empty(),
    decreases n,
{
    let none = Seq::<char>::empty();
    lemma_bar();
    if n > 0 {
        reveal_strlit("|");
        lemma_rule(widths, n - 1, column);
        let before = rule_text(widths, n - 1);
        let dashes = repeated('-', (widths[n - 1] + 2) as nat) + "|"@;
        lemma_muted(dashes);
        lemma_read_on(before, muted_text(dashes), 0, column);
        let bars = bars_from(before, 0, 0);
        assert(marks_from(muted_text(dashes), 0, bars, column) == none);
        assert(none + none =~= none);
    } else {
        assert(marks_from(muted_text("|"@), 0, 0, column) == none);
    }
}

/// The parts of a table: its rows, and the rule in the second place.
spec fn table_parts(rows: Seq<Seq<Seq<char>>>, widths: Seq<int>) -> Seq<Seq<char>> {
    Seq::new(
        rows.len(),
        |r: int|
            if r == 1 {
                rule_text(widths, widths.len() as int) + "\n"@
            } else {
                whole_row(rows[r], widths)
            },
    )
}

proof fn lemma_body(rows: Seq<Seq<Seq<char>>>, widths: Seq<int>, n: int)
    requires
        2 <= n <= rows.len(),
    ensures
        table_parts(rows, widths).take(n).flatten() == whole_row(rows[0], widths) + (rule_text(
            widths,
            widths.len() as int,
        ) + "\n"@) + body_text(rows, widths, n),
    decreases n,
{
    let parts = table_parts(rows, widths);
    let none = Seq::<char>::empty();
    if n == 2 {
        let head = parts[0];
        let rule = parts[1];
        let zero = Seq::<Seq<char>>::empty();
        assert(parts.take(2) =~= zero.push(head).push(rule));
        zero.lemma_flatten_push(head);
        zero.push(head).lemma_flatten_push(rule);
        assert(none + head + rule =~= head + rule + none);
    } else {
        lemma_body(rows, widths, n - 1);
        assert(parts.take(n) =~= parts.take(n - 1).push(parts[n - 1]));
        parts.take(n - 1).lemma_flatten_push(parts[n - 1]);
        let start = whole_row(rows[0], widths) + (rule_text(widths, widths.len() as int) + "\n"@);
        assert(start + body_text(rows, widths, n - 1) + parts[n - 1] =~= start + (body_text(
            rows,
            widths,
            n - 1,
        ) + parts[n - 1]));
    }
}

pub open spec fn are_rows(rows: Seq<Seq<Seq<char>>>) -> bool {
    forall|r: int| 0 <= r < rows.len() ==> are_cells(#[trigger] rows[r])
}

/// A table shows its rows one after the other: the part for each row shows, in
/// each column, the cell that the row has there and nothing else. The rule under
/// the heading row shows nothing.
pub proof fn law_tables_show_every_cell(rows: Seq<Seq<Seq<char>>>)
    requires
        rows.len() >= 2,
        are_rows(rows),
        column_count(rows, rows.len() as int) >= 1,
    ensures
        exists|parts: Seq<Seq<char>>|
            {
                &&& parts.len() == rows.len()
                &&& table_text(rows) == #[trigger] parts.flatten()
                &&& forall|r: int, c: int|
                    0 <= r < rows.len() && 0 <= c < column_count(rows, rows.len() as int)
                        ==> #[trigger] column_ink(parts[r], c) == if r == 1 {
                        Seq::<char>::empty()
                    } else {
                        ink(cell_at(rows[r], c))
                    }
                &&& forall|r: int|
                    0 <= r < rows.len() ==> (#[trigger] parts[r]).len() > 0 && parts[r].last()
                        == '\n'
            },
{
    reveal_strlit("\n");
    let none = Seq::<char>::empty();
    let widths = column_widths(rows);
    let parts = table_parts(rows, widths);
    let n = rows.len() as int;
    lemma_body(rows, widths, n);
    assert(parts.take(n) =~= parts);
    assert forall|r: int, c: int|
        0 <= r < rows.len() && 0 <= c < column_count(rows, n) implies #[trigger] column_ink(
        parts[r],
        c,
    ) == if r == 1 {
        none
    } else {
        ink(cell_at(rows[r], c))
    } by {
        if r == 1 {
            let rule = rule_text(widths, widths.len() as int);
            lemma_rule(widths, widths.len() as int, c);
            lemma_blank("\n"@);
            lemma_read_on(rule, "\n"@, 0, c);
            let bars = bars_from(rule, 0, 0);
            assert(marks_from("\n"@, 0, bars, c) == none);
            assert(none + none =~= none);
        } else {
            law_rows_show_their_cells(rows[r], widths, c);
        }
    }
    assert forall|r: int| 0 <= r < rows.len() implies (#[trigger] parts[r]).len() > 0
        && parts[r].last() == '\n' by {
        if r != 1 {
            let h = row_height(rows[r], widths, widths.len() as int);
            lemma_row_height(rows[r], widths, widths.len() as int, 0);
            lemma_wrapped_is_not_empty(cell_at(rows[r], 0), widths[0] as nat);
            assert(h >= 1);
            assert(row_text(rows[r], widths, h).last() == '\n');
        }
    }
}

proof fn lemma_wrapped_is_not_empty(s: Seq<char>, width: nat)
    ensures
        wrapped(s, width).len() >= 1,
{
}

/// The cells of a table line: what stands between its bars, without the white
/// space round it.
pub proof fn law_cells_stand_between_bars(cells: Seq<char>)
    requires
        cells.len() > 0,
        cells[0] != '|',
        cells.last() != '|',
        is_free_of(cells, '\n'),
    ensures
        ({
            let line = seq!['|'] + cells + seq!['|'];
            let between = crate::text::pieces(cells, '|');
            &&& is_table_line(line)
            &&& table_cells(line).len() == between.len()
            &&& forall|i: int|
                0 <= i < between.len() ==> #[trigger] table_cells(line)[i] == trimmed(between[i])
        }),
{
    let line = seq!['|'] + cells + seq!['|'];
    let none = Seq::<char>::empty();
    crate::text_laws::law_trimming_drops_outer_space(none, line, none);
    assert(none + line + none =~= line);
    assert(line[1] == cells[0]);
    reveal_with_fuel(crate::terminal_markdown::skip_bars, 3);
    assert(crate::terminal_markdown::skip_bars(line, 0) == 1);
    let n = line.len() as int;
    assert(line[n - 2] == cells.last());
    reveal_with_fuel(crate::terminal_markdown::bars_start, 3);
    assert(crate::terminal_markdown::bars_start(line, 1, n) == n - 1);
    assert(line.subrange(1, n - 1) =~= cells);
}

// ---------------------------------------------------------------------------
// Documents
// ---------------------------------------------------------------------------

pub open spec fn are_unstyled(lines: Seq<Seq<char>>) -> bool {
    forall|i: int| 0 <= i < lines.len() ==> is_unstyled(#[trigger] lines[i])
}

/// What is seen of the lines from line `i` on, where none is part of a table.
proof fn lemma_document(lines: Seq<Seq<char>>, i: int, in_code: bool)
    requires
        are_unstyled(lines),
        0 <= i <= lines.len(),
        forall|k: int| 0 <= k < lines.len() ==> !is_table_line(trimmed(#[trigger] lines[k])),
    ensures
        settled(markdown_from(lines, i, in_code)),
        ink(markdown_from(lines, i, in_code)) == inks(lines.skip(i)),
    decreases lines.len() - i,
{
    reveal_strlit("\n");
    let none = Seq::<char>::empty();
    if i == lines.len() {
        assert(lines.skip(i) =~= Seq::<Seq<char>>::empty());
        lemma_unstyled(none);
    } else {
        let line = lines[i];
        assert(is_unstyled(line));
        let s = trimmed(line);
        let fence = has_prefix(s, "```"@);
        let next = if fence {
            !in_code
        } else {
            in_code
        };
        lemma_document(lines, i + 1, next);
        let rest = markdown_from(lines, i + 1, next);
        assert(!is_table_line(trimmed(lines[i])));
        let shown = if fence || in_code {
            line + "\n"@
        } else {
            markdown_line(line)
        };
        if fence || in_code {
            lemma_unstyled(line);
            lemma_blank("\n"@);
            lemma_ink_on(line, "\n"@);
            assert(ink(line) + none =~= ink(line));
        } else {
            law_lines_show_what_they_say(line);
        }
        lemma_ink_on(shown, rest);
        assert(seq![line] + lines.skip(i + 1) =~= lines.skip(i));
        lemma_inks_on(seq![line], lines.skip(i + 1));
        lemma_inks_of_one(line);
    }
}

proof fn lemma_lines_unstyled(s: Seq<char>, i: int)
    requires
        is_unstyled(s),
        0 <= i <= s.len(),
    ensures
        are_unstyled(lines_from(s, i)),
        inks(lines_from(s, i)) == ink(s.skip(i)),
    decreases s.len() - i,
{
    let none = Seq::<char>::empty();
    if i == s.len() {
        assert(s.skip(i) =~= none);
        lemma_unstyled(none);
    } else {
        lemma_next_char(s, '\n', i);
        let e = next_char(s, '\n', i);
        if e < s.len() {
            let part = s.subrange(i, e);
            let line = without_cr(part);
            let end = if part.len() > 0 && part.last() == '\r' {
                seq!['\r', '\n']
            } else {
                seq!['\n']
            };
            let rest = lines_from(s, e + 1);
            lemma_lines_unstyled(s, e + 1);
            assert(s.skip(i) =~= line + end + s.skip(e + 1));
            assert(is_unstyled(line));
            lemma_unstyled(line);
            lemma_blank(end);
            lemma_ink_on(line, end);
            lemma_ink_on(line + end, s.skip(e + 1));
            lemma_inks_on(seq![line], rest);
            lemma_inks_of_one(line);
            assert(ink(line) + none + ink(s.skip(e + 1)) =~= ink(line) + ink(s.skip(e + 1)));
            let all = seq![line] + rest;
            assert forall|k: int| 0 <= k < all.len() implies is_unstyled(#[trigger] all[k]) by {
                if k > 0 {
                    assert(all[k] == rest[k - 1]);
                }
            }
        } else {
            lemma_inks_of_one(s.skip(i));
        }
    }
}

/// A document without tables shows every letter that was written, once and in
/// its place.
pub proof fn law_documents_lose_nothing(text: Seq<char>)
    requires
        is_unstyled(text),
        forall|k: int|
            0 <= k < text_lines(text).len() ==> !is_table_line(
                trimmed(#[trigger] text_lines(text)[k]),
            ),
    ensures
        ink(terminal_markdown(text)) == ink(text),
        settled(terminal_markdown(text)),
{
    lemma_lines_unstyled(text, 0);
    let lines = text_lines(text);
    lemma_document(lines, 0, false);
    assert(lines.skip(0) =~= lines);
    assert(text.skip(0) =~= text);
}

/// Code between fences is shown as it was written, line by line.
pub proof fn law_code_is_shown_as_written(lines: Seq<Seq<char>>, i: int)
    requires
        0 <= i < lines.len(),
    ensures
        has_prefix(trimmed(lines[i]), "```"@) ==> markdown_from(lines, i, false) == lines[i] + "\n"@
            + markdown_from(lines, i + 1, true),
        has_prefix(trimmed(lines[i]), "```"@) ==> markdown_from(lines, i, true) == lines[i] + "\n"@
            + markdown_from(lines, i + 1, false),
        !has_prefix(trimmed(lines[i]), "```"@) ==> markdown_from(lines, i, true) == lines[i]
            + "\n"@ + markdown_from(lines, i + 1, true),
{
}

/// A table ends at the first line that is no table line, and takes one row from
/// each line before that: the cells of row `k` are those of line `k`. What
/// follows is shown behind the table.
pub proof fn law_tables_take_their_lines(lines: Seq<Seq<char>>, i: int, e: int)
    requires
        0 <= i < e <= lines.len(),
        forall|k: int| i <= k < e ==> is_table_line(trimmed(#[trigger] lines[k])),
        e < lines.len() ==> !is_table_line(trimmed(lines[e])),
        is_table(table_rows(lines, i)),
    ensures
        table_rows(lines, i).len() == e - i,
        forall|k: int|
            0 <= k < e - i ==> #[trigger] table_rows(lines, i)[k] == table_cells(
                trimmed(lines[i + k]),
            ),
        markdown_from(lines, i, false) == table_text(table_rows(lines, i)) + markdown_from(
            lines,
            e,
            false,
        ),
{
    reveal_strlit("```");
    lemma_table_end_at(lines, i, e);
    assert(is_table_line(trimmed(lines[i])));
    let s = trimmed(lines[i]);
    if has_prefix(s, "```"@) {
        assert(s.subrange(0, 3)[0] == s[0]);
    }
}

proof fn lemma_table_end_at(lines: Seq<Seq<char>>, i: int, e: int)
    requires
        0 <= i <= e <= lines.len(),
        forall|k: int| i <= k < e ==> is_table_line(trimmed(#[trigger] lines[k])),
        e < lines.len() ==> !is_table_line(trimmed(lines[e])),
    ensures
        table_end(lines, i) == e,
    decreases e - i,
{
    if i < e {
        assert(is_table_line(trimmed(lines[i])));
        lemma_table_end_at(lines, i + 1, e);
    }
}

// ---------------------------------------------------------------------------
// Columns
// ---------------------------------------------------------------------------

proof fn lemma_column_count(rows: Seq<Seq<Seq<char>>>, n: int, r: int)
    requires
        0 <= r < n <= rows.len(),
    ensures
        column_count(rows, n) >= rows[r].len(),
    decreases n,
{
    if r < n - 1 {
        lemma_column_count(rows, n - 1, r);
    }
}

proof fn lemma_column_count_met(rows: Seq<Seq<Seq<char>>>, n: int)
    requires
        0 < n <= rows.len(),
    ensures
        exists|r: int| 0 <= r < n && column_count(rows, n) == (#[trigger] rows[r]).len(),
    decreases n,
{
    if n > 1 {
        lemma_column_count_met(rows, n - 1);
        let r = choose|r: int|
            0 <= r < n - 1 && column_count(rows, n - 1) == (#[trigger] rows[r]).len();
        if column_count(rows, n) == column_count(rows, n - 1) {
            assert(column_count(rows, n) == rows[r].len());
        } else {
            assert(column_count(rows, n) == rows[n - 1].len());
        }
    } else {
        assert(column_count(rows, 0) == 0);
        assert(column_count(rows, n) == rows[0].len());
    }
}

proof fn lemma_column_width(rows: Seq<Seq<Seq<char>>>, c: int, n: int, r: int)
    requires
        0 <= n <= rows.len(),
    ensures
        3 <= column_width(rows, c, n) <= 36,
        0 <= r < n && r != 1 ==> column_width(rows, c, n) >= 36 || column_width(rows, c, n)
            >= columns(cell_at(rows[r], c)),
    decreases n,
{
    if n > 0 {
        lemma_column_width(rows, c, n - 1, r);
    }
}

/// A table has as many columns as its longest row has cells. A column is as wide
/// as its widest cell, and at least three and at most thirty-six characters; the
/// rule does not count.
pub proof fn law_columns_fit_their_cells(rows: Seq<Seq<Seq<char>>>, r: int, c: int)
    requires
        0 <= r < rows.len(),
        0 <= c < column_count(rows, rows.len() as int),
    ensures
        column_widths(rows).len() == column_count(rows, rows.len() as int),
        column_widths(rows).len() >= rows[r].len(),
        exists|k: int| 0 <= k < rows.len() && column_widths(rows).len() == (#[trigger] rows[k]).len(),
        3 <= column_widths(rows)[c] <= 36,
        r != 1 ==> column_widths(rows)[c] == 36 || column_widths(rows)[c] >= columns(
            cell_at(rows[r], c),
        ),
{
    let n = rows.len() as int;
    lemma_column_count(rows, n, r);
    lemma_column_count_met(rows, n);
    let k = choose|k: int| 0 <= k < n && column_count(rows, n) == (#[trigger] rows[k]).len();
    assert(column_widths(rows).len() == rows[k].len());
    lemma_column_width(rows, c, n, r);
}

} // verus!
