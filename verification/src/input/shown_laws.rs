//! What is seen of drafts, dialogs, long lines and progress.
use vstd::prelude::*;

use super::ansi::{suffix_cut, visible_end};
use super::approval::{option_text, ApprovalScope};
use super::render::{line_ops, rendered_rows};
use super::types::OpView;
use super::visible::{dock_rows, fitting_end, put_plain, put_styled, shortened, wide_enough, RowsView};
use crate::agent::types::StepView;
use crate::repl::stream::{chunk_delay, chunks_from, effective_delay, line_end, pauses, scan_status};
use crate::terminal_width::{char_columns, columns, columns_from};
use crate::text::{decimal, joined, lemma_next_char, next_char};
use crate::text_laws::is_free_of;

verus! {

/// Printable ASCII characters, each of which takes one column.
pub open spec fn is_printable(s: Seq<char>) -> bool {
    forall|i: int| 0 <= i < s.len() ==> ' ' <= #[trigger] s[i] <= '~'
}

proof fn lemma_printable_columns(s: Seq<char>, i: int)
    requires
        is_printable(s),
        0 <= i <= s.len(),
    ensures
        columns_from(s, i) == s.len() - i,
    decreases s.len() - i,
{
    if i < s.len() {
        assert(' ' <= s[i] <= '~');
        assert(char_columns(s[i]) == 1);
        lemma_printable_columns(s, i + 1);
    }
}

// ---------------------------------------------------------------------------
// Long lines
// ---------------------------------------------------------------------------

proof fn lemma_fitting(s: Seq<char>, i: int, room: nat)
    requires
        is_printable(s),
        0 <= i <= room <= s.len(),
    ensures
        fitting_end(s, i, i as nat, room) == room,
    decreases room - i,
{
    if i < room {
        assert(' ' <= s[i] <= '~');
        assert(char_columns(s[i]) == 1);
        lemma_fitting(s, i + 1, room);
    } else if i < s.len() {
        assert(' ' <= s[i] <= '~');
        assert(char_columns(s[i]) == 1);
    }
}

/// A line that fits is shown whole. A longer one is shown up to the last three
/// columns, which dots take.
pub proof fn law_long_lines_keep_their_start(s: Seq<char>, width: nat)
    requires
        width > 3,
    ensures
        columns(s) <= width ==> shortened(s, width) == s,
        is_printable(s) && s.len() <= width ==> shortened(s, width) == s,
        is_printable(s) && s.len() > width ==> shortened(s, width) == s.take(width - 3) + "..."@,
{
    if is_printable(s) {
        lemma_printable_columns(s, 0);
        if s.len() > width {
            lemma_fitting(s, 0, (width - 3) as nat);
        }
    }
}

proof fn lemma_suffix(s: Seq<char>, i: int, width: nat)
    requires
        is_printable(s),
        width < s.len(),
        0 <= i <= s.len() - width,
        width > 0,
    ensures
        suffix_cut(s, i, width) == Some(s.len() - width),
    decreases s.len() - i,
{
    assert(' ' <= s[i] <= '~');
    lemma_printable_columns(s, i);
    if i < s.len() - width {
        lemma_suffix(s, i + 1, width);
    }
}

proof fn lemma_no_style(s: Seq<char>, i: int, end: int)
    requires
        is_printable(s),
        0 <= i,
    ensures
        super::ansi::active_style(s, i, end, None) is None,
    decreases s.len() - i,
{
    if i < end && i < s.len() {
        assert(' ' <= s[i] <= '~');
        lemma_no_style(s, i + 1, end);
    }
}

/// A line that fits the screen is shown whole, and a longer one by its end.
pub proof fn law_long_lines_show_their_end(s: Seq<char>, width: nat)
    requires
        width > 0,
    ensures
        columns(s) <= width ==> visible_end(s, width) == s,
        is_printable(s) && s.len() > width ==> visible_end(s, width) == s.skip(s.len() - width),
{
    if is_printable(s) && s.len() > width {
        lemma_printable_columns(s, 0);
        lemma_suffix(s, 0, width);
        lemma_no_style(s, 0, s.len() - width);
        assert(Seq::<char>::empty() + s.skip(s.len() - width) =~= s.skip(s.len() - width));
    }
}

// ---------------------------------------------------------------------------
// The dock
// ---------------------------------------------------------------------------

proof fn lemma_rows_flat(rows: Seq<Seq<char>>, row: Seq<char>)
    ensures
        rows.push(row).flatten() == rows.flatten() + row,
{
    rows.lemma_flatten_push(row);
}

proof fn lemma_put_char(l: RowsView, c: char, width: nat)
    requires
        l.rows.len() > 0,
        ' ' <= c <= '~',
    ensures
        ({
            let r = super::visible::put_char(l, c, width);
            &&& r.rows.len() > 0
            &&& r.rows.flatten() == l.rows.flatten().push(c)
            &&& l.col + 1 <= width <= u16::MAX ==> r.rows.len() == l.rows.len() && r.col == l.col + 1
        }),
{
    assert(char_columns(c) == 1);
    let r = super::visible::put_char(l, c, width);
    lemma_rows_flat(l.rows, seq![c]);
    assert(l.rows.flatten() + seq![c] =~= l.rows.flatten().push(c));
    assert(l.rows =~= l.rows.drop_last().push(l.rows.last()));
    lemma_rows_flat(l.rows.drop_last(), l.rows.last());
    lemma_rows_flat(l.rows.drop_last(), l.rows.last() + seq![c]);
    assert(l.rows.drop_last().flatten() + (l.rows.last() + seq![c]) =~= l.rows.flatten().push(c));
}

proof fn lemma_put_plain(l: RowsView, s: Seq<char>, n: int, width: nat)
    requires
        l.rows.len() > 0,
        is_printable(s),
        0 <= n <= s.len(),
    ensures
        put_plain(l, s, n, width).rows.len() > 0,
        put_plain(l, s, n, width).rows.flatten() == l.rows.flatten() + s.take(n),
        l.col + n <= width <= u16::MAX ==> put_plain(l, s, n, width).rows.len() == l.rows.len()
            && put_plain(l, s, n, width).col == l.col + n,
    decreases n,
{
    if n > 0 {
        lemma_put_plain(l, s, n - 1, width);
        assert(' ' <= s[n - 1] <= '~');
        lemma_put_char(put_plain(l, s, n - 1, width), s[n - 1], width);
        assert((l.rows.flatten() + s.take(n - 1)).push(s[n - 1]) =~= l.rows.flatten() + s.take(n));
    } else {
        assert(l.rows.flatten() + s.take(0) =~= l.rows.flatten());
    }
}

proof fn lemma_put_styled(l: RowsView, s: Seq<char>, i: int, width: nat)
    requires
        l.rows.len() > 0,
        is_printable(s),
        0 <= i <= s.len(),
    ensures
        put_styled(l, s, i, width).rows.len() > 0,
        put_styled(l, s, i, width).rows.flatten() == l.rows.flatten() + s.skip(i),
        l.col + (s.len() - i) <= width <= u16::MAX ==> put_styled(l, s, i, width).rows.len()
            == l.rows.len() && put_styled(l, s, i, width).col == l.col + (s.len() - i),
    decreases s.len() - i,
{
    if i < s.len() {
        assert(' ' <= s[i] <= '~');
        lemma_put_char(l, s[i], width);
        lemma_put_styled(super::visible::put_char(l, s[i], width), s, i + 1, width);
        assert(l.rows.flatten().push(s[i]) + s.skip(i + 1) =~= l.rows.flatten() + s.skip(i));
    } else {
        assert(l.rows.flatten() + s.skip(i) =~= l.rows.flatten());
    }
}

/// The dock shows the prompt and, behind it, the whole draft, over as many rows
/// as that takes. Where one row is enough, the cursor stands in it as far right
/// as the prompt and the draft before it are long.
pub proof fn law_drafts_are_shown_whole(
    prompt: Seq<char>,
    buffer: Seq<char>,
    cursor: nat,
    width: nat,
)
    requires
        is_printable(prompt),
        is_printable(buffer),
        cursor <= buffer.len(),
    ensures
        dock_rows(prompt, buffer, cursor, width).lines.flatten() == prompt + buffer,
        prompt.len() + buffer.len() <= width <= u16::MAX && width > 0 ==> {
            let d = dock_rows(prompt, buffer, cursor, width);
            d.lines.len() == 1 && d.cursor_row == 0 && d.cursor_col == prompt.len() + cursor
        },
{
    let w = wide_enough(width);
    let none = super::visible::no_rows();
    let zero = Seq::<Seq<char>>::empty();
    assert(none.rows =~= zero.push(Seq::empty()));
    lemma_rows_flat(zero, Seq::empty());
    assert(none.rows.flatten() =~= Seq::<char>::empty());
    lemma_put_styled(none, prompt, 0, w);
    let start = put_styled(none, prompt, 0, w);
    lemma_put_plain(start, buffer, buffer.len() as int, w);
    lemma_put_plain(start, buffer, cursor as int, w);
    assert(Seq::<char>::empty() + prompt.skip(0) + buffer.take(buffer.len() as int) =~= prompt
        + buffer);
}

/// While a choice is asked for only the dialog is shown; else the panel stands
/// above the draft.
pub proof fn law_dialogs_cover_the_draft(
    prompt: Seq<char>,
    buffer: Seq<char>,
    cursor: nat,
    width: nat,
    panel: Seq<Seq<char>>,
    color: bool,
)
    requires
        0 < panel.len() <= 7,
    ensures
        rendered_rows(prompt, buffer, cursor, width, panel, true, color).lines == panel,
        ({
            let d = dock_rows(prompt, buffer, cursor, width);
            let all = rendered_rows(prompt, buffer, cursor, width, Seq::empty(), false, color);
            &&& all.lines.len() == d.lines.len() + 2
            &&& all.lines.subrange(1, 1 + d.lines.len() as int) == d.lines
            &&& all.cursor_row == 1 + d.cursor_row
            &&& all.cursor_col == d.cursor_col
        }),
{
    let d = dock_rows(prompt, buffer, cursor, width);
    let all = rendered_rows(prompt, buffer, cursor, width, Seq::empty(), false, color);
    assert(all.lines.subrange(1, 1 + d.lines.len() as int) =~= d.lines);
}

/// Rows are drawn one below the other, each on a cleared line.
pub proof fn law_rows_are_drawn_in_order(lines: Seq<Seq<char>>, first: int, k: int)
    requires
        0 <= k < lines.len(),
    ensures
        line_ops(lines, first, lines.len() as int).len() == 3 * lines.len(),
        line_ops(lines, first, lines.len() as int)[3 * k] == OpView::MoveTo(
            0,
            (first + k) as u16,
        ),
        line_ops(lines, first, lines.len() as int)[3 * k + 1] is ClearLine,
        line_ops(lines, first, lines.len() as int)[3 * k + 2] == OpView::Text(lines[k]),
{
    lemma_line_ops(lines, first, lines.len() as int, k);
}

proof fn lemma_line_ops(lines: Seq<Seq<char>>, first: int, n: int, k: int)
    requires
        0 <= n <= lines.len(),
    ensures
        line_ops(lines, first, n).len() == 3 * n,
        0 <= k < n ==> line_ops(lines, first, n)[3 * k] == OpView::MoveTo(0, (first + k) as u16),
        0 <= k < n ==> line_ops(lines, first, n)[3 * k + 1] is ClearLine,
        0 <= k < n ==> line_ops(lines, first, n)[3 * k + 2] == OpView::Text(lines[k]),
    decreases n,
{
    if n > 0 {
        lemma_line_ops(lines, first, n - 1, k);
    }
}

/// The choices of a dialog are numbered from one, and the selected one, and no
/// other, is marked.
pub proof fn law_choices_are_listed(selected: int, scope: Option<ApprovalScope>)
    ensures
        selected == 0 ==> option_text(selected, 0, scope) == "→"@ + " ["@ + decimal(1) + "] "@
            + "Approve once"@,
        selected != 0 ==> option_text(selected, 0, scope) == " "@ + " ["@ + decimal(1) + "] "@
            + "Approve once"@,
        selected == 2 ==> option_text(selected, 2, scope) == "→"@ + " ["@ + decimal(3) + "] "@
            + "Reject"@,
        selected != 2 ==> option_text(selected, 2, scope) == " "@ + " ["@ + decimal(3) + "] "@
            + "Reject"@,
        selected == 1 ==> option_text(selected, 1, Some(ApprovalScope::Shell)) == "→"@ + " ["@
            + decimal(2) + "] "@ + "Approve shell for this root"@,
        selected == 1 ==> option_text(selected, 1, Some(ApprovalScope::Write)) == "→"@ + " ["@
            + decimal(2) + "] "@ + "Approve writes for this root"@,
{
}

// ---------------------------------------------------------------------------
// Progress and pieces
// ---------------------------------------------------------------------------

/// Each step of the agent is one more line below the time, in order.
pub proof fn law_steps_are_shown_in_order(seconds: nat, steps: Seq<StepView>, step: StepView)
    requires
        step.item is None,
        step.step >= 0,
    ensures
        scan_status(seconds, Seq::empty()) == "Loading "@ + decimal(seconds) + "s"@,
        steps.len() > 0 ==> scan_status(seconds, steps.push(step)) == scan_status(seconds, steps)
            + "\n"@ + ("agent step "@ + decimal(step.step as nat) + ": "@ + step.tool),
{
    if steps.len() > 0 {
        let head = "Loading "@ + decimal(seconds) + "s"@;
        let f = |s: StepView| crate::repl::stream::step_line(s);
        let before = seq![head, Seq::<char>::empty()] + steps.map_values(f);
        let after = seq![head, Seq::<char>::empty()] + steps.push(step).map_values(f);
        assert(after =~= before.push(f(step)));
        assert(after.drop_last() =~= before);
        assert(joined(after, "\n"@) == joined(before, "\n"@) + "\n"@ + f(step));
    }
}

/// A text is handed on line by line, each with its line feed.
pub proof fn law_pieces_are_lines(first: Seq<char>, rest: Seq<char>)
    requires
        is_free_of(first, '\n'),
    ensures
        chunks_from(first.push('\n') + rest, 0) == seq![first.push('\n')] + chunks_from(rest, 0),
        first.len() > 0 ==> chunks_from(first, 0) == seq![first],
        chunks_from(Seq::empty(), 0) == Seq::<Seq<char>>::empty(),
{
    let line = first.push('\n');
    let s = line + rest;
    let n = line.len() as int;
    lemma_next_char(s, '\n', 0);
    assert(s[n - 1] == '\n');
    assert(next_char(s, '\n', 0) == n - 1) by {
        let x = next_char(s, '\n', 0);
        if x < n - 1 {
            assert(s[x] == first[x]);
        }
    }
    assert(s.subrange(0, n) =~= line);
    lemma_chunks_move(line, rest, 0);
    if first.len() > 0 {
        lemma_next_char(first, '\n', 0);
        assert(next_char(first, '\n', 0) == first.len());
        assert(first.subrange(0, first.len() as int) =~= first);
        assert(chunks_from(first, first.len() as int) =~= Seq::<Seq<char>>::empty());
        assert(seq![first] + Seq::<Seq<char>>::empty() =~= seq![first]);
    }
}

proof fn lemma_chunks_move(front: Seq<char>, s: Seq<char>, i: int)
    requires
        0 <= i <= s.len(),
    ensures
        chunks_from(front + s, front.len() + i) == chunks_from(s, i),
    decreases s.len() - i,
{
    let whole = front + s;
    let n = front.len() as int;
    if i < s.len() {
        lemma_next_char(s, '\n', i);
        lemma_next_char(whole, '\n', n + i);
        let a = next_char(s, '\n', i);
        let b = next_char(whole, '\n', n + i);
        assert(b == n + a) by {
            if a < s.len() {
                assert(whole[n + a] == s[a]);
            }
            if b < n + a {
                assert(whole[b] == s[b - n]);
            }
        }
        let e = line_end(s, i);
        assert(line_end(whole, n + i) == n + e);
        lemma_chunks_move(front, s, e);
        assert(whole.subrange(n + i, n + e) =~= s.subrange(i, e));
    }
}

/// A pause that is asked for is kept where all pauses together stay within the
/// limit; blank pieces need none.
pub proof fn law_pauses_are_kept(chunks: Seq<Seq<char>>, requested: int, chunk: Seq<char>, base: int)
    requires
        0 < requested,
        pauses(chunks) > 0,
    ensures
        requested * pauses(chunks) <= 1200 ==> effective_delay(chunks, requested) == requested,
        effective_delay(chunks, 0) == 0,
        crate::text::trimmed(chunk).len() == 0 ==> chunk_delay(chunk, base) == 0,
        crate::text::trimmed(chunk).len() > 0 ==> chunk_delay(chunk, base) == base,
{
    let n = pauses(chunks) as int;
    if requested * n <= 1200 {
        assert(1200int / n >= requested) by (nonlinear_arith)
            requires
                requested * n <= 1200,
                n > 0,
        ;
    }
}

} // verus!
