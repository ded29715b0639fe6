//! The docked composer: a draft at the bottom of the terminal, with history,
//! completion and approval, under a transcript that can be scrolled.
//!
//! Every method hands back the steps that draw its effect.
use vstd::prelude::*;

use super::ansi::{visible_end, visible_suffix};
use super::approval::{approval_panel_rows, modal_key, modal_panel, moved, ApprovalKeyAction, ApprovalModal, ApprovalScope};
use super::edit::{char_len, insert_at, insert_str_at, next_word_cursor, previous_word_cursor, remove_at, remove_before, remove_previous_word};
use super::edit::{cursor_in, cut, inserted, moved_right, next_word, previous_word, removed};
use super::layout::{clear_rows, dock_share, output_bottom, output_row, region_ops, set_output_scroll_region, transcript_view_height};
use super::layout::clear_ops;
use super::render::{drawn_rows, dock_ops, larger, less, progress_panel, progress_panel_rows, prompt_echo, raw_lines, raw_text, render_dock_lines, rendered_rows, smaller, submitted_prompt_echo_with_options};
use super::slash::{completion, next_slash_completion, opt_int, slash_completion_panel_rows, slash_panel};
use super::types::{append_ops, counts, is_key_press_or_repeat, lemma_ops_empty, opt_action, ops, push_op, ActionView, InputAction, InputEvent, KeyCode, KeyEvent, KeyModifiers, OpView, Screen, TermOp, DOCK_RESERVED_ROWS};
use super::visible::DockRowsView;
use crate::terminal_width::{char_columns, char_display_width, escape_at, escape_end, escape_end_at, is_escape_at, lemma_escape_end, saturated};
use crate::text::{char_count, chars_of, concat2, copy_list, copy_text, ends_with, push_item, push_text, skip_chars, trim};
use crate::text::{after_chars, has_suffix, is_lower, lemma_texts_empty, opt_text, texts, trimmed};

verus! {

/// How many lines of the transcript are kept.
pub const TRANSCRIPT_LINE_CAP: usize = 2000;

pub struct DockedComposer {
    pub prompt: String,
    pub buffer: String,
    pub cursor: usize,
    pub history: Vec<String>,
    pub history_index: Option<usize>,
    pub slash_completion_index: Option<usize>,
    pub slash_completion_prefix: Option<String>,
    pub approval_modal: Option<ApprovalModal>,
    pub progress_rows: Vec<String>,
    pub stream_buffer: String,
    pub transcript_lines: Vec<String>,
    pub transcript_view_offset: usize,
    pub transcript_start_row: Option<u16>,
    pub transcript_cursor_row: Option<u16>,
    pub transcript_cursor_column: usize,
    pub rendered_dock_rows: usize,
    pub cursor_hidden: bool,
    pub status_active: bool,
    pub status_rows: usize,
    pub screen: Screen,
}

#[verifier::ext_equal]
pub struct ModalView {
    pub tool: Seq<char>,
    pub scope: Option<ApprovalScope>,
    pub summary: Seq<char>,
    pub selected: int,
}

/// The composer as a mathematical value.
#[verifier::ext_equal]
pub struct ComposerView {
    pub prompt: Seq<char>,
    pub buffer: Seq<char>,
    pub cursor: int,
    pub history: Seq<Seq<char>>,
    pub history_index: Option<int>,
    pub completion_index: Option<int>,
    pub completion_prefix: Option<Seq<char>>,
    pub modal: Option<ModalView>,
    pub progress: Seq<Seq<char>>,
    pub stream: Seq<char>,
    pub transcript: Seq<Seq<char>>,
    pub offset: int,
    pub start_row: Option<u16>,
    pub row: Option<u16>,
    pub column: int,
    pub dock: int,
    pub hidden: bool,
    pub status_active: bool,
    pub status_rows: int,
    pub screen: Screen,
}

/// A new state and the steps that draw it.
pub type Step = (ComposerView, Seq<OpView>);

/// A new state, the steps that draw it, and what the user asked for.
pub type Outcome = (ComposerView, Seq<OpView>, Option<ActionView>);

pub open spec fn modal_view(m: ApprovalModal) -> ModalView {
    ModalView {
        tool: m.tool@,
        scope: m.scope,
        summary: m.summary@,
        selected: m.selected_index as int,
    }
}

// ---------------------------------------------------------------------------
// Drawing
// ---------------------------------------------------------------------------

/// The rows that the dock takes, as the output above reckons with them.
pub open spec fn active_rows(c: ComposerView) -> int {
    dock_share(c.dock)
}

/// The last row that the transcript may use.
pub open spec fn bottom_row(c: ComposerView) -> int {
    output_bottom(c.screen.rows, active_rows(c))
}

/// The row at which the transcript goes on.
pub open spec fn transcript_row_of(c: ComposerView) -> int {
    let wanted = match c.row {
        Some(r) => r as int,
        None => match c.start_row {
            Some(r) => r as int,
            None => bottom_row(c),
        },
    };
    smaller(wanted, bottom_row(c))
}

/// The panel above the draft: the approval dialog, else the completions, else
/// the progress.
pub open spec fn panel_of(c: ComposerView) -> Seq<Seq<char>> {
    match c.modal {
        Some(m) => modal_panel(
            m.tool,
            m.scope,
            m.summary,
            m.selected,
            c.screen.cols as nat,
            c.screen.color,
        ),
        None => {
            let slash = slash_panel(
                c.buffer,
                c.completion_index,
                c.screen.cols as nat,
                c.screen.color,
            );
            if slash.len() == 0 {
                c.progress
            } else {
                slash
            }
        },
    }
}

pub open spec fn rows_of(c: ComposerView) -> DockRowsView {
    rendered_rows(
        c.prompt,
        c.buffer,
        c.cursor as nat,
        c.screen.cols as nat,
        panel_of(c),
        c.modal is Some,
        c.screen.color,
    )
}

/// The dock drawn anew.
pub open spec fn rendered(c: ComposerView) -> Step {
    let rows = rows_of(c);
    (
        ComposerView { dock: drawn_rows(rows).len() as int, ..c },
        dock_ops(rows, c.screen, c.dock),
    )
}

/// The dock drawn anew, with the cursor put back behind the transcript.
pub open spec fn rendered_keeping_cursor(c: ComposerView) -> Step {
    let column = smaller(c.column, less(c.screen.cols as int, 1));
    let (after, drawn) = rendered(c);
    (after, drawn.push(OpView::MoveTo(column as u16, transcript_row_of(c) as u16)))
}

/// The cursor brought to where the transcript goes on.
pub open spec fn at_transcript(c: ComposerView) -> Step {
    let row = transcript_row_of(c) as u16;
    (
        ComposerView { row: Some(row), ..c },
        region_ops(c.screen.rows, active_rows(c)).push(OpView::MoveTo(0, row)),
    )
}

// ---------------------------------------------------------------------------
// The transcript
// ---------------------------------------------------------------------------

/// Where output ends on the screen, after the text from index `i` on, when it
/// stands at `row` and `col`.
pub open spec fn advanced_from(
    s: Seq<char>,
    i: int,
    row: int,
    col: int,
    width: int,
    bottom: int,
) -> (int, int)
    decreases s.len() - i,
{
    if i < 0 || i >= s.len() {
        (row, col)
    } else if escape_at(s, i) {
        let e = escape_end(s, i + 2);
        if i < e <= s.len() {
            advanced_from(s, e, row, col, width, bottom)
        } else {
            (row, col)
        }
    } else if s[i] == '\r' {
        advanced_from(s, i + 1, row, 0, width, bottom)
    } else if s[i] == '\n' {
        advanced_from(s, i + 1, smaller(row + 1, bottom), 0, width, bottom)
    } else {
        let w = char_columns(s[i]) as int;
        if w == 0 {
            advanced_from(s, i + 1, row, col, width, bottom)
        } else if saturated((col + w) as nat) > width {
            advanced_from(s, i + 1, smaller(row + 1, bottom), smaller(w, width), width, bottom)
        } else {
            advanced_from(
                s,
                i + 1,
                row,
                smaller(saturated((col + w) as nat) as int, width),
                width,
                bottom,
            )
        }
    }
}

/// The composer after the text was written above it.
pub open spec fn advanced(c: ComposerView, s: Seq<char>) -> ComposerView {
    let (row, col) = advanced_from(
        s,
        0,
        transcript_row_of(c),
        c.column,
        larger(c.screen.cols as int, 1),
        bottom_row(c),
    );
    ComposerView { row: Some(row as u16), column: col, ..c }
}

/// The lines of the transcript after the text from index `i` on.
pub open spec fn written_from(lines: Seq<Seq<char>>, s: Seq<char>, i: int) -> Seq<Seq<char>>
    decreases s.len() - i,
{
    if i < 0 || i >= s.len() {
        lines
    } else if s[i] == '\r' {
        written_from(lines, s, i + 1)
    } else if s[i] == '\n' {
        written_from(lines.push(Seq::empty()), s, i + 1)
    } else {
        written_from(lines.drop_last().push(lines.last().push(s[i])), s, i + 1)
    }
}

/// The last lines, as many as are kept.
pub open spec fn kept_lines(lines: Seq<Seq<char>>) -> Seq<Seq<char>> {
    if lines.len() > TRANSCRIPT_LINE_CAP {
        lines.skip(lines.len() - TRANSCRIPT_LINE_CAP)
    } else {
        lines
    }
}

/// The transcript after a text was added to it.
pub open spec fn recorded(c: ComposerView, s: Seq<char>) -> ComposerView {
    let start = if c.transcript.len() == 0 {
        seq![Seq::empty()]
    } else {
        c.transcript
    };
    ComposerView { transcript: kept_lines(written_from(start, s, 0)), ..c }
}

/// Whether a line feed is owed after the text.
pub open spec fn owes_newline(s: Seq<char>) -> bool {
    s.len() > 0 && !has_suffix(s, "\n"@)
}

/// The line feed that is owed after the text, if any.
pub open spec fn newline_ops(s: Seq<char>) -> Seq<OpView> {
    if owes_newline(s) {
        seq![OpView::Text("\r\n"@)]
    } else {
        Seq::empty()
    }
}

/// The composer after a text was printed above it, on lines of its own.
pub open spec fn printed_above(c: ComposerView, s: Seq<char>) -> Step {
    let (c1, start) = at_transcript(ComposerView { offset: 0, ..c });
    let c2 = advanced(c1, s);
    let c3 = if owes_newline(s) {
        advanced(c2, "\n"@)
    } else {
        c2
    };
    let c4 = recorded(c3, s);
    let c5 = if owes_newline(s) {
        recorded(c4, "\n"@)
    } else {
        c4
    };
    let (c6, drawn) = rendered(c5);
    (
        c6,
        start + seq![OpView::Column(0), OpView::ClearLine, OpView::Text(raw_lines(s))]
            + newline_ops(s) + drawn,
    )
}

/// The composer after a piece of a streamed text.
pub open spec fn streamed_above(c: ComposerView, s: Seq<char>) -> Step {
    let c0 = ComposerView { offset: 0, progress: Seq::empty(), ..c };
    let (c1, start) = if c.stream.len() == 0 {
        at_transcript(c0)
    } else {
        (c0, Seq::empty())
    };
    let c2 = recorded(advanced(ComposerView { stream: c1.stream + s, ..c1 }, s), s);
    let (c3, drawn) = rendered_keeping_cursor(c2);
    (c3, start + seq![OpView::Text(raw_lines(s))] + drawn)
}

pub open spec fn stream_reset(c: ComposerView) -> ComposerView {
    ComposerView {
        stream: Seq::empty(),
        progress: Seq::empty(),
        status_active: false,
        status_rows: 0,
        ..c
    }
}

pub open spec fn cursor_shown(c: ComposerView) -> Step {
    (
        ComposerView { hidden: false, ..c },
        if c.hidden {
            seq![OpView::ShowCursor]
        } else {
            Seq::empty()
        },
    )
}

pub open spec fn cursor_put_away(c: ComposerView) -> Step {
    (
        ComposerView { hidden: true, ..c },
        if c.hidden {
            Seq::empty()
        } else {
            seq![OpView::HideCursor]
        },
    )
}

/// The composer after the end of a streamed text.
pub open spec fn stream_finished(c: ComposerView) -> Step {
    let (c1, start) = if c.stream.len() == 0 {
        (c, Seq::empty())
    } else {
        let (a, moves) = at_transcript(c);
        if has_suffix(c.stream, "\n"@) {
            (a, moves)
        } else {
            (recorded(advanced(a, "\n"@), "\n"@), moves.push(OpView::Text("\r\n"@)))
        }
    };
    let (c2, shown) = cursor_shown(stream_reset(c1));
    let (c3, drawn) = rendered(c2);
    (c3, start + shown + drawn)
}

// ---------------------------------------------------------------------------
// Scrolling
// ---------------------------------------------------------------------------

/// How many lines of the transcript the screen shows.
pub open spec fn view_height(c: ComposerView) -> int {
    bottom_row(c) + 1
}

/// Drawing the lines from `from` on, the first `n` of them.
pub open spec fn view_ops(lines: Seq<Seq<char>>, from: int, n: int, width: nat) -> Seq<OpView>
    decreases n,
{
    if n <= 0 {
        Seq::empty()
    } else {
        (if n > 1 {
            view_ops(lines, from, n - 1, width).push(OpView::Text("\r\n"@))
        } else {
            Seq::empty()
        }).push(OpView::Text(raw_lines(visible_end(lines[from + n - 1], width))))
    }
}

/// The transcript drawn as far as it is scrolled, and the dock below it.
pub open spec fn view_rendered(c: ComposerView) -> Step {
    let height = view_height(c);
    let end = less(c.transcript.len() as int, c.offset);
    let start = less(end, height);
    let (after, drawn) = rendered(c);
    (
        after,
        clear_ops(0, height).push(OpView::MoveTo(0, 0)) + view_ops(
            c.transcript,
            start,
            end - start,
            c.screen.cols as nat,
        ) + drawn,
    )
}

/// One page up, at most to the first line.
pub open spec fn scrolled_up(c: ComposerView) -> ComposerView {
    ComposerView {
        offset: smaller(
            saturated((c.offset + view_height(c)) as nat) as int,
            less(c.transcript.len() as int, view_height(c)),
        ),
        ..c
    }
}

/// One page down, at most to the last line.
pub open spec fn scrolled_down(c: ComposerView) -> ComposerView {
    ComposerView { offset: less(c.offset, view_height(c)), ..c }
}

// ---------------------------------------------------------------------------
// Keys
// ---------------------------------------------------------------------------

/// The draft changed: the history and the completion cycle are left.
pub open spec fn edited(c: ComposerView, buffer: Seq<char>, cursor: int) -> ComposerView {
    ComposerView {
        buffer,
        cursor,
        history_index: None,
        completion_index: None,
        completion_prefix: None,
        ..c
    }
}

/// The cursor moved: the completion cycle is left.
pub open spec fn cursor_moved(c: ComposerView, cursor: int) -> ComposerView {
    ComposerView { cursor, completion_index: None, completion_prefix: None, ..c }
}

/// The entry before the current one, or the newest.
pub open spec fn earlier_entry(c: ComposerView) -> Option<int> {
    if c.history.len() == 0 {
        None
    } else {
        match c.history_index {
            Some(i) => Some(less(i, 1)),
            None => Some(c.history.len() - 1),
        }
    }
}

/// The draft replaced by an earlier entry.
pub open spec fn history_back(c: ComposerView) -> Option<ComposerView> {
    match earlier_entry(c) {
        Some(i) => {
            let c1 = ComposerView { history_index: Some(i), ..c };
            if i < c.history.len() {
                Some(cursor_moved(
                    ComposerView { buffer: c.history[i], ..c1 },
                    c.history[i].len() as int,
                ))
            } else {
                None
            }
        },
        None => None,
    }
}

/// The draft replaced by a later entry, or emptied after the newest.
pub open spec fn history_forward(c: ComposerView) -> Option<ComposerView> {
    match c.history_index {
        Some(i) => if i + 1 >= c.history.len() {
            Some(cursor_moved(
                ComposerView { history_index: None, buffer: Seq::empty(), ..c },
                0,
            ))
        } else {
            Some(
                cursor_moved(
                    ComposerView {
                        history_index: Some(i + 1),
                        buffer: c.history[i + 1],
                        ..c
                    },
                    c.history[i + 1].len() as int,
                ),
            )
        },
        None => None,
    }
}

/// The draft with the next completion, if there is one.
pub open spec fn completed(c: ComposerView) -> Option<ComposerView> {
    match completion(c.buffer, c.cursor, c.completion_index, c.completion_prefix) {
        Some(next) => Some(
            ComposerView {
                buffer: next.command + after_chars(c.buffer, next.token_end),
                cursor: next.command.len() as int,
                history_index: None,
                completion_index: Some(next.index),
                completion_prefix: Some(next.prefix),
                ..c
            },
        ),
        None => None,
    }
}

/// The character that a key gives with shift held.
pub open spec fn shifted(ch: char, shift: bool) -> char {
    if !shift {
        ch
    } else if is_lower(ch) {
        ((ch as u32 - 32) as u32) as char
    } else if ch == '1' { '!' } else if ch == '2' { '@' } else if ch == '3' { '#' }
    else if ch == '4' { '$' } else if ch == '5' { '%' } else if ch == '6' { '^' }
    else if ch == '7' { '&' } else if ch == '8' { '*' } else if ch == '9' { '(' }
    else if ch == '0' { ')' } else if ch == '`' { '~' } else if ch == '-' { '_' }
    else if ch == '=' { '+' } else if ch == '[' { '{' } else if ch == ']' { '}' }
    else if ch == '\\' { '|' } else if ch == ';' { ':' } else if ch == '\'' { '"' }
    else if ch == ',' { '<' } else if ch == '.' { '>' } else if ch == '/' { '?' }
    else { ch }
}

pub fn shifted_char(ch: char, modifiers: KeyModifiers) -> (r: char)
    ensures
        r == shifted(ch, modifiers.shift),
{
    if !modifiers.shift {
        ch
    } else if 'a' <= ch && ch <= 'z' {
        let n: u8 = ch as u8 - 32;
        n as char
    } else if ch == '1' { '!' } else if ch == '2' { '@' } else if ch == '3' { '#' }
    else if ch == '4' { '$' } else if ch == '5' { '%' } else if ch == '6' { '^' }
    else if ch == '7' { '&' } else if ch == '8' { '*' } else if ch == '9' { '(' }
    else if ch == '0' { ')' } else if ch == '`' { '~' } else if ch == '-' { '_' }
    else if ch == '=' { '+' } else if ch == '[' { '{' } else if ch == ']' { '}' }
    else if ch == '\\' { '|' } else if ch == ';' { ':' } else if ch == '\'' { '"' }
    else if ch == ',' { '<' } else if ch == '.' { '>' } else if ch == '/' { '?' }
    else { ch }
}

/// Nothing happens.
pub open spec fn idle(c: ComposerView) -> Outcome {
    (c, Seq::empty(), None)
}

/// The dock is drawn anew, and nothing is asked for.
pub open spec fn redrawn(c: ComposerView) -> Outcome {
    let (after, drawn) = rendered(c);
    (after, drawn, None)
}

/// Redraws a changed draft; an unchanged one stays as it is.
pub open spec fn redrawn_if(next: Option<ComposerView>, c: ComposerView) -> Outcome {
    match next {
        Some(n) => redrawn(n),
        None => idle(c),
    }
}

/// The draft is handed in: it is emptied, kept in the history unless it is
/// blank, and echoed above.
pub open spec fn submitted(c: ComposerView) -> Outcome {
    let history = if trimmed(c.buffer).len() == 0 {
        c.history
    } else {
        c.history.push(c.buffer)
    };
    let echo = prompt_echo(c.buffer, c.screen.cols as nat, c.screen.color);
    let (after, drawn) = printed_above(
        edited(ComposerView { history, ..c }, Seq::empty(), 0),
        echo,
    );
    (after, drawn, Some(ActionView::Submit(c.buffer)))
}

/// The draft without the word before the cursor, where there is one.
pub open spec fn word_removed(c: ComposerView) -> Option<ComposerView> {
    let start = previous_word(c.buffer, c.cursor);
    if start == c.cursor {
        None
    } else {
        Some(edited(c, cut(c.buffer, start, cursor_in(c.buffer, c.cursor)), start))
    }
}

/// The draft without the character before the cursor, where there is one. A
/// cursor behind the end only moves.
pub open spec fn backspaced(c: ComposerView) -> Outcome {
    if c.cursor <= 0 {
        idle(c)
    } else if c.cursor > c.buffer.len() {
        idle(ComposerView { cursor: c.cursor - 1, ..c })
    } else {
        redrawn(edited(c, removed(c.buffer, c.cursor - 1), c.cursor - 1))
    }
}

/// What the Enter key does: a line break in the draft, or the draft handed in.
pub open spec fn enter_outcome(c: ComposerView, m: KeyModifiers) -> Outcome {
    if m.shift || m.alt {
        redrawn(edited(c, inserted(c.buffer, c.cursor, "\n"@), moved_right(c.cursor, 1)))
    } else {
        submitted(c)
    }
}

/// One page up or down.
pub open spec fn page_outcome(c: ComposerView, up: bool) -> Outcome {
    let (after, drawn) = view_rendered(
        if up {
            scrolled_up(c)
        } else {
            scrolled_down(c)
        },
    );
    (after, drawn, None)
}

/// What a character does, with and without the control key.
pub open spec fn char_outcome(c: ComposerView, ch: char, m: KeyModifiers) -> Outcome {
    if m.control {
        if ch == 'd' {
            let (after, drawn) = printed_above(c, ""@);
            (after, drawn, Some(ActionView::Exit))
        } else if ch == 'w' {
            redrawn_if(word_removed(c), c)
        } else if ch == 'c' {
            redrawn(edited(c, Seq::empty(), 0))
        } else {
            idle(c)
        }
    } else {
        redrawn(
            edited(
                c,
                inserted(c.buffer, c.cursor, seq![shifted(ch, m.shift)]),
                moved_right(c.cursor, 1),
            ),
        )
    }
}

pub open spec fn backspace_outcome(c: ComposerView, m: KeyModifiers) -> Outcome {
    if m.alt || m.control {
        redrawn_if(word_removed(c), c)
    } else {
        backspaced(c)
    }
}

pub open spec fn delete_outcome(c: ComposerView) -> Outcome {
    if c.cursor < c.buffer.len() {
        redrawn(edited(c, removed(c.buffer, c.cursor), c.cursor))
    } else {
        idle(c)
    }
}

/// One character to the left, or a word.
pub open spec fn left_of(c: ComposerView, m: KeyModifiers) -> int {
    if m.control || m.alt {
        previous_word(c.buffer, c.cursor)
    } else {
        less(c.cursor, 1)
    }
}

/// One character to the right, or a word.
pub open spec fn right_of(c: ComposerView, m: KeyModifiers) -> int {
    if m.control || m.alt {
        next_word(c.buffer, c.cursor)
    } else {
        smaller(c.cursor + 1, c.buffer.len() as int)
    }
}

/// The entry before in the history.
pub open spec fn up_outcome(c: ComposerView) -> Outcome {
    match earlier_entry(c) {
        Some(i) => redrawn_if(history_back(c), ComposerView { history_index: Some(i), ..c }),
        None => idle(c),
    }
}

/// What a key does outside the approval dialog.
pub open spec fn key_outcome(c: ComposerView, key: KeyEvent) -> Outcome {
    let m = key.modifiers;
    match key.code {
        KeyCode::Esc => (c, Seq::empty(), Some(ActionView::Cancel)),
        KeyCode::Enter => enter_outcome(c, m),
        KeyCode::Tab => redrawn_if(completed(c), c),
        KeyCode::PageUp => page_outcome(c, true),
        KeyCode::PageDown => page_outcome(c, false),
        KeyCode::Char(ch) => char_outcome(c, ch, m),
        KeyCode::Backspace => backspace_outcome(c, m),
        KeyCode::Delete => delete_outcome(c),
        KeyCode::Left => redrawn(cursor_moved(c, left_of(c, m))),
        KeyCode::Right => redrawn(cursor_moved(c, right_of(c, m))),
        KeyCode::Home => redrawn(cursor_moved(c, 0)),
        KeyCode::End => redrawn(cursor_moved(c, c.buffer.len() as int)),
        KeyCode::Up => up_outcome(c),
        KeyCode::Down => redrawn_if(history_forward(c), c),
        KeyCode::Other => idle(c),
    }
}

/// What an event does in the approval dialog; `None` where it goes on to the
/// composer.
pub open spec fn modal_outcome(c: ComposerView, m: ModalView, event: InputEvent) -> Option<
    Outcome,
> {
    match event {
        InputEvent::Key(key) => if counts(key) {
            match modal_key(m.selected, key) {
                ApprovalKeyAction::Choose(choice) => Some(
                    (c, Seq::empty(), Some(ActionView::Approval(choice))),
                ),
                ApprovalKeyAction::Ignore => Some(idle(c)),
                ApprovalKeyAction::MoveSelection(delta) => Some(
                    redrawn(
                        ComposerView {
                            modal: Some(
                                ModalView { selected: moved(m.selected, delta as int), ..m },
                            ),
                            ..c
                        },
                    ),
                ),
                ApprovalKeyAction::PassThrough => None,
            }
        } else {
            Some(idle(c))
        },
        _ => Some(idle(c)),
    }
}

/// What an event does.
pub open spec fn event_outcome(c: ComposerView, event: InputEvent) -> Outcome {
    let first = match c.modal {
        Some(m) => modal_outcome(c, m, event),
        None => None,
    };
    match first {
        Some(done) => done,
        None => match event {
            InputEvent::Paste(text) => redrawn(
                edited(
                    c,
                    inserted(c.buffer, c.cursor, text@),
                    moved_right(c.cursor, text@.len() as int),
                ),
            ),
            InputEvent::Key(key) => if counts(key) {
                key_outcome(c, key)
            } else {
                idle(c)
            },
            InputEvent::Other => idle(c),
        },
    }
}

/// A fresh composer with the given prompt, on a terminal of 80 by 24.
pub open spec fn fresh(prompt: Seq<char>) -> ComposerView {
    ComposerView {
        prompt,
        buffer: Seq::empty(),
        cursor: 0,
        history: Seq::empty(),
        history_index: None,
        completion_index: None,
        completion_prefix: None,
        modal: None,
        progress: Seq::empty(),
        stream: Seq::empty(),
        transcript: Seq::empty(),
        offset: 0,
        start_row: None,
        row: None,
        column: 0,
        dock: 0,
        hidden: false,
        status_active: false,
        status_rows: 0,
        screen: Screen { cols: 80, rows: 24, color: true },
    }
}

/// The composer with an approval dialog in place of the draft.
pub open spec fn asking(
    c: ComposerView,
    tool: Seq<char>,
    scope: Option<ApprovalScope>,
    summary: Seq<char>,
) -> Step {
    let (c1, first) = cursor_put_away(
        ComposerView {
            modal: Some(ModalView { tool, scope, summary, selected: 0 }),
            ..edited(c, Seq::empty(), 0)
        },
    );
    let (c2, drawn) = rendered(c1);
    (c2, first + drawn)
}

impl View for DockedComposer {
    type V = ComposerView;

    open spec fn view(&self) -> ComposerView {
        ComposerView {
            prompt: self.prompt@,
            buffer: self.buffer@,
            cursor: self.cursor as int,
            history: texts(self.history@),
            history_index: opt_int(self.history_index),
            completion_index: opt_int(self.slash_completion_index),
            completion_prefix: opt_text(self.slash_completion_prefix),
            modal: match self.approval_modal {
                Some(m) => Some(modal_view(m)),
                None => None,
            },
            progress: texts(self.progress_rows@),
            stream: self.stream_buffer@,
            transcript: texts(self.transcript_lines@),
            offset: self.transcript_view_offset as int,
            start_row: self.transcript_start_row,
            row: self.transcript_cursor_row,
            column: self.transcript_cursor_column as int,
            dock: self.rendered_dock_rows as int,
            hidden: self.cursor_hidden,
            status_active: self.status_active,
            status_rows: self.status_rows as int,
            screen: self.screen,
        }
    }
}

impl DockedComposer {
    /// An open dialog has one of its options marked.
    pub open spec fn wf(&self) -> bool {
        self.approval_modal matches Some(m) ==> m.wf()
    }

    pub fn new(prompt: String) -> (r: DockedComposer)
        ensures
            r.wf(),
            r@ == fresh(prompt@),
    {
        broadcast use lemma_texts_empty;

        let r = DockedComposer {
            prompt,
            buffer: String::new(),
            cursor: 0,
            history: Vec::new(),
            history_index: None,
            slash_completion_index: None,
            slash_completion_prefix: None,
            approval_modal: None,
            progress_rows: Vec::new(),
            stream_buffer: String::new(),
            transcript_lines: Vec::new(),
            transcript_view_offset: 0,
            transcript_start_row: None,
            transcript_cursor_row: None,
            transcript_cursor_column: 0,
            rendered_dock_rows: 0,
            cursor_hidden: false,
            status_active: false,
            status_rows: 0,
            screen: Screen { cols: 80, rows: 24, color: true },
        };
        assert(r@ =~= fresh(prompt@));
        r
    }

    /// Takes note of the size of the terminal and of its colours.
    pub fn set_screen(&mut self, screen: Screen)
        ensures
            final(self)@ == (ComposerView { screen, ..old(self)@ }),
            final(self).approval_modal == old(self).approval_modal,
    {
        self.screen = screen;
    }

    pub fn set_transcript_start_row(&mut self, row: Option<u16>)
        ensures
            final(self)@ == (ComposerView { start_row: row, row, column: 0, ..old(self)@ }),
            final(self).approval_modal == old(self).approval_modal,
    {
        self.transcript_start_row = row;
        self.transcript_cursor_row = row;
        self.transcript_cursor_column = 0;
    }

    fn panel_rows(&self) -> (r: Vec<String>)
        ensures
            texts(r@) == panel_of(self@),
    {
        if let Some(modal) = &self.approval_modal {
            return approval_panel_rows(modal, self.screen.cols as usize, self.screen.color);
        }
        let slash = slash_completion_panel_rows(
            self.buffer.as_str(),
            self.slash_completion_index,
            self.screen.cols as usize,
            self.screen.color,
        );
        assert(texts(slash@).len() == slash.len());
        if slash.len() == 0 {
            let rows = copy_list(&self.progress_rows, 0, self.progress_rows.len());
            assert(texts(rows@) =~= texts(self.progress_rows@));
            rows
        } else {
            slash
        }
    }

    pub fn render(&mut self) -> (r: Vec<TermOp>)
        ensures
            (final(self)@, ops(r@)) == rendered(old(self)@),
            final(self).approval_modal == old(self).approval_modal,
    {
        let panel = self.panel_rows();
        let (out, rows) = render_dock_lines(
            self.prompt.as_str(),
            self.buffer.as_str(),
            self.cursor,
            &panel,
            self.approval_modal.is_some(),
            self.rendered_dock_rows,
            self.screen,
        );
        self.rendered_dock_rows = rows;
        out
    }

    pub fn set_prompt(&mut self, prompt: String) -> (r: Vec<TermOp>)
        ensures
            (final(self)@, ops(r@)) == rendered(ComposerView { prompt: prompt@, ..old(self)@ }),
            final(self).approval_modal == old(self).approval_modal,
    {
        self.prompt = prompt;
        self.render()
    }

    pub fn active_dock_rows(&self) -> (r: usize)
        ensures
            r == active_rows(self@),
            1 <= r <= DOCK_RESERVED_ROWS,
    {
        if self.rendered_dock_rows < 1 {
            1
        } else if self.rendered_dock_rows > DOCK_RESERVED_ROWS {
            DOCK_RESERVED_ROWS
        } else {
            self.rendered_dock_rows
        }
    }

    fn transcript_row(&self) -> (r: u16)
        ensures
            r == transcript_row_of(self@),
    {
        let bottom = output_row(self.screen.rows, self.active_dock_rows());
        let wanted: u16 = match self.transcript_cursor_row {
            Some(row) => row,
            None => match self.transcript_start_row {
                Some(row) => row,
                None => bottom,
            },
        };
        if wanted < bottom { wanted } else { bottom }
    }

    fn render_preserving_cursor(&mut self) -> (r: Vec<TermOp>)
        ensures
            (final(self)@, ops(r@)) == rendered_keeping_cursor(old(self)@),
            final(self).approval_modal == old(self).approval_modal,
    {
        let row = self.transcript_row();
        let edge: usize = if self.screen.cols > 1 { self.screen.cols as usize - 1 } else { 0 };
        let column: usize = if self.transcript_cursor_column < edge {
            self.transcript_cursor_column
        } else {
            edge
        };
        let mut out = self.render();
        push_op(&mut out, TermOp::MoveTo(column as u16, row));
        out
    }

    fn move_to_transcript_cursor(&mut self) -> (r: Vec<TermOp>)
        ensures
            (final(self)@, ops(r@)) == at_transcript(old(self)@),
            final(self).approval_modal == old(self).approval_modal,
    {
        let mut out = set_output_scroll_region(self.screen.rows, self.active_dock_rows());
        let row = self.transcript_row();
        self.transcript_cursor_row = Some(row);
        push_op(&mut out, TermOp::MoveTo(0, row));
        out
    }

    /// Takes note of where a text ends that was written above.
    pub fn advance_transcript_text(&mut self, text: &str)
        ensures
            final(self)@ == advanced(old(self)@, text@),
            final(self).approval_modal == old(self).approval_modal,
    {
        let mut row: u16 = self.transcript_row();
        let mut column: usize = self.transcript_cursor_column;
        let width: usize = if self.screen.cols > 1 { self.screen.cols as usize } else { 1 };
        let bottom: u16 = output_row(self.screen.rows, self.active_dock_rows());
        let ghost want = advanced_from(
            text@,
            0,
            row as int,
            column as int,
            width as int,
            bottom as int,
        );
        let v = chars_of(text);
        let mut i: usize = 0;
        while i < v.len()
            invariant
                i <= v.len(),
                v@ == text@,
                row <= bottom < u16::MAX,
                want == advanced_from(
                    v@,
                    i as int,
                    row as int,
                    column as int,
                    width as int,
                    bottom as int,
                ),
            decreases v.len() - i,
        {
            if is_escape_at(&v, i) {
                let e = escape_end_at(&v, i + 2);
                proof {
                    lemma_escape_end(v@, i + 2);
                }
                i = e;
                continue;
            }
            let c = v[i];
            if c == '\r' {
                column = 0;
            } else if c == '\n' {
                row = if row + 1 < bottom { row + 1 } else { bottom };
                column = 0;
            } else {
                let w = char_display_width(c);
                if w > 0 {
                    if column.saturating_add(w) > width {
                        row = if row + 1 < bottom { row + 1 } else { bottom };
                        column = if w < width { w } else { width };
                    } else {
                        column = column.saturating_add(w);
                        if column >= width {
                            column = width;
                        }
                    }
                }
            }
            i += 1;
        }
        self.transcript_cursor_row = Some(row);
        self.transcript_cursor_column = column;
    }

    /// Adds a text to the transcript.
    fn record_transcript_text(&mut self, text: &str)
        ensures
            final(self)@ == recorded(old(self)@, text@),
            final(self).approval_modal == old(self).approval_modal,
    {
        let start = copy_list(&self.transcript_lines, 0, self.transcript_lines.len());
        assert(texts(start@) =~= texts(self.transcript_lines@));
        self.transcript_lines = write_lines(start, text);
    }

    pub fn print_above(&mut self, text: &str) -> (r: Vec<TermOp>)
        ensures
            (final(self)@, ops(r@)) == printed_above(old(self)@, text@),
            final(self).approval_modal == old(self).approval_modal,
    {
        self.transcript_view_offset = 0;
        let mut out = self.move_to_transcript_cursor();
        let ghost start = ops(out@);
        push_op(&mut out, TermOp::Column(0));
        push_op(&mut out, TermOp::ClearLine);
        push_op(&mut out, TermOp::Text(raw_text(text)));
        assert(ops(out@) =~= start + seq![
            OpView::Column(0),
            OpView::ClearLine,
            OpView::Text(raw_lines(text@)),
        ]);
        let ghost begun = ops(out@);
        let owed = char_count(text) > 0 && !ends_with(text, "\n");
        if owed {
            push_op(&mut out, TermOp::Text(copy_text("\r\n")));
        }
        assert(ops(out@) =~= begun + newline_ops(text@));
        self.advance_transcript_text(text);
        if owed {
            self.advance_transcript_text("\n");
        }
        self.record_transcript_text(text);
        if owed {
            self.record_transcript_text("\n");
        }
        let drawn = self.render();
        append_ops(&mut out, drawn);
        out
    }

    /// Shows a progress text in the dock.
    pub fn progress_dock(&mut self, text: &str) -> (r: Vec<TermOp>)
        ensures
            ({
                let c = old(self)@;
                let (c1, first) = cursor_put_away(
                    ComposerView {
                        progress: progress_panel(text@, c.screen.cols as nat, c.screen.color),
                        ..c
                    },
                );
                let (c2, drawn) = rendered_keeping_cursor(c1);
                (final(self)@, ops(r@)) == (c2, first + drawn)
            }),
            final(self).approval_modal == old(self).approval_modal,
    {
        self.progress_rows =
        progress_panel_rows(text, self.screen.cols as usize, self.screen.color);
        let mut out = self.hide_cursor();
        let drawn = self.render_preserving_cursor();
        append_ops(&mut out, drawn);
        out
    }

    pub fn clear_progress_dock(&mut self) -> (r: Vec<TermOp>)
        ensures
            (final(self)@, ops(r@)) == if old(self)@.progress.len() == 0 {
                (old(self)@, Seq::empty())
            } else {
                rendered_keeping_cursor(ComposerView { progress: Seq::empty(), ..old(self)@ })
            },
            final(self).approval_modal == old(self).approval_modal,
    {
        broadcast use lemma_ops_empty, lemma_texts_empty;

        assert(texts(self.progress_rows@).len() == self.progress_rows.len());
        if self.progress_rows.len() == 0 {
            return Vec::new();
        }
        self.progress_rows = Vec::new();
        self.render_preserving_cursor()
    }

    /// Writes a piece of a streamed text above.
    pub fn stream_above(&mut self, text: &str) -> (r: Vec<TermOp>)
        ensures
            (final(self)@, ops(r@)) == streamed_above(old(self)@, text@),
            final(self).approval_modal == old(self).approval_modal,
    {
        broadcast use lemma_ops_empty, lemma_texts_empty;

        self.transcript_view_offset = 0;
        self.progress_rows = Vec::new();
        let mut out: Vec<TermOp> = Vec::new();
        if char_count(self.stream_buffer.as_str()) == 0 {
            out = self.move_to_transcript_cursor();
        }
        let ghost start = ops(out@);
        push_op(&mut out, TermOp::Text(raw_text(text)));
        assert(ops(out@) =~= start + seq![OpView::Text(raw_lines(text@))]);
        push_text(&mut self.stream_buffer, text);
        self.advance_transcript_text(text);
        self.record_transcript_text(text);
        let drawn = self.render_preserving_cursor();
        append_ops(&mut out, drawn);
        out
    }

    pub fn finish_stream(&mut self) -> (r: Vec<TermOp>)
        ensures
            (final(self)@, ops(r@)) == stream_finished(old(self)@),
            final(self).approval_modal == old(self).approval_modal,
    {
        broadcast use lemma_ops_empty;

        let mut out: Vec<TermOp> = Vec::new();
        if char_count(self.stream_buffer.as_str()) > 0 {
            out = self.move_to_transcript_cursor();
            if !ends_with(self.stream_buffer.as_str(), "\n") {
                push_op(&mut out, TermOp::Text(copy_text("\r\n")));
                self.advance_transcript_text("\n");
                self.record_transcript_text("\n");
            }
        }
        self.reset_stream_state();
        let shown = self.show_cursor();
        append_ops(&mut out, shown);
        let drawn = self.render();
        append_ops(&mut out, drawn);
        out
    }

    pub fn reset_stream_state(&mut self)
        ensures
            final(self)@ == stream_reset(old(self)@),
            final(self).approval_modal == old(self).approval_modal,
    {
        broadcast use lemma_texts_empty;

        self.stream_buffer = String::new();
        self.progress_rows = Vec::new();
        self.status_active = false;
        self.status_rows = 0;
    }

    /// Whether a status was shown; it counts as cleared from now on.
    pub fn take_status_active(&mut self) -> (r: bool)
        ensures
            r == old(self)@.status_active,
            final(self)@ == (ComposerView { status_active: false, status_rows: 0, ..old(self)@ }),
            final(self).approval_modal == old(self).approval_modal,
    {
        let was = self.status_active;
        self.status_active = false;
        self.status_rows = 0;
        was
    }

    pub fn hide_cursor(&mut self) -> (r: Vec<TermOp>)
        ensures
            (final(self)@, ops(r@)) == cursor_put_away(old(self)@),
            final(self).approval_modal == old(self).approval_modal,
    {
        broadcast use lemma_ops_empty;

        let mut out: Vec<TermOp> = Vec::new();
        if !self.cursor_hidden {
            push_op(&mut out, TermOp::HideCursor);
            assert(ops(out@) =~= seq![OpView::HideCursor]);
            self.cursor_hidden = true;
        }
        out
    }

    pub fn show_cursor(&mut self) -> (r: Vec<TermOp>)
        ensures
            (final(self)@, ops(r@)) == cursor_shown(old(self)@),
            final(self).approval_modal == old(self).approval_modal,
    {
        broadcast use lemma_ops_empty;

        let mut out: Vec<TermOp> = Vec::new();
        if self.cursor_hidden {
            push_op(&mut out, TermOp::ShowCursor);
            assert(ops(out@) =~= seq![OpView::ShowCursor]);
            self.cursor_hidden = false;
        }
        out
    }

    pub fn show_approval_modal(
        &mut self,
        tool: String,
        scope: Option<ApprovalScope>,
        summary: String,
    ) -> (r: Vec<TermOp>)
        ensures
            final(self).wf(),
            (final(self)@, ops(r@)) == asking(old(self)@, tool@, scope, summary@),
    {
        self.buffer = String::new();
        self.cursor = 0;
        self.history_index = None;
        self.reset_slash_completion();
        let modal = match scope {
            Some(scope) => ApprovalModal::scoped(tool, scope, summary),
            None => ApprovalModal::new(tool, summary),
        };
        self.approval_modal = Some(modal);
        let mut out = self.hide_cursor();
        let drawn = self.render();
        append_ops(&mut out, drawn);
        out
    }

    pub fn clear_approval_modal(&mut self) -> (r: Vec<TermOp>)
        ensures
            final(self).wf(),
            ({
                let (c1, first) = cursor_shown(ComposerView { modal: None, ..old(self)@ });
                let (c2, drawn) = rendered(c1);
                (final(self)@, ops(r@)) == (c2, first + drawn)
            }),
    {
        self.approval_modal = None;
        let mut out = self.show_cursor();
        let drawn = self.render();
        append_ops(&mut out, drawn);
        out
    }

    pub fn reset_slash_completion(&mut self)
        ensures
            final(self)@ == (ComposerView {
                completion_index: None,
                completion_prefix: None,
                ..old(self)@
            }),
            final(self).approval_modal == old(self).approval_modal,
    {
        self.slash_completion_index = None;
        self.slash_completion_prefix = None;
    }

    /// Puts the next completion in the draft, and says whether there was one.
    pub fn apply_slash_completion(&mut self) -> (r: bool)
        ensures
            match completed(old(self)@) {
                Some(c) => r && final(self)@ == c,
                None => !r && final(self)@ == old(self)@,
            },
            final(self).approval_modal == old(self).approval_modal,
    {
        let prefix = match &self.slash_completion_prefix {
            Some(p) => Some(p.as_str()),
            None => None,
        };
        let next = match next_slash_completion(
            self.buffer.as_str(),
            self.cursor,
            self.slash_completion_index,
            prefix,
        ) {
            Some(next) => next,
            None => {
                return false;
            },
        };
        let rest = skip_chars(self.buffer.as_str(), next.token_end);
        self.buffer = concat2(next.command.as_str(), rest.as_str());
        self.cursor = char_len(next.command.as_str());
        self.history_index = None;
        self.slash_completion_index = Some(next.index);
        self.slash_completion_prefix = Some(next.prefix);
        true
    }

    fn leave_history(&mut self)
        ensures
            final(self)@ == (ComposerView {
                history_index: None,
                completion_index: None,
                completion_prefix: None,
                ..old(self)@
            }),
            final(self).approval_modal == old(self).approval_modal,
    {
        self.history_index = None;
        self.reset_slash_completion();
    }

    fn insert_text(&mut self, text: &str) -> (r: Vec<TermOp>)
        ensures
            (final(self)@, ops(r@)) == rendered(
                edited(
                    old(self)@,
                    inserted(old(self)@.buffer, old(self)@.cursor, text@),
                    moved_right(old(self)@.cursor, text@.len() as int),
                ),
            ),
            final(self).approval_modal == old(self).approval_modal,
    {
        insert_str_at(&mut self.buffer, &mut self.cursor, text);
        self.leave_history();
        self.render()
    }

    fn render_transcript_view(&mut self) -> (r: Vec<TermOp>)
        ensures
            (final(self)@, ops(r@)) == view_rendered(old(self)@),
            final(self).approval_modal == old(self).approval_modal,
    {
        let height = transcript_view_height(self.screen.rows, self.active_dock_rows());
        let mut out = clear_rows(0, (height - 1) as u16);
        push_op(&mut out, TermOp::MoveTo(0, 0));
        let total = self.transcript_lines.len();
        assert(texts(self.transcript_lines@).len() == total);
        let end: usize = if total > self.transcript_view_offset {
            total - self.transcript_view_offset
        } else {
            0
        };
        let start: usize = if end > height { end - height } else { 0 };
        let shown = draw_view(&self.transcript_lines, start, end, self.screen.cols as usize);
        append_ops(&mut out, shown);
        let drawn = self.render();
        append_ops(&mut out, drawn);
        out
    }

    fn scroll_transcript(&mut self) -> (r: Vec<TermOp>)
        ensures
            (final(self)@, ops(r@)) == view_rendered(scrolled_up(old(self)@)),
            final(self).approval_modal == old(self).approval_modal,
    {
        let page = transcript_view_height(self.screen.rows, self.active_dock_rows());
        let total = self.transcript_lines.len();
        assert(texts(self.transcript_lines@).len() == total);
        let limit: usize = if total > page { total - page } else { 0 };
        let wanted: usize = self.transcript_view_offset.saturating_add(page);
        self.transcript_view_offset = if wanted < limit { wanted } else { limit };
        self.render_transcript_view()
    }

    fn scroll_transcript_down(&mut self) -> (r: Vec<TermOp>)
        ensures
            (final(self)@, ops(r@)) == view_rendered(scrolled_down(old(self)@)),
            final(self).approval_modal == old(self).approval_modal,
    {
        let page = transcript_view_height(self.screen.rows, self.active_dock_rows());
        self.transcript_view_offset = if self.transcript_view_offset > page {
            self.transcript_view_offset - page
        } else {
            0
        };
        self.render_transcript_view()
    }

    /// Puts the earlier entry in the draft, and says whether the draft changed.
    fn previous_history(&mut self) -> (r: bool)
        ensures
            match history_back(old(self)@) {
                Some(c) => r && final(self)@ == c,
                None => !r && final(self)@ == match earlier_entry(old(self)@) {
                    Some(i) => ComposerView { history_index: Some(i), ..old(self)@ },
                    None => old(self)@,
                },
            },
            final(self).approval_modal == old(self).approval_modal,
    {
        assert(texts(self.history@).len() == self.history.len());
        if self.history.len() == 0 {
            return false;
        }
        let next: usize = match self.history_index {
            Some(index) => if index > 1 { index - 1 } else { 0 },
            None => self.history.len() - 1,
        };
        self.history_index = Some(next);
        if next >= self.history.len() {
            return false;
        }
        let line = copy_text(self.history[next].as_str());
        assert(self.history@[next as int]@ == texts(self.history@)[next as int]);
        self.cursor = char_len(line.as_str());
        self.buffer = line;
        self.reset_slash_completion();
        true
    }

    /// Puts the later entry in the draft, and says whether the draft changed.
    fn next_history(&mut self) -> (r: bool)
        ensures
            match history_forward(old(self)@) {
                Some(c) => r && final(self)@ == c,
                None => !r && final(self)@ == old(self)@,
            },
            final(self).approval_modal == old(self).approval_modal,
    {
        assert(texts(self.history@).len() == self.history.len());
        let index = match self.history_index {
            Some(index) => index,
            None => {
                return false;
            },
        };
        if index >= self.history.len() || index >= self.history.len() - 1 {
            self.history_index = None;
            self.buffer = String::new();
            self.cursor = 0;
        } else {
            let line = copy_text(self.history[index + 1].as_str());
            assert(self.history@[index + 1]@ == texts(self.history@)[index + 1]);
            self.history_index = Some(index + 1);
            self.cursor = char_len(line.as_str());
            self.buffer = line;
        }
        self.reset_slash_completion();
        true
    }

    fn submit(&mut self) -> (r: (Vec<TermOp>, Option<InputAction>))
        ensures
            (final(self)@, ops(r.0@), opt_action(r.1)) == submitted(old(self)@),
            final(self).approval_modal == old(self).approval_modal,
    {
        let text = copy_text(self.buffer.as_str());
        self.buffer = String::new();
        self.cursor = 0;
        self.leave_history();
        if char_count(trim(text.as_str()).as_str()) > 0 {
            push_item(&mut self.history, copy_text(text.as_str()));
        }
        let echo = submitted_prompt_echo_with_options(
            text.as_str(),
            self.screen.cols as usize,
            self.screen.color,
        );
        let drawn = self.print_above(echo.as_str());
        (drawn, Some(InputAction::Submit(text)))
    }

    fn delete_word(&mut self) -> (r: Vec<TermOp>)
        ensures
            (final(self)@, ops(r@), None::<ActionView>) == redrawn_if(
                word_removed(old(self)@),
                old(self)@,
            ),
            final(self).approval_modal == old(self).approval_modal,
    {
        broadcast use lemma_ops_empty;

        if remove_previous_word(&mut self.buffer, &mut self.cursor) {
            self.leave_history();
            self.render()
        } else {
            assert(self@ =~= old(self)@);
            Vec::new()
        }
    }

    fn move_cursor(&mut self, cursor: usize) -> (r: Vec<TermOp>)
        ensures
            (final(self)@, ops(r@)) == rendered(cursor_moved(old(self)@, cursor as int)),
            final(self).approval_modal == old(self).approval_modal,
    {
        self.cursor = cursor;
        self.reset_slash_completion();
        self.render()
    }

    fn handle_enter(&mut self, m: KeyModifiers) -> (r: (Vec<TermOp>, Option<InputAction>))
        ensures
            (final(self)@, ops(r.0@), opt_action(r.1)) == enter_outcome(old(self)@, m),
            final(self).approval_modal == old(self).approval_modal,
    {
        broadcast use lemma_ops_empty;

        if m.shift || m.alt {
            proof {
                reveal_strlit("\n");
            }
            (self.insert_text("\n"), None)
        } else {
            self.submit()
        }
    }

    fn handle_tab(&mut self) -> (r: (Vec<TermOp>, Option<InputAction>))
        ensures
            (final(self)@, ops(r.0@), opt_action(r.1)) == redrawn_if(completed(old(self)@), old(self)@),
            final(self).approval_modal == old(self).approval_modal,
    {
        broadcast use lemma_ops_empty;

        if self.apply_slash_completion() {
            (self.render(), None)
        } else {
            (Vec::new(), None)
        }
    }

    fn handle_char(&mut self, ch: char, modifiers: KeyModifiers) -> (r: (Vec<TermOp>, Option<InputAction>))
        ensures
            (final(self)@, ops(r.0@), opt_action(r.1)) == char_outcome(
                old(self)@,
                ch,
                modifiers,
            ),
            final(self).approval_modal == old(self).approval_modal,
    {
        broadcast use lemma_ops_empty;

        if modifiers.control {
            if ch == 'd' {
                let drawn = self.print_above("");
                (drawn, Some(InputAction::Exit))
            } else if ch == 'w' {
                (self.delete_word(), None)
            } else if ch == 'c' {
                self.buffer = String::new();
                self.cursor = 0;
                self.leave_history();
                (self.render(), None)
            } else {
                (Vec::new(), None)
            }
        } else {
            insert_at(&mut self.buffer, &mut self.cursor, shifted_char(ch, modifiers));
            self.leave_history();
            (self.render(), None)
        }
    }

    fn handle_backspace(&mut self, m: KeyModifiers) -> (r: (Vec<TermOp>, Option<InputAction>))
        ensures
            (final(self)@, ops(r.0@), opt_action(r.1)) == backspace_outcome(old(self)@, m),
            final(self).approval_modal == old(self).approval_modal,
    {
        broadcast use lemma_ops_empty;

        if m.alt || m.control {
            (self.delete_word(), None)
        } else if remove_before(&mut self.buffer, &mut self.cursor).is_some() {
            self.leave_history();
            (self.render(), None)
        } else {
            (Vec::new(), None)
        }
    }

    fn handle_delete(&mut self) -> (r: (Vec<TermOp>, Option<InputAction>))
        ensures
            (final(self)@, ops(r.0@), opt_action(r.1)) == delete_outcome(old(self)@),
            final(self).approval_modal == old(self).approval_modal,
    {
        broadcast use lemma_ops_empty;

        if remove_at(&mut self.buffer, self.cursor).is_some() {
            self.leave_history();
            (self.render(), None)
        } else {
            (Vec::new(), None)
        }
    }

    fn handle_left(&mut self, m: KeyModifiers) -> (r: (Vec<TermOp>, Option<InputAction>))
        ensures
            (final(self)@, ops(r.0@), opt_action(r.1)) == redrawn(
                cursor_moved(old(self)@, left_of(old(self)@, m)),
            ),
            final(self).approval_modal == old(self).approval_modal,
    {
        broadcast use lemma_ops_empty;

        let to: usize = if m.control || m.alt {
            previous_word_cursor(self.buffer.as_str(), self.cursor)
        } else if self.cursor > 1 {
            self.cursor - 1
        } else {
            0
        };
        (self.move_cursor(to), None)
    }

    fn handle_right(&mut self, m: KeyModifiers) -> (r: (Vec<TermOp>, Option<InputAction>))
        ensures
            (final(self)@, ops(r.0@), opt_action(r.1)) == redrawn(
                cursor_moved(old(self)@, right_of(old(self)@, m)),
            ),
            final(self).approval_modal == old(self).approval_modal,
    {
        broadcast use lemma_ops_empty;

        let length = char_len(self.buffer.as_str());
        let to: usize = if m.control || m.alt {
            next_word_cursor(self.buffer.as_str(), self.cursor)
        } else if self.cursor < length {
            self.cursor + 1
        } else {
            length
        };
        (self.move_cursor(to), None)
    }

    fn handle_up(&mut self) -> (r: (Vec<TermOp>, Option<InputAction>))
        ensures
            (final(self)@, ops(r.0@), opt_action(r.1)) == up_outcome(old(self)@),
            final(self).approval_modal == old(self).approval_modal,
    {
        broadcast use lemma_ops_empty;

        if self.previous_history() {
            (self.render(), None)
        } else {
            (Vec::new(), None)
        }
    }

    fn handle_down(&mut self) -> (r: (Vec<TermOp>, Option<InputAction>))
        ensures
            (final(self)@, ops(r.0@), opt_action(r.1)) == redrawn_if(
                history_forward(old(self)@),
                old(self)@,
            ),
            final(self).approval_modal == old(self).approval_modal,
    {
        broadcast use lemma_ops_empty;

        if self.next_history() {
            (self.render(), None)
        } else {
            (Vec::new(), None)
        }
    }

    fn handle_key(&mut self, key: KeyEvent) -> (r: (Vec<TermOp>, Option<InputAction>))
        ensures
            (final(self)@, ops(r.0@), opt_action(r.1)) == key_outcome(old(self)@, key),
            final(self).approval_modal == old(self).approval_modal,
    {
        broadcast use lemma_ops_empty;

        let m = key.modifiers;
        match key.code {
            KeyCode::Esc => (Vec::new(), Some(InputAction::Cancel)),
            KeyCode::Enter => self.handle_enter(m),
            KeyCode::Tab => self.handle_tab(),
            KeyCode::PageUp => (self.scroll_transcript(), None),
            KeyCode::PageDown => (self.scroll_transcript_down(), None),
            KeyCode::Char(ch) => self.handle_char(ch, m),
            KeyCode::Backspace => self.handle_backspace(m),
            KeyCode::Delete => self.handle_delete(),
            KeyCode::Left => self.handle_left(m),
            KeyCode::Right => self.handle_right(m),
            KeyCode::Home => (self.move_cursor(0), None),
            KeyCode::End => {
                let to = char_len(self.buffer.as_str());
                (self.move_cursor(to), None)
            },
            KeyCode::Up => self.handle_up(),
            KeyCode::Down => self.handle_down(),
            KeyCode::Other => (Vec::new(), None),
        }
    }

    /// Handles an event in the approval dialog; `None` where it goes on to the
    /// composer.
    fn handle_approval_modal_event(&mut self, event: &InputEvent) -> (r: Option<
        (Vec<TermOp>, Option<InputAction>),
    >)
        requires
            old(self).wf(),
        ensures
            final(self).wf(),
            match r {
                Some(done) => old(self)@.modal is Some && Some(
                    (final(self)@, ops(done.0@), opt_action(done.1)),
                ) == modal_outcome(old(self)@, old(self)@.modal->0, *event),
                None => final(self)@ == old(self)@ && (old(self)@.modal matches Some(m)
                    ==> modal_outcome(old(self)@, m, *event) is None),
            },
    {
        broadcast use lemma_ops_empty;

        let (counted, action) = match &self.approval_modal {
            None => {
                return None;
            },
            Some(modal) => match event {
                InputEvent::Key(key) => (is_key_press_or_repeat(*key), modal.key_action(*key)),
                _ => (false, ApprovalKeyAction::Ignore),
            },
        };
        if !counted {
            return Some((Vec::new(), None));
        }
        match action {
            ApprovalKeyAction::Choose(choice) => Some(
                (Vec::new(), Some(InputAction::Approval(choice))),
            ),
            ApprovalKeyAction::Ignore => Some((Vec::new(), None)),
            ApprovalKeyAction::MoveSelection(delta) => {
                let mut modal = self.approval_modal.take().unwrap();
                modal.move_selection(delta);
                self.approval_modal = Some(modal);
                let drawn = self.render();
                Some((drawn, None))
            },
            ApprovalKeyAction::PassThrough => None,
        }
    }

    /// Handles what the terminal reported, if anything, and says what the user
    /// asked for.
    pub fn poll_action(&mut self, event: Option<InputEvent>) -> (r: (
        Vec<TermOp>,
        Option<InputAction>,
    ))
        requires
            old(self).wf(),
        ensures
            final(self).wf(),
            (final(self)@, ops(r.0@), opt_action(r.1)) == match event {
                Some(e) => event_outcome(old(self)@, e),
                None => idle(old(self)@),
            },
    {
        broadcast use lemma_ops_empty;

        let event = match event {
            Some(e) => e,
            None => {
                return (Vec::new(), None);
            },
        };
        if let Some(done) = self.handle_approval_modal_event(&event) {
            return done;
        }
        match event {
            InputEvent::Paste(text) => (self.insert_text(text.as_str()), None),
            InputEvent::Key(key) => {
                if is_key_press_or_repeat(key) {
                    self.handle_key(key)
                } else {
                    (Vec::new(), None)
                }
            },
            InputEvent::Other => (Vec::new(), None),
        }
    }
}

/// The lines after a text was added to them.
fn write_lines(start: Vec<String>, text: &str) -> (r: Vec<String>)
    ensures
        texts(r@) == kept_lines(
            written_from(
                if start@.len() == 0 {
                    seq![Seq::empty()]
                } else {
                    texts(start@)
                },
                text@,
                0,
            ),
        ),
{
    broadcast use lemma_texts_empty;

    let mut lines = start;
    if lines.len() == 0 {
        push_item(&mut lines, String::new());
        assert(texts(lines@) =~= seq![Seq::<char>::empty()]);
    }
    let ghost begun = texts(lines@);
    let v = chars_of(text);
    let mut i: usize = 0;
    while i < v.len()
        invariant
            i <= v.len(),
            v@ == text@,
            lines.len() > 0,
            written_from(begun, v@, 0) == written_from(texts(lines@), v@, i as int),
        decreases v.len() - i,
    {
        let c = v[i];
        if c == '\n' {
            push_item(&mut lines, String::new());
        } else if c != '\r' {
            let ghost before = texts(lines@);
            let ghost all = lines@;
            let mut last = lines.pop().unwrap();
            assert(texts(lines@) =~= before.drop_last());
            assert(last@ == before.last());
            last.push(c);
            push_item(&mut lines, last);
        }
        i += 1;
    }
    assert(texts(lines@).len() == lines.len());
    if lines.len() > TRANSCRIPT_LINE_CAP {
        let extra: usize = lines.len() - TRANSCRIPT_LINE_CAP;
        let kept = copy_list(&lines, extra, lines.len());
        assert(texts(kept@) =~= kept_lines(texts(lines@)));
        return kept;
    }
    lines
}

fn draw_view(lines: &Vec<String>, start: usize, end: usize, width: usize) -> (r: Vec<TermOp>)
    requires
        start <= end <= lines.len(),
    ensures
        ops(r@) == view_ops(texts(lines@), start as int, end - start, width as nat),
{
    broadcast use lemma_ops_empty;

    let ghost list = texts(lines@);
    let mut out: Vec<TermOp> = Vec::new();
    let mut i: usize = start;
    while i < end
        invariant
            start <= i <= end <= lines.len(),
            list == texts(lines@),
            ops(out@) == view_ops(list, start as int, i - start, width as nat),
        decreases end - i,
    {
        if i > start {
            push_op(&mut out, TermOp::Text(copy_text("\r\n")));
        }
        assert(lines@[i as int]@ == list[i as int]);
        let line = visible_suffix(lines[i].as_str(), width);
        push_op(&mut out, TermOp::Text(raw_text(line.as_str())));
        i += 1;
    }
    out
}

} // verus!
