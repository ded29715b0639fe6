//! What the dock and the echoed prompt look like.
use vstd::prelude::*;

use super::layout::{clear_dock_rows, dock_row, set_output_scroll_region};
use super::layout::{clear_dock_ops, first_of_last, region_ops};
use super::types::{append_ops, lemma_ops_empty, lemma_ops_push, ops, push_op, OpView, Screen, TermOp, DOCK_HELP_TEXT, DOCK_RESERVED_ROWS, DOCK_VERTICAL_PADDING_ROWS};
use super::visible::{compose_dock_rows, dock_rows, shortened, truncate_display_text, visible_len, ComposedDockRows, DockRowsView};
use crate::terminal_width::{columns, pad_display_width, padded, saturated, wrap_plain_text, wrapped};
use crate::text::{concat2, concat3, copy_list, copy_text, join, lines, push_item, push_list, push_text, repeat_char, replace, split_char};
use crate::text::{joined, lemma_texts_empty, lemma_texts_push, pieces, repeated, replaced, text_lines, texts};

verus! {

// ---------------------------------------------------------------------------
// Styles
// ---------------------------------------------------------------------------

/// The text in the style `code`, or plain where colour is off.
pub open spec fn styled(code: Seq<char>, text: Seq<char>, color: bool) -> Seq<char> {
    if color {
        "\x1b["@ + code + "m"@ + text + "\x1b[0m"@
    } else {
        text
    }
}

pub fn style_prompt_echo_with_color(code: &str, text: &str, color_enabled: bool) -> (r: String)
    ensures
        r@ == styled(code@, text@, color_enabled),
{
    if color_enabled {
        let mut out = concat3("\x1b[", code, "m");
        push_text(&mut out, text);
        push_text(&mut out, "\x1b[0m");
        out
    } else {
        copy_text(text)
    }
}

pub open spec fn muted(text: Seq<char>, color: bool) -> Seq<char> {
    styled("90"@, text, color)
}

pub fn muted_dock_help(text: &str, color: bool) -> (r: String)
    ensures
        r@ == muted(text@, color),
{
    style_prompt_echo_with_color("90", text, color)
}

// ---------------------------------------------------------------------------
// The rows of the dock
// ---------------------------------------------------------------------------

pub open spec fn first_rows(rows: Seq<Seq<char>>, n: int) -> Seq<Seq<char>> {
    if n < rows.len() {
        rows.take(n)
    } else {
        rows
    }
}

pub open spec fn last_rows(rows: Seq<Seq<char>>, n: int) -> Seq<Seq<char>> {
    if n < rows.len() {
        rows.skip(rows.len() - n)
    } else {
        rows
    }
}

/// How many panel rows there is room for above `n` input rows: an empty row
/// and the help row take two.
pub open spec fn panel_room(n: int) -> int {
    if n >= DOCK_RESERVED_ROWS - 2 {
        0
    } else {
        DOCK_RESERVED_ROWS - 2 - n
    }
}

/// The rows of the dock: the panel alone where the input is hidden; else an
/// empty row, the panel as far as there is room, the input and the help.
pub open spec fn rendered_rows(
    prompt: Seq<char>,
    buffer: Seq<char>,
    cursor: nat,
    width: nat,
    panel: Seq<Seq<char>>,
    hide_input: bool,
    color: bool,
) -> DockRowsView {
    if hide_input {
        let kept = first_rows(panel, DOCK_RESERVED_ROWS as int);
        DockRowsView {
            lines: if kept.len() == 0 {
                seq![Seq::empty()]
            } else {
                kept
            },
            cursor_row: 0,
            cursor_col: 0,
        }
    } else {
        let input = dock_rows(prompt, buffer, cursor, width);
        let above = seq![Seq::<char>::empty()] + first_rows(
            panel,
            panel_room(input.lines.len() as int),
        );
        DockRowsView {
            lines: above + input.lines + seq![muted(DOCK_HELP_TEXT@, color)],
            cursor_row: above.len() + input.cursor_row,
            cursor_col: input.cursor_col,
        }
    }
}

pub fn compose_rendered_dock_rows(
    prompt: &str,
    buffer: &str,
    cursor: usize,
    width: usize,
    panel_rows: &Vec<String>,
    hide_input: bool,
    color: bool,
) -> (r: ComposedDockRows)
    ensures
        r@ == rendered_rows(
            prompt@,
            buffer@,
            cursor as nat,
            width as nat,
            texts(panel_rows@),
            hide_input,
            color,
        ),
        r.lines.len() > 0,
{
    broadcast use lemma_texts_push, lemma_texts_empty;

    let ghost panel = texts(panel_rows@);
    if hide_input {
        let n: usize = if panel_rows.len() < DOCK_RESERVED_ROWS {
            panel_rows.len()
        } else {
            DOCK_RESERVED_ROWS
        };
        let mut lines = copy_list(panel_rows, 0, n);
        assert(texts(lines@) =~= first_rows(panel, DOCK_RESERVED_ROWS as int));
        assert(texts(lines@).len() == lines.len());
        if lines.len() == 0 {
            lines.push(String::new());
            assert(texts(lines@) =~= seq![Seq::<char>::empty()]);
        }
        return ComposedDockRows { lines, cursor_row: 0, cursor_col: 0 };
    }
    let input = compose_dock_rows(prompt, buffer, cursor, width);
    assert(texts(input.lines@).len() == input.lines.len());
    let room: usize = if input.lines.len() >= 5 { 0 } else { 5 - input.lines.len() };
    let n: usize = if panel_rows.len() < room { panel_rows.len() } else { room };
    let mut lines: Vec<String> = Vec::new();
    lines.push(String::new());
    let above = copy_list(panel_rows, 0, n);
    assert(texts(above@) =~= first_rows(panel, room as int));
    push_list(&mut lines, &above);
    assert(texts(lines@) =~= seq![Seq::<char>::empty()] + first_rows(panel, room as int));
    assert(texts(lines@).len() == lines.len());
    let input_start = lines.len();
    push_list(&mut lines, &input.lines);
    assert(texts(lines@).len() == lines.len());
    let total = lines.len();
    lines.push(muted_dock_help(DOCK_HELP_TEXT, color));
    let r = ComposedDockRows {
        lines,
        cursor_row: input_start + input.cursor_row,
        cursor_col: input.cursor_col,
    };
    assert(r@.lines =~= rendered_rows(
        prompt@,
        buffer@,
        cursor as nat,
        width as nat,
        panel,
        false,
        color,
    ).lines);
    r
}

/// The dock keeps to its rows while the draft has at most five.
pub proof fn law_dock_keeps_to_its_rows(
    prompt: Seq<char>,
    buffer: Seq<char>,
    cursor: nat,
    width: nat,
    panel: Seq<Seq<char>>,
    hide_input: bool,
    color: bool,
)
    requires
        hide_input || dock_rows(prompt, buffer, cursor, width).lines.len() <= DOCK_RESERVED_ROWS - 2,
    ensures
        rendered_rows(prompt, buffer, cursor, width, panel, hide_input, color).lines.len()
            <= DOCK_RESERVED_ROWS,
{
}

pub open spec fn progress_row(line: Seq<char>, width: nat, color: bool) -> Seq<char> {
    muted(padded(shortened(line, width), width), color)
}

/// The first lines of a progress text, each as one padded row.
pub open spec fn progress_panel(text: Seq<char>, width: nat, color: bool) -> Seq<Seq<char>> {
    let shown = first_rows(
        text_lines(text),
        DOCK_RESERVED_ROWS - DOCK_VERTICAL_PADDING_ROWS,
    );
    let w = super::visible::wide_enough(width);
    Seq::new(shown.len(), |i: int| progress_row(shown[i], w, color))
}

pub fn progress_panel_rows(text: &str, width: usize, color: bool) -> (r: Vec<String>)
    ensures
        texts(r@) == progress_panel(text@, width as nat, color),
{
    broadcast use lemma_texts_push, lemma_texts_empty;

    let width: usize = if width < 1 { 1 } else { width };
    let all = lines(text);
    assert(texts(all@).len() == all.len());
    let n: usize = if all.len() < 5 { all.len() } else { 5 };
    let ghost want = progress_panel(text@, width as nat, color);
    let mut out: Vec<String> = Vec::new();
    let mut i: usize = 0;
    while i < n
        invariant
            i <= n <= all.len(),
            texts(all@) == text_lines(text@),
            want == progress_panel(text@, width as nat, color),
            width >= 1,
            n == want.len(),
            texts(out@) == want.take(i as int),
        decreases n - i,
    {
        let line = truncate_display_text(all[i].as_str(), width);
        assert(all@[i as int]@ == texts(all@)[i as int]);
        let row = muted_dock_help(pad_display_width(line.as_str(), width).as_str(), color);
        assert(row@ == want[i as int]);
        push_item(&mut out, row);
        i += 1;
        assert(texts(out@) =~= want.take(i as int));
    }
    assert(texts(out@) =~= want);
    out
}

// ---------------------------------------------------------------------------
// Drawing
// ---------------------------------------------------------------------------

/// Drawing the first `n` of the given lines, from row `first` down.
pub open spec fn line_ops(lines: Seq<Seq<char>>, first: int, n: int) -> Seq<OpView>
    decreases n,
{
    if n <= 0 || n > lines.len() {
        Seq::empty()
    } else {
        line_ops(lines, first, n - 1) + seq![
            OpView::MoveTo(0, (first + n - 1) as u16),
            OpView::ClearLine,
            OpView::Text(lines[n - 1]),
        ]
    }
}

/// `a - b`, or zero.
pub open spec fn less(a: int, b: int) -> int {
    if a > b {
        a - b
    } else {
        0
    }
}

pub open spec fn smaller(a: int, b: int) -> int {
    if a < b {
        a
    } else {
        b
    }
}

pub open spec fn larger(a: int, b: int) -> int {
    if a > b {
        a
    } else {
        b
    }
}

/// The rows of the dock that are drawn: the last ones that fit.
pub open spec fn drawn_rows(rows: DockRowsView) -> Seq<Seq<char>> {
    last_rows(rows.lines, DOCK_RESERVED_ROWS as int)
}

/// Drawing the dock at the bottom of the screen, over the `previous` rows that
/// it took before.
pub open spec fn dock_ops(rows: DockRowsView, screen: Screen, previous: int) -> Seq<OpView> {
    let shown = drawn_rows(rows);
    let n = shown.len() as int;
    let hidden = less(
        rows.lines.len() as int,
        DOCK_RESERVED_ROWS - DOCK_VERTICAL_PADDING_ROWS,
    );
    let first = first_of_last(screen.rows, n);
    let row = smaller(less(rows.cursor_row as int, hidden), n - 1);
    let col = smaller(rows.cursor_col as int, less(screen.cols as int, 1));
    region_ops(screen.rows, n) + clear_dock_ops(screen.rows, larger(n, previous)) + line_ops(
        shown,
        first,
        n,
    ) + seq![OpView::MoveTo(col as u16, (first + row) as u16)]
}

fn draw_rows(shown: &Vec<String>, first: u16) -> (r: Vec<TermOp>)
    requires
        first + shown.len() <= 65536,
        shown.len() <= DOCK_RESERVED_ROWS,
    ensures
        ops(r@) == line_ops(texts(shown@), first as int, shown.len() as int),
{
    broadcast use lemma_ops_empty;

    let ghost list = texts(shown@);
    let mut out: Vec<TermOp> = Vec::new();
    let mut i: usize = 0;
    while i < shown.len()
        invariant
            i <= shown.len() <= DOCK_RESERVED_ROWS,
            first + shown.len() <= 65536,
            texts(shown@) == list,
            ops(out@) == line_ops(list, first as int, i as int),
        decreases shown.len() - i,
    {
        let line = copy_text(shown[i].as_str());
        assert(line@ == list[i as int]);
        push_op(&mut out, TermOp::MoveTo(0, first + i as u16));
        push_op(&mut out, TermOp::ClearLine);
        push_op(&mut out, TermOp::Text(line));
        i += 1;
        assert(ops(out@) =~= line_ops(list, first as int, i as int));
    }
    out
}

fn place_dock(rows: &ComposedDockRows, screen: Screen, previous_rows: usize) -> (r: (
    Vec<TermOp>,
    usize,
))
    requires
        rows.lines.len() > 0,
    ensures
        ops(r.0@) == dock_ops(rows@, screen, previous_rows as int),
        r.1 == drawn_rows(rows@).len(),
        1 <= r.1 <= DOCK_RESERVED_ROWS,
{
    let total = rows.lines.len();
    assert(texts(rows.lines@).len() == total);
    let hidden: usize = if total > 5 { total - 5 } else { 0 };
    let from: usize = if total > DOCK_RESERVED_ROWS { total - DOCK_RESERVED_ROWS } else { 0 };
    let shown = copy_list(&rows.lines, from, total);
    assert(texts(shown@) =~= drawn_rows(rows@));
    assert(texts(shown@).len() == shown.len());
    let n = shown.len();
    let last = dock_row(screen.rows);
    let back: u16 = (n - 1) as u16;
    let first: u16 = if last < back { 0 } else { last - back };
    let below: usize = if rows.cursor_row > hidden { rows.cursor_row - hidden } else { 0 };
    let row: usize = if below < n - 1 { below } else { n - 1 };
    let edge: usize = if screen.cols > 1 { screen.cols as usize - 1 } else { 0 };
    let col: usize = if rows.cursor_col < edge { rows.cursor_col } else { edge };

    let mut out = set_output_scroll_region(screen.rows, n);
    let cleared: usize = if n > previous_rows { n } else { previous_rows };
    append_ops(&mut out, clear_dock_rows(screen.rows, cleared));
    append_ops(&mut out, draw_rows(&shown, first));
    let ghost drawn = ops(out@);
    let step = TermOp::MoveTo(col as u16, first + row as u16);
    push_op(&mut out, step);
    assert(drawn.push(step@) =~= drawn + seq![step@]);
    (out, n)
}

/// Draws the dock, and says how many rows it takes.
pub fn render_dock_lines(
    prompt: &str,
    buffer: &str,
    cursor: usize,
    panel_rows: &Vec<String>,
    hide_input: bool,
    previous_rows: usize,
    screen: Screen,
) -> (r: (Vec<TermOp>, usize))
    ensures
        ({
            let rows = rendered_rows(
                prompt@,
                buffer@,
                cursor as nat,
                screen.cols as nat,
                texts(panel_rows@),
                hide_input,
                screen.color,
            );
            &&& ops(r.0@) == dock_ops(rows, screen, previous_rows as int)
            &&& r.1 == drawn_rows(rows).len()
            &&& 1 <= r.1 <= DOCK_RESERVED_ROWS
        }),
{
    let rows = compose_rendered_dock_rows(
        prompt,
        buffer,
        cursor,
        screen.cols as usize,
        panel_rows,
        hide_input,
        screen.color,
    );
    place_dock(&rows, screen, previous_rows)
}

/// Drawing a prompt and a draft on the current row.
pub open spec fn inline_ops(prompt: Seq<char>, buffer: Seq<char>, cursor: int) -> Seq<OpView> {
    seq![
        OpView::Column(0),
        OpView::ClearLine,
        OpView::Text(prompt + buffer),
        OpView::Column(saturated((saturated(columns(prompt)) + cursor) as nat) as u16),
    ]
}

pub fn render_line(prompt: &str, buffer: &str, cursor: usize) -> (r: Vec<TermOp>)
    ensures
        ops(r@) == inline_ops(prompt@, buffer@, cursor as int),
{
    broadcast use lemma_ops_push, lemma_ops_empty;

    let mut out: Vec<TermOp> = Vec::new();
    let col: usize = visible_len(prompt).saturating_add(cursor);
    out.push(TermOp::Column(0));
    out.push(TermOp::ClearLine);
    out.push(TermOp::Text(concat2(prompt, buffer)));
    out.push(TermOp::Column(#[verifier::truncate] (col as u16)));
    assert(ops(out@) =~= inline_ops(prompt@, buffer@, cursor as int));
    out
}

/// The text as a raw terminal takes it: each line feed with a carriage return.
pub open spec fn raw_lines(text: Seq<char>) -> Seq<char> {
    replaced(text, "\n"@, "\r\n"@)
}

pub fn raw_text(text: &str) -> (r: String)
    ensures
        r@ == raw_lines(text@),
{
    replace(text, "\n", "\r\n")
}

// ---------------------------------------------------------------------------
// The echo of a submitted prompt
// ---------------------------------------------------------------------------

pub open spec fn blank_row(width: nat) -> Seq<char> {
    repeated(' ', width)
}

pub fn prompt_echo_plain_blank(width: usize) -> (r: String)
    ensures
        r@ == blank_row(width as nat),
{
    repeat_char(' ', width)
}

pub open spec fn echo_marker(text: Seq<char>, color: bool) -> Seq<char> {
    styled("1;38;2;187;154;247;48;2;40;42;54"@, text, color)
}

pub fn prompt_echo_marker(text: &str, color_enabled: bool) -> (r: String)
    ensures
        r@ == echo_marker(text@, color_enabled),
{
    style_prompt_echo_with_color("1;38;2;187;154;247;48;2;40;42;54", text, color_enabled)
}

pub open spec fn echo_block(text: Seq<char>, color: bool) -> Seq<char> {
    styled("38;2;220;223;230;48;2;40;42;54"@, text, color)
}

pub fn prompt_echo_block(text: &str, color_enabled: bool) -> (r: String)
    ensures
        r@ == echo_block(text@, color_enabled),
{
    style_prompt_echo_with_color("38;2;220;223;230;48;2;40;42;54", text, color_enabled)
}

/// The columns that the text of an echoed line is set in.
pub open spec fn echo_text_width(width: nat) -> nat {
    larger(less(width as int, 4), 10) as nat
}

pub open spec fn echo_content(line: Seq<char>, width: nat) -> Seq<char> {
    padded(" "@ + line + " "@, less(width as int, 2) as nat)
}

/// One echoed row: the first carries the mark.
pub open spec fn echo_row(line: Seq<char>, first: bool, width: nat, color: bool) -> Seq<char> {
    echo_marker(
        if first {
            "> "@
        } else {
            "  "@
        },
        color,
    ) + echo_block(echo_content(line, width), color)
}

/// One echoed line: its rows between two blank ones.
pub open spec fn echo_lines(text: Seq<char>, width: nat, color: bool) -> Seq<Seq<char>> {
    let set = wrapped(text, echo_text_width(width));
    seq![blank_row(width)] + Seq::new(
        set.len(),
        |i: int| echo_row(set[i], i == 0, width, color),
    ) + seq![blank_row(width)]
}

pub fn prompt_echo_block_lines(text: &str, width: usize, color_enabled: bool) -> (r: Vec<String>)
    ensures
        texts(r@) == echo_lines(text@, width as nat, color_enabled),
{
    broadcast use lemma_texts_push, lemma_texts_empty;

    let narrow: usize = if width > 4 { width - 4 } else { 0 };
    let content_width: usize = if narrow > 10 { narrow } else { 10 };
    let set = wrap_plain_text(text, content_width);
    let block_width: usize = if width > 2 { width - 2 } else { 0 };
    let ghost want = echo_lines(text@, width as nat, color_enabled);
    let ghost rows = wrapped(text@, echo_text_width(width as nat));
    assert(texts(set@) == rows);
    let mut out: Vec<String> = Vec::new();
    out.push(prompt_echo_plain_blank(width));
    assert(texts(out@) =~= want.take(1));
    let mut i: usize = 0;
    while i < set.len()
        invariant
            i <= set.len(),
            texts(set@) == rows,
            rows.len() == set.len(),
            want.len() == rows.len() + 2,
            want == echo_lines(text@, width as nat, color_enabled),
            rows == wrapped(text@, echo_text_width(width as nat)),
            block_width == less(width as int, 2),
            texts(out@) == want.take(i + 1),
        decreases set.len() - i,
    {
        let marker = if i == 0 { "> " } else { "  " };
        assert(set@[i as int]@ == rows[i as int]);
        let framed = concat3(" ", set[i].as_str(), " ");
        let content = pad_display_width(framed.as_str(), block_width);
        let mark = prompt_echo_marker(marker, color_enabled);
        let block = prompt_echo_block(content.as_str(), color_enabled);
        let row = concat2(mark.as_str(), block.as_str());
        assert(row@ == want[i + 1]);
        push_item(&mut out, row);
        i += 1;
        assert(texts(out@) =~= want.take(i + 1));
    }
    out.push(prompt_echo_plain_blank(width));
    assert(texts(out@) =~= want);
    out
}

/// The echoed rows of the first `n` lines, with a blank row between two lines.
pub open spec fn echo_blocks(parts: Seq<Seq<char>>, n: int, width: nat, color: bool) -> Seq<
    Seq<char>,
>
    decreases n,
{
    if n <= 0 || n > parts.len() {
        Seq::empty()
    } else {
        let before = echo_blocks(parts, n - 1, width, color);
        (if before.len() == 0 {
            before
        } else {
            before.push(blank_row(width))
        }) + echo_lines(parts[n - 1], width, color)
    }
}

/// The echo of a submitted prompt.
pub open spec fn prompt_echo(submitted: Seq<char>, terminal_width: nat, color: bool) -> Seq<char> {
    let width = larger(terminal_width as int, 24) as nat;
    let parts = pieces(submitted, '\n');
    "\n"@ + joined(echo_blocks(parts, parts.len() as int, width, color), "\n"@) + "\n\n"@
}

pub fn submitted_prompt_echo_with_options(
    submitted: &str,
    terminal_width: usize,
    color_enabled: bool,
) -> (r: String)
    ensures
        r@ == prompt_echo(submitted@, terminal_width as nat, color_enabled),
{
    broadcast use lemma_texts_push, lemma_texts_empty;

    let width: usize = if terminal_width > 24 { terminal_width } else { 24 };
    let parts = split_char(submitted, '\n');
    let ghost list = pieces(submitted@, '\n');
    let mut rows: Vec<String> = Vec::new();
    let mut i: usize = 0;
    while i < parts.len()
        invariant
            i <= parts.len(),
            texts(parts@) == list,
            texts(rows@) == echo_blocks(list, i as int, width as nat, color_enabled),
        decreases parts.len() - i,
    {
        assert(texts(rows@).len() == rows.len());
        if rows.len() > 0 {
            rows.push(prompt_echo_plain_blank(width));
        }
        assert(parts@[i as int]@ == list[i as int]);
        let block = prompt_echo_block_lines(parts[i].as_str(), width, color_enabled);
        push_list(&mut rows, &block);
        i += 1;
    }
    assert(texts(parts@).len() == parts.len());
    concat3("\n", join(&rows, "\n").as_str(), "\n\n")
}

/// Without colour, every row of an echoed plain line takes the whole width.
pub proof fn law_echo_rows_fill_the_width(text: Seq<char>, width: nat)
    requires
        crate::terminal_width::is_plain(text),
        width >= 14,
    ensures
        forall|k: int|
            0 <= k < echo_lines(text, width, false).len() ==> columns(
                #[trigger] echo_lines(text, width, false)[k],
            ) == width,
{
    let set = wrapped(text, echo_text_width(width));
    crate::terminal_width::law_wrapped_lines_fit(text, echo_text_width(width));
    assert forall|k: int| 0 <= k < echo_lines(text, width, false).len() implies columns(
        #[trigger] echo_lines(text, width, false)[k],
    ) == width by {
        let row = echo_lines(text, width, false)[k];
        reveal_strlit(" ");
        reveal_strlit("> ");
        reveal_strlit("  ");
        if k == 0 || k == set.len() + 1 {
            assert(row =~= padded(Seq::<char>::empty(), width)) by {
                assert(Seq::<char>::empty() + repeated(' ', width) =~= repeated(' ', width));
            }
            crate::terminal_width::law_padded_text_fills_the_width(Seq::<char>::empty(), width);
        } else {
            let line = set[k - 1];
            assert(crate::terminal_width::fits(line, echo_text_width(width)));
            let framed = " "@ + line + " "@;
            assert(crate::terminal_width::is_plain(framed));
            crate::terminal_width::lemma_plain_columns(framed);
            super::visible::lemma_raw_columns_concat(" "@ + line, " "@);
            super::visible::lemma_raw_columns_concat(" "@, line);
            assert(" "@ =~= repeated(' ', 1));
            super::visible::lemma_raw_columns_repeated(' ', 1);
            crate::terminal_width::law_padded_text_fills_the_width(framed, (width - 2) as nat);
            let mark = if k == 1 {
                "> "@
            } else {
                "  "@
            };
            let content = padded(framed, (width - 2) as nat);
            assert(row =~= mark + content);
            assert(crate::terminal_width::is_plain(row));
            crate::terminal_width::lemma_plain_columns(row);
            crate::terminal_width::lemma_plain_columns(content);
            super::visible::lemma_raw_columns_concat(mark, content);
            reveal_with_fuel(crate::terminal_width::raw_columns, 3);
            assert(crate::terminal_width::raw_columns(mark) == 2);
        }
    }
}

} // verus!
