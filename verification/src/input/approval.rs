//! The approval dialog that takes the place of the input line.
use vstd::prelude::*;

use super::render::{less, muted, muted_dock_help};
use super::types::{KeyCode, KeyEvent, DOCK_RESERVED_ROWS};
use super::visible::{shortened, truncate_display_text, visible_len, wide_enough};
use crate::terminal_width::{columns, pad_display_width, padded, saturated};
use crate::text::{char_count, concat2, concat3, decimal_text, lines, push_item, push_text, repeat_char, starts_with, trim};
use crate::text::{decimal, has_prefix, lemma_texts_empty, opt_text, repeated, text_lines, texts, trimmed};

verus! {

#[derive(Clone, Copy, Debug, PartialEq, Eq, Structural)]
pub enum ApprovalChoice {
    ApproveOnce,
    ApproveForSession,
    Reject,
}

/// What an approval that outlives one request covers.
#[derive(Clone, Copy, Debug, PartialEq, Eq, Structural)]
pub enum ApprovalScope {
    Shell,
    Write,
}

impl ApprovalScope {
    pub open spec fn label_text(self) -> Seq<char> {
        match self {
            ApprovalScope::Shell => "shell"@,
            ApprovalScope::Write => "writes"@,
        }
    }

    pub fn label(self) -> (r: &'static str)
        ensures
            r@ == self.label_text(),
    {
        match self {
            ApprovalScope::Shell => "shell",
            ApprovalScope::Write => "writes",
        }
    }
}

/// A request for approval, and the option that is marked.
#[derive(Debug)]
pub struct ApprovalModal {
    pub tool: String,
    pub scope: Option<ApprovalScope>,
    pub summary: String,
    pub selected_index: usize,
}

#[derive(Clone, Copy, Debug, PartialEq, Eq, Structural)]
pub enum ApprovalKeyAction {
    Choose(ApprovalChoice),
    Ignore,
    MoveSelection(isize),
    PassThrough,
}

pub const APPROVAL_OPTION_COUNT: usize = 3;

/// The choices, in the order in which they are offered.
pub open spec fn choice_at(k: int) -> ApprovalChoice {
    if k == 0 {
        ApprovalChoice::ApproveOnce
    } else if k == 1 {
        ApprovalChoice::ApproveForSession
    } else {
        ApprovalChoice::Reject
    }
}

fn approval_option(k: usize) -> (r: ApprovalChoice)
    ensures
        r == choice_at(k as int),
{
    if k == 0 {
        ApprovalChoice::ApproveOnce
    } else if k == 1 {
        ApprovalChoice::ApproveForSession
    } else {
        ApprovalChoice::Reject
    }
}

/// The marked option after a move: forward it wraps round; back past the first
/// it goes to the last.
pub open spec fn moved(selected: int, delta: int) -> int {
    if delta < 0 {
        if selected >= -delta {
            selected + delta
        } else {
            APPROVAL_OPTION_COUNT - 1
        }
    } else {
        (selected + delta) % (APPROVAL_OPTION_COUNT as int)
    }
}

/// What a key does in the dialog.
pub open spec fn modal_key(selected: int, key: KeyEvent) -> ApprovalKeyAction {
    match key.code {
        KeyCode::Up => ApprovalKeyAction::MoveSelection((0 - 1) as isize),
        KeyCode::Down => ApprovalKeyAction::MoveSelection(1),
        KeyCode::Char(c) => if c == '1' {
            ApprovalKeyAction::Choose(ApprovalChoice::ApproveOnce)
        } else if c == '2' {
            ApprovalKeyAction::Choose(ApprovalChoice::ApproveForSession)
        } else if c == '3' || c == 'n' || c == 'N' {
            ApprovalKeyAction::Choose(ApprovalChoice::Reject)
        } else if (c == 'c' || c == 'd') && key.modifiers.control {
            ApprovalKeyAction::Choose(ApprovalChoice::Reject)
        } else {
            ApprovalKeyAction::Ignore
        },
        KeyCode::Esc => ApprovalKeyAction::Choose(ApprovalChoice::Reject),
        KeyCode::Enter => ApprovalKeyAction::Choose(choice_at(selected)),
        KeyCode::PageUp => ApprovalKeyAction::PassThrough,
        KeyCode::PageDown => ApprovalKeyAction::PassThrough,
        _ => ApprovalKeyAction::Ignore,
    }
}

/// The label of a choice; a wider approval names what it covers.
pub open spec fn choice_label(choice: ApprovalChoice, scope: Option<ApprovalScope>) -> Seq<char> {
    match choice {
        ApprovalChoice::ApproveOnce => "Approve once"@,
        ApprovalChoice::ApproveForSession => match scope {
            Some(ApprovalScope::Shell) => "Approve shell for this root"@,
            Some(ApprovalScope::Write) => "Approve writes for this root"@,
            None => "Approve for this session"@,
        },
        ApprovalChoice::Reject => "Reject"@,
    }
}

impl ApprovalModal {
    /// The marked option is one of those offered.
    pub open spec fn wf(&self) -> bool {
        self.selected_index < APPROVAL_OPTION_COUNT
    }

    /// A dialog whose wider approval covers the tool for the session.
    pub fn new(tool: String, summary: String) -> (r: ApprovalModal)
        ensures
            r.wf(),
            r.tool@ == tool@,
            r.summary@ == summary@,
            r.scope is None,
            r.selected_index == 0,
    {
        ApprovalModal { tool, scope: None, summary, selected_index: 0 }
    }

    /// A dialog whose wider approval covers `scope` in the workspace root.
    pub fn scoped(tool: String, scope: ApprovalScope, summary: String) -> (r: ApprovalModal)
        ensures
            r.wf(),
            r.tool@ == tool@,
            r.summary@ == summary@,
            r.scope == Some(scope),
            r.selected_index == 0,
    {
        ApprovalModal { tool, scope: Some(scope), summary, selected_index: 0 }
    }

    pub fn move_selection(&mut self, delta: isize)
        requires
            old(self).wf(),
        ensures
            final(self).wf(),
            final(self).selected_index == moved(old(self).selected_index as int, delta as int),
            final(self).tool == old(self).tool,
            final(self).scope == old(self).scope,
            final(self).summary == old(self).summary,
    {
        if delta < 0 {
            let back: usize = (-(delta + 1)) as usize + 1;
            self.selected_index = if self.selected_index >= back {
                self.selected_index - back
            } else {
                APPROVAL_OPTION_COUNT - 1
            };
        } else {
            self.selected_index = (self.selected_index + delta as usize) % APPROVAL_OPTION_COUNT;
        }
    }

    pub fn selected_choice(&self) -> (r: ApprovalChoice)
        ensures
            r == choice_at(self.selected_index as int),
    {
        approval_option(self.selected_index)
    }

    pub fn key_action(&self, key: KeyEvent) -> (r: ApprovalKeyAction)
        ensures
            r == modal_key(self.selected_index as int, key),
    {
        match key.code {
            KeyCode::Up => ApprovalKeyAction::MoveSelection(-1),
            KeyCode::Down => ApprovalKeyAction::MoveSelection(1),
            KeyCode::Char(c) => {
                if c == '1' {
                    ApprovalKeyAction::Choose(ApprovalChoice::ApproveOnce)
                } else if c == '2' {
                    ApprovalKeyAction::Choose(ApprovalChoice::ApproveForSession)
                } else if c == '3' || c == 'n' || c == 'N' {
                    ApprovalKeyAction::Choose(ApprovalChoice::Reject)
                } else if (c == 'c' || c == 'd') && key.modifiers.control {
                    ApprovalKeyAction::Choose(ApprovalChoice::Reject)
                } else {
                    ApprovalKeyAction::Ignore
                }
            },
            KeyCode::Esc => ApprovalKeyAction::Choose(ApprovalChoice::Reject),
            KeyCode::Enter => ApprovalKeyAction::Choose(self.selected_choice()),
            KeyCode::PageUp => ApprovalKeyAction::PassThrough,
            KeyCode::PageDown => ApprovalKeyAction::PassThrough,
            _ => ApprovalKeyAction::Ignore,
        }
    }

    pub fn option_label(&self, choice: ApprovalChoice) -> (r: &'static str)
        ensures
            r@ == choice_label(choice, self.scope),
    {
        match choice {
            ApprovalChoice::ApproveOnce => "Approve once",
            ApprovalChoice::ApproveForSession => match self.scope {
                Some(ApprovalScope::Shell) => "Approve shell for this root",
                Some(ApprovalScope::Write) => "Approve writes for this root",
                None => "Approve for this session",
            },
            ApprovalChoice::Reject => "Reject",
        }
    }
}

/// One step down and one step up, in either order, mark the same option again.
pub proof fn law_selection_steps_undo_each_other(selected: int)
    requires
        0 <= selected < APPROVAL_OPTION_COUNT,
    ensures
        moved(moved(selected, 1), -1) == selected,
        moved(moved(selected, -1), 1) == selected,
{
}

/// Nothing but an explicit choice approves: every key other than `1`, `2` and
/// Enter rejects, moves the mark or does nothing.
pub proof fn law_only_explicit_keys_approve(selected: int, key: KeyEvent)
    requires
        modal_key(selected, key) == ApprovalKeyAction::Choose(ApprovalChoice::ApproveOnce)
            || modal_key(selected, key) == ApprovalKeyAction::Choose(
            ApprovalChoice::ApproveForSession,
        ),
    ensures
        key.code == KeyCode::Char('1') || key.code == KeyCode::Char('2') || (key.code
            == KeyCode::Enter && choice_at(selected) != ApprovalChoice::Reject),
{
}

// ---------------------------------------------------------------------------
// The panel
// ---------------------------------------------------------------------------

/// A line of the summary that may be shown as its preview.
pub open spec fn is_preview_line(line: Seq<char>) -> bool {
    &&& line.len() > 0
    &&& !has_prefix(line, "approval required:"@)
    &&& !has_prefix(line, "Type "@)
}

/// A line that says what is to be run or changed.
pub open spec fn is_subject_line(line: Seq<char>) -> bool {
    has_prefix(line, "command:"@) || has_prefix(line, "path:"@)
}

/// The first preview line from line `k` on that, if so asked, names the subject.
pub open spec fn preview_from(all: Seq<Seq<char>>, k: int, subject: bool) -> Option<Seq<char>>
    decreases all.len() - k,
{
    if k < 0 || k >= all.len() {
        None
    } else {
        let line = trimmed(all[k]);
        if is_preview_line(line) && (!subject || is_subject_line(line)) {
            Some(line)
        } else {
            preview_from(all, k + 1, subject)
        }
    }
}

/// The line of a summary that is shown: the subject if it is named, else the first.
pub open spec fn preview_line(summary: Seq<char>) -> Option<Seq<char>> {
    let all = text_lines(summary);
    match preview_from(all, 0, true) {
        Some(line) => Some(line),
        None => preview_from(all, 0, false),
    }
}

fn find_preview(all: &Vec<String>, subject: bool) -> (r: Option<String>)
    ensures
        opt_text(r) == preview_from(texts(all@), 0, subject),
{
    let ghost list = texts(all@);
    let mut k: usize = 0;
    while k < all.len()
        invariant
            list == texts(all@),
            preview_from(list, 0, subject) == preview_from(list, k as int, subject),
        decreases all.len() - k,
    {
        let line = trim(all[k].as_str());
        assert(all@[k as int]@ == list[k as int]);
        let text = line.as_str();
        if char_count(text) > 0 && !starts_with(text, "approval required:") && !starts_with(
            text,
            "Type ",
        ) {
            if !subject || starts_with(text, "command:") || starts_with(text, "path:") {
                return Some(line);
            }
        }
        k += 1;
    }
    None
}

fn approval_preview(summary: &str, width: usize) -> (r: String)
    ensures
        r@ == match preview_line(summary@) {
            Some(line) => shortened(line, less(width as int, 2) as nat),
            None => Seq::empty(),
        },
{
    let all = lines(summary);
    let room: usize = if width > 2 { width - 2 } else { 0 };
    if let Some(line) = find_preview(&all, true) {
        return truncate_display_text(line.as_str(), room);
    }
    if let Some(line) = find_preview(&all, false) {
        return truncate_display_text(line.as_str(), room);
    }
    String::new()
}

pub open spec fn top_border(width: nat) -> Seq<char> {
    if width <= 2 {
        repeated('─', width)
    } else {
        "╭"@ + "─ approval "@ + repeated(
            '─',
            less(width - 2, saturated(columns("─ approval "@)) as int) as nat,
        ) + "╮"@
    }
}

fn approval_top_border(width: usize) -> (r: String)
    ensures
        r@ == top_border(width as nat),
{
    if width <= 2 {
        return repeat_char('─', width);
    }
    let title = "─ approval ";
    let taken = visible_len(title);
    let right: usize = if width - 2 > taken { width - 2 - taken } else { 0 };
    let mut out = concat2("╭", title);
    push_text(&mut out, repeat_char('─', right).as_str());
    push_text(&mut out, "╮");
    out
}

pub open spec fn bottom_border(width: nat) -> Seq<char> {
    let hint = saturated(columns(" ↑/↓ Enter Esc "@)) as int;
    if width <= 2 {
        repeated('─', width)
    } else if width - 2 <= hint {
        "╰"@ + repeated('─', (width - 2) as nat) + "╯"@
    } else {
        "╰"@ + repeated('─', (width - 2 - hint) as nat) + " ↑/↓ Enter Esc "@ + "╯"@
    }
}

fn approval_bottom_border(width: usize) -> (r: String)
    ensures
        r@ == bottom_border(width as nat),
{
    if width <= 2 {
        return repeat_char('─', width);
    }
    let hint = " ↑/↓ Enter Esc ";
    let taken = visible_len(hint);
    if width - 2 <= taken {
        return concat3("╰", repeat_char('─', width - 2).as_str(), "╯");
    }
    let left: usize = width - 2 - taken;
    let mut out = concat2("╰", repeat_char('─', left).as_str());
    push_text(&mut out, hint);
    push_text(&mut out, "╯");
    out
}

/// A row of the panel: the text between the borders.
pub open spec fn content_row(text: Seq<char>, width: nat) -> Seq<char> {
    if width <= 2 {
        shortened(text, width)
    } else {
        let inner = (width - 2) as nat;
        "│"@ + padded(shortened(text, inner), inner) + "│"@
    }
}

fn approval_panel_content_row(text: &str, width: usize, color: bool) -> (r: String)
    ensures
        r@ == muted(content_row(text@, width as nat), color),
{
    if width <= 2 {
        return muted_dock_help(truncate_display_text(text, width).as_str(), color);
    }
    let inner: usize = width - 2;
    let content = truncate_display_text(text, inner);
    let row = concat3("│", pad_display_width(content.as_str(), inner).as_str(), "│");
    muted_dock_help(row.as_str(), color)
}

/// The row of the option at index `k`.
pub open spec fn option_text(selected: int, k: int, scope: Option<ApprovalScope>) -> Seq<char> {
    (if selected == k {
        "→"@
    } else {
        " "@
    }) + " ["@ + decimal((k + 1) as nat) + "] "@ + choice_label(choice_at(k), scope)
}

/// The rows of the dialog.
pub open spec fn modal_panel(
    tool: Seq<char>,
    scope: Option<ApprovalScope>,
    summary: Seq<char>,
    selected: int,
    width: nat,
    color: bool,
) -> Seq<Seq<char>> {
    let w = wide_enough(width);
    let preview = match preview_line(summary) {
        Some(line) => shortened(line, less(less(w as int, 2), 2) as nat),
        None => Seq::empty(),
    };
    seq![
        muted(top_border(w), color),
        muted(content_row(tool + " requires approval"@, w), color),
        muted(content_row(preview, w), color),
        muted(content_row(option_text(selected, 0, scope), w), color),
        muted(content_row(option_text(selected, 1, scope), w), color),
        muted(content_row(option_text(selected, 2, scope), w), color),
        muted(bottom_border(w), color),
    ]
}

fn option_row(modal: &ApprovalModal, k: usize) -> (r: String)
    requires
        k < APPROVAL_OPTION_COUNT,
    ensures
        r@ == option_text(modal.selected_index as int, k as int, modal.scope),
{
    let marker = if modal.selected_index == k { "→" } else { " " };
    let mut out = concat3(marker, " [", decimal_text(k as u64 + 1).as_str());
    push_text(&mut out, "] ");
    push_text(&mut out, modal.option_label(approval_option(k)));
    out
}

pub fn approval_panel_rows(modal: &ApprovalModal, width: usize, color: bool) -> (r: Vec<String>)
    ensures
        texts(r@) == modal_panel(
            modal.tool@,
            modal.scope,
            modal.summary@,
            modal.selected_index as int,
            width as nat,
            color,
        ),
        r.len() == DOCK_RESERVED_ROWS,
{
    broadcast use lemma_texts_empty;

    let width: usize = if width < 1 { 1 } else { width };
    let inner: usize = if width > 2 { width - 2 } else { 0 };
    let mut rows: Vec<String> = Vec::new();
    push_item(&mut rows, muted_dock_help(approval_top_border(width).as_str(), color));
    let title = concat2(modal.tool.as_str(), " requires approval");
    push_item(&mut rows, approval_panel_content_row(title.as_str(), width, color));
    let preview = approval_preview(modal.summary.as_str(), inner);
    push_item(&mut rows, approval_panel_content_row(preview.as_str(), width, color));
    let first = option_row(modal, 0);
    push_item(&mut rows, approval_panel_content_row(first.as_str(), width, color));
    let second = option_row(modal, 1);
    push_item(&mut rows, approval_panel_content_row(second.as_str(), width, color));
    let third = option_row(modal, 2);
    push_item(&mut rows, approval_panel_content_row(third.as_str(), width, color));
    push_item(&mut rows, muted_dock_help(approval_bottom_border(width).as_str(), color));
    assert(texts(rows@) =~= modal_panel(
        modal.tool@,
        modal.scope,
        modal.summary@,
        modal.selected_index as int,
        width as nat,
        color,
    ));
    assert(texts(rows@).len() == rows.len());
    rows
}

/// A row of plain text fills the panel exactly.
pub proof fn law_content_row_fills_the_panel(text: Seq<char>, width: nat)
    requires
        crate::terminal_width::is_plain(text),
        width > 2,
    ensures
        columns(content_row(text, width)) == width,
{
    let inner = (width - 2) as nat;
    let short = shortened(text, inner);
    super::visible::law_shortened_text_fits(text, inner);
    reveal_strlit("│");
    super::visible::lemma_shortened_plain(text, inner);
    crate::terminal_width::law_padded_text_fills_the_width(short, inner);
    let body = padded(short, inner);
    let row = content_row(text, width);
    assert(crate::terminal_width::is_plain(row));
    crate::terminal_width::lemma_plain_columns(row);
    crate::terminal_width::lemma_plain_columns(body);
    super::visible::lemma_raw_columns_concat("│"@ + body, "│"@);
    super::visible::lemma_raw_columns_concat("│"@, body);
    reveal_with_fuel(crate::terminal_width::raw_columns, 2);
    assert(crate::terminal_width::raw_columns("│"@) == 1);
}

} // verus!
