//! Keys, events, drawing steps and the fixed measures of the dock.
use vstd::prelude::*;

use super::approval::ApprovalChoice;

verus! {

pub const DOCK_RESERVED_ROWS: usize = 7;

pub const DOCK_VERTICAL_PADDING_ROWS: usize = 2;

pub const DOCK_HELP_TEXT: &'static str = "Enter send · Alt/Shift+Enter newline · Esc stop · ? help · /exit";

/// The keys that the input line knows; any other key is `Other`.
#[derive(Clone, Copy, Debug, PartialEq, Eq, Structural)]
pub enum KeyCode {
    Char(char),
    Enter,
    Tab,
    Esc,
    Backspace,
    Delete,
    Left,
    Right,
    Up,
    Down,
    Home,
    End,
    PageUp,
    PageDown,
    Other,
}

/// The modifiers held with a key.
#[derive(Clone, Copy, Debug, PartialEq, Eq, Structural)]
pub struct KeyModifiers {
    pub control: bool,
    pub alt: bool,
    pub shift: bool,
}

/// What happened to a key.
#[derive(Clone, Copy, Debug, PartialEq, Eq, Structural)]
pub enum KeyEventKind {
    Press,
    Repeat,
    Release,
}

#[derive(Clone, Copy, Debug, PartialEq, Eq, Structural)]
pub struct KeyEvent {
    pub code: KeyCode,
    pub modifiers: KeyModifiers,
    pub kind: KeyEventKind,
}

/// What the terminal reports.
#[derive(Debug)]
pub enum InputEvent {
    Key(KeyEvent),
    Paste(String),
    Other,
}

/// What the user asked for.
#[derive(Debug, PartialEq, Eq)]
pub enum InputAction {
    Submit(String),
    Approval(ApprovalChoice),
    Cancel,
    Exit,
}

/// An action, with the submitted text as characters.
pub enum ActionView {
    Submit(Seq<char>),
    Approval(ApprovalChoice),
    Cancel,
    Exit,
}

impl View for InputAction {
    type V = ActionView;

    open spec fn view(&self) -> ActionView {
        match *self {
            InputAction::Submit(s) => ActionView::Submit(s@),
            InputAction::Approval(c) => ActionView::Approval(c),
            InputAction::Cancel => ActionView::Cancel,
            InputAction::Exit => ActionView::Exit,
        }
    }
}

pub open spec fn opt_action(o: Option<InputAction>) -> Option<ActionView> {
    match o {
        Some(a) => Some(a@),
        None => None,
    }
}

/// A key that is not held with any modifier.
pub open spec fn no_modifiers() -> KeyModifiers {
    KeyModifiers { control: false, alt: false, shift: false }
}

impl KeyModifiers {
    pub fn none() -> (r: KeyModifiers)
        ensures
            r == no_modifiers(),
    {
        KeyModifiers { control: false, alt: false, shift: false }
    }
}

/// Only presses and repeats count; a release does nothing.
pub open spec fn counts(key: KeyEvent) -> bool {
    key.kind != KeyEventKind::Release
}

pub fn is_key_press_or_repeat(key: KeyEvent) -> (r: bool)
    ensures
        r == counts(key),
{
    match key.kind {
        KeyEventKind::Press => true,
        KeyEventKind::Repeat => true,
        KeyEventKind::Release => false,
    }
}

/// One drawing step on the terminal. Rows and columns count from zero.
#[derive(Debug)]
pub enum TermOp {
    /// Rows 1 to the given one scroll; those below stay.
    ScrollRegion(u16),
    /// Go to a column and a row.
    MoveTo(u16, u16),
    /// Go to a column of the current row.
    Column(u16),
    ClearLine,
    HideCursor,
    ShowCursor,
    Text(String),
}

/// A drawing step, with its text as characters.
pub enum OpView {
    ScrollRegion(u16),
    MoveTo(u16, u16),
    Column(u16),
    ClearLine,
    HideCursor,
    ShowCursor,
    Text(Seq<char>),
}

impl View for TermOp {
    type V = OpView;

    open spec fn view(&self) -> OpView {
        match *self {
            TermOp::ScrollRegion(b) => OpView::ScrollRegion(b),
            TermOp::MoveTo(c, r) => OpView::MoveTo(c, r),
            TermOp::Column(c) => OpView::Column(c),
            TermOp::ClearLine => OpView::ClearLine,
            TermOp::HideCursor => OpView::HideCursor,
            TermOp::ShowCursor => OpView::ShowCursor,
            TermOp::Text(s) => OpView::Text(s@),
        }
    }
}

pub open spec fn ops(v: Seq<TermOp>) -> Seq<OpView> {
    Seq::new(v.len(), |i: int| v[i]@)
}

pub broadcast proof fn lemma_ops_push(v: Seq<TermOp>, op: TermOp)
    ensures
        #[trigger] ops(v.push(op)) == ops(v).push(op@),
{
    assert(ops(v.push(op)) =~= ops(v).push(op@));
}

pub broadcast proof fn lemma_ops_empty(v: Seq<TermOp>)
    requires
        v.len() == 0,
    ensures
        #[trigger] ops(v) == Seq::<OpView>::empty(),
{
    assert(ops(v) =~= Seq::<OpView>::empty());
}

/// Appends one drawing step.
pub fn push_op(out: &mut Vec<TermOp>, op: TermOp)
    ensures
        ops(final(out)@) == ops(old(out)@).push(op@),
{
    proof {
        lemma_ops_push(out@, op);
    }
    out.push(op);
}

/// Appends drawing steps.
pub fn append_ops(out: &mut Vec<TermOp>, more: Vec<TermOp>)
    ensures
        ops(final(out)@) == ops(old(out)@) + ops(more@),
{
    let mut rest = more;
    out.append(&mut rest);
    assert(ops(out@) =~= ops(old(out)@) + ops(more@));
}

/// The size of the terminal, and whether text may be coloured.
#[derive(Clone, Copy, Debug, PartialEq, Eq, Structural)]
pub struct Screen {
    pub cols: u16,
    pub rows: u16,
    pub color: bool,
}

} // verus!
