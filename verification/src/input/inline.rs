//! The inline input line: one draft on the current row, with history.
use vstd::prelude::*;

use super::edit::{char_len, insert_at, insert_str_at, next_word_cursor, previous_word_cursor, remove_at, remove_before};
use super::edit::{inserted, moved_right, next_word, previous_word, removed};
use super::render::{inline_ops, less, render_line, smaller};
use super::slash::opt_int;
use super::types::{append_ops, counts, is_key_press_or_repeat, lemma_ops_empty, opt_action, ops, push_op, ActionView, InputAction, InputEvent, KeyCode, KeyEvent, OpView, TermOp};
use crate::text::{char_count, copy_text, push_item, trim};
use crate::text::{lemma_texts_empty, texts, trimmed};

verus! {

pub struct InlineInput {
    pub history: Vec<String>,
    pub history_index: Option<usize>,
    pub buffer: String,
    pub cursor: usize,
}

#[verifier::ext_equal]
pub struct InlineView {
    pub history: Seq<Seq<char>>,
    pub index: Option<int>,
    pub buffer: Seq<char>,
    pub cursor: int,
}

/// A new state, the steps that draw it, and what the user asked for.
pub type InlineOutcome = (InlineView, Seq<OpView>, Option<ActionView>);

pub open spec fn drawn(v: InlineView, prompt: Seq<char>) -> InlineOutcome {
    (v, inline_ops(prompt, v.buffer, v.cursor), None)
}

pub open spec fn unchanged(v: InlineView) -> InlineOutcome {
    (v, Seq::empty(), None)
}

/// Where the history goes back to, if there is one.
pub open spec fn back_entry(v: InlineView) -> Option<int> {
    if v.history.len() == 0 {
        None
    } else {
        match v.index {
            Some(i) => Some(less(i, 1)),
            None => Some(v.history.len() - 1),
        }
    }
}

/// The entry put in the draft.
pub open spec fn recalled(v: InlineView, i: int) -> InlineView {
    InlineView {
        index: Some(i),
        buffer: v.history[i],
        cursor: v.history[i].len() as int,
        ..v
    }
}

/// What a key does.
pub open spec fn inline_key(v: InlineView, prompt: Seq<char>, key: KeyEvent) -> InlineOutcome {
    let m = key.modifiers;
    match key.code {
        KeyCode::Enter => (
            InlineView {
                history: if trimmed(v.buffer).len() == 0 {
                    v.history
                } else {
                    v.history.push(v.buffer)
                },
                ..v
            },
            seq![OpView::Text("\r\n"@)],
            Some(ActionView::Submit(v.buffer)),
        ),
        KeyCode::Char(ch) => if m.control {
            if ch == 'd' {
                (v, seq![OpView::Text("\r\n"@)], Some(ActionView::Exit))
            } else if ch == 'c' {
                let after = InlineView { buffer: Seq::empty(), cursor: 0, index: None, ..v };
                (
                    after,
                    seq![OpView::Text("\r\n"@)] + inline_ops(prompt, Seq::empty(), 0),
                    None,
                )
            } else {
                unchanged(v)
            }
        } else {
            drawn(
                InlineView {
                    buffer: inserted(v.buffer, v.cursor, seq![ch]),
                    cursor: moved_right(v.cursor, 1),
                    ..v
                },
                prompt,
            )
        },
        KeyCode::Backspace => if v.cursor <= 0 {
            unchanged(v)
        } else if v.cursor > v.buffer.len() {
            unchanged(InlineView { cursor: v.cursor - 1, ..v })
        } else {
            drawn(
                InlineView {
                    buffer: removed(v.buffer, v.cursor - 1),
                    cursor: v.cursor - 1,
                    ..v
                },
                prompt,
            )
        },
        KeyCode::Delete => if v.cursor < v.buffer.len() {
            drawn(InlineView { buffer: removed(v.buffer, v.cursor), ..v }, prompt)
        } else {
            unchanged(v)
        },
        KeyCode::Left => drawn(
            InlineView {
                cursor: if m.control || m.alt {
                    previous_word(v.buffer, v.cursor)
                } else {
                    less(v.cursor, 1)
                },
                ..v
            },
            prompt,
        ),
        KeyCode::Right => drawn(
            InlineView {
                cursor: if m.control || m.alt {
                    next_word(v.buffer, v.cursor)
                } else {
                    smaller(v.cursor + 1, v.buffer.len() as int)
                },
                ..v
            },
            prompt,
        ),
        KeyCode::Home => drawn(InlineView { cursor: 0, ..v }, prompt),
        KeyCode::End => drawn(InlineView { cursor: v.buffer.len() as int, ..v }, prompt),
        KeyCode::Up => match back_entry(v) {
            Some(i) => if i < v.history.len() {
                drawn(recalled(v, i), prompt)
            } else {
                unchanged(InlineView { index: Some(i), ..v })
            },
            None => unchanged(v),
        },
        KeyCode::Down => match v.index {
            Some(i) => if i + 1 >= v.history.len() {
                drawn(InlineView { index: None, buffer: Seq::empty(), cursor: 0, ..v }, prompt)
            } else {
                drawn(recalled(v, i + 1), prompt)
            },
            None => unchanged(v),
        },
        _ => unchanged(v),
    }
}

/// What an event does.
pub open spec fn inline_event(v: InlineView, prompt: Seq<char>, event: InputEvent) -> InlineOutcome {
    match event {
        InputEvent::Paste(text) => drawn(
            InlineView {
                buffer: inserted(v.buffer, v.cursor, text@),
                cursor: moved_right(v.cursor, text@.len() as int),
                ..v
            },
            prompt,
        ),
        InputEvent::Key(key) => if counts(key) {
            inline_key(v, prompt, key)
        } else {
            unchanged(v)
        },
        InputEvent::Other => unchanged(v),
    }
}

impl View for InlineInput {
    type V = InlineView;

    open spec fn view(&self) -> InlineView {
        InlineView {
            history: texts(self.history@),
            index: opt_int(self.history_index),
            buffer: self.buffer@,
            cursor: self.cursor as int,
        }
    }
}

impl InlineInput {
    pub fn new() -> (r: InlineInput)
        ensures
            r@ == (InlineView {
                history: Seq::empty(),
                index: None,
                buffer: Seq::empty(),
                cursor: 0,
            }),
    {
        broadcast use lemma_texts_empty;

        InlineInput { history: Vec::new(), history_index: None, buffer: String::new(), cursor: 0 }
    }

    /// Starts an empty draft.
    pub fn start(&mut self, prompt: &str) -> (r: Vec<TermOp>)
        ensures
            (final(self)@, ops(r@), None::<ActionView>) == drawn(
                InlineView { index: None, buffer: Seq::empty(), cursor: 0, ..old(self)@ },
                prompt@,
            ),
    {
        self.buffer = String::new();
        self.cursor = 0;
        self.history_index = None;
        render_line(prompt, self.buffer.as_str(), self.cursor)
    }

    fn redraw(&self, prompt: &str) -> (r: (Vec<TermOp>, Option<InputAction>))
        ensures
            (self@, ops(r.0@), opt_action(r.1)) == drawn(self@, prompt@),
    {
        (render_line(prompt, self.buffer.as_str(), self.cursor), None)
    }

    /// Recalls the earlier entry, and says whether there was one.
    fn previous_history(&mut self) -> (r: bool)
        ensures
            match back_entry(old(self)@) {
                Some(i) => if i < old(self)@.history.len() {
                    r && final(self)@ == recalled(old(self)@, i)
                } else {
                    !r && final(self)@ == (InlineView { index: Some(i), ..old(self)@ })
                },
                None => !r && final(self)@ == old(self)@,
            },
    {
        assert(texts(self.history@).len() == self.history.len());
        if self.history.len() == 0 {
            return false;
        }
        let next: usize = match self.history_index {
            Some(index) => if index > 1 { index - 1 } else { 0 },
            None => self.history.len() - 1,
        };
        self.history_index = Some(next);
        if next >= self.history.len() {
            return false;
        }
        let line = copy_text(self.history[next].as_str());
        assert(self.history@[next as int]@ == texts(self.history@)[next as int]);
        self.cursor = char_len(line.as_str());
        self.buffer = line;
        true
    }

    /// Recalls the later entry, or empties the draft after the newest one, and
    /// says whether the draft changed.
    fn next_history(&mut self) -> (r: bool)
        ensures
            match old(self)@.index {
                Some(i) => r && final(self)@ == if i + 1 >= old(self)@.history.len() {
                    InlineView { index: None, buffer: Seq::empty(), cursor: 0, ..old(self)@ }
                } else {
                    recalled(old(self)@, i + 1)
                },
                None => !r && final(self)@ == old(self)@,
            },
    {
        assert(texts(self.history@).len() == self.history.len());
        let index = match self.history_index {
            Some(index) => index,
            None => {
                return false;
            },
        };
        if index >= self.history.len() || index >= self.history.len() - 1 {
            self.history_index = None;
            self.buffer = String::new();
            self.cursor = 0;
        } else {
            let line = copy_text(self.history[index + 1].as_str());
            assert(self.history@[index + 1]@ == texts(self.history@)[index + 1]);
            self.history_index = Some(index + 1);
            self.cursor = char_len(line.as_str());
            self.buffer = line;
        }
        true
    }

    fn handle_key(&mut self, prompt: &str, key: KeyEvent) -> (r: (
        Vec<TermOp>,
        Option<InputAction>,
    ))
        ensures
            (final(self)@, ops(r.0@), opt_action(r.1)) == inline_key(old(self)@, prompt@, key),
    {
        broadcast use lemma_ops_empty;

        let m = key.modifiers;
        match key.code {
            KeyCode::Enter => {
                let text = copy_text(self.buffer.as_str());
                if char_count(trim(text.as_str()).as_str()) > 0 {
                    push_item(&mut self.history, copy_text(text.as_str()));
                }
                (newline(), Some(InputAction::Submit(text)))
            },
            KeyCode::Char(ch) => {
                if m.control {
                    if ch == 'd' {
                        (newline(), Some(InputAction::Exit))
                    } else if ch == 'c' {
                        self.buffer = String::new();
                        self.cursor = 0;
                        self.history_index = None;
                        let mut out = newline();
                        append_ops(
                            &mut out,
                            render_line(prompt, self.buffer.as_str(), self.cursor),
                        );
                        (out, None)
                    } else {
                        (Vec::new(), None)
                    }
                } else {
                    insert_at(&mut self.buffer, &mut self.cursor, ch);
                    self.redraw(prompt)
                }
            },
            KeyCode::Backspace => {
                if remove_before(&mut self.buffer, &mut self.cursor).is_some() {
                    self.redraw(prompt)
                } else {
                    (Vec::new(), None)
                }
            },
            KeyCode::Delete => {
                if remove_at(&mut self.buffer, self.cursor).is_some() {
                    self.redraw(prompt)
                } else {
                    (Vec::new(), None)
                }
            },
            KeyCode::Left => {
                self.cursor = if m.control || m.alt {
                    previous_word_cursor(self.buffer.as_str(), self.cursor)
                } else if self.cursor > 1 {
                    self.cursor - 1
                } else {
                    0
                };
                self.redraw(prompt)
            },
            KeyCode::Right => {
                let length = char_len(self.buffer.as_str());
                self.cursor = if m.control || m.alt {
                    next_word_cursor(self.buffer.as_str(), self.cursor)
                } else if self.cursor < length {
                    self.cursor + 1
                } else {
                    length
                };
                self.redraw(prompt)
            },
            KeyCode::Home => {
                self.cursor = 0;
                self.redraw(prompt)
            },
            KeyCode::End => {
                self.cursor = char_len(self.buffer.as_str());
                self.redraw(prompt)
            },
            KeyCode::Up => {
                if self.previous_history() {
                    self.redraw(prompt)
                } else {
                    (Vec::new(), None)
                }
            },
            KeyCode::Down => {
                if self.next_history() {
                    self.redraw(prompt)
                } else {
                    (Vec::new(), None)
                }
            },
            _ => (Vec::new(), None),
        }
    }

    /// Handles one event of the terminal, and says what the user asked for.
    pub fn read_action(&mut self, prompt: &str, event: InputEvent) -> (r: (
        Vec<TermOp>,
        Option<InputAction>,
    ))
        ensures
            (final(self)@, ops(r.0@), opt_action(r.1)) == inline_event(
                old(self)@,
                prompt@,
                event,
            ),
    {
        broadcast use lemma_ops_empty;

        match event {
            InputEvent::Paste(text) => {
                insert_str_at(&mut self.buffer, &mut self.cursor, text.as_str());
                self.redraw(prompt)
            },
            InputEvent::Key(key) => {
                if is_key_press_or_repeat(key) {
                    self.handle_key(prompt, key)
                } else {
                    (Vec::new(), None)
                }
            },
            InputEvent::Other => (Vec::new(), None),
        }
    }
}

fn newline() -> (r: Vec<TermOp>)
    ensures
        ops(r@) == seq![OpView::Text("\r\n"@)],
{
    broadcast use lemma_ops_empty;

    let mut out: Vec<TermOp> = Vec::new();
    push_op(&mut out, TermOp::Text(copy_text("\r\n")));
    assert(ops(out@) =~= seq![OpView::Text("\r\n"@)]);
    out
}

/// What a line asks for that is read from a file or a pipe; the end of the
/// input ends the session.
pub fn piped_action(line: Option<String>) -> (r: InputAction)
    ensures
        r@ == match line {
            Some(text) => ActionView::Submit(text@),
            None => ActionView::Exit,
        },
{
    match line {
        Some(text) => InputAction::Submit(text),
        None => InputAction::Exit,
    }
}

} // verus!
