//! What holds of the composer whatever the user does.
use vstd::prelude::*;

use super::composer::{completed, event_outcome, history_back, history_forward, kept_lines, key_outcome, printed_above, recorded, scrolled_down, scrolled_up, submitted, word_removed, written_from, ComposerView, TRANSCRIPT_LINE_CAP};
use super::edit::lemma_previous_word;
use super::types::{counts, ActionView, InputEvent, KeyCode, KeyEvent};
use crate::text::{lemma_skip_space, lemma_word_end, word_end};

verus! {

/// The cursor stands in the draft, the history entry exists, and the view of
/// the transcript is within what is kept of it.
pub open spec fn settled(c: ComposerView) -> bool {
    &&& 0 <= c.cursor <= c.buffer.len()
    &&& c.history_index matches Some(i) ==> 0 <= i < c.history.len()
    &&& c.transcript.len() <= TRANSCRIPT_LINE_CAP
    &&& 0 <= c.offset <= c.transcript.len()
}

/// A fresh composer is settled.
pub proof fn law_fresh_composer_is_settled(prompt: Seq<char>)
    ensures
        settled(super::composer::fresh(prompt)),
{
}

proof fn lemma_next_word(s: Seq<char>, cursor: int)
    requires
        0 <= cursor <= s.len(),
    ensures
        cursor <= super::edit::next_word(s, cursor) <= s.len(),
{
    lemma_word_end(s, cursor);
    lemma_skip_space(s, word_end(s, cursor));
}

proof fn lemma_printing_keeps_settled(c: ComposerView, text: Seq<char>)
    requires
        settled(c),
    ensures
        settled(printed_above(c, text).0),
{
}

proof fn lemma_word_removed_settled(c: ComposerView)
    requires
        settled(c),
    ensures
        word_removed(c) matches Some(n) ==> settled(n),
{
    lemma_previous_word(c.buffer, c.cursor);
}

proof fn lemma_completed_settled(c: ComposerView)
    requires
        settled(c),
    ensures
        completed(c) matches Some(n) ==> settled(n),
{
}

proof fn lemma_submitted_settled(c: ComposerView)
    requires
        settled(c),
    ensures
        settled(submitted(c).0),
{
    let history = if crate::text::trimmed(c.buffer).len() == 0 {
        c.history
    } else {
        c.history.push(c.buffer)
    };
    let e = super::composer::edited(ComposerView { history, ..c }, Seq::empty(), 0);
    lemma_printing_keeps_settled(
        e,
        super::render::prompt_echo(c.buffer, c.screen.cols as nat, c.screen.color),
    );
}

proof fn lemma_history_settled(c: ComposerView)
    requires
        settled(c),
    ensures
        history_back(c) matches Some(n) ==> settled(n),
        history_forward(c) matches Some(n) ==> settled(n),
{
}

proof fn lemma_cursor_moves_settled(c: ComposerView, key: KeyEvent)
    requires
        settled(c),
        key.code is Left || key.code is Right || key.code is Home || key.code is End,
    ensures
        settled(key_outcome(c, key).0),
{
    lemma_previous_word(c.buffer, c.cursor);
    lemma_next_word(c.buffer, c.cursor);
}

proof fn lemma_key_keeps_settled(c: ComposerView, key: KeyEvent)
    requires
        settled(c),
    ensures
        settled(key_outcome(c, key).0),
{
    match key.code {
        KeyCode::Enter => {
            reveal_strlit("\n");
            lemma_submitted_settled(c);
        },
        KeyCode::Tab => lemma_completed_settled(c),
        KeyCode::Char(ch) => {
            lemma_word_removed_settled(c);
            lemma_printing_keeps_settled(c, ""@);
        },
        KeyCode::Backspace => lemma_word_removed_settled(c),
        KeyCode::Up => lemma_history_settled(c),
        KeyCode::Down => lemma_history_settled(c),
        KeyCode::Left => lemma_cursor_moves_settled(c, key),
        KeyCode::Right => lemma_cursor_moves_settled(c, key),
        KeyCode::Home => lemma_cursor_moves_settled(c, key),
        KeyCode::End => lemma_cursor_moves_settled(c, key),
        _ => {},
    }
}

/// No event ever takes the cursor out of the draft, the history entry out of
/// the history, or the view out of the transcript; and the transcript never
/// outgrows its cap.
pub proof fn law_events_keep_the_composer_settled(c: ComposerView, event: InputEvent)
    requires
        settled(c),
    ensures
        settled(event_outcome(c, event).0),
{
    if let InputEvent::Key(key) = event {
        lemma_key_keeps_settled(c, key);
    }
}

/// While an approval is asked for, no event touches the draft, the prompt or
/// the history, and the only thing that can be asked for is a choice.
pub proof fn law_dialog_shields_the_draft(c: ComposerView, event: InputEvent)
    requires
        c.modal is Some,
    ensures
        ({
            let after = event_outcome(c, event);
            &&& after.0.buffer == c.buffer
            &&& after.0.cursor == c.cursor
            &&& after.0.history == c.history
            &&& after.0.prompt == c.prompt
            &&& after.0.modal is Some
            &&& after.2 is None || after.2->0 is Approval
        }),
{
}

/// Enter hands in the draft as it stands and leaves an empty one.
pub proof fn law_enter_hands_in_the_draft(c: ComposerView, key: KeyEvent)
    requires
        c.modal is None,
        key.code == KeyCode::Enter,
        !key.modifiers.shift && !key.modifiers.alt,
        counts(key),
    ensures
        event_outcome(c, InputEvent::Key(key)).2 == Some(ActionView::Submit(c.buffer)),
        event_outcome(c, InputEvent::Key(key)).0.buffer == Seq::<char>::empty(),
        event_outcome(c, InputEvent::Key(key)).0.cursor == 0,
{
}

/// A released key does nothing.
pub proof fn law_released_keys_do_nothing(c: ComposerView, key: KeyEvent)
    requires
        !counts(key),
    ensures
        event_outcome(c, InputEvent::Key(key)) == super::composer::idle(c),
{
}

/// Going back to the newest entry and forward again ends on an empty draft
/// outside the history.
pub proof fn law_forward_from_the_newest_entry_empties_the_draft(c: ComposerView)
    requires
        c.history.len() > 0,
        c.history_index is None,
    ensures
        history_back(c) matches Some(back) && back.buffer == c.history.last() && (history_forward(
            back,
        ) matches Some(next) && next.buffer == Seq::<char>::empty() && next.history_index is None),
{
}

/// A page up from the last line and a page down end on the last line again.
pub proof fn law_page_down_undoes_page_up_from_the_end(c: ComposerView)
    requires
        c.offset == 0,
        c.screen.rows >= 1,
    ensures
        scrolled_down(scrolled_up(c)).offset == 0,
{
}

proof fn lemma_written_grows(lines: Seq<Seq<char>>, s: Seq<char>, i: int)
    requires
        lines.len() > 0,
        0 <= i,
    ensures
        written_from(lines, s, i).len() >= lines.len(),
    decreases s.len() - i,
{
    if i < s.len() {
        if s[i] == '\r' {
            lemma_written_grows(lines, s, i + 1);
        } else if s[i] == '\n' {
            lemma_written_grows(lines.push(Seq::empty()), s, i + 1);
        } else {
            lemma_written_grows(lines.drop_last().push(lines.last().push(s[i])), s, i + 1);
        }
    }
}

proof fn lemma_written_skip(lines: Seq<Seq<char>>, k: int, s: Seq<char>, i: int)
    requires
        0 <= k < lines.len(),
        0 <= i,
    ensures
        written_from(lines.skip(k), s, i) == written_from(lines, s, i).skip(k),
    decreases s.len() - i,
{
    if i < s.len() {
        if s[i] == '\r' {
            lemma_written_skip(lines, k, s, i + 1);
        } else if s[i] == '\n' {
            let next = lines.push(Seq::empty());
            assert(lines.skip(k).push(Seq::empty()) =~= next.skip(k));
            lemma_written_skip(next, k, s, i + 1);
        } else {
            let next = lines.drop_last().push(lines.last().push(s[i]));
            assert(lines.skip(k).drop_last().push(lines.skip(k).last().push(s[i])) =~= next.skip(
                k,
            ));
            lemma_written_skip(next, k, s, i + 1);
        }
    }
}

proof fn lemma_written_concat(lines: Seq<Seq<char>>, s: Seq<char>, t: Seq<char>, i: int)
    requires
        0 <= i <= s.len(),
    ensures
        written_from(lines, s + t, i) == written_from(written_from(lines, s, i), t, 0),
    decreases s.len() - i,
{
    if i < s.len() {
        assert((s + t)[i] == s[i]);
        if s[i] == '\r' {
            lemma_written_concat(lines, s, t, i + 1);
        } else if s[i] == '\n' {
            lemma_written_concat(lines.push(Seq::empty()), s, t, i + 1);
        } else {
            lemma_written_concat(lines.drop_last().push(lines.last().push(s[i])), s, t, i + 1);
        }
    } else {
        lemma_written_shift(lines, s, t, 0);
    }
}

proof fn lemma_written_shift(lines: Seq<Seq<char>>, s: Seq<char>, t: Seq<char>, i: int)
    requires
        0 <= i <= t.len(),
    ensures
        written_from(lines, s + t, s.len() + i) == written_from(lines, t, i),
    decreases t.len() - i,
{
    if i < t.len() {
        assert((s + t)[s.len() + i] == t[i]);
        if t[i] == '\r' {
            lemma_written_shift(lines, s, t, i + 1);
        } else if t[i] == '\n' {
            lemma_written_shift(lines.push(Seq::empty()), s, t, i + 1);
        } else {
            lemma_written_shift(lines.drop_last().push(lines.last().push(t[i])), s, t, i + 1);
        }
    }
}

/// The transcript does not depend on how a text is cut into pieces.
pub proof fn law_transcript_ignores_how_text_is_cut(c: ComposerView, s: Seq<char>, t: Seq<char>)
    ensures
        recorded(recorded(c, s), t) == recorded(c, s + t),
{
    let start = if c.transcript.len() == 0 {
        seq![Seq::empty()]
    } else {
        c.transcript
    };
    let mid = written_from(start, s, 0);
    lemma_written_grows(start, s, 0);
    lemma_written_concat(start, s, t, 0);
    let whole = written_from(mid, t, 0);
    lemma_written_grows(mid, t, 0);
    if mid.len() > TRANSCRIPT_LINE_CAP {
        let k = mid.len() - TRANSCRIPT_LINE_CAP;
        lemma_written_skip(mid, k, t, 0);
        assert(kept_lines(whole.skip(k)) =~= kept_lines(whole));
    }
}

} // verus!
