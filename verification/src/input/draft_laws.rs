//! What the keys do to the draft, and what is shown and kept of a text.
use vstd::prelude::*;

use super::approval::{moved, ApprovalChoice, ApprovalScope};
use super::composer::{asking, event_outcome, printed_above, recorded, stream_finished, streamed_above, written_from, ComposerView};
use super::edit::{previous_word, word_start};
use super::types::{counts, ActionView, InputEvent, KeyCode, KeyEvent, KeyModifiers, OpView};
use crate::text::{is_space, replaced, space_end, trimmed};
use crate::text_laws::{all_space, is_free_of};

verus! {

/// The draft is `before` and `after`, with the cursor between the two, and no
/// dialog is open.
pub open spec fn stands(c: ComposerView, before: Seq<char>, after: Seq<char>) -> bool {
    &&& c.modal is None
    &&& c.buffer == before + after
    &&& c.cursor == before.len()
    &&& before.len() + after.len() < usize::MAX
}

/// A key that is pressed alone.
pub open spec fn alone(key: KeyEvent, code: KeyCode) -> bool {
    &&& counts(key)
    &&& key.code == code
    &&& key.modifiers == (KeyModifiers { control: false, alt: false, shift: false })
}

/// A key that is pressed together with the control key.
pub open spec fn with_control(key: KeyEvent, code: KeyCode) -> bool {
    &&& counts(key)
    &&& key.code == code
    &&& key.modifiers.control
}

/// A typed character and a pasted text come in at the cursor, which moves behind
/// them; what stood before and after it stays.
pub proof fn law_typing_puts_in(
    c: ComposerView,
    before: Seq<char>,
    after: Seq<char>,
    key: KeyEvent,
    ch: char,
    text: String,
)
    requires
        stands(c, before, after),
        before.len() + 1 + after.len() < usize::MAX,
        before.len() + text@.len() + after.len() < usize::MAX,
    ensures
        alone(key, KeyCode::Char(ch)) ==> stands(
            event_outcome(c, InputEvent::Key(key)).0,
            before.push(ch),
            after,
        ),
        stands(event_outcome(c, InputEvent::Paste(text)).0, before + text@, after),
        event_outcome(c, InputEvent::Paste(text)).2 is None,
        alone(key, KeyCode::Char(ch)) ==> event_outcome(c, InputEvent::Key(key)).2 is None,
{
    let s = before + after;
    let n = before.len() as int;
    assert(s.take(n) =~= before);
    assert(s.skip(n) =~= after);
    assert(before + seq![ch] + after =~= before.push(ch) + after);
}

/// Backspace takes the character before the cursor and delete the one behind it;
/// at the ends of the draft they take nothing.
pub proof fn law_erasing_takes_one(
    c: ComposerView,
    before: Seq<char>,
    after: Seq<char>,
    key: KeyEvent,
)
    requires
        stands(c, before, after),
    ensures
        alone(key, KeyCode::Backspace) && before.len() > 0 ==> stands(
            event_outcome(c, InputEvent::Key(key)).0,
            before.drop_last(),
            after,
        ),
        alone(key, KeyCode::Backspace) && before.len() == 0 ==> event_outcome(
            c,
            InputEvent::Key(key),
        ).0 == c,
        alone(key, KeyCode::Delete) && after.len() > 0 ==> stands(
            event_outcome(c, InputEvent::Key(key)).0,
            before,
            after.skip(1),
        ),
        alone(key, KeyCode::Delete) && after.len() == 0 ==> event_outcome(c, InputEvent::Key(key)).0
            == c,
{
    let s = before + after;
    let n = before.len() as int;
    if before.len() > 0 {
        assert(s.take(n - 1) + s.skip(n) =~= before.drop_last() + after);
    }
    if after.len() > 0 {
        assert(s.take(n) + s.skip(n + 1) =~= before + after.skip(1));
    }
}

/// The arrows move the cursor by one and the draft stays; home and end move it
/// to the ends.
pub proof fn law_arrows_move_the_cursor(
    c: ComposerView,
    before: Seq<char>,
    after: Seq<char>,
    key: KeyEvent,
)
    requires
        stands(c, before, after),
    ensures
        ({
            let d = event_outcome(c, InputEvent::Key(key)).0;
            &&& alone(key, KeyCode::Left) && before.len() > 0 ==> d.buffer == c.buffer && d.cursor
                == c.cursor - 1
            &&& alone(key, KeyCode::Left) && before.len() == 0 ==> d.buffer == c.buffer && d.cursor
                == 0
            &&& alone(key, KeyCode::Right) && after.len() > 0 ==> d.buffer == c.buffer && d.cursor
                == c.cursor + 1
            &&& alone(key, KeyCode::Right) && after.len() == 0 ==> d.buffer == c.buffer && d.cursor
                == c.cursor
            &&& alone(key, KeyCode::Home) ==> d.buffer == c.buffer && d.cursor == 0
            &&& alone(key, KeyCode::End) ==> d.buffer == c.buffer && d.cursor == c.buffer.len()
        }),
{
}

proof fn lemma_word_before(front: Seq<char>, word: Seq<char>, gap: Seq<char>, after: Seq<char>)
    requires
        front.len() == 0 || is_space(front.last()),
        word.len() > 0,
        forall|i: int| 0 <= i < word.len() ==> !is_space(#[trigger] word[i]),
        all_space(gap),
    ensures
        previous_word(front + word + gap + after, (front + word + gap).len() as int) == front.len(),
{
    let s = front + word + gap + after;
    lemma_gap(s, (front + word).len() as int, (front + word + gap).len() as int, gap);
    lemma_word(s, front, word, (front + word).len() as int);
}

proof fn lemma_gap(s: Seq<char>, at: int, n: int, gap: Seq<char>)
    requires
        0 < at <= n <= s.len(),
        !is_space(s[at - 1]),
        forall|i: int| at <= i < n ==> is_space(#[trigger] s[i]),
    ensures
        space_end(s, n) == at,
    decreases n,
{
    if n > at {
        assert(is_space(s[n - 1]));
        lemma_gap(s, at, n - 1, gap);
    }
}

proof fn lemma_word(s: Seq<char>, front: Seq<char>, word: Seq<char>, n: int)
    requires
        front.len() <= n <= s.len(),
        front.len() > 0 ==> is_space(s[front.len() - 1]),
        forall|i: int| front.len() <= i < n ==> !is_space(#[trigger] s[i]),
    ensures
        word_start(s, n) == front.len(),
    decreases n,
{
    if n > front.len() {
        assert(!is_space(s[n - 1]));
        lemma_word(s, front, word, n - 1);
    }
}

/// With the control key, `w` and backspace take the word before the cursor and
/// the white space behind it, and nothing else; the left arrow moves to the
/// start of that word; `c` empties the draft.
pub proof fn law_words_are_taken_whole(
    c: ComposerView,
    front: Seq<char>,
    word: Seq<char>,
    gap: Seq<char>,
    after: Seq<char>,
    key: KeyEvent,
)
    requires
        stands(c, front + word + gap, after),
        front.len() == 0 || is_space(front.last()),
        word.len() > 0,
        forall|i: int| 0 <= i < word.len() ==> !is_space(#[trigger] word[i]),
        all_space(gap),
    ensures
        ({
            let d = event_outcome(c, InputEvent::Key(key)).0;
            &&& with_control(key, KeyCode::Char('w')) ==> stands(d, front, after)
            &&& with_control(key, KeyCode::Backspace) ==> stands(d, front, after)
            &&& with_control(key, KeyCode::Left) ==> d.buffer == c.buffer && d.cursor == front.len()
            &&& with_control(key, KeyCode::Char('c')) ==> d.buffer == Seq::<char>::empty()
                && d.cursor == 0
        }),
{
    let before = front + word + gap;
    let s = before + after;
    lemma_word_before(front, word, gap, after);
    assert(s.take(front.len() as int) =~= front);
    assert(s.skip(before.len() as int) =~= after);
}

/// Escape asks to cancel, the control key with `d` to leave, and neither touches
/// the draft.
pub proof fn law_leaving_keys(c: ComposerView, key: KeyEvent)
    requires
        c.modal is None,
    ensures
        alone(key, KeyCode::Esc) ==> event_outcome(c, InputEvent::Key(key)) == (
            c,
            Seq::<OpView>::empty(),
            Some(ActionView::Cancel),
        ),
        with_control(key, KeyCode::Char('d')) ==> event_outcome(c, InputEvent::Key(key)).2 == Some(
            ActionView::Exit,
        ) && event_outcome(c, InputEvent::Key(key)).0.buffer == c.buffer,
{
}

/// A draft that is handed in becomes the newest entry of the history, unless it
/// is blank. With shift, Enter starts a new line instead.
pub proof fn law_drafts_are_remembered(
    c: ComposerView,
    before: Seq<char>,
    after: Seq<char>,
    key: KeyEvent,
)
    requires
        stands(c, before, after),
        before.len() + 1 + after.len() < usize::MAX,
    ensures
        alone(key, KeyCode::Enter) ==> {
            let d = event_outcome(c, InputEvent::Key(key)).0;
            &&& trimmed(c.buffer).len() > 0 ==> d.history == c.history.push(c.buffer)
            &&& trimmed(c.buffer).len() == 0 ==> d.history == c.history
            &&& d.buffer == Seq::<char>::empty()
            &&& d.history_index is None
        },
        counts(key) && key.code == KeyCode::Enter && key.modifiers.shift ==> {
            let d = event_outcome(c, InputEvent::Key(key));
            stands(d.0, before.push('\n'), after) && d.2 is None && d.0.history == c.history
        },
{
    reveal_strlit("\n");
    let s = before + after;
    let n = before.len() as int;
    assert(s.take(n) =~= before);
    assert(s.skip(n) =~= after);
    assert(before + "\n"@ + after =~= before.push('\n') + after);
}

/// Up goes through the history from the newest entry to the oldest, and down the
/// other way; the entry is the draft, with the cursor at its end, and the history
/// stays.
pub proof fn law_history_is_gone_through_in_order(c: ComposerView, i: int, key: KeyEvent)
    requires
        c.modal is None,
        c.history.len() > 0,
        0 <= i < c.history.len(),
    ensures
        alone(key, KeyCode::Up) && c.history_index is None ==> {
            let d = event_outcome(c, InputEvent::Key(key)).0;
            let newest = c.history.len() - 1;
            d.buffer == c.history[newest] && d.history_index == Some(newest) && d.cursor
                == d.buffer.len() && d.history == c.history
        },
        alone(key, KeyCode::Up) && c.history_index == Some(i) && i > 0 ==> {
            let d = event_outcome(c, InputEvent::Key(key)).0;
            d.buffer == c.history[i - 1] && d.history_index == Some(i - 1) && d.cursor
                == d.buffer.len() && d.history == c.history
        },
        alone(key, KeyCode::Down) && c.history_index == Some(i) && i + 1 < c.history.len() ==> {
            let d = event_outcome(c, InputEvent::Key(key)).0;
            d.buffer == c.history[i + 1] && d.history_index == Some(i + 1) && d.cursor
                == d.buffer.len() && d.history == c.history
        },
        alone(key, KeyCode::Down) && c.history_index is None ==> event_outcome(
            c,
            InputEvent::Key(key),
        ).0 == c,
{
}

// ---------------------------------------------------------------------------
// Dialogs
// ---------------------------------------------------------------------------

/// A dialog opens with the first choice selected, shows what it was opened for,
/// and starts with an empty draft.
pub proof fn law_dialogs_open_on_the_first_choice(
    c: ComposerView,
    tool: Seq<char>,
    scope: Option<ApprovalScope>,
    summary: Seq<char>,
)
    ensures
        ({
            let d = asking(c, tool, scope, summary).0;
            &&& d.modal is Some
            &&& d.modal->Some_0.tool == tool
            &&& d.modal->Some_0.scope == scope
            &&& d.modal->Some_0.summary == summary
            &&& d.modal->Some_0.selected == 0
            &&& d.buffer == Seq::<char>::empty()
            &&& d.history == c.history
        }),
{
}

/// In a dialog Enter takes the selected choice, the digits take theirs, Escape
/// rejects, and the arrows go round the three choices.
pub proof fn law_dialog_keys(c: ComposerView, key: KeyEvent)
    requires
        c.modal is Some,
        counts(key),
        0 <= c.modal->Some_0.selected < 3,
    ensures
        ({
            let selected = c.modal->Some_0.selected;
            let (d, shown, action) = event_outcome(c, InputEvent::Key(key));
            &&& key.code == KeyCode::Enter && selected == 0 ==> action == Some(
                ActionView::Approval(ApprovalChoice::ApproveOnce),
            )
            &&& key.code == KeyCode::Enter && selected == 1 ==> action == Some(
                ActionView::Approval(ApprovalChoice::ApproveForSession),
            )
            &&& key.code == KeyCode::Enter && selected == 2 ==> action == Some(
                ActionView::Approval(ApprovalChoice::Reject),
            )
            &&& key.code == KeyCode::Char('1') ==> action == Some(
                ActionView::Approval(ApprovalChoice::ApproveOnce),
            )
            &&& key.code == KeyCode::Char('2') ==> action == Some(
                ActionView::Approval(ApprovalChoice::ApproveForSession),
            )
            &&& key.code == KeyCode::Char('3') || key.code == KeyCode::Esc ==> action == Some(
                ActionView::Approval(ApprovalChoice::Reject),
            )
            &&& key.code == KeyCode::Down ==> d.modal is Some && d.modal->Some_0.selected == (
            selected + 1) % 3
            &&& key.code == KeyCode::Up ==> d.modal is Some && d.modal->Some_0.selected == (selected
                + 2) % 3
        }),
{
    let selected = c.modal->Some_0.selected;
    if key.code == KeyCode::Up {
        assert(moved(selected, -1) == (selected + 2) % 3);
    }
}

// ---------------------------------------------------------------------------
// Shown and kept
// ---------------------------------------------------------------------------

/// A text that is printed goes to the screen whole, with its line feeds as the
/// screen needs them.
pub proof fn law_printed_text_is_shown(c: ComposerView, text: Seq<char>)
    ensures
        printed_above(c, text).1.contains(OpView::Text(replaced(text, "\n"@, "\r\n"@))),
        streamed_above(c, text).1.contains(OpView::Text(replaced(text, "\n"@, "\r\n"@))),
        streamed_above(c, text).0.stream == c.stream + text,
        printed_above(c, text).0.buffer == c.buffer,
        streamed_above(c, text).0.buffer == c.buffer,
        stream_finished(c).0.stream.len() == 0,
        stream_finished(c).0.buffer == c.buffer,
{
    let shown = OpView::Text(replaced(text, "\n"@, "\r\n"@));
    let (c1, start) = super::composer::at_transcript(ComposerView { offset: 0, ..c });
    let a = printed_above(c, text).1;
    assert(a[start.len() as int + 2] == shown);
    let c0 = ComposerView { offset: 0, progress: Seq::empty(), ..c };
    let first = if c.stream.len() == 0 {
        super::composer::at_transcript(c0).1
    } else {
        Seq::empty()
    };
    let b = streamed_above(c, text).1;
    assert(b[first.len() as int] == shown);
}

proof fn lemma_written_flat(lines: Seq<Seq<char>>, s: Seq<char>, i: int)
    requires
        lines.len() > 0,
        0 <= i <= s.len(),
        is_free_of(s, '\n'),
        is_free_of(s, '\r'),
    ensures
        written_from(lines, s, i) == lines.drop_last().push(lines.last() + s.skip(i)),
    decreases s.len() - i,
{
    if i < s.len() {
        let next = lines.drop_last().push(lines.last().push(s[i]));
        lemma_written_flat(next, s, i + 1);
        assert(next.drop_last() =~= lines.drop_last());
        assert(next.last() + s.skip(i + 1) =~= lines.last() + s.skip(i));
    } else {
        assert(lines.last() + s.skip(i) =~= lines.last());
        assert(lines.drop_last().push(lines.last()) =~= lines);
    }
}

/// The transcript keeps what was written: a text goes on with the last line, and
/// a line feed starts a new one.
pub proof fn law_transcript_keeps_what_was_written(c: ComposerView, text: Seq<char>)
    requires
        0 < c.transcript.len() < super::composer::TRANSCRIPT_LINE_CAP,
        is_free_of(text, '\n'),
        is_free_of(text, '\r'),
    ensures
        recorded(c, text).transcript == c.transcript.drop_last().push(c.transcript.last() + text),
        recorded(c, "\n"@).transcript == c.transcript.push(Seq::empty()),
{
    reveal_strlit("\n");
    lemma_written_flat(c.transcript, text, 0);
    assert(text.skip(0) =~= text);
    reveal_with_fuel(written_from, 2);
}

} // verus!
