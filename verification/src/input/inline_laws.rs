//! The plain line editor, the completion of commands and the place of the
//! cursor.
use vstd::prelude::*;

use super::composer::{advanced_from, completed, event_outcome, ComposerView};
use super::inline::{inline_event, InlineView};
use super::slash::{completion, lemma_matching_bounds, matching, matching_upto, slash_commands, SLASH_COMMAND_COUNT};
use super::types::{ActionView, InputEvent, KeyCode, KeyEvent};
use super::draft_laws::{alone, with_control};
use crate::text::{has_prefix, is_space, lemma_word_end, trimmed, word_end};

verus! {

/// The editor and the composer hold the same draft, cursor and history.
pub open spec fn same_draft(v: InlineView, c: ComposerView) -> bool {
    &&& v.buffer == c.buffer
    &&& v.cursor == c.cursor
    &&& v.history == c.history
}

/// The plain line editor and the docked one edit alike: a text that is pasted,
/// and a key that is pressed alone, to type, to erase or to move, does the same
/// to the draft in both.
pub proof fn law_editors_agree(
    v: InlineView,
    c: ComposerView,
    prompt: Seq<char>,
    key: KeyEvent,
    code: KeyCode,
    text: String,
)
    requires
        same_draft(v, c),
        c.modal is None,
        alone(key, code),
        code is Char || code is Backspace || code is Delete || code is Left || code is Right
            || code is Home || code is End,
    ensures
        same_draft(
            inline_event(v, prompt, InputEvent::Key(key)).0,
            event_outcome(c, InputEvent::Key(key)).0,
        ),
        same_draft(
            inline_event(v, prompt, InputEvent::Paste(text)).0,
            event_outcome(c, InputEvent::Paste(text)).0,
        ),
        inline_event(v, prompt, InputEvent::Key(key)).2 is None,
{
}

/// Enter hands in the line as it stands and remembers it, unless it is blank.
pub proof fn law_lines_are_handed_in(v: InlineView, prompt: Seq<char>, key: KeyEvent)
    requires
        alone(key, KeyCode::Enter),
    ensures
        inline_event(v, prompt, InputEvent::Key(key)).2 == Some(ActionView::Submit(v.buffer)),
        trimmed(v.buffer).len() > 0 ==> inline_event(v, prompt, InputEvent::Key(key)).0.history
            == v.history.push(v.buffer),
        trimmed(v.buffer).len() == 0 ==> inline_event(v, prompt, InputEvent::Key(key)).0.history
            == v.history,
{
}

/// Up goes back through the lines that were handed in and down forward again.
pub proof fn law_lines_are_gone_through_in_order(
    v: InlineView,
    prompt: Seq<char>,
    i: int,
    key: KeyEvent,
)
    requires
        v.history.len() > 0,
        0 <= i < v.history.len(),
    ensures
        alone(key, KeyCode::Up) && v.index is None ==> {
            let d = inline_event(v, prompt, InputEvent::Key(key)).0;
            let newest = v.history.len() - 1;
            d.buffer == v.history[newest] && d.index == Some(newest) && d.cursor == d.buffer.len()
                && d.history == v.history
        },
        alone(key, KeyCode::Up) && v.index == Some(i) && i > 0 ==> {
            let d = inline_event(v, prompt, InputEvent::Key(key)).0;
            d.buffer == v.history[i - 1] && d.index == Some(i - 1) && d.cursor == d.buffer.len()
                && d.history == v.history
        },
        alone(key, KeyCode::Down) && v.index == Some(i) && i + 1 < v.history.len() ==> {
            let d = inline_event(v, prompt, InputEvent::Key(key)).0;
            d.buffer == v.history[i + 1] && d.index == Some(i + 1) && d.cursor == d.buffer.len()
                && d.history == v.history
        },
        alone(key, KeyCode::Down) && v.index == Some(i) && i + 1 == v.history.len() ==> {
            let d = inline_event(v, prompt, InputEvent::Key(key)).0;
            d.buffer == Seq::<char>::empty() && d.index is None && d.cursor == 0
        },
{
}

/// With the control key, `d` leaves and `c` empties the line.
pub proof fn law_control_keys_of_the_line(v: InlineView, prompt: Seq<char>, key: KeyEvent)
    ensures
        with_control(key, KeyCode::Char('d')) ==> inline_event(v, prompt, InputEvent::Key(key)).2
            == Some(ActionView::Exit),
        with_control(key, KeyCode::Char('c')) ==> inline_event(v, prompt, InputEvent::Key(key)).0
            == (InlineView { buffer: Seq::empty(), cursor: 0, index: None, ..v }),
{
}

// ---------------------------------------------------------------------------
// Completion
// ---------------------------------------------------------------------------

proof fn lemma_matching_holds(prefix: Seq<char>, n: int, k: int)
    requires
        0 <= k < n <= SLASH_COMMAND_COUNT,
    ensures
        matching_upto(prefix, n).contains(k) <==> has_prefix(slash_commands()[k].0, prefix),
    decreases n,
{
    lemma_matching_bounds(prefix, n - 1);
    let before = matching_upto(prefix, n - 1);
    let all = matching_upto(prefix, n);
    if k < n - 1 {
        lemma_matching_holds(prefix, n - 1, k);
        if before.contains(k) {
            let i = choose|i: int| 0 <= i < before.len() && before[i] == k;
            assert(all[i] == k);
        }
        if all.contains(k) {
            let i = choose|i: int| 0 <= i < all.len() && all[i] == k;
            assert(before[i] == k);
        }
    } else {
        if has_prefix(slash_commands()[k].0, prefix) {
            assert(all[before.len() as int] == k);
        } else if before.contains(k) {
            let i = choose|i: int| 0 <= i < before.len() && before[i] == k;
            assert(before[i] < n - 1);
        }
    }
}

/// The commands that are offered are those that start with what was typed, all
/// of them, in their order.
pub proof fn law_matching_commands_are_offered(prefix: Seq<char>, k: int)
    requires
        0 <= k < 12,
    ensures
        matching(prefix).contains(k) <==> has_prefix(slash_commands()[k].0, prefix),
        forall|i: int, j: int|
            0 <= i < j < matching(prefix).len() ==> matching(prefix)[i] < matching(prefix)[j],
{
    lemma_matching_holds(prefix, SLASH_COMMAND_COUNT as int, k);
    lemma_matching_bounds(prefix, SLASH_COMMAND_COUNT as int);
}

/// Completing puts the first command that starts with the word in its place and
/// the cursor behind it; what follows the word stays.
pub proof fn law_completion_finishes_the_word(c: ComposerView, word: Seq<char>, rest: Seq<char>)
    requires
        word.len() > 0,
        word[0] == '/',
        forall|i: int| 0 <= i < word.len() ==> !is_space(#[trigger] word[i]),
        rest.len() > 0 ==> is_space(rest[0]),
        c.buffer == word + rest,
        c.cursor == word.len(),
        c.completion_index is None,
        c.completion_prefix is None,
        matching(word).len() > 0,
    ensures
        ({
            let command = slash_commands()[matching(word)[0]].0;
            &&& completed(c) is Some
            &&& completed(c)->Some_0.buffer == command + rest
            &&& completed(c)->Some_0.cursor == command.len()
            &&& has_prefix(command, word)
        }),
{
    let s = word + rest;
    let n = word.len() as int;
    lemma_word_end(s, 0);
    let e = word_end(s, 0);
    assert(e == n) by {
        if e < n {
            assert(s[e] == word[e]);
        } else if e > n {
            assert(s[n] == rest[0]);
        }
    }
    assert(s[0] == '/');
    assert(s.take(n) =~= word);
    let k = matching(word)[0];
    lemma_matching_bounds(word, SLASH_COMMAND_COUNT as int);
    assert(matching(word).contains(k));
    lemma_matching_holds(word, SLASH_COMMAND_COUNT as int, k);
    assert(crate::text::after_chars(s, n) =~= rest);
    assert(completion(s, n, None, None) is Some);
}

// ---------------------------------------------------------------------------
// The cursor
// ---------------------------------------------------------------------------

/// A text of printable ASCII characters moves the cursor right by its length
/// where it fits the row.
pub proof fn law_plain_text_moves_the_cursor(
    s: Seq<char>,
    i: int,
    row: int,
    col: int,
    width: int,
    bottom: int,
)
    requires
        0 <= i <= s.len(),
        forall|k: int| 0 <= k < s.len() ==> ' ' <= #[trigger] s[k] <= '~',
        0 <= col,
        col + (s.len() - i) <= width,
        width <= u16::MAX,
    ensures
        advanced_from(s, i, row, col, width, bottom) == (row, col + (s.len() - i)),
    decreases s.len() - i,
{
    if i < s.len() {
        assert(' ' <= s[i] <= '~');
        assert(crate::terminal_width::char_columns(s[i]) == 1);
        law_plain_text_moves_the_cursor(s, i + 1, row, col + 1, width, bottom);
    }
}

/// A line feed moves the cursor to the start of the next row, or of the last one
/// there is; a carriage return to the start of its own.
pub proof fn law_line_feeds_move_down(row: int, col: int, width: int, bottom: int)
    ensures
        row < bottom ==> advanced_from(seq!['\n'], 0, row, col, width, bottom) == (row + 1, 0int),
        row == bottom ==> advanced_from(seq!['\n'], 0, row, col, width, bottom) == (row, 0int),
        advanced_from(seq!['\r'], 0, row, col, width, bottom) == (row, 0int),
{
    reveal_with_fuel(advanced_from, 2);
}

} // verus!
