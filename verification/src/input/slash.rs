//! Completion of slash commands.
use vstd::prelude::*;

use super::render::{larger, less, muted, muted_dock_help, smaller};
use super::visible::{shortened, truncate_display_text, visible_len, wide_enough};
use crate::terminal_width::{columns, pad_display_width, padded, saturated};
use crate::text::{chars_of, copy_text, push_item, push_text, repeat_char, same_text, starts_with, take_chars, text_between, word_end_at};
use crate::text::{has_prefix, lemma_texts_empty, repeated, texts, word_end};

verus! {

/// A slash command and what it does.
#[derive(Clone, Copy, Debug, PartialEq, Eq)]
pub struct SlashCommandSpec {
    pub command: &'static str,
    pub description: &'static str,
}

/// The slash commands, in the order in which they are offered.
pub open spec fn slash_commands() -> Seq<(Seq<char>, Seq<char>)> {
    seq![
        ("/chat"@, "Switch to plain chat mode"@),
        ("/agent"@, "Switch to workspace agent mode"@),
        ("/root"@, "Show or set active workspace root"@),
        ("/model"@, "Show or switch DeepSeek model"@),
        ("/debug"@, "Toggle local debug backend"@),
        ("/runtime"@, "Show provider/debug runtime state"@),
        ("/status"@, "Show active session details"@),
        ("/end"@, "End the current session and clear context"@),
        ("/exit"@, "Exit without clearing context"@),
        ("/quit"@, "Exit without clearing context"@),
        ("/help"@, "Show this help"@),
        ("?"@, "Show this help"@),
    ]
}

pub const SLASH_COMMAND_COUNT: usize = 12;

/// The slash command at an index.
pub fn slash_command(k: usize) -> (r: SlashCommandSpec)
    requires
        k < SLASH_COMMAND_COUNT,
    ensures
        (r.command@, r.description@) == slash_commands()[k as int],
{
    if k == 0 {
        SlashCommandSpec { command: "/chat", description: "Switch to plain chat mode" }
    } else if k == 1 {
        SlashCommandSpec { command: "/agent", description: "Switch to workspace agent mode" }
    } else if k == 2 {
        SlashCommandSpec { command: "/root", description: "Show or set active workspace root" }
    } else if k == 3 {
        SlashCommandSpec { command: "/model", description: "Show or switch DeepSeek model" }
    } else if k == 4 {
        SlashCommandSpec { command: "/debug", description: "Toggle local debug backend" }
    } else if k == 5 {
        SlashCommandSpec { command: "/runtime", description: "Show provider/debug runtime state" }
    } else if k == 6 {
        SlashCommandSpec { command: "/status", description: "Show active session details" }
    } else if k == 7 {
        SlashCommandSpec {
            command: "/end",
            description: "End the current session and clear context",
        }
    } else if k == 8 {
        SlashCommandSpec { command: "/exit", description: "Exit without clearing context" }
    } else if k == 9 {
        SlashCommandSpec { command: "/quit", description: "Exit without clearing context" }
    } else if k == 10 {
        SlashCommandSpec { command: "/help", description: "Show this help" }
    } else {
        SlashCommandSpec { command: "?", description: "Show this help" }
    }
}

/// The indices, among the first `n`, of the commands that start with `prefix`.
pub open spec fn matching_upto(prefix: Seq<char>, n: int) -> Seq<int>
    decreases n,
{
    if n <= 0 || n > slash_commands().len() {
        Seq::empty()
    } else if has_prefix(slash_commands()[n - 1].0, prefix) {
        matching_upto(prefix, n - 1).push(n - 1)
    } else {
        matching_upto(prefix, n - 1)
    }
}

/// The indices of the commands that start with `prefix`.
pub open spec fn matching(prefix: Seq<char>) -> Seq<int> {
    matching_upto(prefix, SLASH_COMMAND_COUNT as int)
}

pub open spec fn indices(v: Seq<usize>) -> Seq<int> {
    Seq::new(v.len(), |i: int| v[i] as int)
}

pub proof fn lemma_matching_bounds(prefix: Seq<char>, n: int)
    requires
        0 <= n <= SLASH_COMMAND_COUNT,
    ensures
        matching_upto(prefix, n).len() <= n,
        forall|i: int|
            0 <= i < matching_upto(prefix, n).len() ==> 0 <= #[trigger] matching_upto(prefix, n)[i]
                < n,
        forall|i: int, j: int|
            0 <= i < j < matching_upto(prefix, n).len() ==> matching_upto(prefix, n)[i]
                < matching_upto(prefix, n)[j],
    decreases n,
{
    if n > 0 {
        lemma_matching_bounds(prefix, n - 1);
    }
}

fn slash_command_match_entries(prefix: &str) -> (r: Vec<usize>)
    ensures
        indices(r@) == matching(prefix@),
        r.len() <= SLASH_COMMAND_COUNT,
        forall|i: int| 0 <= i < r.len() ==> #[trigger] r@[i] < SLASH_COMMAND_COUNT,
{
    let mut out: Vec<usize> = Vec::new();
    let mut k: usize = 0;
    assert(indices(out@) =~= matching_upto(prefix@, 0));
    while k < SLASH_COMMAND_COUNT
        invariant
            k <= SLASH_COMMAND_COUNT,
            indices(out@) == matching_upto(prefix@, k as int),
            out.len() <= k,
            forall|i: int| 0 <= i < out.len() ==> #[trigger] out@[i] < SLASH_COMMAND_COUNT,
        decreases SLASH_COMMAND_COUNT - k,
    {
        let entry = slash_command(k);
        let ghost before = indices(out@);
        if starts_with(entry.command, prefix) {
            out.push(k);
            assert(indices(out@) =~= before.push(k as int));
        }
        k += 1;
    }
    out
}

/// The commands at the given indices.
pub open spec fn commands_at(m: Seq<int>) -> Seq<Seq<char>> {
    Seq::new(m.len(), |i: int| slash_commands()[m[i]].0)
}

/// The commands that start with `prefix`.
pub fn slash_command_matches(prefix: &str) -> (r: Vec<String>)
    ensures
        texts(r@) == commands_at(matching(prefix@)),
{
    broadcast use lemma_texts_empty;

    let m = slash_command_match_entries(prefix);
    let ghost want = commands_at(matching(prefix@));
    let mut out: Vec<String> = Vec::new();
    let mut i: usize = 0;
    while i < m.len()
        invariant
            i <= m.len(),
            indices(m@) == matching(prefix@),
            forall|i: int| 0 <= i < m.len() ==> #[trigger] m@[i] < SLASH_COMMAND_COUNT,
            want == commands_at(matching(prefix@)),
            texts(out@) == want.take(i as int),
        decreases m.len() - i,
    {
        let item = copy_text(slash_command(m[i]).command);
        assert(indices(m@)[i as int] == m@[i as int]);
        assert(item@ == want[i as int]);
        push_item(&mut out, item);
        i += 1;
        assert(texts(out@) =~= want.take(i as int));
    }
    assert(indices(m@).len() == m.len());
    assert(texts(out@) =~= want);
    out
}

// ---------------------------------------------------------------------------
// The token being completed
// ---------------------------------------------------------------------------

/// Where the command that a draft starts with ends, if it starts with one.
pub open spec fn slash_token_end(buffer: Seq<char>) -> Option<int> {
    let e = word_end(buffer, 0);
    if 0 < e <= buffer.len() && (buffer[0] == '/' || buffer.take(e) == "?"@) {
        Some(e)
    } else {
        None
    }
}

fn first_slash_token_end(buffer: &str) -> (r: Option<usize>)
    ensures
        match r {
            Some(e) => slash_token_end(buffer@) == Some(e as int) && 0 < e <= buffer@.len(),
            None => slash_token_end(buffer@) is None,
        },
{
    let v = chars_of(buffer);
    let e = word_end_at(&v, 0);
    if e == 0 {
        return None;
    }
    let token = text_between(&v, 0, e);
    assert(token@ =~= buffer@.take(e as int));
    if v[0] == '/' || same_text(token.as_str(), "?") {
        Some(e)
    } else {
        None
    }
}

/// A command to put in place of the one being typed.
#[derive(Debug)]
pub struct SlashCompletion {
    pub command: String,
    pub index: usize,
    pub prefix: String,
    pub token_end: usize,
}

#[verifier::ext_equal]
pub struct CompletionView {
    pub command: Seq<char>,
    pub index: int,
    pub prefix: Seq<char>,
    pub token_end: int,
}

impl View for SlashCompletion {
    type V = CompletionView;

    open spec fn view(&self) -> CompletionView {
        CompletionView {
            command: self.command@,
            index: self.index as int,
            prefix: self.prefix@,
            token_end: self.token_end as int,
        }
    }
}

pub open spec fn opt_completion(o: Option<SlashCompletion>) -> Option<CompletionView> {
    match o {
        Some(c) => Some(c@),
        None => None,
    }
}

/// The place of `x` in a list, from place `k` on.
pub open spec fn place_of(m: Seq<int>, x: int, k: int) -> Option<int>
    decreases m.len() - k,
{
    if k < 0 || k >= m.len() {
        None
    } else if m[k] == x {
        Some(k)
    } else {
        place_of(m, x, k + 1)
    }
}

/// The place to choose next: the one after the last choice, or the first.
pub open spec fn next_place(m: Seq<int>, previous: Option<int>) -> int {
    match previous {
        Some(x) => match place_of(m, x, 0) {
            Some(k) => (k + 1) % (m.len() as int),
            None => 0,
        },
        None => 0,
    }
}

/// The prefix that is completed: the one that the cycle began with, else the token.
pub open spec fn completion_prefix(
    buffer: Seq<char>,
    end: int,
    previous_prefix: Option<Seq<char>>,
) -> Seq<char> {
    match previous_prefix {
        Some(p) => p,
        None => buffer.take(end),
    }
}

/// The next completion of the command that ends at the cursor.
pub open spec fn completion(
    buffer: Seq<char>,
    cursor: int,
    previous_index: Option<int>,
    previous_prefix: Option<Seq<char>>,
) -> Option<CompletionView> {
    match slash_token_end(buffer) {
        Some(end) => {
            let prefix = completion_prefix(buffer, end, previous_prefix);
            let m = matching(prefix);
            if cursor != end || m.len() == 0 {
                None
            } else {
                let index = m[next_place(m, previous_index)];
                Some(
                    CompletionView {
                        command: slash_commands()[index].0,
                        index,
                        prefix,
                        token_end: end,
                    },
                )
            }
        },
        None => None,
    }
}

pub open spec fn opt_int(o: Option<usize>) -> Option<int> {
    match o {
        Some(n) => Some(n as int),
        None => None,
    }
}

pub open spec fn opt_str(o: Option<&str>) -> Option<Seq<char>> {
    match o {
        Some(s) => Some(s@),
        None => None,
    }
}

fn find_place(m: &Vec<usize>, x: usize) -> (r: Option<usize>)
    ensures
        opt_int(r) == place_of(indices(m@), x as int, 0),
        r matches Some(k) ==> k < m.len(),
{
    let mut k: usize = 0;
    while k < m.len()
        invariant
            k <= m.len(),
            place_of(indices(m@), x as int, 0) == place_of(indices(m@), x as int, k as int),
        decreases m.len() - k,
    {
        assert(indices(m@)[k as int] == m@[k as int]);
        if m[k] == x {
            return Some(k);
        }
        k += 1;
    }
    None
}

pub fn next_slash_completion(
    buffer: &str,
    cursor: usize,
    previous_index: Option<usize>,
    previous_prefix: Option<&str>,
) -> (r: Option<SlashCompletion>)
    ensures
        opt_completion(r) == completion(
            buffer@,
            cursor as int,
            opt_int(previous_index),
            opt_str(previous_prefix),
        ),
        r matches Some(c) ==> c.index < SLASH_COMMAND_COUNT,
{
    let end = match first_slash_token_end(buffer) {
        Some(e) => e,
        None => {
            return None;
        },
    };
    if cursor != end {
        return None;
    }
    let prefix = match previous_prefix {
        Some(p) => copy_text(p),
        None => {
            let token = take_chars(buffer, end);
            assert(token@ =~= buffer@.take(end as int));
            token
        },
    };
    let m = slash_command_match_entries(prefix.as_str());
    assert(indices(m@).len() == m.len());
    if m.len() == 0 {
        return None;
    }
    let place: usize = match previous_index {
        Some(x) => match find_place(&m, x) {
            Some(k) => (k + 1) % m.len(),
            None => 0,
        },
        None => 0,
    };
    let index = m[place];
    assert(indices(m@)[place as int] == m@[place as int]);
    let entry = slash_command(index);
    Some(SlashCompletion { command: copy_text(entry.command), index, prefix, token_end: end })
}

proof fn lemma_place_of(m: Seq<int>, p: int, k: int)
    requires
        0 <= k <= p < m.len(),
        forall|i: int, j: int| 0 <= i < j < m.len() ==> m[i] != m[j],
    ensures
        place_of(m, m[p], k) == Some(p),
    decreases p - k,
{
    if k < p {
        lemma_place_of(m, p, k + 1);
    }
}

/// Pressing the completion key again goes to the next match, and after the
/// last one back to the first.
pub proof fn law_completion_cycles(prefix: Seq<char>, place: int)
    requires
        0 <= place < matching(prefix).len(),
    ensures
        next_place(matching(prefix), Some(matching(prefix)[place])) == if place + 1
            < matching(prefix).len() {
            place + 1
        } else {
            0
        },
{
    let m = matching(prefix);
    lemma_matching_bounds(prefix, SLASH_COMMAND_COUNT as int);
    lemma_place_of(m, place, 0);
    let n = m.len() as int;
    if place + 1 < n {
        assert((place + 1) % n == place + 1) by (nonlinear_arith)
            requires
                0 <= place + 1 < n,
        ;
    } else {
        assert(n % n == 0) by (nonlinear_arith)
            requires
                n > 0,
        ;
    }
}

// ---------------------------------------------------------------------------
// The panel
// ---------------------------------------------------------------------------

/// The columns of the widest command at the first `n` indices.
pub open spec fn longest_command(m: Seq<int>, n: int) -> int
    decreases n,
{
    if n <= 0 || n > m.len() {
        0
    } else {
        larger(
            longest_command(m, n - 1),
            saturated(columns(slash_commands()[m[n - 1]].0)) as int,
        )
    }
}

/// The columns of the panel's command column.
pub open spec fn command_column(m: Seq<int>, width: int) -> int {
    smaller(
        saturated((longest_command(m, m.len() as int) + 2) as nat) as int,
        less(width, 2),
    )
}

pub open spec fn column_gap(column: int, width: int) -> int {
    if width > 2 + column + 6 {
        3
    } else {
        1
    }
}

/// One row of the panel.
pub open spec fn panel_row(
    command: Seq<char>,
    description: Seq<char>,
    selected: bool,
    column: int,
    width: int,
    color: bool,
) -> Seq<char> {
    let gap = column_gap(column, width);
    let room = less(width, 2 + column + gap);
    let text = padded(
        if selected {
            "› "@
        } else {
            "  "@
        },
        2,
    ) + padded(shortened(command, column as nat), column as nat) + repeated(' ', gap as nat)
        + padded(shortened(description, room as nat), room as nat);
    muted(padded(text, width as nat), color)
}

/// The panel for a draft: none unless it starts with a command; else a rule
/// and one row for each match.
pub open spec fn slash_panel(
    buffer: Seq<char>,
    selected: Option<int>,
    width: nat,
    color: bool,
) -> Seq<Seq<char>> {
    let w = wide_enough(width);
    match slash_token_end(buffer) {
        None => Seq::empty(),
        Some(end) => {
            let m = matching(buffer.take(end));
            let rule = muted(repeated('─', w), color);
            if m.len() == 0 {
                seq![rule, muted(padded("  No slash command match"@, w), color)]
            } else {
                seq![rule] + Seq::new(
                    m.len(),
                    |i: int|
                        panel_row(
                            slash_commands()[m[i]].0,
                            slash_commands()[m[i]].1,
                            selected == Some(m[i]),
                            command_column(m, w as int),
                            w as int,
                            color,
                        ),
                )
            }
        },
    }
}

fn slash_panel_command_width(m: &Vec<usize>, width: usize) -> (r: usize)
    requires
        forall|i: int| 0 <= i < m.len() ==> #[trigger] m@[i] < SLASH_COMMAND_COUNT,
    ensures
        r == command_column(indices(m@), width as int),
        r <= less(width as int, 2),
{
    let mut longest: usize = 0;
    let mut i: usize = 0;
    while i < m.len()
        invariant
            i <= m.len(),
            forall|i: int| 0 <= i < m.len() ==> #[trigger] m@[i] < SLASH_COMMAND_COUNT,
            longest == longest_command(indices(m@), i as int),
        decreases m.len() - i,
    {
        let n = visible_len(slash_command(m[i]).command);
        assert(indices(m@)[i as int] == m@[i as int]);
        if n > longest {
            longest = n;
        }
        i += 1;
    }
    assert(indices(m@).len() == m.len());
    let wanted: usize = longest.saturating_add(2);
    let usable: usize = if width > 2 { width - 2 } else { 0 };
    if wanted < usable { wanted } else { usable }
}

fn slash_completion_panel_row(
    entry: SlashCommandSpec,
    selected: bool,
    column: usize,
    width: usize,
    color: bool,
) -> (r: String)
    requires
        column <= less(width as int, 2),
    ensures
        r@ == panel_row(
            entry.command@,
            entry.description@,
            selected,
            column as int,
            width as int,
            color,
        ),
{
    let gap: usize = if width - column > 8 { 3 } else { 1 };
    let room: usize = if width - column > 2 + gap { width - column - 2 - gap } else { 0 };
    let marker = if selected { "› " } else { "  " };
    let mut text = pad_display_width(marker, 2);
    let command = truncate_display_text(entry.command, column);
    push_text(&mut text, pad_display_width(command.as_str(), column).as_str());
    push_text(&mut text, repeat_char(' ', gap).as_str());
    let description = truncate_display_text(entry.description, room);
    push_text(&mut text, pad_display_width(description.as_str(), room).as_str());
    muted_dock_help(pad_display_width(text.as_str(), width).as_str(), color)
}

pub fn slash_completion_panel_rows(
    buffer: &str,
    selected_command_index: Option<usize>,
    width: usize,
    color: bool,
) -> (r: Vec<String>)
    ensures
        texts(r@) == slash_panel(buffer@, opt_int(selected_command_index), width as nat, color),
{
    broadcast use lemma_texts_empty;

    let width: usize = if width < 1 { 1 } else { width };
    let end = match first_slash_token_end(buffer) {
        Some(e) => e,
        None => {
            return Vec::new();
        },
    };
    let token = take_chars(buffer, end);
    assert(token@ =~= buffer@.take(end as int));
    let m = slash_command_match_entries(token.as_str());
    assert(indices(m@).len() == m.len());
    let mut rows: Vec<String> = Vec::new();
    let rule = repeat_char('─', width);
    push_item(&mut rows, muted_dock_help(rule.as_str(), color));
    let ghost want = slash_panel(buffer@, opt_int(selected_command_index), width as nat, color);
    if m.len() == 0 {
        let message = pad_display_width("  No slash command match", width);
        push_item(&mut rows, muted_dock_help(message.as_str(), color));
        assert(texts(rows@) =~= want);
        return rows;
    }
    let column = slash_panel_command_width(&m, width);
    assert(texts(rows@) =~= want.take(1));
    let mut i: usize = 0;
    while i < m.len()
        invariant
            i <= m.len(),
            width >= 1,
            column <= less(width as int, 2),
            column == command_column(indices(m@), width as int),
            forall|i: int| 0 <= i < m.len() ==> #[trigger] m@[i] < SLASH_COMMAND_COUNT,
            m.len() > 0,
            indices(m@).len() == m.len(),
            slash_token_end(buffer@) == Some(end as int),
            indices(m@) == matching(buffer@.take(end as int)),
            want == slash_panel(buffer@, opt_int(selected_command_index), width as nat, color),
            want.len() == m.len() + 1,
            texts(rows@) == want.take(i + 1),
        decreases m.len() - i,
    {
        let index = m[i];
        assert(indices(m@)[i as int] == m@[i as int]);
        let selected = match selected_command_index {
            Some(x) => x == index,
            None => false,
        };
        let row = slash_completion_panel_row(slash_command(index), selected, column, width, color);
        assert(row@ == want[i + 1]);
        push_item(&mut rows, row);
        i += 1;
        assert(texts(rows@) =~= want.take(i + 1));
    }
    assert(texts(rows@) =~= want);
    rows
}

} // verus!
