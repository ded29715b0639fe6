//! The rows of the terminal: the output above, the dock below.
use vstd::prelude::*;

use super::types::{lemma_ops_empty, lemma_ops_push, ops, OpView, TermOp, DOCK_RESERVED_ROWS};
use crate::text::{chars_of, next_char_at, parse_number, text_between};
use crate::text::{next_char, parsed_number};

verus! {

pub open spec fn at_least_one_u16(n: int) -> int {
    if n < 1 {
        1
    } else {
        n
    }
}

/// The columns and rows that a text such as `80x24` names.
pub open spec fn forced_size(s: Seq<char>) -> Option<(int, int)> {
    let x = next_char(s, 'x', 0);
    if 0 <= x < s.len() {
        match (
            parsed_number(s.take(x), u16::MAX as nat),
            parsed_number(s.skip(x + 1), u16::MAX as nat),
        ) {
            (Some(c), Some(r)) => Some((at_least_one_u16(c as int), at_least_one_u16(r as int))),
            _ => None,
        }
    } else {
        None
    }
}

pub fn parse_forced_terminal_size(value: &str) -> (r: Option<(u16, u16)>)
    ensures
        match r {
            Some(size) => forced_size(value@) == Some((size.0 as int, size.1 as int)),
            None => forced_size(value@) is None,
        },
{
    let v = chars_of(value);
    let x = next_char_at(&v, 'x', 0);
    if x >= v.len() {
        return None;
    }
    let left = text_between(&v, 0, x);
    let right = text_between(&v, x + 1, v.len());
    assert(left@ =~= v@.take(x as int));
    assert(right@ =~= v@.skip(x + 1));
    let cols = match parse_number(left.as_str(), 65535) {
        Some(n) => n as u16,
        None => { return None; },
    };
    let rows = match parse_number(right.as_str(), 65535) {
        Some(n) => n as u16,
        None => { return None; },
    };
    Some((if cols < 1 { 1 } else { cols }, if rows < 1 { 1 } else { rows }))
}

/// The size to work with: a forced one, else the reported one, else 80 by 24,
/// and never less than one by one.
pub open spec fn used_size(forced: Option<(int, int)>, reported: Option<(u16, u16)>) -> (int, int) {
    match forced {
        Some(size) => size,
        None => match reported {
            Some(size) => (at_least_one_u16(size.0 as int), at_least_one_u16(size.1 as int)),
            None => (80, 24),
        },
    }
}

pub fn terminal_size(forced: Option<&str>, reported: Option<(u16, u16)>) -> (r: (u16, u16))
    ensures
        (r.0 as int, r.1 as int) == used_size(
            match forced { Some(t) => forced_size(t@), None => None },
            reported,
        ),
{
    if let Some(text) = forced {
        if let Some(size) = parse_forced_terminal_size(text) {
            return size;
        }
    }
    match reported {
        Some(size) => (if size.0 < 1 { 1 } else { size.0 }, if size.1 < 1 { 1 } else { size.1 }),
        None => (80, 24),
    }
}

/// The last row of the terminal.
pub open spec fn last_row(rows: u16) -> int {
    if rows == 0 {
        0
    } else {
        rows - 1
    }
}

pub fn dock_row(rows: u16) -> (r: u16)
    ensures
        r == last_row(rows),
{
    if rows == 0 { 0 } else { rows - 1 }
}

/// A count of dock rows, held between one and what the dock may take.
pub open spec fn dock_share(n: int) -> int {
    if n < 1 {
        1
    } else if n > DOCK_RESERVED_ROWS {
        DOCK_RESERVED_ROWS as int
    } else {
        n
    }
}

/// The last row that output may use.
pub open spec fn output_bottom(rows: u16, reserved: int) -> int {
    if rows <= dock_share(reserved) + 1 {
        0
    } else {
        rows - (dock_share(reserved) + 1)
    }
}

pub fn output_row(rows: u16, reserved_bottom_lines: usize) -> (r: u16)
    ensures
        r == output_bottom(rows, reserved_bottom_lines as int),
{
    let share: u16 = if reserved_bottom_lines < 1 {
        1
    } else if reserved_bottom_lines > DOCK_RESERVED_ROWS {
        7
    } else {
        reserved_bottom_lines as u16
    };
    if rows <= share + 1 { 0 } else { rows - (share + 1) }
}

pub fn transcript_view_height(rows: u16, reserved_bottom_lines: usize) -> (r: usize)
    ensures
        r == output_bottom(rows, reserved_bottom_lines as int) + 1,
{
    output_row(rows, reserved_bottom_lines) as usize + 1
}

/// The scroll region that leaves `reserved` rows below it; none on a terminal
/// that is too low for it.
pub open spec fn region_ops(rows: u16, reserved: int) -> Seq<OpView> {
    let kept = dock_share(reserved);
    if rows <= kept + 1 {
        Seq::empty()
    } else {
        seq![OpView::ScrollRegion((rows - kept) as u16)]
    }
}

pub fn set_output_scroll_region(rows: u16, reserved_bottom_lines: usize) -> (r: Vec<TermOp>)
    requires
        reserved_bottom_lines <= DOCK_RESERVED_ROWS,
    ensures
        ops(r@) == region_ops(rows, reserved_bottom_lines as int),
{
    broadcast use lemma_ops_push, lemma_ops_empty;

    let reserved: u16 = if reserved_bottom_lines < 1 { 1 } else { reserved_bottom_lines as u16 };
    let mut out: Vec<TermOp> = Vec::new();
    if rows > reserved + 1 {
        out.push(TermOp::ScrollRegion(rows - reserved));
        assert(ops(out@) =~= region_ops(rows, reserved_bottom_lines as int));
    }
    out
}

/// Clearing `n` rows, from row `first` down.
pub open spec fn clear_ops(first: int, n: int) -> Seq<OpView>
    decreases n,
{
    if n <= 0 {
        Seq::empty()
    } else {
        clear_ops(first, n - 1) + seq![OpView::MoveTo(0, (first + n - 1) as u16), OpView::ClearLine]
    }
}

/// The first of the last `n` rows.
pub open spec fn first_of_last(rows: u16, n: int) -> int {
    if last_row(rows) < n - 1 {
        0
    } else {
        last_row(rows) - (n - 1)
    }
}

/// Clearing the last `n` rows of the terminal, at most those of the dock.
pub open spec fn clear_dock_ops(rows: u16, n: int) -> Seq<OpView> {
    let kept = if n > DOCK_RESERVED_ROWS {
        DOCK_RESERVED_ROWS as int
    } else {
        n
    };
    if n <= 0 {
        Seq::empty()
    } else {
        clear_ops(first_of_last(rows, kept), last_row(rows) - first_of_last(rows, kept) + 1)
    }
}

/// Clears rows, from `first` to `last`.
pub fn clear_rows(first: u16, last: u16) -> (r: Vec<TermOp>)
    requires
        first <= last,
    ensures
        ops(r@) == clear_ops(first as int, last - first + 1),
{
    broadcast use lemma_ops_push, lemma_ops_empty;

    let mut out: Vec<TermOp> = Vec::new();
    let count: u32 = (last - first) as u32 + 1;
    let mut n: u32 = 0;
    while n < count
        invariant
            n <= count,
            first <= last,
            count == last - first + 1,
            ops(out@) == clear_ops(first as int, n as int),
        decreases count - n,
    {
        let ghost before = ops(out@);
        out.push(TermOp::MoveTo(0, first + n as u16));
        out.push(TermOp::ClearLine);
        n += 1;
        assert(ops(out@) =~= before + seq![
            OpView::MoveTo(0, (first + n - 1) as u16),
            OpView::ClearLine,
        ]);
    }
    out
}

pub fn clear_dock_rows(screen_rows: u16, rows: usize) -> (r: Vec<TermOp>)
    ensures
        ops(r@) == clear_dock_ops(screen_rows, rows as int),
{
    broadcast use lemma_ops_push, lemma_ops_empty;

    if rows == 0 {
        return Vec::new();
    }
    let kept: u16 = if rows > DOCK_RESERVED_ROWS { 7 } else { rows as u16 };
    let last = dock_row(screen_rows);
    let first: u16 = if last < kept - 1 { 0 } else { last - (kept - 1) };
    clear_rows(first, last)
}

/// The output never reaches into the rows of the dock, where the terminal has
/// room for both.
pub proof fn law_output_ends_above_dock(rows: u16, reserved: int)
    requires
        rows > dock_share(reserved) + 1,
    ensures
        0 < output_bottom(rows, reserved) < first_of_last(rows, dock_share(reserved)),
{
}

/// A smaller dock leaves the output at least as many rows.
pub proof fn law_smaller_dock_leaves_more_output(rows: u16, a: int, b: int)
    requires
        a <= b,
    ensures
        output_bottom(rows, a) >= output_bottom(rows, b),
{
}

} // verus!
