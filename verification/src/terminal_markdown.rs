//! Markdown as styled terminal text.
use vstd::prelude::*;

use crate::input::render::{larger, smaller, styled, style_prompt_echo_with_color};
use crate::terminal_width::{columns, display_width, pad_display_width, padded, saturated, wrap_plain_text, wrapped};
use crate::text::{char_count, char_is_digit, chars_of, concat2, concat3, copy_text, find_in, lines, next_char_at, push_item, push_text, repeat_char, replace, same_text, split_char, starts_with, strip_prefix, text_between, trim, word_end_at};
use crate::text::{all_digits, find_from, has_prefix, is_digit, lemma_find_from, lemma_texts_empty, next_char, opt_text, pieces, repeated, replaced, text_lines, texts, trimmed, without_prefix, word_end};

verus! {

pub const MAX_TABLE_CELL_WIDTH: usize = 36;

// ---------------------------------------------------------------------------
// Styles
// ---------------------------------------------------------------------------

pub open spec fn ansi_text(code: Seq<char>, text: Seq<char>) -> Seq<char> {
    styled(code, text, true)
}

fn ansi(code: &str, text: &str) -> (r: String)
    ensures
        r@ == ansi_text(code@, text@),
{
    style_prompt_echo_with_color(code, text, true)
}

pub open spec fn muted_text(text: Seq<char>) -> Seq<char> {
    ansi_text("90"@, text)
}

fn tokyo_muted(text: &str) -> (r: String)
    ensures
        r@ == muted_text(text@),
{
    ansi("90", text)
}

pub open spec fn marker_text(text: Seq<char>) -> Seq<char> {
    ansi_text("38;2;187;154;247"@, text)
}

fn tokyo_list_marker(text: &str) -> (r: String)
    ensures
        r@ == marker_text(text@),
{
    ansi("38;2;187;154;247", text)
}

pub open spec fn url_text(text: Seq<char>) -> Seq<char> {
    ansi_text("38;2;125;207;255"@, text)
}

fn tokyo_url(text: &str) -> (r: String)
    ensures
        r@ == url_text(text@),
{
    ansi("38;2;125;207;255", text)
}

// ---------------------------------------------------------------------------
// Inline text
// ---------------------------------------------------------------------------

pub open spec fn is_closing_mark(c: char) -> bool {
    c == '.' || c == ',' || c == ';' || c == ':' || c == '!' || c == '?'
}

/// The end of the first `n` characters once closing marks are dropped.
pub open spec fn mark_start(s: Seq<char>, n: int) -> int
    decreases n,
{
    if 0 < n <= s.len() && is_closing_mark(s[n - 1]) {
        mark_start(s, n - 1)
    } else {
        n
    }
}

/// A word, with a web address in it coloured; closing marks stay outside.
pub open spec fn url_word(s: Seq<char>) -> Seq<char> {
    let k = mark_start(s, s.len() as int);
    let body = s.take(k);
    if has_prefix(body, "http://"@) || has_prefix(body, "https://"@) {
        url_text(body) + s.skip(k)
    } else {
        s
    }
}

/// The text from index `i` on, with web addresses coloured.
pub open spec fn urls_from(s: Seq<char>, i: int) -> Seq<char>
    decreases s.len() - i,
{
    if i < 0 || i >= s.len() {
        Seq::empty()
    } else {
        let e = word_end(s, i);
        if i <= e < s.len() {
            url_word(s.subrange(i, e)) + seq![s[e]] + urls_from(s, e + 1)
        } else {
            url_word(s.skip(i))
        }
    }
}

fn color_url_token(token: &str) -> (r: String)
    ensures
        r@ == url_word(token@),
{
    let v = chars_of(token);
    let mut n: usize = v.len();
    while n > 0 && (v[n - 1] == '.' || v[n - 1] == ',' || v[n - 1] == ';' || v[n - 1] == ':' || v[n
        - 1] == '!' || v[n - 1] == '?')
        invariant
            n <= v.len(),
            mark_start(v@, v.len() as int) == mark_start(v@, n as int),
        decreases n,
    {
        n -= 1;
    }
    let body = text_between(&v, 0, n);
    let suffix = text_between(&v, n, v.len());
    assert(body@ =~= v@.take(n as int));
    assert(suffix@ =~= v@.skip(n as int));
    if starts_with(body.as_str(), "http://") || starts_with(body.as_str(), "https://") {
        concat2(tokyo_url(body.as_str()).as_str(), suffix.as_str())
    } else {
        copy_text(token)
    }
}

fn color_urls(text: &str) -> (r: String)
    ensures
        r@ == urls_from(text@, 0),
{
    let v = chars_of(text);
    let mut out = String::new();
    let mut i: usize = 0;
    assert(out@ + urls_from(v@, 0) =~= urls_from(text@, 0));
    while i < v.len()
        invariant
            i <= v.len(),
            v@ == text@,
            out@ + urls_from(v@, i as int) == urls_from(text@, 0),
        decreases v.len() - i,
    {
        let e = word_end_at(&v, i);
        let word = text_between(&v, i, e);
        let ghost before = out@;
        push_text(&mut out, color_url_token(word.as_str()).as_str());
        if e >= v.len() {
            assert(word@ =~= v@.skip(i as int));
            return out;
        }
        out.push(v[e]);
        assert(before + (url_word(word@) + seq![v@[e as int]] + urls_from(v@, e + 1)) =~= (before
            + url_word(word@)).push(v@[e as int]) + urls_from(v@, e + 1));
        i = e + 1;
    }
    assert(out@ + urls_from(v@, i as int) =~= out@);
    out
}

/// What ends code: the style ends, and bold goes on where it was on.
pub open spec fn code_end(bold: bool) -> Seq<char> {
    "\x1b[0m"@ + (if bold {
        "\x1b[1m"@
    } else {
        Seq::empty()
    })
}

fn push_code_end(out: &mut String, bold: bool)
    ensures
        final(out)@ == old(out)@ + code_end(bold),
{
    push_text(out, "\x1b[0m");
    if bold {
        push_text(out, "\x1b[1m");
    }
    assert(out@ =~= old(out)@ + code_end(bold));
}

/// The text from index `i` on, with code between backticks coloured.
pub open spec fn code_from(s: Seq<char>, i: int, code: bool, bold: bool) -> Seq<char>
    decreases s.len() - i,
{
    let e = next_char(s, '`', i);
    if 0 <= i <= e < s.len() {
        urls_from(s.subrange(i, e), 0) + (if code {
            code_end(bold)
        } else {
            "\x1b[38;2;125;207;255m"@
        }) + code_from(s, e + 1, !code, bold)
    } else {
        urls_from(s.skip(i), 0) + (if code {
            code_end(bold)
        } else {
            Seq::empty()
        })
    }
}

fn render_inline_code_and_urls(text: &str, bold_active: bool) -> (r: String)
    ensures
        r@ == code_from(text@, 0, false, bold_active),
{
    let v = chars_of(text);
    let mut out = String::new();
    let mut code = false;
    let mut i: usize = 0;
    let ghost want = code_from(text@, 0, false, bold_active);
    assert(out@ + code_from(v@, 0, false, bold_active) =~= want);
    loop
        invariant_except_break
            out@ + code_from(v@, i as int, code, bold_active) == want,
        invariant
            i <= v.len(),
            v@ == text@,
        ensures
            out@ == want,
        decreases v.len() - i,
    {
        let e = next_char_at(&v, '`', i);
        let part = text_between(&v, i, e);
        let ghost before = out@;
        push_text(&mut out, color_urls(part.as_str()).as_str());
        if e >= v.len() {
            assert(part@ =~= v@.skip(i as int));
            if code {
                push_code_end(&mut out, bold_active);
            }
            assert(out@ =~= before + code_from(v@, i as int, code, bold_active));
            break;
        }
        if code {
            push_code_end(&mut out, bold_active);
        } else {
            push_text(&mut out, "\x1b[38;2;125;207;255m");
        }
        assert(before + code_from(v@, i as int, code, bold_active) =~= out@ + code_from(
            v@,
            e + 1,
            !code,
            bold_active,
        ));
        code = !code;
        i = e + 1;
    }
    out
}

/// The text from index `i` on, with what stands between double stars in bold.
pub open spec fn inline_from(s: Seq<char>, i: int, bold: bool) -> Seq<char>
    decreases s.len() - i,
{
    match find_from(s, "**"@, i) {
        Some(k) => if 0 <= i <= k && k + 2 <= s.len() {
            code_from(s.subrange(i, k), 0, false, bold) + (if bold {
                "\x1b[0m"@
            } else {
                "\x1b[1m"@
            }) + inline_from(s, k + 2, !bold)
        } else {
            Seq::empty()
        },
        None => code_from(s.skip(i), 0, false, bold) + (if bold {
            "\x1b[0m"@
        } else {
            Seq::empty()
        }),
    }
}

/// A text with bold, code and web addresses styled.
pub open spec fn inline(s: Seq<char>) -> Seq<char> {
    inline_from(s, 0, false)
}

fn render_inline_markdown(text: &str) -> (r: String)
    ensures
        r@ == inline(text@),
{
    let v = chars_of(text);
    let stars = chars_of("**");
    proof {
        reveal_strlit("**");
    }
    let mut out = String::new();
    let mut bold = false;
    let mut i: usize = 0;
    let ghost want = inline(text@);
    assert(out@ + inline_from(v@, 0, false) =~= want);
    loop
        invariant_except_break
            out@ + inline_from(v@, i as int, bold) == want,
        invariant
            i <= v.len(),
            v@ == text@,
            stars@ == "**"@,
            stars@.len() == 2,
        ensures
            out@ == want,
        decreases v.len() - i,
    {
        let ghost before = out@;
        let k = match find_in(&v, &stars, i) {
            Some(k) => k,
            None => {
                let rest = text_between(&v, i, v.len());
                assert(rest@ =~= v@.skip(i as int));
                push_text(&mut out, render_inline_code_and_urls(rest.as_str(), bold).as_str());
                if bold {
                    push_text(&mut out, "\x1b[0m");
                }
                assert(out@ =~= before + inline_from(v@, i as int, bold));
                break;
            },
        };
        proof {
            lemma_find_from(v@, stars@, i as int);
        }
        let part = text_between(&v, i, k);
        push_text(&mut out, render_inline_code_and_urls(part.as_str(), bold).as_str());
        if bold {
            push_text(&mut out, "\x1b[0m");
        } else {
            push_text(&mut out, "\x1b[1m");
        }
        assert(before + inline_from(v@, i as int, bold) =~= out@ + inline_from(v@, k + 2, !bold));
        bold = !bold;
        i = k + 2;
    }
    out
}

// ---------------------------------------------------------------------------
// Headings and list items
// ---------------------------------------------------------------------------

/// The level and the text of a heading.
pub open spec fn heading(s: Seq<char>) -> Option<(int, Seq<char>)> {
    if has_prefix(s, "### "@) {
        Some((3, s.skip("### "@.len() as int)))
    } else if has_prefix(s, "## "@) {
        Some((2, s.skip("## "@.len() as int)))
    } else if has_prefix(s, "# "@) {
        Some((1, s.skip("# "@.len() as int)))
    } else {
        None
    }
}

fn markdown_heading(line: &str) -> (r: Option<(usize, String)>)
    ensures
        match r {
            Some(h) => heading(line@) == Some((h.0 as int, h.1@)),
            None => heading(line@) is None,
        },
{
    if let Some(body) = strip_prefix(line, "### ") {
        return Some((3, body));
    }
    if let Some(body) = strip_prefix(line, "## ") {
        return Some((2, body));
    }
    if let Some(body) = strip_prefix(line, "# ") {
        return Some((1, body));
    }
    None
}

/// A heading: its style goes on after each style that ends in it.
pub open spec fn heading_text(level: int, text: Seq<char>) -> Seq<char> {
    let code = if level <= 2 {
        "36;1"@
    } else {
        "94;1"@
    };
    ansi_text(code, replaced(inline(text), "\x1b[0m"@, "\x1b[0m"@ + "\x1b["@ + code + "m"@))
}

fn tokyo_heading(level: usize, text: &str) -> (r: String)
    ensures
        r@ == heading_text(level as int, text@),
{
    let body = render_inline_markdown(text);
    let code = if level <= 2 { "36;1" } else { "94;1" };
    let mut resume = concat3("\x1b[0m", "\x1b[", code);
    push_text(&mut resume, "m");
    ansi(code, replace(body.as_str(), "\x1b[0m", resume.as_str()).as_str())
}

/// The text of a bullet.
pub open spec fn bullet(s: Seq<char>) -> Option<Seq<char>> {
    match without_prefix(s, "- "@) {
        Some(b) => Some(b),
        None => match without_prefix(s, "* "@) {
            Some(b) => Some(b),
            None => without_prefix(s, "+ "@),
        },
    }
}

fn markdown_bullet(line: &str) -> (r: Option<String>)
    ensures
        opt_text(r) == bullet(line@),
{
    if let Some(body) = strip_prefix(line, "- ") {
        return Some(body);
    }
    if let Some(body) = strip_prefix(line, "* ") {
        return Some(body);
    }
    strip_prefix(line, "+ ")
}

/// The marker and the text of a numbered item: digits, a full stop and a space.
pub open spec fn numbered(s: Seq<char>) -> Option<(Seq<char>, Seq<char>)> {
    let e = next_char(s, ' ', 0);
    if 1 < e < s.len() && s[e - 1] == '.' && all_digits(s.take(e - 1)) {
        Some((s.take(e), s.skip(e + 1)))
    } else {
        None
    }
}

fn digits_between(v: &Vec<char>, to: usize) -> (r: bool)
    requires
        to <= v.len(),
    ensures
        r == all_digits(v@.take(to as int)),
{
    let mut i: usize = 0;
    while i < to
        invariant
            i <= to <= v.len(),
            forall|j: int| 0 <= j < i ==> is_digit(#[trigger] v@[j]),
        decreases to - i,
    {
        if !char_is_digit(v[i]) {
            assert(!is_digit(v@.take(to as int)[i as int]));
            return false;
        }
        i += 1;
    }
    true
}

fn markdown_numbered_item(line: &str) -> (r: Option<(String, String)>)
    ensures
        match r {
            Some(n) => numbered(line@) == Some((n.0@, n.1@)),
            None => numbered(line@) is None,
        },
{
    let v = chars_of(line);
    let e = next_char_at(&v, ' ', 0);
    if e >= v.len() || e <= 1 || v[e - 1] != '.' || !digits_between(&v, e - 1) {
        return None;
    }
    let marker = text_between(&v, 0, e);
    let body = text_between(&v, e + 1, v.len());
    assert(marker@ =~= v@.take(e as int));
    assert(body@ =~= v@.skip(e + 1));
    Some((marker, body))
}

// ---------------------------------------------------------------------------
// Tables
// ---------------------------------------------------------------------------

/// A line that a bar starts and another bar ends.
pub open spec fn is_table_line(s: Seq<char>) -> bool {
    s.len() >= 2 && s[0] == '|' && s.last() == '|'
}

fn is_table_row(line: &str) -> (r: bool)
    ensures
        r == is_table_line(line@),
{
    let v = chars_of(line);
    v.len() >= 2 && v[0] == '|' && v[v.len() - 1] == '|'
}

/// The first index, from `i` on, that holds no bar.
pub open spec fn skip_bars(s: Seq<char>, i: int) -> int
    decreases s.len() - i,
{
    if 0 <= i < s.len() && s[i] == '|' {
        skip_bars(s, i + 1)
    } else {
        i
    }
}

/// The end of the text between `from` and `n` once trailing bars are dropped.
pub open spec fn bars_start(s: Seq<char>, from: int, n: int) -> int
    decreases n,
{
    if from < n <= s.len() && 0 < n && s[n - 1] == '|' {
        bars_start(s, from, n - 1)
    } else {
        n
    }
}

/// The text without the bars round it.
pub open spec fn without_bars(s: Seq<char>) -> Seq<char> {
    let a = skip_bars(s, 0);
    s.subrange(a, bars_start(s, a, s.len() as int))
}

pub open spec fn all_trimmed(list: Seq<Seq<char>>) -> Seq<Seq<char>> {
    Seq::new(list.len(), |i: int| trimmed(list[i]))
}

/// The cells of a table row.
pub open spec fn table_cells(line: Seq<char>) -> Seq<Seq<char>> {
    all_trimmed(pieces(without_bars(trimmed(line)), '|'))
}

fn parse_table_row(line: &str) -> (r: Vec<String>)
    ensures
        texts(r@) == table_cells(line@),
{
    broadcast use lemma_texts_empty;

    let text = trim(line);
    let v = chars_of(text.as_str());
    let mut a: usize = 0;
    while a < v.len() && v[a] == '|'
        invariant
            a <= v.len(),
            skip_bars(v@, 0) == skip_bars(v@, a as int),
        decreases v.len() - a,
    {
        a += 1;
    }
    let mut b: usize = v.len();
    while b > a && v[b - 1] == '|'
        invariant
            a <= b <= v.len(),
            bars_start(v@, a as int, v.len() as int) == bars_start(v@, a as int, b as int),
        decreases b,
    {
        b -= 1;
    }
    let inner = text_between(&v, a, b);
    let parts = split_char(inner.as_str(), '|');
    let ghost want = table_cells(line@);
    let mut out: Vec<String> = Vec::new();
    let mut i: usize = 0;
    assert(texts(parts@).len() == parts.len());
    while i < parts.len()
        invariant
            i <= parts.len(),
            want == all_trimmed(texts(parts@)),
            texts(out@) == want.take(i as int),
        decreases parts.len() - i,
    {
        let cell = trim(parts[i].as_str());
        assert(texts(parts@)[i as int] == parts@[i as int]@);
        assert(cell@ == want[i as int]);
        push_item(&mut out, cell);
        i += 1;
        assert(texts(out@) =~= want.take(i as int));
    }
    assert(texts(out@) =~= want);
    out
}

pub open spec fn is_rule_char(c: char) -> bool {
    c == '-' || c == ':' || c == ' '
}

/// A cell of the row under the heading row.
pub open spec fn is_rule_cell(s: Seq<char>) -> bool {
    let t = trimmed(s);
    t.len() >= 3 && forall|i: int| 0 <= i < t.len() ==> is_rule_char(#[trigger] t[i])
}

pub open spec fn is_rule_row(cells: Seq<Seq<char>>) -> bool {
    forall|i: int| 0 <= i < cells.len() ==> is_rule_cell(#[trigger] cells[i])
}

fn rule_cell(cell: &str) -> (r: bool)
    ensures
        r == is_rule_cell(cell@),
{
    let t = trim(cell);
    let v = chars_of(t.as_str());
    if v.len() < 3 {
        return false;
    }
    let mut i: usize = 0;
    while i < v.len()
        invariant
            i <= v.len(),
            v@ == trimmed(cell@),
            forall|j: int| 0 <= j < i ==> is_rule_char(#[trigger] v@[j]),
        decreases v.len() - i,
    {
        if v[i] != '-' && v[i] != ':' && v[i] != ' ' {
            assert(!is_rule_char(v@[i as int]));
            return false;
        }
        i += 1;
    }
    true
}

fn is_table_separator_row(row: &Vec<String>) -> (r: bool)
    ensures
        r == is_rule_row(texts(row@)),
{
    let ghost cells = texts(row@);
    let mut i: usize = 0;
    while i < row.len()
        invariant
            i <= row.len(),
            cells == texts(row@),
            forall|j: int| 0 <= j < i ==> is_rule_cell(#[trigger] cells[j]),
        decreases row.len() - i,
    {
        assert(cells[i as int] == row@[i as int]@);
        if !rule_cell(row[i].as_str()) {
            return false;
        }
        i += 1;
    }
    true
}

/// The rows of a table: lists of cells.
pub open spec fn grid(rows: Seq<Vec<String>>) -> Seq<Seq<Seq<char>>> {
    Seq::new(rows.len(), |i: int| texts(rows[i]@))
}

/// The cell of a row; a short row has empty ones behind it.
pub open spec fn cell_at(row: Seq<Seq<char>>, c: int) -> Seq<char> {
    if 0 <= c < row.len() {
        row[c]
    } else {
        Seq::empty()
    }
}

/// The length of the longest of the first `n` rows.
pub open spec fn column_count(rows: Seq<Seq<Seq<char>>>, n: int) -> int
    decreases n,
{
    if n <= 0 || n > rows.len() {
        0
    } else {
        larger(column_count(rows, n - 1), rows[n - 1].len() as int)
    }
}

/// The width of a column over the first `n` rows; the rule row does not count.
pub open spec fn column_width(rows: Seq<Seq<Seq<char>>>, c: int, n: int) -> int
    decreases n,
{
    if n <= 0 || n > rows.len() {
        3
    } else if n - 1 == 1 {
        column_width(rows, c, n - 1)
    } else {
        larger(
            column_width(rows, c, n - 1),
            smaller(
                saturated(columns(cell_at(rows[n - 1], c))) as int,
                MAX_TABLE_CELL_WIDTH as int,
            ),
        )
    }
}

/// The widths of the columns.
pub open spec fn column_widths(rows: Seq<Seq<Seq<char>>>) -> Seq<int> {
    Seq::new(
        column_count(rows, rows.len() as int) as nat,
        |c: int| column_width(rows, c, rows.len() as int),
    )
}

/// The lines of a cell.
pub open spec fn cell_lines(row: Seq<Seq<char>>, widths: Seq<int>, c: int) -> Seq<Seq<char>> {
    wrapped(cell_at(row, c), widths[c] as nat)
}

/// The number of lines of a row, over its first `n` columns.
pub open spec fn row_height(row: Seq<Seq<char>>, widths: Seq<int>, n: int) -> int
    decreases n,
{
    if n <= 0 || n > widths.len() {
        0
    } else {
        larger(row_height(row, widths, n - 1), cell_lines(row, widths, n - 1).len() as int)
    }
}

/// Line `k` of a row, up to its first `n` columns.
pub open spec fn row_line(row: Seq<Seq<char>>, widths: Seq<int>, k: int, n: int) -> Seq<char>
    decreases n,
{
    if n <= 0 || n > widths.len() {
        muted_text("|"@)
    } else {
        row_line(row, widths, k, n - 1) + " "@ + padded(
            inline(cell_at(cell_lines(row, widths, n - 1), k)),
            widths[n - 1] as nat,
        ) + " "@ + muted_text("|"@)
    }
}

/// The first `n` lines of a row.
pub open spec fn row_text(row: Seq<Seq<char>>, widths: Seq<int>, n: int) -> Seq<char>
    decreases n,
{
    if n <= 0 {
        Seq::empty()
    } else {
        row_text(row, widths, n - 1) + row_line(row, widths, n - 1, widths.len() as int) + "\n"@
    }
}

pub open spec fn whole_row(row: Seq<Seq<char>>, widths: Seq<int>) -> Seq<char> {
    row_text(row, widths, row_height(row, widths, widths.len() as int))
}

/// The rule under the heading row, up to its first `n` columns.
pub open spec fn rule_text(widths: Seq<int>, n: int) -> Seq<char>
    decreases n,
{
    if n <= 0 || n > widths.len() {
        muted_text("|"@)
    } else {
        rule_text(widths, n - 1) + muted_text(repeated('-', (widths[n - 1] + 2) as nat) + "|"@)
    }
}

/// The rows from row 2 up to row `n`.
pub open spec fn body_text(rows: Seq<Seq<Seq<char>>>, widths: Seq<int>, n: int) -> Seq<char>
    decreases n,
{
    if n <= 2 || n > rows.len() {
        Seq::empty()
    } else {
        body_text(rows, widths, n - 1) + whole_row(rows[n - 1], widths)
    }
}

/// A table: a heading row, a rule and the rows below.
pub open spec fn table_text(rows: Seq<Seq<Seq<char>>>) -> Seq<char> {
    let widths = column_widths(rows);
    whole_row(rows[0], widths) + (rule_text(widths, widths.len() as int) + "\n"@) + body_text(
        rows,
        widths,
        rows.len() as int,
    )
}

/// Rows make a table when the second is a rule and there are two columns.
pub open spec fn is_table(rows: Seq<Seq<Seq<char>>>) -> bool {
    rows.len() >= 2 && is_rule_row(rows[1]) && column_count(rows, rows.len() as int) >= 2
}

/// The first line, from line `i` on, that is no table line.
pub open spec fn table_end(lines: Seq<Seq<char>>, i: int) -> int
    decreases lines.len() - i,
{
    if 0 <= i < lines.len() && is_table_line(trimmed(lines[i])) {
        table_end(lines, i + 1)
    } else {
        i
    }
}

/// The rows of the table lines from line `i` on.
pub open spec fn table_rows(lines: Seq<Seq<char>>, i: int) -> Seq<Seq<Seq<char>>> {
    Seq::new((table_end(lines, i) - i) as nat, |k: int| table_cells(trimmed(lines[i + k])))
}

proof fn lemma_table_end(lines: Seq<Seq<char>>, i: int)
    requires
        0 <= i <= lines.len(),
    ensures
        i <= table_end(lines, i) <= lines.len(),
    decreases lines.len() - i,
{
    if i < lines.len() && is_table_line(trimmed(lines[i])) {
        lemma_table_end(lines, i + 1);
    }
}

pub open spec fn ints(v: Seq<usize>) -> Seq<int> {
    Seq::new(v.len(), |i: int| v[i] as int)
}

proof fn lemma_width_bounds(rows: Seq<Seq<Seq<char>>>, c: int, n: int)
    ensures
        3 <= column_width(rows, c, n) <= MAX_TABLE_CELL_WIDTH,
    decreases n,
{
    if 0 < n <= rows.len() {
        lemma_width_bounds(rows, c, n - 1);
    }
}

fn table_column_widths(rows: &Vec<Vec<String>>, count: usize) -> (r: Vec<usize>)
    requires
        count == column_count(grid(rows@), rows.len() as int),
    ensures
        ints(r@) == column_widths(grid(rows@)),
        forall|i: int| 0 <= i < r.len() ==> 3 <= #[trigger] r@[i] <= MAX_TABLE_CELL_WIDTH,
{
    let ghost g = grid(rows@);
    let mut out: Vec<usize> = Vec::new();
    let mut c: usize = 0;
    while c < count
        invariant
            c <= count,
            g == grid(rows@),
            count == column_count(g, rows.len() as int),
            out.len() == c,
            forall|i: int|
                0 <= i < c ==> #[trigger] out@[i] == column_width(g, i, rows.len() as int),
        decreases count - c,
    {
        let mut width: usize = 3;
        let mut n: usize = 0;
        while n < rows.len()
            invariant
                n <= rows.len(),
                g == grid(rows@),
                3 <= width <= MAX_TABLE_CELL_WIDTH,
                width == column_width(g, c as int, n as int),
            decreases rows.len() - n,
        {
            assert(g[n as int] == texts(rows@[n as int]@));
            if n != 1 && c < rows[n].len() {
                let w = display_width(rows[n][c].as_str());
                assert(cell_at(g[n as int], c as int) == rows@[n as int]@[c as int]@);
                let w: usize = if w < MAX_TABLE_CELL_WIDTH { w } else { MAX_TABLE_CELL_WIDTH };
                if w > width {
                    width = w;
                }
            } else if n != 1 {
                assert(cell_at(g[n as int], c as int) == Seq::<char>::empty());
                assert(columns(Seq::<char>::empty()) == 0);
            }
            n += 1;
        }
        out.push(width);
        c += 1;
    }
    assert(grid(rows@).len() == rows.len());
    assert(ints(out@) =~= column_widths(g));
    proof {
        assert forall|i: int| 0 <= i < out.len() implies 3 <= #[trigger] out@[i]
            <= MAX_TABLE_CELL_WIDTH by {
            lemma_width_bounds(g, i, rows.len() as int);
        }
    }
    out
}

fn format_table_row(row: &Vec<String>, widths: &Vec<usize>) -> (r: String)
    ensures
        r@ == whole_row(texts(row@), ints(widths@)),
{
    let ghost cells = texts(row@);
    let ghost w = ints(widths@);
    let mut set: Vec<Vec<String>> = Vec::new();
    let mut height: usize = 0;
    let mut c: usize = 0;
    while c < widths.len()
        invariant
            c <= widths.len(),
            cells == texts(row@),
            w == ints(widths@),
            w.len() == widths.len(),
            set.len() == c,
            height == row_height(cells, w, c as int),
            forall|i: int| 0 <= i < c ==> texts(#[trigger] set@[i]@) == cell_lines(cells, w, i),
        decreases widths.len() - c,
    {
        let text = if c < row.len() {
            assert(cells[c as int] == row@[c as int]@);
            wrap_plain_text(row[c].as_str(), widths[c])
        } else {
            wrap_plain_text("", widths[c])
        };
        proof {
            reveal_strlit("");
            assert(""@ =~= Seq::<char>::empty());
            assert(w[c as int] == widths@[c as int]);
            assert(texts(text@) == cell_lines(cells, w, c as int));
            assert(texts(text@).len() == text.len());
        }
        if text.len() > height {
            height = text.len();
        }
        set.push(text);
        c += 1;
    }
    let mut out = String::new();
    let mut k: usize = 0;
    while k < height
        invariant
            k <= height,
            cells == texts(row@),
            w == ints(widths@),
            w.len() == widths.len(),
            set.len() == widths.len(),
            forall|i: int|
                0 <= i < set.len() ==> texts(#[trigger] set@[i]@) == cell_lines(cells, w, i),
            out@ == row_text(cells, w, k as int),
        decreases height - k,
    {
        let ghost start = out@;
        push_text(&mut out, tokyo_muted("|").as_str());
        let mut n: usize = 0;
        while n < widths.len()
            invariant
                n <= widths.len(),
                w == ints(widths@),
                w.len() == widths.len(),
                set.len() == widths.len(),
                forall|i: int|
                    0 <= i < set.len() ==> texts(#[trigger] set@[i]@) == cell_lines(cells, w, i),
                out@ == start + row_line(cells, w, k as int, n as int),
            decreases widths.len() - n,
        {
            let ghost before = out@;
            assert(w[n as int] == widths@[n as int]);
            let rendered = if k < set[n].len() {
                assert(texts(set@[n as int]@)[k as int] == set@[n as int]@[k as int]@);
                render_inline_markdown(set[n][k].as_str())
            } else {
                assert(texts(set@[n as int]@).len() == set@[n as int].len());
                proof {
                    reveal_strlit("");
                    assert(""@ =~= Seq::<char>::empty());
                }
                render_inline_markdown("")
            };
            push_text(&mut out, " ");
            push_text(&mut out, pad_display_width(rendered.as_str(), widths[n]).as_str());
            push_text(&mut out, " ");
            push_text(&mut out, tokyo_muted("|").as_str());
            n += 1;
            assert(out@ =~= start + row_line(cells, w, k as int, n as int));
        }
        push_text(&mut out, "\n");
        k += 1;
        assert(out@ =~= row_text(cells, w, k as int));
    }
    out
}

fn format_table_rule(widths: &Vec<usize>) -> (r: String)
    requires
        forall|i: int| 0 <= i < widths.len() ==> 3 <= #[trigger] widths@[i] <= MAX_TABLE_CELL_WIDTH,
    ensures
        r@ == rule_text(ints(widths@), widths.len() as int) + "\n"@,
{
    let ghost w = ints(widths@);
    let mut out = tokyo_muted("|");
    let mut n: usize = 0;
    while n < widths.len()
        invariant
            n <= widths.len(),
            w == ints(widths@),
            w.len() == widths.len(),
            forall|i: int|
                0 <= i < widths.len() ==> 3 <= #[trigger] widths@[i] <= MAX_TABLE_CELL_WIDTH,
            out@ == rule_text(w, n as int),
        decreases widths.len() - n,
    {
        assert(w[n as int] == widths@[n as int]);
        let dashes = repeat_char('-', widths[n] + 2);
        let part = concat2(dashes.as_str(), "|");
        push_text(&mut out, tokyo_muted(part.as_str()).as_str());
        n += 1;
    }
    push_text(&mut out, "\n");
    out
}

/// The table that starts at line `start`, and the line after it; `None` where
/// the lines make no table.
fn render_table_block(list: &Vec<String>, start: usize) -> (r: Option<(String, usize)>)
    requires
        start < list.len(),
    ensures
        match r {
            Some(t) => {
                let rows = table_rows(texts(list@), start as int);
                &&& is_table(rows)
                &&& t.0@ == table_text(rows)
                &&& t.1 == table_end(texts(list@), start as int)
                &&& start < t.1 <= list.len()
            },
            None => !is_table(table_rows(texts(list@), start as int)),
        },
{
    let ghost all = texts(list@);
    let ghost want = table_rows(all, start as int);
    proof {
        assert(all.len() == list.len());
        lemma_table_end(all, start as int);
    }
    let mut rows: Vec<Vec<String>> = Vec::new();
    let mut count: usize = 0;
    let mut end: usize = start;
    let mut more = true;
    while end < list.len() && more
        invariant
            start <= end <= list.len(),
            all == texts(list@),
            all.len() == list.len(),
            want == table_rows(all, start as int),
            end <= table_end(all, start as int) <= list.len(),
            table_end(all, start as int) == table_end(all, end as int),
            !more ==> end == table_end(all, start as int),
            rows.len() == end - start,
            grid(rows@) == want.take(end - start),
            count == column_count(want, end - start),
        decreases list.len() - end, (if more { 1int } else { 0int }),
    {
        assert(all[end as int] == list@[end as int]@);
        let stripped = trim(list[end].as_str());
        if !is_table_row(stripped.as_str()) {
            more = false;
        } else {
            proof {
                lemma_table_end(all, end + 1);
            }
            let row = parse_table_row(stripped.as_str());
            assert(texts(row@) == want[end - start]);
            assert(texts(row@).len() == row.len());
            if row.len() > count {
                count = row.len();
            }
            let ghost before = grid(rows@);
            rows.push(row);
            assert(grid(rows@) =~= before.push(texts(row@)));
            end += 1;
            assert(grid(rows@) =~= want.take(end - start));
        }
    }
    assert(end == table_end(all, start as int));
    assert(grid(rows@) =~= want);
    if rows.len() < 2 {
        return None;
    }
    assert(grid(rows@)[1] == texts(rows@[1]@));
    if !is_table_separator_row(&rows[1]) || count < 2 {
        return None;
    }
    let widths = table_column_widths(&rows, count);
    let ghost w = column_widths(want);
    assert(grid(rows@)[0] == texts(rows@[0]@));
    let mut out = format_table_row(&rows[0], &widths);
    push_text(&mut out, format_table_rule(&widths).as_str());
    assert(ints(widths@).len() == widths.len());
    let ghost head = out@;
    let mut n: usize = 2;
    assert(head + body_text(want, w, 2) =~= head);
    while n < rows.len()
        invariant
            2 <= n <= rows.len(),
            grid(rows@) == want,
            want.len() == rows.len(),
            ints(widths@) == w,
            out@ == head + body_text(want, w, n as int),
        decreases rows.len() - n,
    {
        assert(grid(rows@)[n as int] == texts(rows@[n as int]@));
        push_text(&mut out, format_table_row(&rows[n], &widths).as_str());
        n += 1;
        assert(out@ =~= head + body_text(want, w, n as int));
    }
    Some((out, end))
}

// ---------------------------------------------------------------------------
// Documents
// ---------------------------------------------------------------------------

/// One line outside code and tables.
pub open spec fn markdown_line(line: Seq<char>) -> Seq<char> {
    let s = trimmed(line);
    if s.len() == 0 {
        "\n"@
    } else {
        match heading(s) {
            Some(h) => heading_text(h.0, h.1) + "\n"@,
            None => if s == "---"@ {
                muted_text(repeated('-', 40)) + "\n"@
            } else {
                match bullet(s) {
                    Some(body) => marker_text("-"@) + " "@ + inline(body) + "\n"@,
                    None => match numbered(s) {
                        Some(n) => marker_text(n.0) + " "@ + inline(n.1) + "\n"@,
                        None => inline(line) + "\n"@,
                    },
                }
            },
        }
    }
}

fn render_line_text(line: &str, stripped: &str) -> (r: String)
    requires
        stripped@ == trimmed(line@),
    ensures
        r@ == markdown_line(line@),
{
    if char_count(stripped) == 0 {
        return copy_text("\n");
    }
    if let Some(h) = markdown_heading(stripped) {
        return concat2(tokyo_heading(h.0, h.1.as_str()).as_str(), "\n");
    }
    if same_text(stripped, "---") {
        let rule = repeat_char('-', 40);
        return concat2(tokyo_muted(rule.as_str()).as_str(), "\n");
    }
    if let Some(body) = markdown_bullet(stripped) {
        let mut out = concat2(tokyo_list_marker("-").as_str(), " ");
        push_text(&mut out, render_inline_markdown(body.as_str()).as_str());
        push_text(&mut out, "\n");
        return out;
    }
    if let Some(item) = markdown_numbered_item(stripped) {
        let mut out = concat2(tokyo_list_marker(item.0.as_str()).as_str(), " ");
        push_text(&mut out, render_inline_markdown(item.1.as_str()).as_str());
        push_text(&mut out, "\n");
        return out;
    }
    concat2(render_inline_markdown(line).as_str(), "\n")
}

/// The lines from line `i` on, set for the terminal; lines in fenced code stay
/// as they are.
pub open spec fn markdown_from(lines: Seq<Seq<char>>, i: int, in_code: bool) -> Seq<char>
    decreases lines.len() - i,
{
    if i < 0 || i >= lines.len() {
        Seq::empty()
    } else {
        let s = trimmed(lines[i]);
        let rows = table_rows(lines, i);
        let e = table_end(lines, i);
        if has_prefix(s, "```"@) {
            lines[i] + "\n"@ + markdown_from(lines, i + 1, !in_code)
        } else if in_code {
            lines[i] + "\n"@ + markdown_from(lines, i + 1, in_code)
        } else if is_table_line(s) && is_table(rows) && i < e <= lines.len() {
            table_text(rows) + markdown_from(lines, e, in_code)
        } else {
            markdown_line(lines[i]) + markdown_from(lines, i + 1, in_code)
        }
    }
}

/// A markdown text set for the terminal.
pub open spec fn terminal_markdown(text: Seq<char>) -> Seq<char> {
    markdown_from(text_lines(text), 0, false)
}

pub fn render_terminal_markdown(text: &str) -> (r: String)
    ensures
        r@ == terminal_markdown(text@),
{
    let list = lines(text);
    let ghost all = texts(list@);
    let ghost want = terminal_markdown(text@);
    let mut out = String::new();
    let mut in_code = false;
    let mut i: usize = 0;
    assert(out@ + markdown_from(all, 0, false) =~= want);
    while i < list.len()
        invariant
            i <= list.len(),
            all == texts(list@),
            all.len() == list.len(),
            out@ + markdown_from(all, i as int, in_code) == want,
        decreases list.len() - i,
    {
        let line = list[i].as_str();
        assert(line@ == all[i as int]);
        let stripped = trim(line);
        let ghost before = out@;
        if starts_with(stripped.as_str(), "```") || in_code {
            let fence = starts_with(stripped.as_str(), "```");
            push_text(&mut out, line);
            push_text(&mut out, "\n");
            let next = if fence { !in_code } else { in_code };
            assert(before + markdown_from(all, i as int, in_code) =~= out@ + markdown_from(
                all,
                i + 1,
                next,
            ));
            in_code = next;
            i += 1;
            continue;
        }
        if is_table_row(stripped.as_str()) {
            if let Some(table) = render_table_block(&list, i) {
                push_text(&mut out, table.0.as_str());
                assert(before + markdown_from(all, i as int, in_code) =~= out@ + markdown_from(
                    all,
                    table.1 as int,
                    in_code,
                ));
                i = table.1;
                continue;
            }
        }
        push_text(&mut out, render_line_text(line, stripped.as_str()).as_str());
        assert(before + markdown_from(all, i as int, in_code) =~= out@ + markdown_from(
            all,
            i + 1,
            in_code,
        ));
        i += 1;
    }
    assert(out@ + markdown_from(all, i as int, in_code) =~= out@);
    out
}

} // verus!
