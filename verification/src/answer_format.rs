//! Turning an agent's answer into markdown that reads well, and that into
//! terminal text.
use vstd::prelude::*;

use crate::json::{json_items, json_members, json_parsed, json_text, lemma_json_view, parse_json, render_json, signed_text, signed_to_text, Json, JsonView, Member};
use crate::terminal_markdown::{render_terminal_markdown, terminal_markdown};
use crate::text::{char_count, char_is_digit, char_is_space, char_upper, chars_of, concat2, concat3, copy_text, decimal_text, ends_with, find_in, join, lines, next_char_at, push_item, push_text, repeat_char, replace, skip_space_at, strip_prefix, text_between, text_occurs_at, text_of, trim, trim_end, trim_start};
use crate::text::{decimal, find_from, has_prefix, has_suffix, is_digit, is_space, joined, lemma_find_from, lemma_texts_empty, next_char, occurs_at, repeated, replaced, skip_space, text_lines, texts, trimmed, trimmed_end, trimmed_start, upper_char, without_prefix};

verus! {

// ---------------------------------------------------------------------------
// JSON answers
// ---------------------------------------------------------------------------

/// A key as words: separators become spaces, and each word starts with a
/// capital.
pub open spec fn human_key_from(key: Seq<char>, i: int, capital: bool) -> Seq<char>
    decreases key.len() - i,
{
    if i < 0 || i >= key.len() {
        Seq::empty()
    } else if key[i] == '_' || key[i] == '-' {
        seq![' '] + human_key_from(key, i + 1, true)
    } else if capital {
        seq![upper_char(key[i])] + human_key_from(key, i + 1, false)
    } else {
        seq![key[i]] + human_key_from(key, i + 1, false)
    }
}

pub open spec fn human_key(key: Seq<char>) -> Seq<char> {
    human_key_from(key, 0, true)
}

fn humanize_json_key(key: &str) -> (r: String)
    ensures
        r@ == human_key(key@),
{
    let v = chars_of(key);
    let mut out = String::new();
    let mut capital = true;
    let mut i: usize = 0;
    assert(out@ + human_key_from(v@, 0, true) =~= human_key(key@));
    while i < v.len()
        invariant
            i <= v.len(),
            v@ == key@,
            out@ + human_key_from(v@, i as int, capital) == human_key(key@),
        decreases v.len() - i,
    {
        let ghost before = out@;
        let ghost was = capital;
        let c = v[i];
        let shown: char = if c == '_' || c == '-' {
            capital = true;
            ' '
        } else if capital {
            capital = false;
            char_upper(c)
        } else {
            c
        };
        out.push(shown);
        assert(before + human_key_from(v@, i as int, was) =~= out@ + human_key_from(
            v@,
            i + 1,
            capital,
        ));
        i += 1;
    }
    assert(out@ + human_key_from(v@, i as int, capital) =~= out@);
    out
}

/// The text of a value on one line.
pub open spec fn scalar_text(value: JsonView) -> Seq<char> {
    match value {
        JsonView::Str(s) => replaced(s, "\n"@, " "@),
        JsonView::Unsigned(n) => decimal(n as nat),
        JsonView::Negative(n) => signed_text(n as int),
        JsonView::Float(t) => t,
        JsonView::Bool(b) => if b {
            "true"@
        } else {
            "false"@
        },
        JsonView::Null => Seq::empty(),
        _ => json_text(value),
    }
}

fn json_scalar_text(value: &Json) -> (r: String)
    ensures
        r@ == scalar_text(value@),
{
    match value {
        Json::Str(s) => replace(s.as_str(), "\n", " "),
        Json::Unsigned(n) => decimal_text(*n),
        Json::Negative(n) => signed_to_text(*n),
        Json::Float(t) => copy_text(t.as_str()),
        Json::Bool(b) => copy_text(if *b { "true" } else { "false" }),
        Json::Null => String::new(),
        _ => render_json(value),
    }
}

/// The level below a heading level; there are six.
pub open spec fn next_level(level: int) -> int {
    if level < 6 {
        level + 1
    } else {
        6
    }
}

pub open spec fn at_least(level: int, low: int) -> int {
    if level < low {
        low
    } else {
        level
    }
}

/// A blank line before what follows, unless nothing stands before it.
pub open spec fn after_blank_line(out: Seq<char>) -> Seq<char> {
    if out.len() == 0 || has_suffix(out, "\n\n"@) {
        out
    } else if has_suffix(out, "\n"@) {
        out + "\n"@
    } else {
        out + "\n\n"@
    }
}

/// The text with a heading for a key behind it.
pub open spec fn with_heading(out: Seq<char>, level: int, key: Seq<char>) -> Seq<char> {
    after_blank_line(out) + repeated('#', at_least(level, 2) as nat) + " "@ + human_key(key)
        + "\n\n"@
}

fn push_json_heading(output: &mut String, level: usize, key: &str)
    requires
        level <= 6,
    ensures
        final(output)@ == with_heading(old(output)@, level as int, key@),
{
    let text = output.as_str();
    if char_count(text) > 0 && !ends_with(text, "\n\n") {
        if ends_with(text, "\n") {
            push_text(output, "\n");
        } else {
            push_text(output, "\n\n");
        }
    }
    let marks: usize = if level < 2 { 2 } else { level };
    push_text(output, repeat_char('#', marks).as_str());
    push_text(output, " ");
    push_text(output, humanize_json_key(key).as_str());
    push_text(output, "\n\n");
}

/// The text with the members from member `k` on behind it.
pub open spec fn with_object(
    members: Seq<(Seq<char>, JsonView)>,
    k: int,
    level: int,
    out: Seq<char>,
) -> Seq<char>
    decreases members, members.len() - k,
{
    if k < 0 || k >= members.len() {
        out
    } else {
        let value = members[k].1;
        let next = match value {
            JsonView::Null => out,
            JsonView::Object(child) => with_object(
                child,
                0,
                next_level(level),
                with_heading(out, level, members[k].0),
            ) + "\n"@,
            JsonView::Array(items) => with_array(
                items,
                0,
                0,
                next_level(level),
                with_heading(out, level, members[k].0),
            ) + "\n"@,
            _ => out + "- "@ + human_key(members[k].0) + ": "@ + scalar_text(value) + "\n"@,
        };
        with_object(members, k + 1, level, next)
    }
}

/// The text with the items from item `k` on behind it, of which the first is
/// number `n + 1`. Null items do not count.
pub open spec fn with_array(
    items: Seq<JsonView>,
    k: int,
    n: int,
    level: int,
    out: Seq<char>,
) -> Seq<char>
    decreases items, items.len() - k,
{
    if k < 0 || k >= items.len() {
        out
    } else {
        match items[k] {
            JsonView::Null => with_array(items, k + 1, n, level, out),
            JsonView::Object(child) => with_array(
                items,
                k + 1,
                n + 1,
                level,
                with_object(
                    child,
                    0,
                    at_least(next_level(level), 3),
                    out + decimal((n + 1) as nat) + ". Item "@ + decimal((n + 1) as nat) + "\n"@,
                ),
            ),
            JsonView::Array(inner) => with_array(
                items,
                k + 1,
                n + 1,
                level,
                with_array(inner, 0, 0, next_level(level), out),
            ),
            _ => with_array(
                items,
                k + 1,
                n + 1,
                level,
                out + "- "@ + scalar_text(items[k]) + "\n"@,
            ),
        }
    }
}

fn render_json_object(members: &Vec<Member>, level: usize, output: &mut String)
    requires
        level <= 6,
    ensures
        final(output)@ == with_object(json_members(members@), 0, level as int, old(output)@),
    decreases members,
{
    let ghost list = json_members(members@);
    let ghost want = with_object(list, 0, level as int, output@);
    let mut k: usize = 0;
    while k < members.len()
        invariant
            k <= members.len(),
            level <= 6,
            list == json_members(members@),
            want == with_object(list, k as int, level as int, output@),
        decreases members.len() - k,
    {
        let value = &members[k].value;
        let key = members[k].key.as_str();
        proof {
            lemma_json_view(members@[k as int].value);
            assert(list[k as int] == (members@[k as int].key@, members@[k as int].value@));
            assert(decreases_to!(members => members@[k as int]));
            assert(decreases_to!(members@[k as int] => members@[k as int].value));
        }
        match value {
            Json::Null => {},
            Json::Object(child) => {
                push_json_heading(output, level, key);
                let below: usize = if level < 6 { level + 1 } else { 6 };
                render_json_object(child, below, output);
                push_text(output, "\n");
            },
            Json::Array(items) => {
                push_json_heading(output, level, key);
                let below: usize = if level < 6 { level + 1 } else { 6 };
                render_json_array(items, below, output);
                push_text(output, "\n");
            },
            _ => {
                push_text(output, "- ");
                push_text(output, humanize_json_key(key).as_str());
                push_text(output, ": ");
                push_text(output, json_scalar_text(value).as_str());
                push_text(output, "\n");
            },
        }
        k += 1;
    }
}

fn render_json_array(items: &Vec<Json>, level: usize, output: &mut String)
    requires
        level <= 6,
    ensures
        final(output)@ == with_array(json_items(items@), 0, 0, level as int, old(output)@),
    decreases items,
{
    let ghost list = json_items(items@);
    let ghost want = with_array(list, 0, 0, level as int, output@);
    let mut k: usize = 0;
    let mut n: u64 = 0;
    while k < items.len()
        invariant
            k <= items.len(),
            n <= k,
            level <= 6,
            list == json_items(items@),
            want == with_array(list, k as int, n as int, level as int, output@),
        decreases items.len() - k,
    {
        let value = &items[k];
        proof {
            lemma_json_view(items@[k as int]);
            assert(list[k as int] == items@[k as int]@);
            assert(decreases_to!(items => items@[k as int]));
        }
        match value {
            Json::Null => {},
            Json::Object(child) => {
                n += 1;
                let number = decimal_text(n);
                push_text(output, number.as_str());
                push_text(output, ". Item ");
                push_text(output, number.as_str());
                push_text(output, "\n");
                let below: usize = if level < 6 { level + 1 } else { 6 };
                let below: usize = if below < 3 { 3 } else { below };
                render_json_object(child, below, output);
            },
            Json::Array(inner) => {
                n += 1;
                let below: usize = if level < 6 { level + 1 } else { 6 };
                render_json_array(inner, below, output);
            },
            _ => {
                n += 1;
                push_text(output, "- ");
                push_text(output, json_scalar_text(value).as_str());
                push_text(output, "\n");
            },
        }
        k += 1;
    }
}

/// A JSON answer as markdown.
pub open spec fn json_markdown(value: JsonView) -> Seq<char> {
    match value {
        JsonView::Object(members) => with_object(members, 0, 2, Seq::empty()),
        JsonView::Array(items) => with_array(items, 0, 0, 0, Seq::empty()),
        _ => scalar_text(value) + "\n"@,
    }
}

pub fn json_answer_to_markdown(value: &Json) -> (r: String)
    ensures
        r@ == json_markdown(value@),
{
    proof {
        lemma_json_view(*value);
    }
    let mut out = String::new();
    match value {
        Json::Object(members) => {
            render_json_object(members, 2, &mut out);
        },
        Json::Array(items) => {
            render_json_array(items, 0, &mut out);
        },
        _ => {
            push_text(&mut out, json_scalar_text(value).as_str());
            push_text(&mut out, "\n");
            assert(out@ =~= scalar_text(value@) + "\n"@);
        },
    }
    out
}

// ---------------------------------------------------------------------------
// Line breaks before headings, rules, list items and table rows
// ---------------------------------------------------------------------------

/// The first index, from `i` on, that holds no digit.
pub open spec fn digits_end(s: Seq<char>, i: int) -> int
    decreases s.len() - i,
{
    if 0 <= i < s.len() && is_digit(s[i]) {
        digits_end(s, i + 1)
    } else {
        i
    }
}

/// A numbered item starts at `i`: digits, a full stop and a space.
pub open spec fn number_at(s: Seq<char>, i: int) -> bool {
    let e = digits_end(s, i);
    i < e && e + 1 < s.len() && s[e] == '.' && s[e + 1] == ' '
}

fn numbered_list_marker(v: &Vec<char>, from: usize) -> (r: bool)
    requires
        from <= v.len(),
    ensures
        r == number_at(v@, from as int),
{
    let mut e: usize = from;
    while e < v.len() && char_is_digit(v[e])
        invariant
            from <= e <= v.len(),
            digits_end(v@, from as int) == digits_end(v@, e as int),
        decreases v.len() - e,
    {
        e += 1;
    }
    from < e && e < v.len() && e + 1 < v.len() && v[e] == '.' && v[e + 1] == ' '
}

pub open spec fn heading_at(s: Seq<char>, i: int) -> bool {
    occurs_at(s, "### "@, i) || occurs_at(s, "## "@, i) || occurs_at(s, "# "@, i)
}

/// A rule with a heading right behind it.
pub open spec fn rule_at(s: Seq<char>, i: int) -> bool {
    occurs_at(s, "--- ### "@, i) || occurs_at(s, "--- ## "@, i) || occurs_at(s, "--- # "@, i)
}

/// A blank line is owed before index `i`.
pub open spec fn breaks_at(s: Seq<char>, i: int) -> bool {
    &&& 0 < i < s.len()
    &&& s[i - 1] != '\n'
    &&& {
        ||| s[i - 1] != '#' && heading_at(s, i)
        ||| rule_at(s, i)
        ||| s[i - 1] != '-' && occurs_at(s, "- "@, i)
        ||| is_space(s[i - 1]) && number_at(s, i)
    }
}

fn at_text(v: &Vec<char>, p: &str, i: usize) -> (r: bool)
    ensures
        r == occurs_at(v@, p@, i as int),
{
    text_occurs_at(v, &chars_of(p), i)
}

fn should_break_before(v: &Vec<char>, i: usize) -> (r: bool)
    requires
        i < v.len(),
    ensures
        r == breaks_at(v@, i as int),
{
    if i == 0 || v[i - 1] == '\n' {
        return false;
    }
    let previous = v[i - 1];
    (previous != '#' && (at_text(v, "### ", i) || at_text(v, "## ", i) || at_text(v, "# ", i)))
        || at_text(v, "--- ### ", i) || at_text(v, "--- ## ", i) || at_text(v, "--- # ", i) || (
    previous != '-' && at_text(v, "- ", i)) || (char_is_space(previous) && numbered_list_marker(
        v,
        i,
    ))
}

/// A table row starts at `i`: a bar with a cell behind it, and another bar on
/// the same line.
pub open spec fn row_at(s: Seq<char>, i: int) -> bool {
    &&& 0 <= i && i + 1 < s.len()
    &&& s[i] == '|'
    &&& s[i + 1] == ' ' || s[i + 1] == '-' || s[i + 1] == ':'
    &&& next_char(s, '|', i + 1) < next_char(s, '\n', i + 1)
}

fn markdown_table_row_marker(v: &Vec<char>, i: usize) -> (r: bool)
    requires
        i <= v.len(),
    ensures
        r == row_at(v@, i as int),
{
    if i >= v.len() || i + 1 >= v.len() || v[i] != '|' {
        return false;
    }
    if v[i + 1] != ' ' && v[i + 1] != '-' && v[i + 1] != ':' {
        return false;
    }
    next_char_at(v, '|', i + 1) < next_char_at(v, '\n', i + 1)
}

/// The line before index `i` has a bar in it.
pub open spec fn bar_before(s: Seq<char>, i: int) -> bool
    decreases i,
{
    if i <= 0 || i > s.len() || s[i - 1] == '\n' {
        false
    } else {
        s[i - 1] == '|' || bar_before(s, i - 1)
    }
}

/// The last character before index `i` that is not white space.
pub open spec fn ink_before(s: Seq<char>, i: int) -> Option<char>
    decreases i,
{
    if i <= 0 || i > s.len() {
        None
    } else if is_space(s[i - 1]) {
        ink_before(s, i - 1)
    } else {
        Some(s[i - 1])
    }
}

fn current_line_contains_pipe(v: &Vec<char>, i: usize) -> (r: bool)
    requires
        i <= v.len(),
    ensures
        r == bar_before(v@, i as int),
{
    let mut n: usize = i;
    while n > 0
        invariant
            n <= i <= v.len(),
            bar_before(v@, i as int) == bar_before(v@, n as int),
        decreases n,
    {
        if v[n - 1] == '\n' {
            return false;
        }
        if v[n - 1] == '|' {
            return true;
        }
        n -= 1;
    }
    false
}

fn previous_non_whitespace_char(v: &Vec<char>, i: usize) -> (r: Option<char>)
    requires
        i <= v.len(),
    ensures
        r == ink_before(v@, i as int),
{
    let mut n: usize = i;
    while n > 0
        invariant
            n <= i <= v.len(),
            ink_before(v@, i as int) == ink_before(v@, n as int),
        decreases n,
    {
        if !char_is_space(v[n - 1]) {
            return Some(v[n - 1]);
        }
        n -= 1;
    }
    None
}

/// A line feed is owed before the table row at index `i`.
pub open spec fn row_breaks_at(s: Seq<char>, i: int) -> bool {
    &&& 0 < i < s.len()
    &&& s[i - 1] != '\n'
    &&& row_at(s, i)
    &&& !bar_before(s, i) || ink_before(s, i) == Some('|')
}

fn should_break_table_row_before(v: &Vec<char>, i: usize) -> (r: bool)
    requires
        i < v.len(),
    ensures
        r == row_breaks_at(v@, i as int),
{
    if i == 0 || v[i - 1] == '\n' || !markdown_table_row_marker(v, i) {
        return false;
    }
    if !current_line_contains_pipe(v, i) {
        return true;
    }
    match previous_non_whitespace_char(v, i) {
        Some(c) => c == '|',
        None => false,
    }
}

/// The text without spaces and tabs behind it.
pub open spec fn without_blanks(s: Seq<char>) -> Seq<char>
    decreases s.len(),
{
    if s.len() > 0 && (s.last() == ' ' || s.last() == '\t') {
        without_blanks(s.drop_last())
    } else {
        s
    }
}

/// The text with a blank line behind it.
pub open spec fn with_boundary(out: Seq<char>) -> Seq<char> {
    let o = without_blanks(out);
    if o.len() >= 2 && o.last() == '\n' && o[o.len() - 2] == '\n' {
        o
    } else if o.len() >= 1 && o.last() == '\n' {
        o.push('\n')
    } else {
        o.push('\n').push('\n')
    }
}

/// The text with a line feed behind it.
pub open spec fn with_line_boundary(out: Seq<char>) -> Seq<char> {
    let o = without_blanks(out);
    if o.len() >= 1 && o.last() == '\n' {
        o
    } else {
        o.push('\n')
    }
}

fn drop_blanks(out: &mut Vec<char>)
    ensures
        final(out)@ == without_blanks(old(out)@),
{
    let ghost want = without_blanks(out@);
    while out.len() > 0 && (out[out.len() - 1] == ' ' || out[out.len() - 1] == '\t')
        invariant
            want == without_blanks(out@),
        decreases out.len(),
    {
        let ghost before = out@;
        out.pop();
        assert(out@ =~= before.drop_last());
    }
}

fn push_boundary(out: &mut Vec<char>)
    ensures
        final(out)@ == with_boundary(old(out)@),
{
    drop_blanks(out);
    let n = out.len();
    if n >= 2 && out[n - 1] == '\n' && out[n - 2] == '\n' {
        return;
    }
    if n >= 1 && out[n - 1] == '\n' {
        out.push('\n');
    } else {
        out.push('\n');
        out.push('\n');
    }
}

fn push_line_boundary(out: &mut Vec<char>)
    ensures
        final(out)@ == with_line_boundary(old(out)@),
{
    drop_blanks(out);
    let n = out.len();
    if !(n >= 1 && out[n - 1] == '\n') {
        out.push('\n');
    }
}

/// The text so far, with the characters from index `i` on and the line breaks
/// that are owed before them.
pub open spec fn broken_from(s: Seq<char>, i: int, out: Seq<char>) -> Seq<char>
    decreases s.len() - i,
{
    if i < 0 || i >= s.len() {
        out
    } else {
        let next = if row_breaks_at(s, i) {
            with_line_boundary(out)
        } else if breaks_at(s, i) {
            with_boundary(out)
        } else {
            out
        };
        broken_from(s, i + 1, next.push(s[i]))
    }
}

fn insert_markdown_boundaries(text: &str) -> (r: String)
    ensures
        r@ == broken_from(text@, 0, Seq::empty()),
{
    let v = chars_of(text);
    let mut out: Vec<char> = Vec::new();
    let ghost want = broken_from(text@, 0, Seq::empty());
    assert(out@ =~= Seq::<char>::empty());
    let mut i: usize = 0;
    while i < v.len()
        invariant
            i <= v.len(),
            want == broken_from(v@, i as int, out@),
        decreases v.len() - i,
    {
        if should_break_table_row_before(&v, i) {
            push_line_boundary(&mut out);
        } else if should_break_before(&v, i) {
            push_boundary(&mut out);
        }
        out.push(v[i]);
        i += 1;
    }
    text_of(&out)
}

// ---------------------------------------------------------------------------
// Table rows on one line
// ---------------------------------------------------------------------------

/// The bars of the first row on a line, found from index `i` on after `count`
/// bars: those before the next row; fewer than two count as none.
pub open spec fn row_bars_from(s: Seq<char>, i: int, count: int) -> int
    decreases s.len() - i,
{
    if i < 0 || i >= s.len() {
        if count >= 2 {
            count
        } else {
            0
        }
    } else if s[i] != '|' {
        row_bars_from(s, i + 1, count)
    } else if count + 1 >= 2 && row_at(s, skip_space(s, i + 1)) {
        count + 1
    } else {
        row_bars_from(s, i + 1, count + 1)
    }
}

fn infer_table_row_pipe_count(v: &Vec<char>) -> (r: usize)
    ensures
        r == row_bars_from(v@, 0, 0),
{
    let mut count: usize = 0;
    let mut i: usize = 0;
    while i < v.len()
        invariant
            i <= v.len(),
            count <= i,
            row_bars_from(v@, 0, 0) == row_bars_from(v@, i as int, count as int),
        decreases v.len() - i,
    {
        if v[i] == '|' {
            count += 1;
            if count >= 2 {
                let next = skip_space_at(v, i + 1);
                if markdown_table_row_marker(v, next) {
                    return count;
                }
            }
        }
        i += 1;
    }
    if count >= 2 { count } else { 0 }
}

/// The index after bar number `n`, counted from index `i` on.
pub open spec fn after_bar(s: Seq<char>, i: int, n: int) -> Option<int>
    decreases s.len() - i,
{
    if i < 0 || i >= s.len() {
        None
    } else if s[i] != '|' {
        after_bar(s, i + 1, n)
    } else if n == 1 {
        Some(i + 1)
    } else {
        after_bar(s, i + 1, n - 1)
    }
}

proof fn lemma_after_bar(s: Seq<char>, i: int, n: int)
    requires
        0 <= i,
    ensures
        after_bar(s, i, n) matches Some(e) ==> i < e <= s.len(),
    decreases s.len() - i,
{
    if i < s.len() {
        if s[i] != '|' {
            lemma_after_bar(s, i + 1, n);
        } else if n != 1 {
            lemma_after_bar(s, i + 1, n - 1);
        }
    }
}

/// Where the first row of `expected` bars ends, if text follows it.
pub open spec fn row_end(s: Seq<char>, expected: int) -> Option<int> {
    if expected < 2 {
        None
    } else {
        match after_bar(s, 0, expected) {
            Some(e) => if trimmed(s.skip(e)).len() == 0 {
                None
            } else {
                Some(e)
            },
            None => None,
        }
    }
}

fn split_table_line_after_pipe_count(v: &Vec<char>, expected_pipes: usize) -> (r: Option<usize>)
    ensures
        match r {
            Some(e) => row_end(v@, expected_pipes as int) == Some(e as int) && 0 < e <= v.len(),
            None => row_end(v@, expected_pipes as int) is None,
        },
{
    if expected_pipes < 2 {
        return None;
    }
    let mut left: usize = expected_pipes;
    let mut i: usize = 0;
    while i < v.len()
        invariant
            i <= v.len(),
            1 <= left <= expected_pipes,
            expected_pipes >= 2,
            after_bar(v@, 0, expected_pipes as int) == after_bar(v@, i as int, left as int),
        decreases v.len() - i,
    {
        if v[i] == '|' {
            if left == 1 {
                let rest = text_between(v, i + 1, v.len());
                assert(rest@ =~= v@.skip(i + 1));
                if char_count(trim(rest.as_str()).as_str()) == 0 {
                    return None;
                }
                return Some(i + 1);
            }
            left -= 1;
        }
        i += 1;
    }
    None
}

pub open spec fn line_if_any(s: Seq<char>) -> Seq<char> {
    if s.len() == 0 {
        Seq::empty()
    } else {
        s + "\n"@
    }
}

/// The rows of `expected` bars that stand on one line, each on a line of its own.
pub open spec fn split_rows(rest: Seq<char>, expected: int) -> Seq<char>
    decreases rest.len(),
{
    match row_end(rest, expected) {
        Some(e) => {
            let next = trimmed_start(rest.skip(e));
            if row_at(next, 0) && next.len() < rest.len() {
                rest.take(e) + "\n"@ + split_rows(next, expected)
            } else {
                rest.take(e) + "\n"@ + line_if_any(next)
            }
        },
        None => line_if_any(rest),
    }
}

fn split_table_rows(line: &str, expected: usize) -> (r: String)
    ensures
        r@ == split_rows(line@, expected as int),
{
    let mut out = String::new();
    let mut rest = copy_text(line);
    let ghost want = split_rows(line@, expected as int);
    assert(out@ + split_rows(rest@, expected as int) =~= want);
    loop
        invariant_except_break
            out@ + split_rows(rest@, expected as int) == want,
        ensures
            out@ + line_if_any(rest@) == want,
        decreases rest@.len(),
    {
        let v = chars_of(rest.as_str());
        let ghost before = out@;
        let e = match split_table_line_after_pipe_count(&v, expected) {
            Some(e) => e,
            None => {
                break;
            },
        };
        let row = text_between(&v, 0, e);
        assert(row@ =~= rest@.take(e as int));
        let tail = text_between(&v, e, v.len());
        assert(tail@ =~= rest@.skip(e as int));
        let next = trim_start(tail.as_str());
        proof {
            crate::text::lemma_skip_space(tail@, 0);
        }
        push_text(&mut out, row.as_str());
        push_text(&mut out, "\n");
        let w = chars_of(next.as_str());
        let marked = markdown_table_row_marker(&w, 0);
        assert(next@.len() < rest@.len());
        if marked {
            assert(before + split_rows(rest@, expected as int) =~= out@ + split_rows(
                next@,
                expected as int,
            ));
        } else {
            assert(before + split_rows(rest@, expected as int) =~= out@ + line_if_any(next@));
        }
        rest = next;
        if !marked {
            break;
        }
    }
    let ghost before = out@;
    if char_count(rest.as_str()) > 0 {
        push_text(&mut out, rest.as_str());
        push_text(&mut out, "\n");
    }
    assert(out@ =~= before + line_if_any(rest@));
    out
}

/// The lines from line `i` on; rows that stand on one line are split by the
/// bars of the first row of their table.
pub open spec fn tables_split_from(
    lines: Seq<Seq<char>>,
    i: int,
    expected: Option<int>,
) -> Seq<char>
    decreases lines.len() - i,
{
    if i < 0 || i >= lines.len() {
        Seq::empty()
    } else {
        let line = lines[i];
        if line.len() > 0 && line[0] == '|' {
            let n = match expected {
                Some(n) => n,
                None => row_bars_from(line, 0, 0),
            };
            split_rows(line, n) + tables_split_from(lines, i + 1, Some(n))
        } else {
            line + "\n"@ + tables_split_from(
                lines,
                i + 1,
                if trimmed(line).len() == 0 {
                    expected
                } else {
                    None
                },
            )
        }
    }
}

/// The text with each table row on a line of its own.
pub open spec fn tables_split(text: Seq<char>) -> Seq<char> {
    trimmed_end(tables_split_from(text_lines(text), 0, None))
}

pub fn split_markdown_table_lines(text: &str) -> (r: String)
    ensures
        r@ == tables_split(text@),
{
    let list = lines(text);
    let ghost all = texts(list@);
    let ghost want = tables_split_from(all, 0, None);
    let mut out = String::new();
    let mut expected: Option<usize> = None;
    let mut i: usize = 0;
    assert(out@ + tables_split_from(all, 0, None) =~= want);
    while i < list.len()
        invariant
            i <= list.len(),
            all == texts(list@),
            all.len() == list.len(),
            out@ + tables_split_from(
                all,
                i as int,
                match expected {
                    Some(n) => Some(n as int),
                    None => None,
                },
            ) == want,
        decreases list.len() - i,
    {
        let line = list[i].as_str();
        assert(line@ == all[i as int]);
        let v = chars_of(line);
        let ghost before = out@;
        if v.len() > 0 && v[0] == '|' {
            let n: usize = match expected {
                Some(n) => n,
                None => infer_table_row_pipe_count(&v),
            };
            push_text(&mut out, split_table_rows(line, n).as_str());
            expected = Some(n);
            assert(before + (split_rows(line@, n as int) + tables_split_from(
                all,
                i + 1,
                Some(n as int),
            )) =~= out@ + tables_split_from(all, i + 1, Some(n as int)));
        } else {
            let ghost was: Option<int> = match expected {
                Some(n) => Some(n as int),
                None => None,
            };
            if char_count(trim(line).as_str()) > 0 {
                expected = None;
            }
            push_text(&mut out, line);
            push_text(&mut out, "\n");
            assert(before + tables_split_from(all, i as int, was) =~= out@ + tables_split_from(
                all,
                i + 1,
                match expected {
                    Some(n) => Some(n as int),
                    None => None,
                },
            ));
        }
        i += 1;
    }
    assert(out@ =~= want);
    trim_end(out.as_str())
}

// ---------------------------------------------------------------------------
// Rules, headings and blank lines
// ---------------------------------------------------------------------------

/// A line on which a rule is followed by text, split after the rule.
pub open spec fn rule_split(line: Seq<char>) -> Seq<char> {
    match without_prefix(line, "--- "@) {
        Some(rest) => "---\n\n"@ + rest,
        None => line,
    }
}

/// The first `n` lines, each split after its rule.
pub open spec fn rules_split_upto(lines: Seq<Seq<char>>, n: int) -> Seq<char>
    decreases n,
{
    if n <= 0 || n > lines.len() {
        Seq::empty()
    } else {
        rules_split_upto(lines, n - 1) + rule_split(lines[n - 1]) + "\n"@
    }
}

pub open spec fn rules_split(text: Seq<char>) -> Seq<char> {
    let lines = text_lines(text);
    trimmed_end(rules_split_upto(lines, lines.len() as int))
}

fn split_horizontal_rule_lines(text: &str) -> (r: String)
    ensures
        r@ == rules_split(text@),
{
    let list = lines(text);
    let ghost all = texts(list@);
    let mut out = String::new();
    let mut i: usize = 0;
    while i < list.len()
        invariant
            i <= list.len(),
            all == texts(list@),
            all.len() == list.len(),
            out@ == rules_split_upto(all, i as int),
        decreases list.len() - i,
    {
        let line = list[i].as_str();
        assert(line@ == all[i as int]);
        let ghost before = out@;
        if let Some(rest) = strip_prefix(line, "--- ") {
            push_text(&mut out, "---\n\n");
            push_text(&mut out, rest.as_str());
        } else {
            push_text(&mut out, line);
        }
        assert(out@ =~= before + rule_split(line@));
        push_text(&mut out, "\n");
        i += 1;
    }
    trim_end(out.as_str())
}

/// The headings whose text is known to be followed by a body.
pub open spec fn known_headings() -> Seq<Seq<char>> {
    seq![
        "Key Design Decisions"@,
        "Scripts & Tools"@,
        "Rust Core Packages"@,
        "Knowledge/Runtime Corpus"@,
        "Architecture Highlights"@,
        "Key Technical Points"@,
        "Notable Design Patterns"@,
        "Current Entrypoints"@,
        "Knowledge & Corpus Layer (`mind/`)"@,
        "Development & Docs"@,
        "Overall Purpose"@,
        "Purpose"@,
        "Key Components"@,
        "Documentation"@,
        "Dependencies"@,
        "Architecture"@,
        "Structure"@,
        "Overview"@,
        "Summary"@,
        "Skills"@,
        "Status"@,
    ]
}

fn known_heading(k: usize) -> (r: &'static str)
    requires
        k < 21,
    ensures
        r@ == known_headings()[k as int],
{
    if k == 0 { "Key Design Decisions" }
    else if k == 1 { "Scripts & Tools" }
    else if k == 2 { "Rust Core Packages" }
    else if k == 3 { "Knowledge/Runtime Corpus" }
    else if k == 4 { "Architecture Highlights" }
    else if k == 5 { "Key Technical Points" }
    else if k == 6 { "Notable Design Patterns" }
    else if k == 7 { "Current Entrypoints" }
    else if k == 8 { "Knowledge & Corpus Layer (`mind/`)" }
    else if k == 9 { "Development & Docs" }
    else if k == 10 { "Overall Purpose" }
    else if k == 11 { "Purpose" }
    else if k == 12 { "Key Components" }
    else if k == 13 { "Documentation" }
    else if k == 14 { "Dependencies" }
    else if k == 15 { "Architecture" }
    else if k == 16 { "Structure" }
    else if k == 17 { "Overview" }
    else if k == 18 { "Summary" }
    else if k == 19 { "Skills" }
    else { "Status" }
}

/// What follows a heading's name and a space.
pub open spec fn body_after(content: Seq<char>, name: Seq<char>) -> Option<Seq<char>> {
    if has_prefix(content, name) && name.len() < content.len() && content[name.len() as int]
        == ' ' {
        Some(content.skip(name.len() as int + 1))
    } else {
        None
    }
}

/// A heading split before its body: behind a known heading, from heading `k`
/// on, or before bold text.
pub open spec fn body_split_from(prefix: Seq<char>, content: Seq<char>, k: int) -> Seq<char>
    decreases known_headings().len() - k,
{
    if k < 0 || k >= known_headings().len() {
        match find_from(content, " **"@, 0) {
            Some(i) => prefix + content.take(i) + "\n**"@ + content.skip(i + 3),
            None => prefix + content,
        }
    } else {
        match body_after(content, known_headings()[k]) {
            Some(rest) => prefix + known_headings()[k] + "\n"@ + rest,
            None => body_split_from(prefix, content, k + 1),
        }
    }
}

/// A line, split before the body where it is a heading with one.
pub open spec fn body_split(line: Seq<char>) -> Seq<char> {
    if has_prefix(line, "### "@) {
        body_split_from("### "@, line.skip("### "@.len() as int), 0)
    } else if has_prefix(line, "## "@) {
        body_split_from("## "@, line.skip("## "@.len() as int), 0)
    } else if has_prefix(line, "# "@) {
        body_split_from("# "@, line.skip("# "@.len() as int), 0)
    } else {
        line
    }
}

fn split_heading_content(prefix: &str, content: &str) -> (r: String)
    ensures
        r@ == body_split_from(prefix@, content@, 0),
{
    let v = chars_of(content);
    let mut k: usize = 0;
    while k < 21
        invariant
            k <= 21,
            v@ == content@,
            body_split_from(prefix@, content@, 0) == body_split_from(prefix@, content@, k as int),
        decreases 21 - k,
    {
        let name = known_heading(k);
        let n = char_count(name);
        if at_text(&v, name, 0) && n < v.len() && v[n] == ' ' {
            let rest = text_between(&v, n + 1, v.len());
            assert(rest@ =~= content@.skip(n + 1));
            let mut out = concat3(prefix, name, "\n");
            push_text(&mut out, rest.as_str());
            return out;
        }
        k += 1;
    }
    let mark = chars_of(" **");
    proof {
        reveal_strlit(" **");
        lemma_find_from(v@, mark@, 0);
    }
    match find_in(&v, &mark, 0) {
        Some(i) => {
            assert(occurs_at(v@, mark@, i as int) && mark@.len() == 3);
            let total = v.len();
            let head = text_between(&v, 0, i);
            let rest = text_between(&v, i + 3, total);
            assert(head@ =~= content@.take(i as int));
            assert(rest@ =~= content@.skip(i + 3));
            let mut out = concat3(prefix, head.as_str(), "\n**");
            push_text(&mut out, rest.as_str());
            out
        },
        None => concat2(prefix, content),
    }
}

fn split_known_heading_body(line: &str) -> (r: String)
    ensures
        r@ == body_split(line@),
{
    if let Some(content) = strip_prefix(line, "### ") {
        return split_heading_content("### ", content.as_str());
    }
    if let Some(content) = strip_prefix(line, "## ") {
        return split_heading_content("## ", content.as_str());
    }
    if let Some(content) = strip_prefix(line, "# ") {
        return split_heading_content("# ", content.as_str());
    }
    copy_text(line)
}

pub open spec fn bodies_split(text: Seq<char>) -> Seq<char> {
    let lines = text_lines(text);
    joined(Seq::new(lines.len(), |i: int| body_split(lines[i])), "\n"@)
}

fn split_known_heading_bodies(text: &str) -> (r: String)
    ensures
        r@ == bodies_split(text@),
{
    broadcast use lemma_texts_empty;

    let list = lines(text);
    let ghost all = text_lines(text@);
    let ghost want = Seq::new(all.len(), |i: int| body_split(all[i]));
    let mut out: Vec<String> = Vec::new();
    let mut i: usize = 0;
    while i < list.len()
        invariant
            i <= list.len(),
            all == texts(list@),
            all.len() == list.len(),
            want == Seq::new(all.len(), |i: int| body_split(all[i])),
            texts(out@) == want.take(i as int),
        decreases list.len() - i,
    {
        assert(list@[i as int]@ == all[i as int]);
        let part = split_known_heading_body(list[i].as_str());
        assert(part@ == want[i as int]);
        push_item(&mut out, part);
        i += 1;
        assert(texts(out@) =~= want.take(i as int));
    }
    assert(texts(out@) =~= want);
    join(&out, "\n")
}

/// The lines from line `i` on; of blank lines in a row only the first stays,
/// and none where one stands before.
pub open spec fn blanks_collapsed_from(lines: Seq<Seq<char>>, i: int, blank: bool) -> Seq<char>
    decreases lines.len() - i,
{
    if i < 0 || i >= lines.len() {
        Seq::empty()
    } else if trimmed(lines[i]).len() == 0 {
        (if blank {
            Seq::empty()
        } else {
            "\n"@
        }) + blanks_collapsed_from(lines, i + 1, true)
    } else {
        trimmed_end(lines[i]) + "\n"@ + blanks_collapsed_from(lines, i + 1, false)
    }
}

pub open spec fn blanks_collapsed(text: Seq<char>) -> Seq<char> {
    trimmed_end(blanks_collapsed_from(text_lines(text), 0, false))
}

fn collapse_excess_blank_lines(text: &str) -> (r: String)
    ensures
        r@ == blanks_collapsed(text@),
{
    let list = lines(text);
    let ghost all = texts(list@);
    let ghost want = blanks_collapsed_from(all, 0, false);
    let mut out = String::new();
    let mut blank = false;
    let mut i: usize = 0;
    assert(out@ + blanks_collapsed_from(all, 0, false) =~= want);
    while i < list.len()
        invariant
            i <= list.len(),
            all == texts(list@),
            all.len() == list.len(),
            out@ + blanks_collapsed_from(all, i as int, blank) == want,
        decreases list.len() - i,
    {
        let line = list[i].as_str();
        assert(line@ == all[i as int]);
        let ghost before = out@;
        let ghost was = blank;
        if char_count(trim(line).as_str()) == 0 {
            if !blank {
                push_text(&mut out, "\n");
            }
            blank = true;
        } else {
            push_text(&mut out, trim_end(line).as_str());
            push_text(&mut out, "\n");
            blank = false;
        }
        assert(before + blanks_collapsed_from(all, i as int, was) =~= out@
            + blanks_collapsed_from(all, i + 1, blank));
        i += 1;
    }
    assert(out@ =~= want);
    trim_end(out.as_str())
}

// ---------------------------------------------------------------------------
// Answers
// ---------------------------------------------------------------------------

/// The answer without white space round it, and with plain line feeds.
pub open spec fn plain_answer(answer: Seq<char>) -> Seq<char> {
    replaced(replaced(trimmed(answer), "\r\n"@, "\n"@), "\r"@, "\n"@)
}

/// The text with a line feed behind it.
pub open spec fn ended(s: Seq<char>) -> Seq<char> {
    if has_suffix(s, "\n"@) {
        s
    } else {
        s + "\n"@
    }
}

/// A markdown text with line breaks before headings, rules, list items and
/// table rows.
pub open spec fn spread_out(text: Seq<char>) -> Seq<char> {
    bodies_split(rules_split(tables_split(broken_from(text, 0, Seq::empty()))))
}

/// A markdown text with the line breaks that it lost.
pub open spec fn restored(text: Seq<char>) -> Seq<char> {
    ended(blanks_collapsed(spread_out(text)))
}

/// The markdown of an answer that is not blank.
pub open spec fn markdown_of(answer: Seq<char>, parsed: Option<JsonView>) -> Seq<char> {
    match parsed {
        Some(value) => json_markdown(value),
        None => plain_answer(answer),
    }
}

/// An answer as markdown, where `parsed` is what its text is as JSON, if it is.
pub open spec fn formatted(answer: Seq<char>, parsed: Option<JsonView>) -> Seq<char> {
    if trimmed(answer).len() == 0 {
        Seq::empty()
    } else {
        restored(markdown_of(answer, parsed))
    }
}

pub open spec fn parsed_ok(r: Result<JsonView, (Seq<char>, nat)>) -> Option<JsonView> {
    match r {
        Ok(v) => Some(v),
        Err(_) => None,
    }
}

/// The text of an answer that is looked at as JSON.
pub fn normalize_answer(answer: &str) -> (r: String)
    ensures
        r@ == plain_answer(answer@),
{
    let trimmed_answer = trim(answer);
    let unix = replace(trimmed_answer.as_str(), "\r\n", "\n");
    replace(unix.as_str(), "\r", "\n")
}

/// Formats an answer, given what its text is as JSON.
pub fn format_parsed_answer(answer: &str, parsed: Option<&Json>) -> (r: String)
    ensures
        r@ == formatted(answer@, crate::json::opt_ref(parsed)),
{
    if char_count(trim(answer).as_str()) == 0 {
        return String::new();
    }
    let text = match parsed {
        Some(value) => json_answer_to_markdown(value),
        None => normalize_answer(answer),
    };
    let broken = insert_markdown_boundaries(text.as_str());
    let tables = split_markdown_table_lines(broken.as_str());
    let rules = split_horizontal_rule_lines(tables.as_str());
    let bodies = split_known_heading_bodies(rules.as_str());
    let mut out = collapse_excess_blank_lines(bodies.as_str());
    if !ends_with(out.as_str(), "\n") {
        push_text(&mut out, "\n");
    }
    out
}

pub fn format_agent_answer(answer: &str) -> (r: String)
    ensures
        r@ == formatted(answer@, parsed_ok(json_parsed(plain_answer(answer@)))),
{
    match parse_json(normalize_answer(answer).as_str()) {
        Ok(value) => format_parsed_answer(answer, Some(&value)),
        Err(_) => format_parsed_answer(answer, None),
    }
}

pub fn terminal_agent_answer(answer: &str) -> (r: String)
    ensures
        r@ == terminal_markdown(
            formatted(answer@, parsed_ok(json_parsed(plain_answer(answer@)))),
        ),
{
    render_terminal_markdown(format_agent_answer(answer).as_str())
}

/// A formatted answer is empty or ends its last line.
pub proof fn law_formatted_answer_ends_its_last_line(answer: Seq<char>, parsed: Option<JsonView>)
    ensures
        formatted(answer, parsed).len() == 0 || formatted(answer, parsed).last() == '\n',
        formatted(answer, parsed).len() == 0 <==> trimmed(answer).len() == 0,
{
    reveal_strlit("\n");
    let r = formatted(answer, parsed);
    if r.len() > 0 && has_suffix(r, "\n"@) {
        assert(r.subrange(r.len() - 1, r.len() as int)[0] == "\n"@[0]);
    }
}

} // verus!
