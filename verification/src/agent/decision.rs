//! What the model decides in one step: reading its answer, mending the slips
//! that models make, and the shape of a decision.
use vstd::prelude::*;

use crate::json::{json_items, json_parsed, lemma_json_view, member, parse_json, parse_result, signed_text, signed_to_text, string_member, Json, JsonView};
use crate::text::{chars_of, char_count, concat2, concat3, copy_text, decimal_text, next_char_at, push_text, replace, same_text, text_between, trim, trim_end, trim_start, char_is_digit};
use crate::text::{decimal, find_from, is_digit, lemma_find_from, lemma_next_char, next_char, opt_text, replaced, trimmed, trimmed_end, trimmed_start};
use crate::workspace::opt_str_text;

verus! {

/// A tool that the model asks for.
#[derive(Debug, PartialEq)]
pub struct ToolCall {
    pub name: String,
    pub arguments: Json,
}

#[verifier::ext_equal]
pub struct ToolView {
    pub name: Seq<char>,
    pub arguments: JsonView,
}

impl View for ToolCall {
    type V = ToolView;

    open spec fn view(&self) -> ToolView {
        ToolView { name: self.name@, arguments: self.arguments@ }
    }
}

impl ToolCall {
    pub fn copy(&self) -> (r: ToolCall)
        ensures
            r@ == self@,
    {
        ToolCall { name: copy_text(self.name.as_str()), arguments: self.arguments.copy() }
    }
}

pub open spec fn tools_view(v: Seq<ToolCall>) -> Seq<ToolView> {
    Seq::new(v.len(), |i: int| v[i]@)
}

fn push_tool(out: &mut Vec<ToolCall>, one: ToolCall)
    ensures
        tools_view(final(out)@) == tools_view(old(out)@).push(one@),
        final(out).len() == old(out).len() + 1,
{
    out.push(one);
    assert(tools_view(out@) =~= tools_view(old(out)@).push(one@));
}

/// A decision: an answer, a reason to stop, or tools to run.
#[derive(Debug, PartialEq)]
pub struct AgentDecision {
    pub thought: Option<String>,
    pub tool: Option<ToolCall>,
    pub tools: Vec<ToolCall>,
    pub final_answer: Option<String>,
    pub blocked: Option<String>,
}

#[verifier::ext_equal]
pub struct DecisionView {
    pub thought: Option<Seq<char>>,
    pub tool: Option<ToolView>,
    pub tools: Seq<ToolView>,
    pub final_answer: Option<Seq<char>>,
    pub blocked: Option<Seq<char>>,
}

pub open spec fn opt_tool(o: Option<ToolCall>) -> Option<ToolView> {
    match o {
        Some(t) => Some(t@),
        None => None,
    }
}

impl View for AgentDecision {
    type V = DecisionView;

    open spec fn view(&self) -> DecisionView {
        DecisionView {
            thought: opt_text(self.thought),
            tool: opt_tool(self.tool),
            tools: tools_view(self.tools@),
            final_answer: opt_text(self.final_answer),
            blocked: opt_text(self.blocked),
        }
    }
}

// ---------------------------------------------------------------------------
// Finding the object in an answer
// ---------------------------------------------------------------------------

/// Where a reader of JSON text stands: how many braces are open, and whether it
/// is inside a string or behind a backslash there.
#[verifier::ext_equal]
pub struct Scan {
    pub depth: int,
    pub in_string: bool,
    pub escaped: bool,
}

pub open spec fn fresh_scan() -> Scan {
    Scan { depth: 0, in_string: false, escaped: false }
}

/// The place after one more character. A closing brace without an open one
/// changes nothing.
pub open spec fn scanned(at: Scan, c: char) -> Scan {
    if at.in_string {
        if at.escaped {
            Scan { escaped: false, ..at }
        } else if c == '\\' {
            Scan { escaped: true, ..at }
        } else if c == '"' {
            Scan { in_string: false, ..at }
        } else {
            at
        }
    } else if c == '"' {
        Scan { in_string: true, ..at }
    } else if c == '{' {
        Scan { depth: at.depth + 1, ..at }
    } else if c == '}' {
        Scan { depth: if at.depth > 0 { at.depth - 1 } else { 0 }, ..at }
    } else {
        at
    }
}

/// The character closes the outermost object.
pub open spec fn closes(at: Scan, c: char) -> bool {
    !at.in_string && c == '}' && at.depth <= 1
}

/// The index, from `i` on, of the brace that closes the outermost object.
pub open spec fn object_end(s: Seq<char>, i: int, at: Scan) -> Option<int>
    decreases s.len() - i,
{
    if i < 0 || i >= s.len() {
        None
    } else if closes(at, s[i]) {
        Some(i)
    } else {
        object_end(s, i + 1, scanned(at, s[i]))
    }
}

/// The executable form of a place.
pub struct Scanner {
    pub depth: usize,
    pub in_string: bool,
    pub escaped: bool,
}

impl View for Scanner {
    type V = Scan;

    open spec fn view(&self) -> Scan {
        Scan { depth: self.depth as int, in_string: self.in_string, escaped: self.escaped }
    }
}

impl Scanner {
    pub fn new() -> (r: Scanner)
        ensures
            r@ == fresh_scan(),
    {
        Scanner { depth: 0, in_string: false, escaped: false }
    }

    pub fn closes_at(&self, c: char) -> (r: bool)
        ensures
            r == closes(self@, c),
    {
        !self.in_string && c == '}' && self.depth <= 1
    }

    pub fn step(&mut self, c: char)
        requires
            old(self).depth < usize::MAX,
        ensures
            final(self)@ == scanned(old(self)@, c),
            final(self).depth <= old(self).depth + 1,
    {
        if self.in_string {
            if self.escaped {
                self.escaped = false;
            } else if c == '\\' {
                self.escaped = true;
            } else if c == '"' {
                self.in_string = false;
            }
        } else if c == '"' {
            self.in_string = true;
        } else if c == '{' {
            self.depth += 1;
        } else if c == '}' && self.depth > 0 {
            self.depth -= 1;
        }
    }
}

fn object_end_at(v: &Vec<char>, from: usize) -> (r: Option<usize>)
    requires
        from <= v.len(),
    ensures
        match r {
            Some(k) => object_end(v@, from as int, fresh_scan()) == Some(k as int) && from <= k < v.len(),
            None => object_end(v@, from as int, fresh_scan()) is None,
        },
{
    let mut at = Scanner::new();
    let mut i: usize = from;
    while i < v.len()
        invariant
            from <= i <= v.len(),
            at.depth <= i,
            object_end(v@, from as int, fresh_scan()) == object_end(v@, i as int, at@),
        decreases v.len() - i,
    {
        let c = v[i];
        if at.closes_at(c) {
            return Some(i);
        }
        at.step(c);
        i += 1;
    }
    None
}

/// The last index before `n` at which `c` stands.
pub open spec fn last_char(s: Seq<char>, c: char, n: int) -> Option<int>
    decreases n,
{
    if n <= 0 || n > s.len() {
        None
    } else if s[n - 1] == c {
        Some(n - 1)
    } else {
        last_char(s, c, n - 1)
    }
}

fn last_char_at(v: &Vec<char>, c: char) -> (r: Option<usize>)
    ensures
        match r {
            Some(k) => last_char(v@, c, v.len() as int) == Some(k as int) && k < v.len(),
            None => last_char(v@, c, v.len() as int) is None,
        },
{
    let mut n: usize = v.len();
    while n > 0
        invariant
            n <= v.len(),
            last_char(v@, c, v.len() as int) == last_char(v@, c, n as int),
        decreases n,
    {
        if v[n - 1] == c {
            return Some(n - 1);
        }
        n -= 1;
    }
    None
}

/// The first JSON object in an answer: from its first opening brace to the one
/// that closes it, or else to the last closing brace of the answer.
pub open spec fn json_object_in(s: Seq<char>) -> Option<Seq<char>> {
    let start = next_char(s, '{', 0);
    if start >= s.len() {
        None
    } else {
        match object_end(s, start, fresh_scan()) {
            Some(end) => Some(s.subrange(start, end + 1)),
            None => match last_char(s, '}', s.len() as int) {
                Some(end) => if start < end {
                    Some(s.subrange(start, end + 1))
                } else {
                    None
                },
                None => None,
            },
        }
    }
}

pub fn extract_json_object(text: &str) -> (r: Option<String>)
    ensures
        opt_text(r) == json_object_in(text@),
        r is Some ==> r->Some_0@.len() > 0 && r->Some_0@[0] == '{',
{
    let v = chars_of(text);
    let start = next_char_at(&v, '{', 0);
    if start >= v.len() {
        return None;
    }
    if let Some(end) = object_end_at(&v, start) {
        return Some(text_between(&v, start, end + 1));
    }
    match last_char_at(&v, '}') {
        Some(end) => if start < end {
            Some(text_between(&v, start, end + 1))
        } else {
            None
        },
        None => None,
    }
}

// ---------------------------------------------------------------------------
// Mending an answer
// ---------------------------------------------------------------------------

/// The end and the text of the first part from `start` that ends in a brace
/// before a quote, at `i` or later, and is JSON once its quotes are unescaped.
pub open spec fn arguments_object(s: Seq<char>, start: int, i: int) -> Option<(int, Seq<char>)>
    decreases s.len() - i,
{
    if i < start || i + 1 >= s.len() {
        None
    } else {
        let object = replaced(s.subrange(start, i + 1), "\\\""@, "\""@);
        if s[i] == '}' && s[i + 1] == '"' && json_parsed(object) is Ok {
            Some((i, object))
        } else {
            arguments_object(s, start, i + 1)
        }
    }
}

/// The text with the first `arguments` string that holds an object turned into
/// that object.
pub open spec fn with_arguments_object(s: Seq<char>) -> Option<Seq<char>> {
    match find_from(s, "\"arguments\":\"{"@, 0) {
        Some(m) => match arguments_object(s, m + 13, m + 13) {
            Some((end, object)) => Some(
                s.take(m) + "\"arguments\":"@ + object + s.skip(end + 2),
            ),
            None => None,
        },
        None => None,
    }
}

fn find_repairable_arguments_object(v: &Vec<char>, start: usize) -> (r: Option<(usize, String)>)
    requires
        start <= v.len(),
    ensures
        match r {
            Some((end, object)) => arguments_object(v@, start as int, start as int) == Some(
                (end as int, object@),
            ) && end + 1 < v.len(),
            None => arguments_object(v@, start as int, start as int) is None,
        },
{
    let mut i: usize = start;
    while i < v.len() && i + 1 < v.len()
        invariant
            start <= i <= v.len(),
            arguments_object(v@, start as int, start as int) == arguments_object(
                v@,
                start as int,
                i as int,
            ),
        decreases v.len() - i,
    {
        if v[i] == '}' && v[i + 1] == '"' {
            let part = text_between(v, start, i + 1);
            let object = replace(part.as_str(), "\\\"", "\"");
            if let Ok(_) = parse_json(object.as_str()) {
                return Some((i, object));
            }
        }
        i += 1;
    }
    None
}

pub fn repair_malformed_arguments_string(json: &str) -> (r: Option<String>)
    ensures
        opt_text(r) == with_arguments_object(json@),
        json@.len() > 0 && json@[0] == '{' && r is Some ==> r->Some_0@.len() > 0
            && r->Some_0@[0] == '{',
{
    let v = chars_of(json);
    let marker = "\"arguments\":\"{";
    match crate::text::find(json, marker) {
        None => None,
        Some(m) => {
            proof {
                lemma_find_from(json@, marker@, 0);
                reveal_strlit("\"arguments\":\"{");
                assert(json@.subrange(m as int, m + marker@.len())[0] == json@[m as int]);
            }
            assert(m + 14 <= v.len());
            let start: usize = m + 13;
            match find_repairable_arguments_object(&v, start) {
                None => None,
                Some((end, object)) => {
                    let mut out = text_between(&v, 0, m);
                    push_text(&mut out, "\"arguments\":");
                    push_text(&mut out, object.as_str());
                    let rest = text_between(&v, end + 2, v.len());
                    push_text(&mut out, rest.as_str());
                    assert(json@.subrange(0, m as int) =~= json@.take(m as int));
                    assert(json@.subrange(end + 2, json@.len() as int) =~= json@.skip(end + 2));
                    Some(out)
                },
            }
        },
    }
}

/// The number of bytes of a character in UTF-8.
pub open spec fn char_bytes(c: char) -> int {
    let n = c as u32;
    if n < 0x80 {
        1
    } else if n < 0x800 {
        2
    } else if n < 0x10000 {
        3
    } else {
        4
    }
}

/// The index of the character at the byte `pos`, for a text whose character at
/// `i` starts at the byte `offset`.
pub open spec fn char_at_byte(s: Seq<char>, pos: int, i: int, offset: int) -> Option<int>
    decreases s.len() - i,
{
    if i < 0 || i >= s.len() || offset > pos {
        None
    } else if offset == pos {
        Some(i)
    } else {
        char_at_byte(s, pos, i + 1, offset + char_bytes(s[i]))
    }
}

/// The characters after which a member of an object may have ended.
pub open spec fn ends_value(c: char) -> bool {
    c == '"' || c == '}' || c == ']' || c == 'e' || c == 'l' || is_digit(c)
}

/// A key starts at `i`, right behind a value, with no comma between.
pub open spec fn lacks_comma(s: Seq<char>, i: int) -> bool {
    let before = trimmed_end(s.take(i));
    let end = next_char(s, '"', i + 1);
    let behind = trimmed_start(s.skip(end + 1));
    &&& 0 <= i < s.len()
    &&& s[i] == '"'
    &&& before.len() > 0
    &&& ends_value(before.last())
    &&& end < s.len()
    &&& behind.len() > 0
    &&& behind[0] == ':'
}

/// The text with a comma before the key at column `col`, counted in bytes from
/// one, where the key follows a value without one.
pub open spec fn with_comma(s: Seq<char>, col: int) -> Option<Seq<char>> {
    match char_at_byte(s, col - 1, 0, 0) {
        Some(i) => if lacks_comma(s, i) {
            Some(s.take(i) + ","@ + s.skip(i))
        } else {
            None
        },
        None => None,
    }
}

fn byte_len(c: char) -> (r: usize)
    ensures
        r == char_bytes(c),
        1 <= r <= 4,
{
    let n: u32 = c as u32;
    if n < 0x80 {
        1
    } else if n < 0x800 {
        2
    } else if n < 0x10000 {
        3
    } else {
        4
    }
}

fn char_index_at_byte(v: &Vec<char>, pos: usize) -> (r: Option<usize>)
    ensures
        match r {
            Some(k) => char_at_byte(v@, pos as int, 0, 0) == Some(k as int) && k < v.len(),
            None => char_at_byte(v@, pos as int, 0, 0) is None,
        },
{
    let mut i: usize = 0;
    let mut left: usize = pos;
    while i < v.len()
        invariant
            i <= v.len(),
            left <= pos,
            char_at_byte(v@, pos as int, 0, 0) == char_at_byte(v@, pos as int, i as int, pos - left),
        decreases v.len() - i,
    {
        if left == 0 {
            return Some(i);
        }
        let size = byte_len(v[i]);
        if size > left {
            assert(char_at_byte(v@, pos as int, i + 1, pos - left + size) is None);
            return None;
        }
        left -= size;
        i += 1;
    }
    None
}

fn key_lacks_comma(v: &Vec<char>, i: usize) -> (r: bool)
    requires
        i < v.len(),
    ensures
        r == lacks_comma(v@, i as int),
{
    if v[i] != '"' {
        return false;
    }
    let front = text_between(v, 0, i);
    assert(v@.subrange(0, i as int) =~= v@.take(i as int));
    let before = chars_of(trim_end(front.as_str()).as_str());
    if before.len() == 0 {
        return false;
    }
    let last = before[before.len() - 1];
    if !(last == '"' || last == '}' || last == ']' || last == 'e' || last == 'l' || char_is_digit(
        last,
    )) {
        return false;
    }
    let end = next_char_at(v, '"', i + 1);
    if end >= v.len() {
        return false;
    }
    let tail = text_between(v, end + 1, v.len());
    assert(v@.subrange(end + 1, v.len() as int) =~= v@.skip(end + 1));
    let behind = chars_of(trim_start(tail.as_str()).as_str());
    behind.len() > 0 && behind[0] == ':'
}

pub fn insert_missing_comma(json: &str, col: usize) -> (r: Option<String>)
    ensures
        opt_text(r) == with_comma(json@, col as int),
        json@.len() > 0 && json@[0] == '{' && r is Some ==> r->Some_0@.len() > 0
            && r->Some_0@[0] == '{',
{
    let v = chars_of(json);
    if col == 0 {
        return None;
    }
    match char_index_at_byte(&v, col - 1) {
        None => None,
        Some(i) => {
            if !key_lacks_comma(&v, i) {
                return None;
            }
            let mut out = text_between(&v, 0, i);
            push_text(&mut out, ",");
            let rest = text_between(&v, i, v.len());
            push_text(&mut out, rest.as_str());
            assert(json@.subrange(0, i as int) =~= json@.take(i as int));
            assert(json@.subrange(i as int, json@.len() as int) =~= json@.skip(i as int));
            assert(trimmed_end(json@.take(0)).len() == 0) by {
                assert(json@.take(0) =~= Seq::empty());
            }
            Some(out)
        },
    }
}

// ---------------------------------------------------------------------------
// The shape of a decision
// ---------------------------------------------------------------------------

/// A text in quotes, with what cannot be shown escaped, as `Debug` writes it.
pub uninterp spec fn debug_text(s: Seq<char>) -> Seq<char>;

/// `Debug` of `str`: the result is a function of the text alone.
#[verifier::external_body]
fn debug_quoted(s: &str) -> (r: String)
    ensures
        r@ == debug_text(s@),
{
    format!("{:?}", s)
}

/// What a value is, in the words of an error about its type.
pub open spec fn value_words(value: JsonView) -> Seq<char> {
    match value {
        JsonView::Null => "null"@,
        JsonView::Bool(b) => if b {
            "boolean `true`"@
        } else {
            "boolean `false`"@
        },
        JsonView::Unsigned(n) => "integer `"@ + decimal(n as nat) + "`"@,
        JsonView::Negative(n) => "integer `"@ + signed_text(n as int) + "`"@,
        JsonView::Float(t) => "floating point `"@ + t + "`"@,
        JsonView::Str(s) => "string "@ + debug_text(s),
        JsonView::Array(_) => "sequence"@,
        JsonView::Object(_) => "map"@,
    }
}

fn words_of_value(value: &Json) -> (r: String)
    ensures
        r@ == value_words(value@),
{
    match value {
        Json::Null => copy_text("null"),
        Json::Bool(b) => if *b {
            copy_text("boolean `true`")
        } else {
            copy_text("boolean `false`")
        },
        Json::Unsigned(n) => concat3("integer `", decimal_text(*n).as_str(), "`"),
        Json::Negative(n) => concat3("integer `", signed_to_text(*n).as_str(), "`"),
        Json::Float(t) => concat3("floating point `", t.as_str(), "`"),
        Json::Str(s) => concat2("string ", debug_quoted(s.as_str()).as_str()),
        Json::Array(_) => copy_text("sequence"),
        Json::Object(_) => copy_text("map"),
    }
}

/// The error for a value of another type than the one that was expected.
pub open spec fn type_error(value: JsonView, expected: Seq<char>) -> Seq<char> {
    "invalid type: "@ + value_words(value) + ", expected "@ + expected
}

fn type_error_text(value: &Json, expected: &str) -> (r: String)
    ensures
        r@ == type_error(value@, expected@),
{
    let mut out = concat2("invalid type: ", words_of_value(value).as_str());
    push_text(&mut out, ", expected ");
    push_text(&mut out, expected);
    out
}

/// An optional text in an object: absent or null, or a string.
pub open spec fn text_field(value: JsonView, key: Seq<char>) -> Result<
    Option<Seq<char>>,
    Seq<char>,
> {
    match member(value, key) {
        None => Ok(None),
        Some(JsonView::Null) => Ok(None),
        Some(JsonView::Str(s)) => Ok(Some(s)),
        Some(other) => Err(type_error(other, "a string"@)),
    }
}

pub open spec fn text_field_view(r: Result<Option<String>, String>) -> Result<
    Option<Seq<char>>,
    Seq<char>,
> {
    match r {
        Ok(o) => Ok(opt_text(o)),
        Err(e) => Err(e@),
    }
}

fn read_text_field(value: &Json, key: &str) -> (r: Result<Option<String>, String>)
    ensures
        text_field_view(r) == text_field(value@, key@),
{
    match value.get(key) {
        None => Ok(None),
        Some(found) => match found {
            Json::Null => Ok(None),
            Json::Str(s) => Ok(Some(copy_text(s.as_str()))),
            _ => Err(type_error_text(found, "a string")),
        },
    }
}

/// A name that must be a string.
pub open spec fn name_value(value: JsonView) -> Result<Seq<char>, Seq<char>> {
    match value {
        JsonView::Str(s) => Ok(s),
        _ => Err(type_error(value, "a string"@)),
    }
}

/// The call with the given arguments, where the name is one.
pub open spec fn named_call(name: Result<Seq<char>, Seq<char>>, arguments: JsonView) -> Result<
    ToolView,
    Seq<char>,
> {
    match name {
        Ok(n) => Ok(ToolView { name: n, arguments }),
        Err(e) => Err(e),
    }
}

/// A tool call: an object with a name and any arguments, or a list of the two
/// in that order. Absent arguments are null.
pub open spec fn call_value(value: JsonView) -> Result<ToolView, Seq<char>> {
    match value {
        JsonView::Object(_) => match member(value, "name"@) {
            Some(name) => named_call(
                name_value(name),
                match member(value, "arguments"@) {
                    Some(a) => a,
                    None => JsonView::Null,
                },
            ),
            None => Err("missing field `name`"@),
        },
        JsonView::Array(items) => if items.len() == 0 {
            Err("invalid length 0, expected struct ToolCall with 2 elements"@)
        } else if name_value(items[0]) is Err || items.len() <= 2 {
            named_call(
                name_value(items[0]),
                if items.len() == 2 {
                    items[1]
                } else {
                    JsonView::Null
                },
            )
        } else {
            Err(
                "invalid length "@ + decimal(items.len()) + ", expected fewer elements in array"@,
            )
        },
        _ => Err(type_error(value, "struct ToolCall"@)),
    }
}

pub open spec fn call_result(r: Result<ToolCall, String>) -> Result<ToolView, Seq<char>> {
    match r {
        Ok(t) => Ok(t@),
        Err(e) => Err(e@),
    }
}

fn read_name(value: &Json) -> (r: Result<String, String>)
    ensures
        match r {
            Ok(n) => name_value(value@) == Ok::<Seq<char>, Seq<char>>(n@),
            Err(e) => name_value(value@) == Err::<Seq<char>, Seq<char>>(e@),
        },
{
    match value {
        Json::Str(s) => Ok(copy_text(s.as_str())),
        _ => Err(type_error_text(value, "a string")),
    }
}

fn read_call(value: &Json) -> (r: Result<ToolCall, String>)
    ensures
        call_result(r) == call_value(value@),
{
    proof {
        lemma_json_view(*value);
    }
    match value {
        Json::Object(_) => match value.get("name") {
            Some(found) => {
                let name = match read_name(found) {
                    Ok(n) => n,
                    Err(e) => return Err(e),
                };
                let arguments = match value.get("arguments") {
                    Some(a) => a.copy(),
                    None => Json::Null,
                };
                Ok(ToolCall { name, arguments })
            },
            None => Err(copy_text("missing field `name`")),
        },
        Json::Array(items) => {
            if items.len() == 0 {
                return Err(copy_text("invalid length 0, expected struct ToolCall with 2 elements"));
            }
            assert(json_items(items@)[0] == items@[0]@);
            let name = match read_name(&items[0]) {
                Ok(n) => n,
                Err(e) => return Err(e),
            };
            if items.len() > 2 {
                return Err(
                    concat3(
                        "invalid length ",
                        decimal_text(items.len() as u64).as_str(),
                        ", expected fewer elements in array",
                    ),
                );
            }
            let arguments = if items.len() == 2 {
                assert(json_items(items@)[1] == items@[1]@);
                items[1].copy()
            } else {
                Json::Null
            };
            Ok(ToolCall { name, arguments })
        },
        _ => Err(type_error_text(value, "struct ToolCall")),
    }
}

/// The calls of a list from item `k` on, or the error of the first that is none.
pub open spec fn call_values(items: Seq<JsonView>, k: int) -> Result<Seq<ToolView>, Seq<char>>
    decreases items.len() - k,
{
    if k < 0 || k >= items.len() {
        Ok(Seq::empty())
    } else {
        match call_value(items[k]) {
            Err(e) => Err(e),
            Ok(one) => match call_values(items, k + 1) {
                Ok(rest) => Ok(seq![one] + rest),
                Err(e) => Err(e),
            },
        }
    }
}

/// The calls before, and then those that a result holds.
pub open spec fn after_calls(done: Seq<ToolView>, rest: Result<Seq<ToolView>, Seq<char>>) -> Result<
    Seq<ToolView>,
    Seq<char>,
> {
    match rest {
        Ok(more) => Ok(done + more),
        Err(e) => Err(e),
    }
}

pub open spec fn calls_result(r: Result<Vec<ToolCall>, String>) -> Result<Seq<ToolView>, Seq<char>> {
    match r {
        Ok(v) => Ok(tools_view(v@)),
        Err(e) => Err(e@),
    }
}

/// The member `tools`: absent, or a list of calls.
pub open spec fn tools_field(value: JsonView) -> Result<Seq<ToolView>, Seq<char>> {
    match member(value, "tools"@) {
        None => Ok(Seq::empty()),
        Some(JsonView::Array(items)) => call_values(items, 0),
        Some(other) => Err(type_error(other, "a sequence"@)),
    }
}

fn read_calls(items: &Vec<Json>) -> (r: Result<Vec<ToolCall>, String>)
    ensures
        calls_result(r) == call_values(json_items(items@), 0),
{
    let ghost all = json_items(items@);
    let mut out: Vec<ToolCall> = Vec::new();
    let mut k: usize = 0;
    assert(tools_view(out@) =~= Seq::empty());
    assert(after_calls(tools_view(out@), call_values(all, 0)) == call_values(all, 0)) by {
        if let Ok(more) = call_values(all, 0) {
            assert(Seq::<ToolView>::empty() + more =~= more);
        }
    }
    while k < items.len()
        invariant
            k <= items.len(),
            all == json_items(items@),
            after_calls(tools_view(out@), call_values(all, k as int)) == call_values(all, 0),
        decreases items.len() - k,
    {
        assert(all[k as int] == items@[k as int]@);
        match read_call(&items[k]) {
            Err(e) => return Err(e),
            Ok(one) => {
                let ghost before = tools_view(out@);
                push_tool(&mut out, one);
                proof {
                    if let Ok(more) = call_values(all, k + 1) {
                        assert(before + (seq![one@] + more) =~= tools_view(out@) + more);
                    }
                }
            },
        }
        k += 1;
    }
    assert(tools_view(out@) + Seq::<ToolView>::empty() =~= tools_view(out@));
    Ok(out)
}

fn read_tools_field(value: &Json) -> (r: Result<Vec<ToolCall>, String>)
    ensures
        calls_result(r) == tools_field(value@),
{
    match value.get("tools") {
        None => {
            let out: Vec<ToolCall> = Vec::new();
            assert(tools_view(out@) =~= Seq::empty());
            Ok(out)
        },
        Some(found) => {
            proof {
                lemma_json_view(*found);
            }
            match found {
                Json::Array(items) => read_calls(items),
                _ => Err(type_error_text(found, "a sequence")),
            }
        },
    }
}

/// The member `tool`: absent or null, or one call.
pub open spec fn tool_field(value: JsonView) -> Result<Option<ToolView>, Seq<char>> {
    match member(value, "tool"@) {
        None => Ok(None),
        Some(JsonView::Null) => Ok(None),
        Some(other) => match call_value(other) {
            Ok(t) => Ok(Some(t)),
            Err(e) => Err(e),
        },
    }
}

fn read_tool_field(value: &Json) -> (r: Result<Option<ToolCall>, String>)
    ensures
        match r {
            Ok(o) => tool_field(value@) == Ok::<Option<ToolView>, Seq<char>>(opt_tool(o)),
            Err(e) => tool_field(value@) == Err::<Option<ToolView>, Seq<char>>(e@),
        },
{
    match value.get("tool") {
        None => Ok(None),
        Some(found) => {
            if found.is_null() {
                return Ok(None);
            }
            match read_call(found) {
                Ok(t) => Ok(Some(t)),
                Err(e) => Err(e),
            }
        },
    }
}

/// A decision written out member by member. The members are read in the order
/// of their keys, and the first that does not fit is the error.
pub open spec fn plain_decision(value: JsonView) -> Result<DecisionView, Seq<char>> {
    match text_field(value, "blocked"@) {
        Err(e) => Err(e),
        Ok(blocked) => match text_field(value, "final_answer"@) {
            Err(e) => Err(e),
            Ok(final_answer) => match text_field(value, "thought"@) {
                Err(e) => Err(e),
                Ok(thought) => match tool_field(value) {
                    Err(e) => Err(e),
                    Ok(tool) => match tools_field(value) {
                        Err(e) => Err(e),
                        Ok(tools) => Ok(
                            DecisionView { thought, tool, tools, final_answer, blocked },
                        ),
                    },
                },
            },
        },
    }
}

pub open spec fn decision_result(r: Result<AgentDecision, String>) -> Result<
    DecisionView,
    Seq<char>,
> {
    match r {
        Ok(d) => Ok(d@),
        Err(e) => Err(e@),
    }
}

/// The decision that an object spells out member by member.
pub fn read_plain_decision(value: &Json) -> (r: Result<AgentDecision, String>)
    requires
        value@ is Object,
    ensures
        decision_result(r) == plain_decision(value@),
{
    let blocked = match read_text_field(value, "blocked") {
        Ok(o) => o,
        Err(e) => return Err(e),
    };
    let final_answer = match read_text_field(value, "final_answer") {
        Ok(o) => o,
        Err(e) => return Err(e),
    };
    let thought = match read_text_field(value, "thought") {
        Ok(o) => o,
        Err(e) => return Err(e),
    };
    let tool = match read_tool_field(value) {
        Ok(o) => o,
        Err(e) => return Err(e),
    };
    let tools = match read_tools_field(value) {
        Ok(v) => v,
        Err(e) => return Err(e),
    };
    Ok(AgentDecision { thought, tool, tools, final_answer, blocked })
}

// ---------------------------------------------------------------------------
// Native tool calls and the whole answer
// ---------------------------------------------------------------------------

/// The arguments of a native call once a text among them has been parsed.
pub open spec fn parsed_arguments(parsed: Result<JsonView, (Seq<char>, nat)>) -> Result<
    JsonView,
    Seq<char>,
> {
    match parsed {
        Ok(v) => Ok(v),
        Err((message, _)) => Err("invalid tool arguments JSON: "@ + message),
    }
}

/// The arguments of a function: a text is JSON, absent ones are an empty object.
pub open spec fn function_arguments(function: JsonView) -> Result<JsonView, Seq<char>> {
    match member(function, "arguments"@) {
        Some(JsonView::Str(s)) => parsed_arguments(json_parsed(s)),
        Some(other) => Ok(other),
        None => Ok(JsonView::Object(Seq::empty())),
    }
}

/// The call of a function by name.
pub open spec fn function_call(function: JsonView) -> Result<ToolView, Seq<char>> {
    match string_member(function, "name"@) {
        None => Err("invalid agent JSON: missing tool function name"@),
        Some(name) => match function_arguments(function) {
            Ok(arguments) => Ok(ToolView { name, arguments }),
            Err(e) => Err(e),
        },
    }
}

/// The calls from item `k` on. An item without a function is passed over.
pub open spec fn function_calls(items: Seq<JsonView>, k: int) -> Result<Seq<ToolView>, Seq<char>>
    decreases items.len() - k,
{
    if k < 0 || k >= items.len() {
        Ok(Seq::empty())
    } else {
        match member(items[k], "function"@) {
            None => function_calls(items, k + 1),
            Some(function) => match function_call(function) {
                Err(e) => Err(e),
                Ok(one) => after_calls(seq![one], function_calls(items, k + 1)),
            },
        }
    }
}

/// The native tool calls of an answer.
pub open spec fn native_calls(value: JsonView) -> Result<Seq<ToolView>, Seq<char>> {
    match member(value, "tool_calls"@) {
        Some(JsonView::Array(items)) => function_calls(items, 0),
        _ => Ok(Seq::empty()),
    }
}

/// The arguments of a native call, given what parsing their text came to.
pub fn arguments_of_parse(parsed: Result<Json, crate::json::JsonError>) -> (r: Result<Json, String>)
    ensures
        match r {
            Ok(j) => parsed_arguments(parse_result(parsed)) == Ok::<JsonView, Seq<char>>(j@),
            Err(e) => parsed_arguments(parse_result(parsed)) == Err::<JsonView, Seq<char>>(e@),
        },
{
    match parsed {
        Ok(j) => Ok(j),
        Err(e) => Err(concat2("invalid tool arguments JSON: ", e.message.as_str())),
    }
}

fn read_function_arguments(function: &Json) -> (r: Result<Json, String>)
    ensures
        match r {
            Ok(j) => function_arguments(function@) == Ok::<JsonView, Seq<char>>(j@),
            Err(e) => function_arguments(function@) == Err::<JsonView, Seq<char>>(e@),
        },
{
    match function.get("arguments") {
        Some(found) => match found {
            Json::Str(s) => arguments_of_parse(parse_json(s.as_str())),
            _ => Ok(found.copy()),
        },
        None => {
            let r = Json::Object(Vec::new());
            proof {
                lemma_json_view(r);
                assert(r@->Object_0 =~= Seq::empty());
            }
            Ok(r)
        },
    }
}

fn read_function_call(function: &Json) -> (r: Result<ToolCall, String>)
    ensures
        call_result(r) == function_call(function@),
{
    match function.get_str("name") {
        None => Err(copy_text("invalid agent JSON: missing tool function name")),
        Some(name) => match read_function_arguments(function) {
            Ok(arguments) => Ok(ToolCall { name: copy_text(name.as_str()), arguments }),
            Err(e) => Err(e),
        },
    }
}

fn read_function_calls(items: &Vec<Json>) -> (r: Result<Vec<ToolCall>, String>)
    ensures
        calls_result(r) == function_calls(json_items(items@), 0),
{
    let ghost all = json_items(items@);
    let ghost want = function_calls(all, 0);
    let mut out: Vec<ToolCall> = Vec::new();
    let mut k: usize = 0;
    assert(tools_view(out@) =~= Seq::empty());
    assert(after_calls(tools_view(out@), want) == want) by {
        if let Ok(more) = want {
            assert(Seq::<ToolView>::empty() + more =~= more);
        }
    }
    while k < items.len()
        invariant
            k <= items.len(),
            all == json_items(items@),
            after_calls(tools_view(out@), function_calls(all, k as int)) == want,
            want == function_calls(all, 0),
        decreases items.len() - k,
    {
        assert(all[k as int] == items@[k as int]@);
        if let Some(function) = items[k].get("function") {
            match read_function_call(function) {
                Err(e) => return Err(e),
                Ok(one) => {
                    let ghost before = tools_view(out@);
                    push_tool(&mut out, one);
                    proof {
                        if let Ok(more) = function_calls(all, k + 1) {
                            assert(before + (seq![one@] + more) =~= tools_view(out@) + more);
                        }
                    }
                },
            }
        }
        k += 1;
    }
    assert(tools_view(out@) + Seq::<ToolView>::empty() =~= tools_view(out@));
    Ok(out)
}

pub fn openai_tool_calls(value: &Json) -> (r: Result<Vec<ToolCall>, String>)
    ensures
        calls_result(r) == native_calls(value@),
{
    if let Some(found) = value.get("tool_calls") {
        proof {
            lemma_json_view(*found);
        }
        if let Json::Array(items) = found {
            return read_function_calls(items);
        }
    }
    let out: Vec<ToolCall> = Vec::new();
    assert(tools_view(out@) =~= Seq::empty());
    Ok(out)
}

/// The content that stands in the instructions as an example and is no answer.
pub const PLACEHOLDER_FINAL_CONTENT: &'static str = "answer with concrete findings";

/// A decision that is only a final answer.
pub open spec fn answer_decision(answer: Seq<char>) -> DecisionView {
    DecisionView {
        thought: None,
        tool: None,
        tools: Seq::empty(),
        final_answer: Some(answer),
        blocked: None,
    }
}

/// A decision to run tools.
pub open spec fn tools_decision(tools: Seq<ToolView>) -> DecisionView {
    DecisionView { thought: None, tool: Some(tools[0]), tools, final_answer: None, blocked: None }
}

/// The final answer that the member `content` holds.
pub open spec fn content_answer(value: JsonView) -> Option<Seq<char>> {
    match string_member(value, "content"@) {
        Some(content) => if trimmed(content).len() > 0 && trimmed(content)
            != PLACEHOLDER_FINAL_CONTENT@ {
            Some(trimmed(content))
        } else {
            None
        },
        None => None,
    }
}

/// The decision in a value: native tool calls first, then content that is an
/// answer, and otherwise the members of a decision.
pub open spec fn normal_decision(value: JsonView) -> Result<DecisionView, Seq<char>> {
    match native_calls(value) {
        Err(e) => Err(e),
        Ok(tools) => if tools.len() > 0 {
            Ok(tools_decision(tools))
        } else {
            match content_answer(value) {
                Some(answer) => Ok(answer_decision(answer)),
                None => match plain_decision(value) {
                    Ok(d) => Ok(d),
                    Err(e) => Err("invalid agent JSON: "@ + e),
                },
            }
        },
    }
}

pub fn normalize_decision(value: &Json) -> (r: Result<AgentDecision, String>)
    requires
        value@ is Object,
    ensures
        decision_result(r) == normal_decision(value@),
{
    let tools = match openai_tool_calls(value) {
        Ok(v) => v,
        Err(e) => return Err(e),
    };
    assert(tools_view(tools@).len() == tools.len());
    if tools.len() > 0 {
        assert(tools_view(tools@)[0] == tools@[0]@);
        let first = tools[0].copy();
        return Ok(
            AgentDecision {
                thought: None,
                tool: Some(first),
                tools,
                final_answer: None,
                blocked: None,
            },
        );
    }
    if let Some(content) = value.get_str("content") {
        let answer = trim(content.as_str());
        if char_count(answer.as_str()) > 0 && !same_text(answer.as_str(), PLACEHOLDER_FINAL_CONTENT) {
            let none: Vec<ToolCall> = Vec::new();
            assert(tools_view(none@) =~= Seq::empty());
            return Ok(
                AgentDecision {
                    thought: None,
                    tool: None,
                    tools: none,
                    final_answer: Some(answer),
                    blocked: None,
                },
            );
        }
    }
    match read_plain_decision(value) {
        Ok(d) => Ok(d),
        Err(e) => Err(concat2("invalid agent JSON: ", e.as_str())),
    }
}

/// How a text was mended before it could be read.
#[derive(Debug, Clone, Copy, PartialEq, Eq, Structural)]
pub enum Repair {
    Unchanged,
    ArgumentsString,
    MissingComma,
}

impl Repair {
    pub open spec fn label_text(self) -> Option<Seq<char>> {
        match self {
            Repair::Unchanged => None,
            Repair::ArgumentsString => Some("malformed arguments string"@),
            Repair::MissingComma => Some("missing comma"@),
        }
    }

    /// The name of the repair, where there was one.
    pub fn label(self) -> (r: Option<&'static str>)
        ensures
            opt_str_text(r) == self.label_text(),
    {
        match self {
            Repair::Unchanged => None,
            Repair::ArgumentsString => Some("malformed arguments string"),
            Repair::MissingComma => Some("missing comma"),
        }
    }
}

/// The value of a text that is JSON or can be mended: first an `arguments`
/// string that lost its escapes, then a missing comma. The error is that of
/// the text as it came.
pub open spec fn mended_value(json: Seq<char>) -> Result<(JsonView, Repair), Seq<char>> {
    match json_parsed(json) {
        Ok(v) => Ok((v, Repair::Unchanged)),
        Err((message, column)) => {
            let by_arguments = match with_arguments_object(json) {
                Some(mended) => match json_parsed(mended) {
                    Ok(v) => Some(v),
                    Err(_) => None,
                },
                None => None,
            };
            let by_comma = match with_comma(json, column as int) {
                Some(mended) => match json_parsed(mended) {
                    Ok(v) => Some(v),
                    Err(_) => None,
                },
                None => None,
            };
            match by_arguments {
                Some(v) => Ok((v, Repair::ArgumentsString)),
                None => match by_comma {
                    Some(v) => Ok((v, Repair::MissingComma)),
                    None => Err("invalid agent JSON: "@ + message),
                },
            }
        },
    }
}

fn read_mended(json: &str) -> (r: Result<(Json, Repair), String>)
    requires
        json@.len() > 0,
        json@[0] == '{',
    ensures
        match r {
            Ok((j, repair)) => {
                &&& mended_value(json@) == Ok::<(JsonView, Repair), Seq<char>>((j@, repair))
                &&& j@ is Object
            },
            Err(e) => mended_value(json@) == Err::<(JsonView, Repair), Seq<char>>(e@),
        },
{
    let err = match parse_json(json) {
        Ok(value) => return Ok((value, Repair::Unchanged)),
        Err(err) => err,
    };
    if let Some(mended) = repair_malformed_arguments_string(json) {
        if let Ok(value) = parse_json(mended.as_str()) {
            return Ok((value, Repair::ArgumentsString));
        }
    }
    if let Some(mended) = insert_missing_comma(json, err.column) {
        if let Ok(value) = parse_json(mended.as_str()) {
            return Ok((value, Repair::MissingComma));
        }
    }
    Err(concat2("invalid agent JSON: ", err.message.as_str()))
}

/// The decision in an answer of the model, and how the answer was mended.
pub open spec fn read_decision(text: Seq<char>) -> Result<(DecisionView, Repair), Seq<char>> {
    match json_object_in(text) {
        None => Err("agent response was not JSON"@),
        Some(json) => match mended_value(json) {
            Err(e) => Err(e),
            Ok((value, repair)) => match normal_decision(value) {
                Ok(d) => Ok((d, repair)),
                Err(e) => Err(e),
            },
        },
    }
}

/// A decision, and how the text that holds it was mended.
#[derive(Debug)]
pub struct ParsedDecision {
    pub decision: AgentDecision,
    pub repair: Repair,
}

pub open spec fn parsed_decision(r: Result<ParsedDecision, String>) -> Result<
    (DecisionView, Repair),
    Seq<char>,
> {
    match r {
        Ok(p) => Ok((p.decision@, p.repair)),
        Err(e) => Err(e@),
    }
}

pub fn parse_decision_with_metadata(text: &str) -> (r: Result<ParsedDecision, String>)
    ensures
        parsed_decision(r) == read_decision(text@),
{
    let json = match extract_json_object(text) {
        Some(json) => json,
        None => return Err(copy_text("agent response was not JSON")),
    };
    let (value, repair) = match read_mended(json.as_str()) {
        Ok(pair) => pair,
        Err(e) => return Err(e),
    };
    match normalize_decision(&value) {
        Ok(decision) => Ok(ParsedDecision { decision, repair }),
        Err(e) => Err(e),
    }
}

/// The decision in an answer of the model.
pub open spec fn decision_in(text: Seq<char>) -> Result<DecisionView, Seq<char>> {
    match read_decision(text) {
        Ok((d, _)) => Ok(d),
        Err(e) => Err(e),
    }
}

pub fn parse_decision(text: &str) -> (r: Result<AgentDecision, String>)
    ensures
        decision_result(r) == decision_in(text@),
{
    match parse_decision_with_metadata(text) {
        Ok(parsed) => Ok(parsed.decision),
        Err(e) => Err(e),
    }
}

/// There is something to do in the decision.
pub open spec fn has_action(d: DecisionView) -> bool {
    d.final_answer is Some || d.blocked is Some || d.tool is Some || d.tools.len() > 0
}

pub fn decision_has_action(decision: &AgentDecision) -> (r: bool)
    ensures
        r == has_action(decision@),
{
    assert(tools_view(decision.tools@).len() == decision.tools.len());
    decision.final_answer.is_some() || decision.blocked.is_some() || decision.tool.is_some()
        || decision.tools.len() > 0
}

/// The tools to run: the list, or else the single tool.
pub open spec fn tools_to_run(d: DecisionView) -> Seq<ToolView> {
    if d.tools.len() > 0 {
        d.tools
    } else {
        match d.tool {
            Some(t) => seq![t],
            None => Seq::empty(),
        }
    }
}

pub fn take_tools(decision: AgentDecision) -> (r: Vec<ToolCall>)
    ensures
        tools_view(r@) == tools_to_run(decision@),
{
    assert(tools_view(decision.tools@).len() == decision.tools.len());
    if decision.tools.len() > 0 {
        return decision.tools;
    }
    let mut out: Vec<ToolCall> = Vec::new();
    assert(tools_view(out@) =~= Seq::empty());
    if let Some(tool) = decision.tool {
        push_tool(&mut out, tool);
        assert(tools_view(out@) =~= seq![tool@]);
    }
    out
}

// ---------------------------------------------------------------------------
// Instructions
// ---------------------------------------------------------------------------

pub const INSTRUCTIONS_HEAD: &'static str = "You are DeepSeek local agent mode. Work only inside this read-only workspace:\n";

pub const INSTRUCTIONS_BODY: &'static str = "\n\nReturn exactly one JSON object and no prose. Use this OpenAI-compatible shape:\n\nTo request a tool:\n{\"content\":null,\"tool_calls\":[{\"id\":\"call_1\",\"type\":\"function\",\"function\":{\"name\":\"list_files\",\"arguments\":\"{\\\"path\\\":\\\".\\\"}\"}}]}\n\nTo finish:\n{\"content\":\"answer with concrete findings\",\"tool_calls\":null}\n\nTo stop when the task cannot continue safely:\n{\"blocked\":\"short reason\"}\n\nAvailable read-only tools:\n- list_files: {\"path\":\"relative/path\"}\n- read_file: {\"path\":\"relative/path\"}\n- search_files: {\"path\":\"relative/path\",\"query\":\"literal text\"}\n- inspect_tree: {\"path\":\"relative/path\",\"depth\":2}\n- web_search: {\"query\":\"search terms\",\"max_results\":5}\n- fetch_url: {\"url\":\"https://example.com\",\"format\":\"markdown\"}\n\nApproval-gated tool:\n- run_shell: {\"command\":\"command to run\",\"cwd\":\"relative/path\",\"reason\":\"why this is needed\"}\n- propose_patch: {\"path\":\"relative/file\",\"find\":\"exact existing text\",\"replace\":\"replacement text\",\"reason\":\"why this edit is needed\"}\n\nNo raw writes, creates, deletes, other network actions, or paths outside the workspace are available. Shell commands and exact text replacements require explicit user approval and may be denied.";

/// The instructions that the model gets for a workspace.
pub fn system_prompt(root: &str) -> (r: String)
    ensures
        r@ == INSTRUCTIONS_HEAD@ + root@ + INSTRUCTIONS_BODY@,
{
    concat3(INSTRUCTIONS_HEAD, root, INSTRUCTIONS_BODY)
}

// ---------------------------------------------------------------------------
// Laws
// ---------------------------------------------------------------------------

/// Text before the first brace does not change what is read.
pub proof fn law_leading_prose_is_ignored(prose: Seq<char>, text: Seq<char>)
    requires
        !prose.contains('{'),
        object_end(text, next_char(text, '{', 0), fresh_scan()) is Some,
    ensures
        decision_in(prose + text) == decision_in(text),
{
    let whole = prose + text;
    let start = next_char(text, '{', 0);
    lemma_next_char(text, '{', 0);
    lemma_next_char(whole, '{', 0);
    let moved = next_char(whole, '{', 0);
    assert(start < text.len());
    assert(moved == prose.len() + start) by {
        assert(whole[prose.len() + start] == text[start]);
        if moved < prose.len() {
            assert(whole[moved] == prose[moved]);
            assert(prose.contains(prose[moved]));
        } else if moved < prose.len() + start {
            assert(whole[moved] == text[moved - prose.len()]);
        }
    }
    lemma_object_end_moves(prose, text, start, fresh_scan());
    let end = object_end(text, start, fresh_scan())->Some_0;
    lemma_object_end_inside(text, start, fresh_scan());
    assert(whole.subrange(moved, prose.len() + end + 1) =~= text.subrange(start, end + 1));
}

proof fn lemma_object_end_inside(s: Seq<char>, i: int, at: Scan)
    requires
        0 <= i,
    ensures
        match object_end(s, i, at) {
            Some(k) => i <= k < s.len(),
            None => true,
        },
    decreases s.len() - i,
{
    if i < s.len() && !closes(at, s[i]) {
        lemma_object_end_inside(s, i + 1, scanned(at, s[i]));
    }
}

proof fn lemma_object_end_moves(front: Seq<char>, s: Seq<char>, i: int, at: Scan)
    requires
        0 <= i,
    ensures
        object_end(front + s, front.len() + i, at) == match object_end(s, i, at) {
            Some(k) => Some(front.len() + k),
            None => None,
        },
    decreases s.len() - i,
{
    if i < s.len() {
        assert((front + s)[front.len() + i] == s[i]);
        if !closes(at, s[i]) {
            lemma_object_end_moves(front, s, i + 1, scanned(at, s[i]));
        }
    }
}

/// A decision that was read from native tool calls has an action, runs exactly
/// those tools and answers nothing.
pub proof fn law_native_calls_win(value: JsonView)
    requires
        native_calls(value) is Ok,
        native_calls(value)->Ok_0.len() > 0,
    ensures
        normal_decision(value) is Ok,
        has_action(normal_decision(value)->Ok_0),
        tools_to_run(normal_decision(value)->Ok_0) == native_calls(value)->Ok_0,
        normal_decision(value)->Ok_0.final_answer is None,
{
}

/// The content that only repeats the example of the instructions hides neither
/// an answer nor a reason to stop.
pub proof fn law_placeholder_hides_nothing(value: JsonView)
    requires
        native_calls(value) == Ok::<Seq<ToolView>, Seq<char>>(Seq::empty()),
        string_member(value, "content"@) is Some,
        trimmed(string_member(value, "content"@)->Some_0) == PLACEHOLDER_FINAL_CONTENT@,
        plain_decision(value) is Ok,
    ensures
        normal_decision(value) == plain_decision(value),
{
}

/// A decision has an action exactly when it answers, is blocked or has tools to
/// run.
pub proof fn law_action_means_tools_or_an_end(d: DecisionView)
    ensures
        has_action(d) <==> d.final_answer is Some || d.blocked is Some || tools_to_run(d).len() > 0,
{
}

} // verus!
