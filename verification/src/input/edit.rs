//! Editing a line of text at a cursor that counts characters.
use vstd::prelude::*;

use crate::text::{char_count, char_is_space, chars_of, skip_space_at, take_chars, text_of, word_end_at};
use crate::text::{first_chars, is_space, skip_space, space_end, word_end};

verus! {

/// Where a cursor stands in a text: never behind its end.
pub open spec fn cursor_in(s: Seq<char>, cursor: int) -> int {
    if cursor < s.len() {
        cursor
    } else {
        s.len() as int
    }
}

/// The text with `t` put in at the cursor.
pub open spec fn inserted(s: Seq<char>, cursor: int, t: Seq<char>) -> Seq<char> {
    let k = cursor_in(s, cursor);
    s.take(k) + t + s.skip(k)
}

/// The text without the character at index `i`.
pub open spec fn removed(s: Seq<char>, i: int) -> Seq<char> {
    s.take(i) + s.skip(i + 1)
}

/// The text without the characters from `a` up to `b`.
pub open spec fn cut(s: Seq<char>, a: int, b: int) -> Seq<char> {
    s.take(a) + s.skip(b)
}

/// A cursor moved right by `n`, as far as a machine word counts.
pub open spec fn moved_right(cursor: int, n: int) -> int {
    if cursor + n > usize::MAX {
        usize::MAX as int
    } else {
        cursor + n
    }
}

/// The start of the word that ends at `n`.
pub open spec fn word_start(s: Seq<char>, n: int) -> int
    decreases n,
{
    if 0 < n <= s.len() && !is_space(s[n - 1]) {
        word_start(s, n - 1)
    } else {
        n
    }
}

/// The start of the word before the cursor.
pub open spec fn previous_word(s: Seq<char>, cursor: int) -> int {
    word_start(s, space_end(s, cursor_in(s, cursor)))
}

/// The start of the word after the one at the cursor.
pub open spec fn next_word(s: Seq<char>, cursor: int) -> int {
    skip_space(s, word_end(s, cursor_in(s, cursor)))
}

fn copy_range(out: &mut Vec<char>, v: &Vec<char>, from: usize, to: usize)
    requires
        from <= to <= v.len(),
    ensures
        final(out)@ == old(out)@ + v@.subrange(from as int, to as int),
{
    let mut i: usize = from;
    while i < to
        invariant
            from <= i <= to <= v.len(),
            out@ == old(out)@ + v@.subrange(from as int, i as int),
        decreases to - i,
    {
        out.push(v[i]);
        i += 1;
        assert(v@.subrange(from as int, i as int) =~= v@.subrange(from as int, i - 1).push(
            v@[i - 1],
        ));
    }
}

pub fn insert_str_at(buffer: &mut String, cursor: &mut usize, text: &str)
    ensures
        final(buffer)@ == inserted(old(buffer)@, *old(cursor) as int, text@),
        *final(cursor) == moved_right(*old(cursor) as int, text@.len() as int),
{
    let v = chars_of(buffer.as_str());
    let t = chars_of(text);
    let k: usize = if *cursor < v.len() { *cursor } else { v.len() };
    let mut out: Vec<char> = Vec::new();
    copy_range(&mut out, &v, 0, k);
    copy_range(&mut out, &t, 0, t.len());
    copy_range(&mut out, &v, k, v.len());
    assert(out@ =~= inserted(v@, *old(cursor) as int, t@));
    *buffer = text_of(&out);
    *cursor = cursor.saturating_add(t.len());
}

pub fn insert_at(buffer: &mut String, cursor: &mut usize, ch: char)
    ensures
        final(buffer)@ == inserted(old(buffer)@, *old(cursor) as int, seq![ch]),
        *final(cursor) == moved_right(*old(cursor) as int, 1),
{
    let mut one = String::new();
    one.push(ch);
    assert(one@ =~= seq![ch]);
    insert_str_at(buffer, cursor, one.as_str());
}

pub fn remove_at(buffer: &mut String, cursor: usize) -> (r: Option<char>)
    ensures
        cursor < old(buffer)@.len() ==> r == Some(old(buffer)@[cursor as int]) && final(buffer)@
            == removed(old(buffer)@, cursor as int),
        cursor >= old(buffer)@.len() ==> r is None && *final(buffer) == *old(buffer),
{
    let v = chars_of(buffer.as_str());
    if cursor >= v.len() {
        return None;
    }
    let c = v[cursor];
    let mut out: Vec<char> = Vec::new();
    copy_range(&mut out, &v, 0, cursor);
    copy_range(&mut out, &v, cursor + 1, v.len());
    assert(out@ =~= removed(v@, cursor as int));
    *buffer = text_of(&out);
    Some(c)
}

pub fn remove_before(buffer: &mut String, cursor: &mut usize) -> (r: Option<char>)
    ensures
        *old(cursor) == 0 ==> r is None && *final(buffer) == *old(buffer) && *final(cursor) == 0,
        *old(cursor) > 0 ==> *final(cursor) == *old(cursor) - 1,
        0 < *old(cursor) <= old(buffer)@.len() ==> r == Some(old(buffer)@[*old(cursor) - 1])
            && final(buffer)@ == removed(old(buffer)@, *old(cursor) - 1),
        *old(cursor) > old(buffer)@.len() ==> r is None && *final(buffer) == *old(buffer),
{
    if *cursor == 0 {
        return None;
    }
    *cursor = *cursor - 1;
    remove_at(buffer, *cursor)
}

/// The byte index of the character at the cursor, or the length in bytes.
pub fn byte_index(buffer: &str, cursor: usize) -> (r: usize)
    ensures
        r == vstd::utf8::encode_utf8(first_chars(buffer@, cursor as int)).len() as usize,
{
    take_chars(buffer, cursor).as_str().len()
}

pub fn char_len(buffer: &str) -> (r: usize)
    ensures
        r == buffer@.len(),
{
    char_count(buffer)
}

/// What stands before the cursor.
pub fn buffer_prefix(buffer: &str, cursor: usize) -> (r: String)
    ensures
        r@ == first_chars(buffer@, cursor as int),
{
    take_chars(buffer, cursor)
}

pub proof fn lemma_previous_word(s: Seq<char>, cursor: int)
    requires
        0 <= cursor,
    ensures
        0 <= previous_word(s, cursor) <= cursor_in(s, cursor),
{
    crate::text::lemma_space_end(s, cursor_in(s, cursor));
    lemma_word_start(s, space_end(s, cursor_in(s, cursor)));
}

proof fn lemma_word_start(s: Seq<char>, n: int)
    requires
        0 <= n <= s.len(),
    ensures
        0 <= word_start(s, n) <= n,
    decreases n,
{
    if 0 < n && !is_space(s[n - 1]) {
        lemma_word_start(s, n - 1);
    }
}

pub fn previous_word_cursor(buffer: &str, cursor: usize) -> (r: usize)
    ensures
        r == previous_word(buffer@, cursor as int),
        r <= cursor_in(buffer@, cursor as int),
{
    let v = chars_of(buffer);
    let start: usize = if cursor < v.len() { cursor } else { v.len() };
    let mut n: usize = start;
    while n > 0 && char_is_space(v[n - 1])
        invariant
            n <= start <= v.len(),
            space_end(v@, start as int) == space_end(v@, n as int),
        decreases n,
    {
        n -= 1;
    }
    let ghost e = n as int;
    while n > 0 && !char_is_space(v[n - 1])
        invariant
            n <= start <= v.len(),
            word_start(v@, e) == word_start(v@, n as int),
        decreases n,
    {
        n -= 1;
    }
    n
}

pub fn next_word_cursor(buffer: &str, cursor: usize) -> (r: usize)
    ensures
        r == next_word(buffer@, cursor as int),
        cursor_in(buffer@, cursor as int) <= r <= buffer@.len(),
{
    let v = chars_of(buffer);
    let start: usize = if cursor < v.len() { cursor } else { v.len() };
    let e = word_end_at(&v, start);
    skip_space_at(&v, e)
}

/// Removes the word before the cursor, and says whether the cursor moved.
pub fn remove_previous_word(buffer: &mut String, cursor: &mut usize) -> (r: bool)
    ensures
        r == (previous_word(old(buffer)@, *old(cursor) as int) != *old(cursor)),
        *final(cursor) == previous_word(old(buffer)@, *old(cursor) as int),
        r ==> final(buffer)@ == cut(
            old(buffer)@,
            *final(cursor) as int,
            cursor_in(old(buffer)@, *old(cursor) as int),
        ),
        !r ==> *final(buffer) == *old(buffer),
{
    let end: usize = *cursor;
    let start = previous_word_cursor(buffer.as_str(), end);
    if start == end {
        return false;
    }
    let v = chars_of(buffer.as_str());
    let stop: usize = if end < v.len() { end } else { v.len() };
    let mut out: Vec<char> = Vec::new();
    copy_range(&mut out, &v, 0, start);
    copy_range(&mut out, &v, stop, v.len());
    assert(out@ =~= cut(v@, start as int, stop as int));
    *buffer = text_of(&out);
    *cursor = start;
    true
}

/// Removing the character before the cursor undoes inserting it.
pub proof fn law_remove_undoes_insert(s: Seq<char>, cursor: int, c: char)
    requires
        0 <= cursor <= s.len(),
    ensures
        inserted(s, cursor, seq![c])[cursor] == c,
        removed(inserted(s, cursor, seq![c]), cursor) == s,
{
    assert(removed(inserted(s, cursor, seq![c]), cursor) =~= s);
}

/// Putting back a removed character restores the text.
pub proof fn law_insert_undoes_remove(s: Seq<char>, cursor: int)
    requires
        0 <= cursor < s.len(),
    ensures
        inserted(removed(s, cursor), cursor, seq![s[cursor]]) == s,
{
    assert(inserted(removed(s, cursor), cursor, seq![s[cursor]]) =~= s);
}

/// Removing a word removes only what stands between its start and the cursor.
pub proof fn law_removed_word_keeps_the_rest(s: Seq<char>, cursor: int)
    requires
        0 <= cursor <= s.len(),
    ensures
        ({
            let start = previous_word(s, cursor);
            let after = cut(s, start, cursor);
            &&& 0 <= start <= cursor
            &&& after.len() == s.len() - (cursor - start)
            &&& after.take(start) == s.take(start)
            &&& after.skip(start) == s.skip(cursor)
        }),
{
    lemma_previous_word(s, cursor);
    let start = previous_word(s, cursor);
    let after = cut(s, start, cursor);
    assert(after.take(start) =~= s.take(start));
    assert(after.skip(start) =~= s.skip(cursor));
}

} // verus!
