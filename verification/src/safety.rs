//! Caps and redaction for every text that leaves the workspace.
use vstd::prelude::*;

use crate::text::{char_count, concat2, concat3, copy_text, find, join, lower, push_item, push_text, split_whitespace, take_chars};
use crate::text::{find_from, first_chars, joined, lemma_texts_push, lemma_texts_empty, lower_text, texts, words};

verus! {

pub const DEFAULT_TEXT_CAP: usize = 40_000;

/// What marks a text that was cut short.
pub open spec fn truncation_mark(s: Seq<char>, max_chars: int) -> Seq<char> {
    if s.len() > max_chars {
        "\n[truncated]"@
    } else {
        Seq::empty()
    }
}

/// At most `max_chars` characters of a text, with a mark where some were cut.
pub open spec fn capped(s: Seq<char>, max_chars: int) -> Seq<char> {
    first_chars(s, max_chars) + truncation_mark(s, max_chars)
}

pub fn cap_text(text: &str, max_chars: usize) -> (r: String)
    ensures
        r@ == capped(text@, max_chars as int),
{
    let mut out = take_chars(text, max_chars);
    if char_count(text) > max_chars {
        push_text(&mut out, "\n[truncated]");
    }
    assert(out@ =~= capped(text@, max_chars as int));
    out
}

/// The keys whose values are not shown.
pub open spec fn redaction_patterns() -> Seq<Seq<char>> {
    seq!["api_key="@, "apikey="@, "token="@, "secret="@, "password="@, "authorization:"@]
}

/// Where the value of the key `p` starts in the token `t`, if one follows it.
pub open spec fn value_start(t: Seq<char>, p: Seq<char>) -> Option<int> {
    match find_from(lower_text(t), p, 0) {
        Some(i) => if i + p.len() < t.len() {
            Some(i + p.len())
        } else {
            None
        },
        None => None,
    }
}

/// The token with the value of the first matching key, from pattern `k` on, hidden.
pub open spec fn redacted_from(t: Seq<char>, k: int) -> Seq<char>
    decreases redaction_patterns().len() - k,
{
    if k < 0 || k >= redaction_patterns().len() {
        t
    } else {
        match value_start(t, redaction_patterns()[k]) {
            Some(v) => t.take(v) + "[REDACTED]"@,
            None => redacted_from(t, k + 1),
        }
    }
}

pub open spec fn redacted_token(t: Seq<char>) -> Seq<char> {
    redacted_from(t, 0)
}

pub open spec fn redacted_tokens(ws: Seq<Seq<char>>) -> Seq<Seq<char>> {
    Seq::new(ws.len(), |i: int| redacted_token(ws[i]))
}

/// The words of a text, one space apart, with secret values hidden.
pub open spec fn redacted(s: Seq<char>) -> Seq<char> {
    joined(redacted_tokens(words(s)), " "@)
}

fn redaction_pattern(k: usize) -> (r: &'static str)
    requires
        k < 6,
    ensures
        r@ == redaction_patterns()[k as int],
{
    if k == 0 {
        "api_key="
    } else if k == 1 {
        "apikey="
    } else if k == 2 {
        "token="
    } else if k == 3 {
        "secret="
    } else if k == 4 {
        "password="
    } else {
        "authorization:"
    }
}

fn redact_token(token: &str) -> (r: String)
    ensures
        r@ == redacted_token(token@),
{
    let low = lower(token);
    let mut k: usize = 0;
    while k < 6
        invariant
            k <= 6,
            low@ == lower_text(token@),
            redacted_token(token@) == redacted_from(token@, k as int),
        decreases 6 - k,
    {
        let pattern = redaction_pattern(k);
        let length = char_count(pattern);
        if let Some(index) = find(low.as_str(), pattern) {
            proof {
                crate::text::lemma_find_from(low@, pattern@, 0);
            }
            if length < char_count(token) - index {
                let start: usize = index + length;
                let kept = take_chars(token, start);
                return concat2(kept.as_str(), "[REDACTED]");
            }
        }
        k += 1;
    }
    copy_text(token)
}

pub fn redact_text(text: &str) -> (r: String)
    ensures
        r@ == redacted(text@),
{
    broadcast use lemma_texts_push, lemma_texts_empty;

    let tokens = split_whitespace(text);
    let mut out: Vec<String> = Vec::new();
    let mut i: usize = 0;
    while i < tokens.len()
        invariant
            i <= tokens.len(),
            texts(tokens@) == words(text@),
            texts(out@) == redacted_tokens(words(text@)).take(i as int),
        decreases tokens.len() - i,
    {
        let token = redact_token(tokens[i].as_str());
        assert(tokens@[i as int]@ == texts(tokens@)[i as int]);
        push_item(&mut out, token);
        assert(token@ == redacted_tokens(words(text@))[i as int]);
        i += 1;
        assert(texts(out@) =~= redacted_tokens(words(text@)).take(i as int));
    }
    assert(texts(out@) =~= redacted_tokens(words(text@)));
    join(&out, " ")
}

/// The name of the file that a new version is written to before it takes the
/// place of the file called `name`.
pub open spec fn temporary_name(name: Seq<char>, suffix: Seq<char>) -> Seq<char> {
    "."@ + name + "."@ + suffix + ".tmp"@
}

/// The temporary name beside a file; a file without a readable name is called
/// `atomic-write`.
pub fn temporary_file_name(name: Option<&str>, suffix: &str) -> (r: String)
    ensures
        r@ == temporary_name(match name { Some(n) => n@, None => "atomic-write"@ }, suffix@),
{
    let shown = match name {
        Some(n) => n,
        None => "atomic-write",
    };
    let mut out = concat3(".", shown, ".");
    push_text(&mut out, suffix);
    push_text(&mut out, ".tmp");
    out
}

/// Whether a file is to be copied from its old place: only when the new one is
/// missing and the old one is there.
pub open spec fn migrates(new_exists: bool, old_exists: bool) -> bool {
    !new_exists && old_exists
}

pub fn should_migrate(new_exists: bool, old_exists: bool) -> (r: bool)
    ensures
        r == migrates(new_exists, old_exists),
{
    !new_exists && old_exists
}

} // verus!
