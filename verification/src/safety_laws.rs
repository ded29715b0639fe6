//! What holds of capped and redacted texts.
use vstd::prelude::*;

use crate::safety::{capped, redacted, redacted_from, redacted_token, redacted_tokens, redaction_patterns, value_start};
use crate::text::{find_from, has_text, is_space, joined, lemma_find_from, lemma_skip_space, lemma_word_end, lower_char, lower_text, occurs_at, skip_space, word_end, words, words_from};

verus! {

/// A capped text keeps its first characters and grows by no more than the mark;
/// one that fits is left alone.
pub proof fn law_cap_bounds_a_text(s: Seq<char>, max: int)
    requires
        0 <= max,
    ensures
        capped(s, max).len() <= max + "\n[truncated]"@.len(),
        s.len() <= max ==> capped(s, max) == s,
        s.len() > max ==> capped(s, max) == s.take(max) + "\n[truncated]"@,
{
    if s.len() <= max {
        assert(capped(s, max) =~= s);
    } else {
        assert(capped(s, max) =~= s.take(max) + "\n[truncated]"@);
    }
}

// ---------------------------------------------------------------------------
// Words and joining
// ---------------------------------------------------------------------------

/// A word: something, and no white space.
pub open spec fn is_word(w: Seq<char>) -> bool {
    w.len() > 0 && forall|i: int| 0 <= i < w.len() ==> !is_space(#[trigger] w[i])
}

pub open spec fn all_words(ws: Seq<Seq<char>>) -> bool {
    forall|i: int| 0 <= i < ws.len() ==> is_word(#[trigger] ws[i])
}

proof fn lemma_words_are_words(s: Seq<char>, i: int)
    requires
        0 <= i <= s.len(),
    ensures
        all_words(words_from(s, i)),
    decreases s.len() - i,
{
    lemma_skip_space(s, i);
    let a = skip_space(s, i);
    lemma_word_end(s, a);
    let b = word_end(s, a);
    if a < b {
        lemma_words_are_words(s, b);
        let rest = words_from(s, b);
        let all = seq![s.subrange(a, b)] + rest;
        assert forall|k: int| 0 <= k < all.len() implies is_word(#[trigger] all[k]) by {
            if k > 0 {
                assert(all[k] == rest[k - 1]);
            }
        }
    }
}

proof fn lemma_joined_front(parts: Seq<Seq<char>>, sep: Seq<char>)
    requires
        parts.len() >= 2,
    ensures
        joined(parts, sep) == parts[0] + sep + joined(parts.skip(1), sep),
    decreases parts.len(),
{
    if parts.len() == 2 {
        assert(joined(parts.drop_last(), sep) == parts[0]);
        assert(joined(parts.skip(1), sep) == parts[1]);
        assert(parts.last() == parts[1]);
        assert(joined(parts, sep) == joined(parts.drop_last(), sep) + sep + parts.last());
        assert(joined(parts, sep) =~= parts[0] + sep + joined(parts.skip(1), sep));
    } else {
        lemma_joined_front(parts.drop_last(), sep);
        assert(parts.drop_last().skip(1) =~= parts.skip(1).drop_last());
        assert(parts.skip(1).last() == parts.last());
        assert(joined(parts, sep) =~= parts[0] + sep + joined(parts.skip(1), sep));
    }
}

proof fn lemma_words_of_joined(front: Seq<char>, ws: Seq<Seq<char>>)
    requires
        all_words(ws),
    ensures
        words_from(front + joined(ws, " "@), front.len() as int) == ws,
    decreases ws.len(),
{
    reveal_strlit(" ");
    let s = front + joined(ws, " "@);
    let i = front.len() as int;
    if ws.len() == 0 {
        assert(skip_space(s, i) == i);
        assert(words_from(s, i) =~= ws);
    } else {
        let w = ws[0];
        let e = i + w.len();
        assert(is_word(w));
        let rest = ws.skip(1);
        if ws.len() == 1 {
            assert(s =~= front + w);
        } else {
            lemma_joined_front(ws, " "@);
            assert(s =~= front + w + " "@ + joined(rest, " "@));
            assert(s[e] == ' ');
        }
        assert forall|j: int| i <= j < e implies !is_space(#[trigger] s[j]) by {
            assert(s[j] == w[j - i]);
        }
        assert(!is_space(s[i]));
        assert(skip_space(s, i) == i);
        lemma_word_end(s, i);
        assert(word_end(s, i) == e);
        assert(s.subrange(i, e) =~= w);
        if ws.len() == 1 {
            assert(skip_space(s, e) == e);
            assert(words_from(s, e) =~= Seq::empty());
            assert(words_from(s, i) =~= ws);
        } else {
            assert forall|k: int| 0 <= k < rest.len() implies is_word(#[trigger] rest[k]) by {
                assert(rest[k] == ws[k + 1]);
            }
            let next = front + w + " "@;
            lemma_words_of_joined(next, rest);
            assert(next + joined(rest, " "@) =~= s);
            assert(next.len() == e + 1);
            assert(skip_space(s, e) == skip_space(s, e + 1));
            lemma_skip_space(s, e + 1);
            assert(words_from(s, e) == words_from(s, e + 1));
            assert(seq![w] + rest =~= ws);
        }
    }
}

// ---------------------------------------------------------------------------
// Redaction
// ---------------------------------------------------------------------------

proof fn lemma_pattern_ends(k: int)
    requires
        0 <= k < redaction_patterns().len(),
    ensures
        redaction_patterns()[k].len() > 0,
        redaction_patterns()[k].last() == '=' || redaction_patterns()[k].last() == ':',
{
    reveal_strlit("api_key=");
    reveal_strlit("apikey=");
    reveal_strlit("token=");
    reveal_strlit("secret=");
    reveal_strlit("password=");
    reveal_strlit("authorization:");
}

/// A key that stands in a token with a hidden value stands before that value,
/// and stood there before it was hidden.
proof fn lemma_key_before_hidden(t: Seq<char>, v: int, p: Seq<char>, i: int)
    requires
        0 <= v < t.len(),
        p.len() > 0,
        p.last() == '=' || p.last() == ':',
        occurs_at(lower_text(t.take(v) + "[REDACTED]"@), p, i),
    ensures
        i + p.len() <= v,
        occurs_at(lower_text(t), p, i),
{
    reveal_strlit("[REDACTED]");
    let hidden = t.take(v) + "[REDACTED]"@;
    let low = lower_text(hidden);
    let e = i + p.len() - 1;
    assert(low.subrange(i, i + p.len())[p.len() - 1] == low[e]);
    if e >= v {
        assert(hidden[e] == "[REDACTED]"@[e - v]);
    }
    assert(low.subrange(i, i + p.len()) =~= lower_text(t).subrange(i, i + p.len())) by {
        assert forall|j: int| i <= j < i + p.len() implies low[j] == lower_text(t)[j] by {
            assert(hidden[j] == t[j]);
        }
    }
}

/// Where a token's value was hidden behind the pattern `k`, hiding again from
/// the pattern `j` on changes nothing.
proof fn lemma_hidden_again(t: Seq<char>, k: int, v: int, j: int)
    requires
        0 <= j <= k < redaction_patterns().len(),
        value_start(t, redaction_patterns()[k]) == Some(v),
        forall|m: int| 0 <= m < k ==> value_start(t, #[trigger] redaction_patterns()[m]) is None,
    ensures
        redacted_from(t.take(v) + "[REDACTED]"@, j) == t.take(v) + "[REDACTED]"@,
    decreases k - j,
{
    reveal_strlit("[REDACTED]");
    let hidden = t.take(v) + "[REDACTED]"@;
    let p = redaction_patterns()[j];
    lemma_pattern_ends(j);
    lemma_find_from(lower_text(t), redaction_patterns()[k], 0);
    lemma_find_from(lower_text(t), p, 0);
    lemma_find_from(lower_text(hidden), p, 0);
    if let Some(i) = find_from(lower_text(hidden), p, 0) {
        lemma_key_before_hidden(t, v, p, i);
    }
    if j < k {
        assert(value_start(t, redaction_patterns()[j]) is None);
        assert(value_start(hidden, p) is None);
        lemma_hidden_again(t, k, v, j + 1);
    } else {
        let f = v - p.len();
        assert(occurs_at(lower_text(t), p, f));
        assert(lower_text(hidden).subrange(f, v) =~= lower_text(t).subrange(f, v)) by {
            assert forall|m: int| f <= m < v implies lower_text(hidden)[m] == lower_text(t)[m] by {
                assert(hidden[m] == t[m]);
            }
        }
        assert(occurs_at(lower_text(hidden), p, f));
        assert(value_start(hidden, p) == Some(v));
        assert(hidden.take(v) =~= t.take(v));
    }
}

/// The first pattern, from `k` on, behind which a value starts, and what hiding
/// it gives.
proof fn lemma_redacted_token(t: Seq<char>, k: int)
    requires
        0 <= k <= redaction_patterns().len(),
        forall|m: int| 0 <= m < k ==> value_start(t, #[trigger] redaction_patterns()[m]) is None,
    ensures
        redacted_from(redacted_from(t, k), 0) == redacted_from(t, k),
        is_word(t) ==> is_word(redacted_from(t, k)),
    decreases redaction_patterns().len() - k,
{
    if k < redaction_patterns().len() {
        match value_start(t, redaction_patterns()[k]) {
            Some(v) => {
                lemma_find_from(lower_text(t), redaction_patterns()[k], 0);
                lemma_hidden_again(t, k, v, 0);
                if is_word(t) {
                    reveal_strlit("[REDACTED]");
                    let hidden = t.take(v) + "[REDACTED]"@;
                    assert forall|i: int| 0 <= i < hidden.len() implies !is_space(
                        #[trigger] hidden[i],
                    ) by {
                        if i < v {
                            assert(hidden[i] == t[i]);
                        } else {
                            assert(hidden[i] == "[REDACTED]"@[i - v]);
                        }
                    }
                }
            },
            None => {
                lemma_redacted_token(t, k + 1);
            },
        }
    } else {
        lemma_nothing_to_hide(t, 0);
    }
}

proof fn lemma_nothing_to_hide(t: Seq<char>, k: int)
    requires
        0 <= k <= redaction_patterns().len(),
        forall|m: int|
            0 <= m < redaction_patterns().len() ==> value_start(t, #[trigger] redaction_patterns()[m])
                is None,
    ensures
        redacted_from(t, k) == t,
    decreases redaction_patterns().len() - k,
{
    if k < redaction_patterns().len() {
        lemma_nothing_to_hide(t, k + 1);
    }
}

/// A redacted text has nothing more to hide: redacting it again changes
/// nothing.
pub proof fn law_redacting_twice_changes_nothing(s: Seq<char>)
    ensures
        redacted(redacted(s)) == redacted(s),
{
    let ws = words(s);
    lemma_words_are_words(s, 0);
    let hidden = redacted_tokens(ws);
    assert forall|i: int| 0 <= i < hidden.len() implies is_word(#[trigger] hidden[i]) by {
        assert(is_word(ws[i]));
        lemma_redacted_token(ws[i], 0);
    }
    lemma_words_of_joined(Seq::empty(), hidden);
    assert(Seq::<char>::empty() + joined(hidden, " "@) =~= joined(hidden, " "@));
    assert(words(redacted(s)) == hidden);
    assert(redacted_tokens(hidden) =~= hidden) by {
        assert forall|i: int| 0 <= i < hidden.len() implies redacted_token(hidden[i]) == hidden[i] by {
            lemma_redacted_token(ws[i], 0);
        }
    }
}

/// Behind the first key of a token with a value stands the mark, and nothing of
/// the value.
pub proof fn law_value_is_hidden(t: Seq<char>, k: int)
    requires
        0 <= k < redaction_patterns().len(),
        value_start(t, redaction_patterns()[k]) is Some,
        forall|m: int| 0 <= m < k ==> value_start(t, #[trigger] redaction_patterns()[m]) is None,
    ensures
        redacted_token(t) == t.take(value_start(t, redaction_patterns()[k])->Some_0)
            + "[REDACTED]"@,
{
    lemma_first_pattern(t, k, 0);
}

proof fn lemma_first_pattern(t: Seq<char>, k: int, j: int)
    requires
        0 <= j <= k < redaction_patterns().len(),
        value_start(t, redaction_patterns()[k]) is Some,
        forall|m: int| 0 <= m < k ==> value_start(t, #[trigger] redaction_patterns()[m]) is None,
    ensures
        redacted_from(t, j) == t.take(value_start(t, redaction_patterns()[k])->Some_0)
            + "[REDACTED]"@,
    decreases k - j,
{
    if j < k {
        assert(value_start(t, redaction_patterns()[j]) is None);
        lemma_first_pattern(t, k, j + 1);
    }
}

// ---------------------------------------------------------------------------
// Words of texts side by side
// ---------------------------------------------------------------------------

proof fn lemma_skip_space_moves(front: Seq<char>, s: Seq<char>, i: int)
    requires
        0 <= i <= s.len(),
    ensures
        skip_space(front + s, front.len() + i) == front.len() + skip_space(s, i),
        word_end(front + s, front.len() + i) == front.len() + word_end(s, i),
    decreases s.len() - i,
{
    if i < s.len() {
        assert((front + s)[front.len() + i] == s[i]);
        lemma_skip_space_moves(front, s, i + 1);
    }
}

proof fn lemma_words_move(front: Seq<char>, s: Seq<char>, i: int)
    requires
        0 <= i <= s.len(),
    ensures
        words_from(front + s, front.len() + i) == words_from(s, i),
    decreases s.len() - i,
{
    let whole = front + s;
    lemma_skip_space_moves(front, s, i);
    lemma_skip_space(s, i);
    let a = skip_space(s, i);
    lemma_skip_space_moves(front, s, a);
    lemma_word_end(s, a);
    let b = word_end(s, a);
    if a < b {
        lemma_words_move(front, s, b);
        assert(whole.subrange(front.len() + a, front.len() + b) =~= s.subrange(a, b));
    }
}

/// A text that begins with white space, or is empty.
pub open spec fn starts_apart(s: Seq<char>) -> bool {
    s.len() == 0 || is_space(s[0])
}

/// Up to the end of `x`, the words are those of `x` alone.
proof fn lemma_words_apart(x: Seq<char>, y: Seq<char>, i: int)
    requires
        0 <= i <= x.len(),
        starts_apart(y),
    ensures
        words_from(x + y, i) == words_from(x, i) + words(y),
    decreases x.len() - i,
{
    let whole = x + y;
    lemma_skip_space(x, i);
    lemma_skip_space(whole, i);
    let a = skip_space(x, i);
    assert forall|j: int| 0 <= j < x.len() implies whole[j] == x[j] by {}
    if a == x.len() {
        lemma_skipped_through(whole, i, a);
        lemma_words_move(x, y, 0);
        lemma_skip_space(whole, a);
        assert(words_from(whole, i) == words_from(whole, a));
        assert(words_from(x, i) =~= Seq::empty());
        assert(Seq::<Seq<char>>::empty() + words(y) =~= words(y));
    } else {
        lemma_skipped_through(whole, i, a);
        assert(skip_space(whole, a) == a);
        lemma_word_end(x, a);
        lemma_word_end(whole, a);
        let b = word_end(x, a);
        let e = word_end(whole, a);
        assert(e == b) by {
            if e < b {
                assert(is_space(whole[e]));
                assert(!is_space(x[e]));
            } else if b < e {
                assert(!is_space(whole[b]));
                if b < x.len() {
                    assert(is_space(x[b]));
                } else {
                    assert(whole[b] == y[0]);
                }
            }
        }
        assert(a < b);
        lemma_words_apart(x, y, b);
        assert(whole.subrange(a, b) =~= x.subrange(a, b));
        assert(seq![x.subrange(a, b)] + (words_from(x, b) + words(y)) =~= (seq![x.subrange(a, b)]
            + words_from(x, b)) + words(y));
    }
}

/// White space can be skipped in two goes.
proof fn lemma_skipped_through(s: Seq<char>, i: int, k: int)
    requires
        0 <= i <= k <= s.len(),
        forall|j: int| i <= j < k ==> is_space(#[trigger] s[j]),
    ensures
        skip_space(s, i) == skip_space(s, k),
    decreases k - i,
{
    if i < k {
        assert(is_space(s[i]));
        lemma_skipped_through(s, i + 1, k);
    }
}

/// The words of a text from index `i` on that are closed by white space, and
/// what stands behind the last white space.
spec fn open_words(p: Seq<char>, i: int) -> (Seq<Seq<char>>, Seq<char>)
    decreases p.len() - i,
{
    let a = skip_space(p, i);
    let b = word_end(p, a);
    if 0 <= i <= a < b < p.len() {
        let rest = open_words(p, b);
        (seq![p.subrange(a, b)] + rest.0, rest.1)
    } else {
        (Seq::empty(), p.subrange(a, p.len() as int))
    }
}

/// A word that follows a text closes the word that the text left open.
proof fn lemma_words_with_word(p: Seq<char>, t: Seq<char>, i: int)
    requires
        0 <= i <= p.len(),
        is_word(t),
    ensures
        words_from(p + t, i) == open_words(p, i).0.push(open_words(p, i).1 + t),
    decreases p.len() - i,
{
    let whole = p + t;
    lemma_skip_space(p, i);
    let a = skip_space(p, i);
    lemma_word_end(p, a);
    let b = word_end(p, a);
    assert forall|j: int| 0 <= j < p.len() implies whole[j] == p[j] by {}
    assert forall|j: int| p.len() <= j < whole.len() implies !is_space(#[trigger] whole[j]) by {
        assert(whole[j] == t[j - p.len()]);
    }
    assert forall|j: int| i <= j < a implies is_space(#[trigger] whole[j]) by {
        assert(is_space(p[j]));
    }
    lemma_skipped_through(whole, i, a);
    assert(!is_space(whole[a]));
    assert(skip_space(whole, a) == a);
    lemma_word_end(whole, a);
    let e = word_end(whole, a);
    assert(a < e);
    if a < b && b < p.len() {
        assert(e == b) by {
            if e < b {
                assert(!is_space(p[e]));
            } else if b < e {
                assert(is_space(p[b]));
            }
        }
        lemma_words_with_word(p, t, b);
        let rest = open_words(p, b);
        assert(whole.subrange(a, b) =~= p.subrange(a, b));
        assert(seq![p.subrange(a, b)] + rest.0.push(rest.1 + t) =~= (seq![p.subrange(a, b)]
            + rest.0).push(rest.1 + t));
    } else {
        assert(e == whole.len()) by {
            if e < p.len() {
                assert(is_space(whole[e]));
                assert(!is_space(p[e]));
            }
        }
        assert(whole.subrange(a, e) =~= p.subrange(a, p.len() as int) + t);
        assert(skip_space(whole, e) == e);
        assert(words_from(whole, e) =~= Seq::empty());
        assert(words_from(whole, i) =~= open_words(p, i).0.push(open_words(p, i).1 + t));
    }
}

// ---------------------------------------------------------------------------
// Secrets leave no trace
// ---------------------------------------------------------------------------

/// A key in any letter case.
pub open spec fn is_key(k: Seq<char>) -> bool {
    exists|j: int| 0 <= j < redaction_patterns().len() && lower_text(k) == redaction_patterns()[j]
}

/// A word in which no key stands, in any letter case.
pub open spec fn is_secret(a: Seq<char>) -> bool {
    is_word(a) && forall|j: int|
        0 <= j < redaction_patterns().len() ==> !has_text(
            lower_text(a),
            #[trigger] redaction_patterns()[j],
        )
}

proof fn lemma_key_marks(k: int)
    requires
        0 <= k < redaction_patterns().len(),
    ensures
        is_word(redaction_patterns()[k]),
        forall|i: int|
            0 <= i < redaction_patterns()[k].len() - 1 ==> #[trigger] redaction_patterns()[k][i]
                != '=' && redaction_patterns()[k][i] != ':',
{
    reveal_strlit("api_key=");
    reveal_strlit("apikey=");
    reveal_strlit("token=");
    reveal_strlit("secret=");
    reveal_strlit("password=");
    reveal_strlit("authorization:");
}

proof fn lemma_lower_keeps_space(c: char)
    ensures
        is_space(c) <==> is_space(lower_char(c)),
{
}

/// A key with a secret behind it is one word.
proof fn lemma_key_and_secret_are_one_word(k: Seq<char>, a: Seq<char>)
    requires
        is_key(k),
        is_secret(a),
    ensures
        is_word(k + a),
{
    let j = choose|j: int|
        0 <= j < redaction_patterns().len() && lower_text(k) == redaction_patterns()[j];
    lemma_key_marks(j);
    let t = k + a;
    assert(lower_text(k).len() == k.len());
    assert forall|i: int| 0 <= i < t.len() implies !is_space(#[trigger] t[i]) by {
        if i < k.len() {
            assert(t[i] == k[i]);
            assert(lower_text(k)[i] == lower_char(k[i]));
            lemma_lower_keeps_space(k[i]);
        } else {
            assert(t[i] == a[i - k.len()]);
        }
    }
}

/// The text ends with the pattern `j`, in any letter case.
spec fn ends_with_key(g: Seq<char>, j: int) -> bool {
    &&& 0 <= j < redaction_patterns().len()
    &&& occurs_at(lower_text(g), redaction_patterns()[j], g.len() - redaction_patterns()[j].len())
}

/// Where a secret follows a key, a pattern stands nowhere but before the secret.
proof fn lemma_pattern_before_secret(g: Seq<char>, j: int, a: Seq<char>, m: int, i: int)
    requires
        ends_with_key(g, j),
        is_secret(a),
        0 <= m < redaction_patterns().len(),
        occurs_at(lower_text(g + a), redaction_patterns()[m], i),
    ensures
        i + redaction_patterns()[m].len() <= g.len(),
{
    lemma_pattern_ends(j);
    lemma_key_marks(m);
    let p = redaction_patterns()[m];
    let q = redaction_patterns()[j];
    let low = lower_text(g + a);
    let n = g.len() as int;
    assert(low =~= lower_text(g) + lower_text(a));
    assert(lower_text(g).subrange(n - q.len(), n)[q.len() - 1] == lower_text(g)[n - 1]);
    assert(low[n - 1] == q.last());
    let part = low.subrange(i, i + p.len());
    if i >= n {
        assert(lower_text(a).subrange(i - n, i - n + p.len()) =~= part);
        assert(occurs_at(lower_text(a), p, i - n));
    } else if i + p.len() > n {
        assert(part[n - 1 - i] == low[n - 1]);
        assert(p[n - 1 - i] == '=' || p[n - 1 - i] == ':');
    }
}

/// The pattern `m` stands in the same places whatever the secret.
proof fn lemma_pattern_stays(g: Seq<char>, j: int, a: Seq<char>, b: Seq<char>, m: int, i: int)
    requires
        ends_with_key(g, j),
        is_secret(a),
        is_secret(b),
        0 <= m < redaction_patterns().len(),
        occurs_at(lower_text(g + a), redaction_patterns()[m], i),
    ensures
        occurs_at(lower_text(g + b), redaction_patterns()[m], i),
{
    let p = redaction_patterns()[m];
    lemma_pattern_before_secret(g, j, a, m, i);
    assert(lower_text(g + a).subrange(i, i + p.len()) =~= lower_text(g + b).subrange(
        i,
        i + p.len(),
    )) by {
        assert forall|x: int| i <= x < i + p.len() implies lower_text(g + a)[x] == lower_text(
            g + b,
        )[x] by {
            assert((g + a)[x] == g[x]);
            assert((g + b)[x] == g[x]);
        }
    }
}

/// Behind a key, every secret is hidden in the same way.
proof fn lemma_secret_leaves_no_trace(g: Seq<char>, j: int, a: Seq<char>, b: Seq<char>, m: int)
    requires
        ends_with_key(g, j),
        is_secret(a),
        is_secret(b),
        0 <= m <= j,
    ensures
        redacted_from(g + a, m) == redacted_from(g + b, m),
    decreases j - m,
{
    let p = redaction_patterns()[m];
    let x = lower_text(g + a);
    let y = lower_text(g + b);
    lemma_find_from(x, p, 0);
    lemma_find_from(y, p, 0);
    let at = find_from(x, p, 0);
    if let Some(i) = at {
        lemma_pattern_stays(g, j, a, b, m, i);
        lemma_pattern_before_secret(g, j, a, m, i);
    }
    if let Some(i) = find_from(y, p, 0) {
        lemma_pattern_stays(g, j, b, a, m, i);
    }
    assert(find_from(y, p, 0) == at);
    match at {
        Some(i) => {
            let v = i + p.len();
            assert((g + a).take(v) =~= g.take(v));
            assert((g + b).take(v) =~= g.take(v));
        },
        None => {
            if m == j {
                let f = g.len() - p.len();
                assert(x.subrange(f, f + p.len()) =~= lower_text(g).subrange(f, f + p.len())) by {
                    assert forall|c: int| f <= c < f + p.len() implies x[c] == lower_text(g)[c] by {
                        assert((g + a)[c] == g[c]);
                    }
                }
                assert(occurs_at(x, p, f));
            }
            lemma_secret_leaves_no_trace(g, j, a, b, m + 1);
        },
    }
}

/// What is shown of a text does not depend on the secret that stands behind a
/// key in it, whatever comes before the key and after the secret.
pub proof fn law_redaction_forgets_the_value(
    p: Seq<char>,
    k: Seq<char>,
    a: Seq<char>,
    b: Seq<char>,
    s: Seq<char>,
)
    requires
        is_key(k),
        is_secret(a),
        is_secret(b),
        starts_apart(s),
    ensures
        redacted(p + k + a + s) == redacted(p + k + b + s),
{
    let j = choose|j: int|
        0 <= j < redaction_patterns().len() && lower_text(k) == redaction_patterns()[j];
    let before = open_words(p, 0).0;
    let f = open_words(p, 0).1;
    lemma_key_and_secret_are_one_word(k, a);
    lemma_key_and_secret_are_one_word(k, b);
    lemma_words_with_word(p, k + a, 0);
    lemma_words_with_word(p, k + b, 0);
    lemma_words_apart(p + (k + a), s, 0);
    lemma_words_apart(p + (k + b), s, 0);
    assert(p + k + a + s =~= p + (k + a) + s);
    assert(p + k + b + s =~= p + (k + b) + s);
    let g = f + k;
    assert(f + (k + a) =~= g + a);
    assert(f + (k + b) =~= g + b);
    assert(lower_text(k).len() == k.len());
    assert(lower_text(g).subrange(g.len() - k.len(), g.len() as int) =~= lower_text(k)) by {
        assert forall|c: int| 0 <= c < k.len() implies lower_text(g)[f.len() + c] == lower_text(
            k,
        )[c] by {
            assert(g[f.len() + c] == k[c]);
        }
    }
    assert(ends_with_key(g, j));
    lemma_secret_leaves_no_trace(g, j, a, b, 0);
    let x = before.push(g + a) + words(s);
    let y = before.push(g + b) + words(s);
    assert(redacted_tokens(x) =~= redacted_tokens(y)) by {
        assert forall|i: int| 0 <= i < x.len() implies redacted_token(x[i]) == redacted_token(
            y[i],
        ) by {
            if i != before.len() {
                assert(x[i] == y[i]);
            }
        }
    }
}

// ---------------------------------------------------------------------------
// What words are, and what is hidden of them
// ---------------------------------------------------------------------------

/// The words of a text are its runs without white space, in order: a word up to
/// the white space behind it is the first, and white space in front of the rest
/// is passed over.
pub proof fn law_words_lie_between_white_space(w: Seq<char>, c: char, rest: Seq<char>)
    requires
        is_word(w),
        is_space(c),
    ensures
        words(Seq::empty()) == Seq::<Seq<char>>::empty(),
        words(w) == seq![w],
        words(w + (seq![c] + rest)) == seq![w] + words(rest),
        words(seq![c] + rest) == words(rest),
{
    let none = Seq::<char>::empty();
    let apart = seq![c] + rest;
    assert(all_words(seq![w]));
    assert(joined(seq![w], " "@) == w);
    lemma_words_of_joined(none, seq![w]);
    assert(none + w =~= w);
    lemma_words_apart(w, apart, 0);
    lemma_words_move(seq![c], rest, 0);
    assert(apart[0] == c);
    lemma_skip_space(apart, 1);
    assert(skip_space(apart, 0) == skip_space(apart, 1));
    assert(words_from(apart, 0) =~= words_from(apart, 1));
    assert(words(none) =~= Seq::<Seq<char>>::empty());
}

/// The names behind which a value is hidden.
pub open spec fn hiding_names() -> Seq<Seq<char>> {
    seq!["api_key="@, "apikey="@, "token="@, "secret="@, "password="@, "authorization:"@]
}

/// No word of the text holds one of the names.
pub open spec fn hides_nothing(s: Seq<char>) -> bool {
    forall|i: int, k: int|
        0 <= i < words(s).len() && 0 <= k < 6 ==> !has_text(
            lower_text(#[trigger] words(s)[i]),
            #[trigger] hiding_names()[k],
        )
}

/// A text in which no name of a secret stands keeps all of its words.
pub proof fn law_harmless_words_are_kept(s: Seq<char>)
    requires
        hides_nothing(s),
    ensures
        redacted(s) == joined(words(s), " "@),
{
    let ws = words(s);
    assert forall|i: int| 0 <= i < ws.len() implies redacted_token(#[trigger] ws[i]) == ws[i] by {
        let t = ws[i];
        assert forall|m: int| 0 <= m < redaction_patterns().len() implies value_start(
            t,
            #[trigger] redaction_patterns()[m],
        ) is None by {
            lemma_find_from(lower_text(t), redaction_patterns()[m], 0);
            assert(redaction_patterns()[m] == hiding_names()[m]);
            assert(!has_text(lower_text(ws[i]), hiding_names()[m]));
        }
        lemma_nothing_to_hide(t, 0);
    }
    assert(redacted_tokens(ws) =~= ws);
}

/// A word with the name of a secret, in whatever case, and something behind it
/// keeps what stands up to the name and the name, and the mark stands for the
/// rest.
pub proof fn law_named_values_are_hidden(front: Seq<char>, name: Seq<char>, value: Seq<char>, k: int)
    requires
        is_word(front + name + value),
        0 <= k < 6,
        lower_text(name) == hiding_names()[k],
        value.len() > 0,
        forall|i: int|
            i != front.len() ==> !#[trigger] occurs_at(
                lower_text(front + name + value),
                hiding_names()[k],
                i,
            ),
        forall|m: int|
            0 <= m < 6 && m != k ==> !has_text(
                lower_text(front + name + value),
                #[trigger] hiding_names()[m],
            ),
    ensures
        redacted(front + name + value) == front + name + "[REDACTED]"@,
{
    let t = front + name + value;
    let low = lower_text(t);
    let p = hiding_names()[k];
    let f = front.len() as int;
    assert(p.len() == name.len());
    assert(low.subrange(f, f + p.len()) =~= p) by {
        assert forall|j: int| 0 <= j < p.len() implies low[f + j] == p[j] by {
            assert(t[f + j] == name[j]);
            assert(lower_text(name)[j] == p[j]);
        }
    }
    assert(occurs_at(low, p, f));
    lemma_find_from(low, p, 0);
    assert(redaction_patterns()[k] == p);
    assert(value_start(t, redaction_patterns()[k]) == Some(f + p.len()));
    assert forall|m: int| 0 <= m < k implies value_start(t, #[trigger] redaction_patterns()[m])
        is None by {
        assert(redaction_patterns()[m] == hiding_names()[m]);
        lemma_find_from(low, redaction_patterns()[m], 0);
        assert(!has_text(low, hiding_names()[m]));
    }
    law_value_is_hidden(t, k);
    law_words_lie_between_white_space(t, ' ', Seq::empty());
    assert(redacted_tokens(words(t)) =~= seq![redacted_token(t)]);
    assert(t.take(f + p.len()) =~= front + name);
}

} // verus!
