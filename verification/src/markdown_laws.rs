//! What holds of markdown that is set for the terminal: nothing of what was
//! written is lost, repeated or moved.
use vstd::prelude::*;

use crate::ink::{ink, is_ink, is_style_char, is_unstyled, lemma_all_columns, lemma_blank, lemma_ink_of_trimmed, lemma_ink_on, lemma_style, lemma_unstyled, marks_from, settled, settled_from, style_at, style_end};
use crate::terminal_markdown::{ansi_text, bullet, code_end, code_from, heading, heading_text, inline_from, mark_start, markdown_line, muted_text, numbered, url_text, url_word, urls_from};

use crate::text::{find_from, has_prefix, lemma_find_from, lemma_next_char, next_char, occurs_at, repeated, replaced, replaced_from, trimmed, word_end};
use crate::text_laws::is_free_of;

verus! {

// ---------------------------------------------------------------------------
// What a piece shows
// ---------------------------------------------------------------------------

/// A styled text shows what the plain text `s` says, and has no bar and no line
/// feed where `s` has none.
pub open spec fn shows(r: Seq<char>, s: Seq<char>) -> bool {
    &&& settled(r)
    &&& ink(r) == ink(s)
    &&& is_free_of(s, '|') ==> is_free_of(r, '|')
    &&& is_free_of(s, '\n') ==> is_free_of(r, '\n')
}

pub proof fn lemma_shows_itself(s: Seq<char>)
    requires
        is_unstyled(s),
    ensures
        shows(s, s),
{
    lemma_unstyled(s);
}

proof fn lemma_shows_on(a: Seq<char>, x: Seq<char>, b: Seq<char>, y: Seq<char>)
    requires
        shows(a, x),
        shows(b, y),
        is_unstyled(x),
    ensures
        shows(a + b, x + y),
{
    lemma_ink_on(a, b);
    lemma_unstyled(x);
    lemma_ink_on(x, y);
    if is_free_of(x + y, '|') {
        assert forall|i: int| 0 <= i < x.len() implies #[trigger] x[i] != '|' by {
            assert((x + y)[i] == x[i]);
        }
        assert forall|i: int| 0 <= i < y.len() implies #[trigger] y[i] != '|' by {
            assert((x + y)[x.len() + i] == y[i]);
        }
    }
    if is_free_of(x + y, '\n') {
        assert forall|i: int| 0 <= i < x.len() implies #[trigger] x[i] != '\n' by {
            assert((x + y)[i] == x[i]);
        }
        assert forall|i: int| 0 <= i < y.len() implies #[trigger] y[i] != '\n' by {
            assert((x + y)[x.len() + i] == y[i]);
        }
    }
}

/// A style shows no more than signs without ink do.
proof fn lemma_style_shows(code: Seq<char>, sign: Seq<char>)
    requires
        forall|i: int| 0 <= i < code.len() ==> is_style_char(#[trigger] code[i]),
        is_unstyled(sign),
        forall|i: int| 0 <= i < sign.len() ==> !is_ink(#[trigger] sign[i]),
    ensures
        shows("\x1b["@ + code + "m"@, sign),
{
    reveal_strlit("\x1b[");
    reveal_strlit("m");
    lemma_style(code);
    lemma_blank(sign);
    let s = "\x1b["@ + code + "m"@;
    assert forall|i: int| 0 <= i < s.len() implies #[trigger] s[i] != '|' && s[i] != '\n' by {
        if 2 <= i < 2 + code.len() {
            assert(s[i] == code[i - 2]);
        }
    }
}

proof fn lemma_reset_shows(sign: Seq<char>)
    requires
        is_unstyled(sign),
        forall|i: int| 0 <= i < sign.len() ==> !is_ink(#[trigger] sign[i]),
    ensures
        shows("\x1b[0m"@, sign),
        shows("\x1b[1m"@, sign),
        shows("\x1b[38;2;125;207;255m"@, sign),
        shows(code_end(true), sign),
        shows(code_end(false), sign),
{
    reveal_strlit("\x1b[0m");
    reveal_strlit("\x1b[1m");
    reveal_strlit("\x1b[38;2;125;207;255m");
    reveal_strlit("\x1b[");
    reveal_strlit("m");
    let none = Seq::<char>::empty();
    assert("\x1b[0m"@ =~= "\x1b["@ + seq!['0'] + "m"@);
    lemma_style_shows(seq!['0'], sign);
    lemma_style_shows(seq!['0'], none);
    assert("\x1b[1m"@ =~= "\x1b["@ + seq!['1'] + "m"@);
    lemma_style_shows(seq!['1'], sign);
    let code = seq!['3', '8', ';', '2', ';', '1', '2', '5', ';', '2', '0', '7', ';', '2', '5', '5'];
    assert("\x1b[38;2;125;207;255m"@ =~= "\x1b["@ + code + "m"@);
    lemma_style_shows(code, sign);
    lemma_shows_on("\x1b[0m"@, none, "\x1b[1m"@, sign);
    assert(none + sign =~= sign);
    assert(code_end(true) =~= "\x1b[0m"@ + "\x1b[1m"@);
    assert(code_end(false) =~= "\x1b[0m"@);
}

/// A text in a style shows the text.
pub proof fn lemma_styled_shows(code: Seq<char>, r: Seq<char>, s: Seq<char>)
    requires
        forall|i: int| 0 <= i < code.len() ==> is_style_char(#[trigger] code[i]),
        shows(r, s),
        is_unstyled(s),
    ensures
        shows(ansi_text(code, r), s),
{
    let none = Seq::<char>::empty();
    lemma_style_shows(code, none);
    lemma_reset_shows(none);
    lemma_shows_on("\x1b["@ + code + "m"@, none, r, s);
    assert(none + s =~= s);
    lemma_shows_on("\x1b["@ + code + "m"@ + r, s, "\x1b[0m"@, none);
    assert(s + none =~= s);
}

// ---------------------------------------------------------------------------
// Inline text
// ---------------------------------------------------------------------------

proof fn lemma_mark_start(s: Seq<char>, n: int)
    requires
        0 <= n <= s.len(),
    ensures
        0 <= mark_start(s, n) <= n,
    decreases n,
{
    if 0 < n {
        lemma_mark_start(s, n - 1);
    }
}

proof fn lemma_url_word(s: Seq<char>)
    requires
        is_unstyled(s),
    ensures
        shows(url_word(s), s),
{
    reveal_strlit("38;2;125;207;255");
    lemma_shows_itself(s);
    lemma_mark_start(s, s.len() as int);
    let k = mark_start(s, s.len() as int);
    let body = s.take(k);
    let rest = s.skip(k);
    assert(body + rest =~= s);
    lemma_shows_itself(body);
    lemma_shows_itself(rest);
    lemma_styled_shows("38;2;125;207;255"@, body, body);
    lemma_shows_on(url_text(body), body, rest, rest);
}

proof fn lemma_urls(s: Seq<char>, i: int)
    requires
        is_unstyled(s),
        0 <= i <= s.len(),
    ensures
        shows(urls_from(s, i), s.skip(i)),
    decreases s.len() - i,
{
    if i == s.len() {
        assert(s.skip(i) =~= Seq::<char>::empty());
        lemma_shows_itself(Seq::empty());
    } else {
        crate::text::lemma_word_end(s, i);
        let e = word_end(s, i);
        if e < s.len() {
            let word = s.subrange(i, e);
            let gap = seq![s[e]];
            lemma_url_word(word);
            lemma_shows_itself(gap);
            lemma_urls(s, e + 1);
            lemma_shows_on(url_word(word), word, gap, gap);
            lemma_shows_on(url_word(word) + gap, word + gap, urls_from(s, e + 1), s.skip(e + 1));
            assert(word + gap + s.skip(e + 1) =~= s.skip(i));
        } else {
            lemma_url_word(s.skip(i));
        }
    }
}

proof fn lemma_urls_whole(s: Seq<char>)
    requires
        is_unstyled(s),
    ensures
        shows(urls_from(s, 0), s),
{
    lemma_urls(s, 0);
    assert(s.skip(0) =~= s);
}

proof fn lemma_code(s: Seq<char>, i: int, code: bool, bold: bool)
    requires
        is_unstyled(s),
        0 <= i <= s.len(),
    ensures
        shows(code_from(s, i, code, bold), s.skip(i)),
    decreases s.len() - i,
{
    lemma_next_char(s, '`', i);
    let e = next_char(s, '`', i);
    let none = Seq::<char>::empty();
    if e < s.len() {
        let part = s.subrange(i, e);
        let tick = seq!['`'];
        let style = if code {
            code_end(bold)
        } else {
            "\x1b[38;2;125;207;255m"@
        };
        lemma_urls_whole(part);
        lemma_reset_shows(tick);
        lemma_code(s, e + 1, !code, bold);
        lemma_shows_on(urls_from(part, 0), part, style, tick);
        lemma_shows_on(
            urls_from(part, 0) + style,
            part + tick,
            code_from(s, e + 1, !code, bold),
            s.skip(e + 1),
        );
        assert(part + tick + s.skip(e + 1) =~= s.skip(i));
    } else {
        lemma_urls_whole(s.skip(i));
        lemma_reset_shows(none);
        lemma_shows_itself(none);
        let end = if code {
            code_end(bold)
        } else {
            none
        };
        lemma_shows_on(urls_from(s.skip(i), 0), s.skip(i), end, none);
        assert(s.skip(i) + none =~= s.skip(i));
    }
}

proof fn lemma_code_whole(s: Seq<char>, bold: bool)
    requires
        is_unstyled(s),
    ensures
        shows(code_from(s, 0, false, bold), s),
{
    lemma_code(s, 0, false, bold);
    assert(s.skip(0) =~= s);
}

proof fn lemma_inline_from(s: Seq<char>, i: int, bold: bool)
    requires
        is_unstyled(s),
        0 <= i <= s.len(),
    ensures
        shows(inline_from(s, i, bold), s.skip(i)),
    decreases s.len() - i,
{
    reveal_strlit("**");
    let none = Seq::<char>::empty();
    lemma_find_from(s, "**"@, i);
    match find_from(s, "**"@, i) {
        Some(k) => {
            let part = s.subrange(i, k);
            let stars = seq!['*', '*'];
            assert(s.subrange(k, k + 2) =~= stars) by {
                assert("**"@ =~= stars);
            }
            let style = if bold {
                "\x1b[0m"@
            } else {
                "\x1b[1m"@
            };
            lemma_code_whole(part, bold);
            lemma_reset_shows(stars);
            lemma_inline_from(s, k + 2, !bold);
            lemma_shows_on(code_from(part, 0, false, bold), part, style, stars);
            lemma_shows_on(
                code_from(part, 0, false, bold) + style,
                part + stars,
                inline_from(s, k + 2, !bold),
                s.skip(k + 2),
            );
            assert(s.skip(i) =~= part + s.subrange(k, k + 2) + s.skip(k + 2));
        },
        None => {
            lemma_code_whole(s.skip(i), bold);
            lemma_reset_shows(none);
            lemma_shows_itself(none);
            let end = if bold {
                "\x1b[0m"@
            } else {
                none
            };
            lemma_shows_on(code_from(s.skip(i), 0, false, bold), s.skip(i), end, none);
            assert(s.skip(i) + none =~= s.skip(i));
        },
    }
}

pub proof fn lemma_inline(s: Seq<char>)
    requires
        is_unstyled(s),
    ensures
        shows(crate::terminal_markdown::inline(s), s),
{
    lemma_inline_from(s, 0, false);
    assert(s.skip(0) =~= s);
}

/// Styling loses nothing: what is seen of a text with bold, code and addresses
/// in it is the text, without the stars and ticks.
pub proof fn law_inline_styles_lose_nothing(s: Seq<char>)
    requires
        is_unstyled(s),
    ensures
        ink(crate::terminal_markdown::inline(s)) == ink(s),
        settled(crate::terminal_markdown::inline(s)),
{
    lemma_inline(s);
}

/// A text without signs that mean something is shown as it is.
pub proof fn law_plain_text_is_shown_as_it_is(s: Seq<char>)
    requires
        is_free_of(s, '`'),
        is_free_of(s, '*'),
        is_free_of(s, ':'),
    ensures
        crate::terminal_markdown::inline(s) == s,
{
    reveal_strlit("**");
    lemma_find_from(s, "**"@, 0);
    if let Some(k) = find_from(s, "**"@, 0) {
        assert(s.subrange(k, k + 2)[0] == s[k]);
    }
    assert(s.skip(0) =~= s);
    lemma_next_char(s, '`', 0);
    lemma_no_urls(s, 0);
    let none = Seq::<char>::empty();
    assert(s + none =~= s);
}

proof fn lemma_no_urls(s: Seq<char>, i: int)
    requires
        is_free_of(s, ':'),
        0 <= i <= s.len(),
    ensures
        urls_from(s, i) == s.skip(i),
    decreases s.len() - i,
{
    if i < s.len() {
        crate::text::lemma_word_end(s, i);
        let e = word_end(s, i);
        if e < s.len() {
            let word = s.subrange(i, e);
            lemma_no_url_word(word);
            lemma_no_urls(s, e + 1);
            assert(word + seq![s[e]] + s.skip(e + 1) =~= s.skip(i));
        } else {
            lemma_no_url_word(s.skip(i));
        }
    } else {
        assert(s.skip(i) =~= Seq::<char>::empty());
    }
}

proof fn lemma_no_url_word(s: Seq<char>)
    requires
        is_free_of(s, ':'),
    ensures
        url_word(s) == s,
{
    reveal_strlit("http://");
    reveal_strlit("https://");
    lemma_mark_start(s, s.len() as int);
    let body = s.take(mark_start(s, s.len() as int));
    if has_prefix(body, "http://"@) {
        assert(body.subrange(0, 7)[4] == body[4]);
        assert(body[4] == s[4]);
    }
    if has_prefix(body, "https://"@) {
        assert(body.subrange(0, 8)[5] == body[5]);
        assert(body[5] == s[5]);
    }
}

/// What stands between double stars is bold, and the rest is as it was.
pub proof fn law_stars_are_bold(
    before: Seq<char>,
    inside: Seq<char>,
    after: Seq<char>,
)
    requires
        is_free_of(before, '`') && is_free_of(before, '*') && is_free_of(before, ':'),
        is_free_of(inside, '`') && is_free_of(inside, '*') && is_free_of(inside, ':'),
        is_free_of(after, '`') && is_free_of(after, '*') && is_free_of(after, ':'),
    ensures
        crate::terminal_markdown::inline(before + "**"@ + inside + "**"@ + after) == before + "\x1b[1m"@ + inside
            + "\x1b[0m"@ + after,
{
    reveal_strlit("**");
    let s = before + "**"@ + inside + "**"@ + after;
    let a = before.len() as int;
    let b = a + 2 + inside.len();
    let c = b + 2;
    assert forall|j: int| 0 <= j < s.len() && j != a && j != a + 1 && j != b && j != b + 1 implies
        #[trigger] s[j] != '*' by {
        if j < a {
            assert(s[j] == before[j]);
        } else if j < b {
            assert(s[j] == inside[j - a - 2]);
        } else {
            assert(s[j] == after[j - c]);
        }
    }
    assert(s.subrange(a, a + 2) =~= "**"@);
    assert(s.subrange(b, b + 2) =~= "**"@);
    lemma_find_from(s, "**"@, 0);
    let x = find_from(s, "**"@, 0)->Some_0;
    assert(occurs_at(s, "**"@, a));
    assert(x == a) by {
        assert(s.subrange(x, x + 2)[0] == s[x]);
    }
    lemma_find_from(s, "**"@, a + 2);
    assert(occurs_at(s, "**"@, b));
    let y = find_from(s, "**"@, a + 2)->Some_0;
    assert(y == b) by {
        assert(s.subrange(y, y + 2)[0] == s[y]);
    }
    lemma_find_from(s, "**"@, c);
    if let Some(z) = find_from(s, "**"@, c) {
        assert(s.subrange(z, z + 2)[0] == s[z]);
    }
    assert(s.subrange(0, a) =~= before);
    assert(s.subrange(a + 2, b) =~= inside);
    assert(s.skip(c) =~= after);
    lemma_no_code(before, false);
    lemma_no_code(inside, true);
    lemma_no_code(after, false);
    let none = Seq::<char>::empty();
    assert(after + none =~= after);
    assert(inline_from(s, c, false) == after);
    assert(inline_from(s, a + 2, true) == inside + "\x1b[0m"@ + after);
    assert(crate::terminal_markdown::inline(s) =~= before + "\x1b[1m"@ + inside + "\x1b[0m"@ + after);
}

/// What stands between ticks is code, and the rest is as it was.
pub proof fn law_ticks_are_code(before: Seq<char>, inside: Seq<char>, after: Seq<char>)
    requires
        is_free_of(before, '`') && is_free_of(before, '*') && is_free_of(before, ':'),
        is_free_of(inside, '`') && is_free_of(inside, '*') && is_free_of(inside, ':'),
        is_free_of(after, '`') && is_free_of(after, '*') && is_free_of(after, ':'),
    ensures
        crate::terminal_markdown::inline(before + "`"@ + inside + "`"@ + after) == before
            + "\x1b[38;2;125;207;255m"@ + inside + "\x1b[0m"@ + after,
{
    reveal_strlit("**");
    reveal_strlit("`");
    let a = before.len() as int;
    let t = before + "`"@ + inside + "`"@ + after;
    let p = a + 1 + inside.len();
    assert forall|j: int| 0 <= j < t.len() implies #[trigger] t[j] != '*' by {
        if j < a {
            assert(t[j] == before[j]);
        } else if a < j < p {
            assert(t[j] == inside[j - a - 1]);
        } else if j > p {
            assert(t[j] == after[j - p - 1]);
        }
    }
    lemma_find_from(t, "**"@, 0);
    if let Some(z) = find_from(t, "**"@, 0) {
        assert(t.subrange(z, z + 2)[0] == t[z]);
    }
    assert(t.skip(0) =~= t);
    assert(t[a] == '`' && t[p] == '`');
    lemma_next_char(t, '`', 0);
    assert(next_char(t, '`', 0) == a) by {
        let e = next_char(t, '`', 0);
        if e < a {
            assert(t[e] == before[e]);
        }
    }
    lemma_next_char(t, '`', a + 1);
    assert(next_char(t, '`', a + 1) == p) by {
        let e = next_char(t, '`', a + 1);
        if e < p {
            assert(t[e] == inside[e - a - 1]);
        }
    }
    lemma_next_char(t, '`', p + 1);
    assert(next_char(t, '`', p + 1) == t.len()) by {
        let e = next_char(t, '`', p + 1);
        if e < t.len() {
            assert(t[e] == after[e - p - 1]);
        }
    }
    assert(t.subrange(0, a) =~= before);
    assert(t.subrange(a + 1, p) =~= inside);
    assert(t.skip(p + 1) =~= after);
    lemma_no_urls(before, 0);
    lemma_no_urls(inside, 0);
    lemma_no_urls(after, 0);
    assert(before.skip(0) =~= before && inside.skip(0) =~= inside && after.skip(0) =~= after);
    assert(code_from(t, p + 1, false, false) =~= after);
    assert(code_from(t, a + 1, true, false) =~= inside + "\x1b[0m"@ + after);
    assert(code_from(t, 0, false, false) =~= before + "\x1b[38;2;125;207;255m"@ + inside
        + "\x1b[0m"@ + after);
    assert(crate::terminal_markdown::inline(t) =~= code_from(t, 0, false, false));
}

proof fn lemma_no_code(s: Seq<char>, bold: bool)
    requires
        is_free_of(s, '`'),
        is_free_of(s, ':'),
    ensures
        code_from(s, 0, false, bold) == s,
{
    lemma_next_char(s, '`', 0);
    assert(s.skip(0) =~= s);
    lemma_no_urls(s, 0);
    assert(s + Seq::<char>::empty() =~= s);
}

// ---------------------------------------------------------------------------
// Lines
// ---------------------------------------------------------------------------

proof fn lemma_copied(s: Seq<char>, p: Seq<char>, q: Seq<char>, i: int, k: int)
    requires
        0 <= i <= k <= s.len(),
        p.len() > 0,
        forall|j: int| i <= j < k ==> #[trigger] s[j] != p[0],
    ensures
        replaced_from(s, p, q, i) == s.subrange(i, k) + replaced_from(s, p, q, k),
    decreases k - i,
{
    if i < k {
        if occurs_at(s, p, i) {
            assert(s.subrange(i, i + p.len())[0] == s[i]);
        }
        lemma_copied(s, p, q, i + 1, k);
        assert(seq![s[i]] + (s.subrange(i + 1, k) + replaced_from(s, p, q, k)) =~= s.subrange(i, k)
            + replaced_from(s, p, q, k));
    } else {
        assert(s.subrange(i, k) + replaced_from(s, p, q, k) =~= replaced_from(s, p, q, k));
    }
}

/// A style that goes on after each reset changes nothing of what is seen.
proof fn lemma_resumed(s: Seq<char>, q: Seq<char>, i: int)
    requires
        0 <= i <= s.len(),
        settled_from(s, i),
        settled(q),
        ink(q) == Seq::<char>::empty(),
    ensures
        settled(replaced_from(s, "\x1b[0m"@, q, i)),
        ink(replaced_from(s, "\x1b[0m"@, q, i)) == marks_from(s, i, 0, -1),
    decreases s.len() - i,
{
    reveal_strlit("\x1b[0m");
    let p = "\x1b[0m"@;
    if i == s.len() {
        lemma_unstyled(Seq::empty());
    } else if s[i] == '\x1b' {
        let e = style_end(s, i + 2);
        lemma_resumed(s, q, e);
        let rest = replaced_from(s, p, q, e);
        if occurs_at(s, p, i) {
            assert(s.subrange(i, i + 4)[2] == s[i + 2]);
            assert(s.subrange(i, i + 4)[3] == s[i + 3]);
            assert(style_end(s, i + 3) == i + 4);
            assert(e == i + 4);
            lemma_ink_on(q, rest);
            assert(Seq::<char>::empty() + ink(rest) =~= ink(rest));
        } else {
            let style = s.subrange(i, e);
            lemma_style_part(s, i);
            assert(seq![s[i]] + (s.subrange(i + 1, e) + rest) =~= style + rest);
            lemma_copied(s, p, q, i + 1, e);
            lemma_ink_on(style, rest);
            assert(Seq::<char>::empty() + ink(rest) =~= ink(rest));
        }
    } else {
        if occurs_at(s, p, i) {
            assert(s.subrange(i, i + 4)[0] == s[i]);
        }
        lemma_resumed(s, q, i + 1);
        let rest = replaced_from(s, p, q, i + 1);
        let one = seq![s[i]];
        lemma_unstyled(one);
        lemma_ink_on(one, rest);
        lemma_one_mark(s, i);
    }
}

/// The style at index `i`, for itself.
proof fn lemma_style_part(s: Seq<char>, i: int)
    requires
        style_at(s, i),
    ensures
        settled(s.subrange(i, style_end(s, i + 2))),
        ink(s.subrange(i, style_end(s, i + 2))) == Seq::<char>::empty(),
        forall|j: int| i + 1 <= j < style_end(s, i + 2) ==> #[trigger] s[j] != '\x1b',
{
    reveal_strlit("\x1b[");
    reveal_strlit("m");
    let e = style_end(s, i + 2);
    lemma_style_body(s, i + 2);
    let code = s.subrange(i + 2, e - 1);
    assert(s.subrange(i, e) =~= "\x1b["@ + code + "m"@);
    lemma_style(code);
}

proof fn lemma_style_body(s: Seq<char>, i: int)
    requires
        0 <= i < style_end(s, i) <= s.len(),
        s[style_end(s, i) - 1] == 'm',
    ensures
        forall|j: int| i <= j < style_end(s, i) - 1 ==> is_style_char(#[trigger] s[j]),
    decreases s.len() - i,
{
    if is_style_char(s[i]) {
        if style_end(s, i + 1) > i + 1 {
            lemma_style_body(s, i + 1);
        }
    }
}

proof fn lemma_one_mark(s: Seq<char>, i: int)
    requires
        0 <= i < s.len(),
        s[i] != '\x1b',
    ensures
        marks_from(s, i, 0, -1) == ink(seq![s[i]]) + marks_from(s, i + 1, 0, -1),
{
    let one = seq![s[i]];
    let none = Seq::<char>::empty();
    let mark = if is_ink(s[i]) {
        one
    } else {
        none
    };
    let next = if s[i] == '|' {
        1int
    } else {
        0int
    };
    assert(marks_from(one, 1, next, -1) == none);
    assert(one[0] == s[i]);
    assert(ink(one) == mark + none);
    assert(mark + none =~= mark);
    lemma_all_columns(s, i + 1, next, 0);
}

proof fn lemma_heading_text(level: int, text: Seq<char>)
    requires
        is_unstyled(text),
    ensures
        settled(heading_text(level, text)),
        ink(heading_text(level, text)) == ink(text),
{
    reveal_strlit("36;1");
    reveal_strlit("94;1");
    reveal_strlit("\x1b[0m");
    let none = Seq::<char>::empty();
    let code = if level <= 2 {
        "36;1"@
    } else {
        "94;1"@
    };
    let q = "\x1b[0m"@ + "\x1b["@ + code + "m"@;
    lemma_inline(text);
    lemma_reset_shows(none);
    lemma_style(code);
    lemma_ink_on("\x1b[0m"@, "\x1b["@ + code + "m"@);
    assert(q =~= "\x1b[0m"@ + ("\x1b["@ + code + "m"@));
    assert(none + none =~= none);
    lemma_resumed(crate::terminal_markdown::inline(text), q, 0);
    let body = replaced(crate::terminal_markdown::inline(text), "\x1b[0m"@, q);
    lemma_ink_on("\x1b["@ + code + "m"@, body);
    lemma_ink_on("\x1b["@ + code + "m"@ + body, "\x1b[0m"@);
    assert(none + ink(body) + none =~= ink(body));
}

proof fn lemma_signs(s: Seq<char>, sign: Seq<char>, rest: Seq<char>)
    requires
        is_unstyled(s),
        s == sign + rest,
        forall|i: int| 0 <= i < sign.len() ==> !is_ink(#[trigger] sign[i]),
    ensures
        ink(s) == ink(rest),
        is_unstyled(rest),
{
    assert forall|i: int| 0 <= i < sign.len() implies #[trigger] sign[i] != '\x1b' by {
        assert(s[i] == sign[i]);
    }
    assert forall|i: int| 0 <= i < rest.len() implies #[trigger] rest[i] != '\x1b' by {
        assert(s[sign.len() + i] == rest[i]);
    }
    lemma_blank(sign);
    lemma_ink_on(sign, rest);
    assert(Seq::<char>::empty() + ink(rest) =~= ink(rest));
}

/// A line with its end shows what the line shows.
proof fn lemma_ended(r: Seq<char>)
    requires
        settled(r),
    ensures
        settled(r + "\n"@),
        ink(r + "\n"@) == ink(r),
{
    reveal_strlit("\n");
    lemma_blank("\n"@);
    lemma_ink_on(r, "\n"@);
    assert(ink(r) + Seq::<char>::empty() =~= ink(r));
}

/// A list item: the marker, a space and the body.
proof fn lemma_item(marker: Seq<char>, body: Seq<char>)
    requires
        is_unstyled(marker),
        is_unstyled(body),
    ensures
        ({
            let r = crate::terminal_markdown::marker_text(marker) + " "@ + crate::terminal_markdown::inline(body) + "\n"@;
            settled(r) && ink(r) == ink(marker) + ink(body)
        }),
{
    reveal_strlit("38;2;187;154;247");
    reveal_strlit(" ");
    let m = crate::terminal_markdown::marker_text(marker);
    lemma_shows_itself(marker);
    lemma_styled_shows("38;2;187;154;247"@, marker, marker);
    lemma_blank(" "@);
    lemma_ink_on(m, " "@);
    lemma_inline(body);
    lemma_ink_on(m + " "@, crate::terminal_markdown::inline(body));
    lemma_ended(m + " "@ + crate::terminal_markdown::inline(body));
    assert(ink(marker) + Seq::<char>::empty() =~= ink(marker));
}

/// A line shows what it says: the signs of headings and lists become styles and
/// markers, and no letter is lost, repeated or moved.
pub proof fn law_lines_show_what_they_say(line: Seq<char>)
    requires
        is_unstyled(line),
    ensures
        settled(markdown_line(line)),
        ink(markdown_line(line)) == ink(line),
{
    reveal_strlit("\n");
    reveal_strlit("### ");
    reveal_strlit("## ");
    reveal_strlit("# ");
    reveal_strlit("---");
    reveal_strlit("- ");
    reveal_strlit("* ");
    reveal_strlit("+ ");
    reveal_strlit("-");
    reveal_strlit("90");
    let none = Seq::<char>::empty();
    let s = trimmed(line);
    lemma_ink_of_trimmed(line);
    lemma_blank("\n"@);
    if s.len() == 0 {
        lemma_blank(s);
    } else {
        match heading(s) {
            Some(h) => {
                let n = s.len() - h.1.len();
                assert(s =~= s.take(n) + h.1);
                if has_prefix(s, "### "@) {
                    assert(s.take(n) =~= "### "@);
                } else if has_prefix(s, "## "@) {
                    assert(s.take(n) =~= "## "@);
                } else {
                    assert(s.take(n) =~= "# "@);
                }
                lemma_signs(s, s.take(n), h.1);
                lemma_heading_text(h.0, h.1);
                lemma_ended(heading_text(h.0, h.1));
            },
            None => {
                if s == "---"@ {
                    let dashes = repeated('-', 40);
                    lemma_blank(dashes);
                    lemma_blank(s);
                    lemma_shows_itself(dashes);
                    lemma_styled_shows("90"@, dashes, dashes);
                    lemma_ended(muted_text(dashes));
                } else {
                    match bullet(s) {
                        Some(body) => {
                            assert(s =~= s.take(2) + body);
                            assert(s.take(2)[0] == '-' || s.take(2)[0] == '*' || s.take(2)[0]
                                == '+') by {
                                assert(s.subrange(0, 2)[0] == s[0]);
                            }
                            assert(s.take(2)[1] == ' ') by {
                                assert(s.subrange(0, 2)[1] == s[1]);
                            }
                            lemma_signs(s, s.take(2), body);
                            lemma_blank("-"@);
                            lemma_item("-"@, body);
                            assert(none + ink(body) =~= ink(body));
                        },
                        None => match numbered(s) {
                            Some(item) => {
                                let e = next_char(s, ' ', 0);
                                lemma_next_char(s, ' ', 0);
                                let gap = seq![' '];
                                assert(s =~= item.0 + gap + item.1);
                                assert(is_unstyled(item.0) && is_unstyled(item.1));
                                lemma_item(item.0, item.1);
                                lemma_unstyled(item.0);
                                lemma_blank(gap);
                                lemma_ink_on(item.0, gap);
                                lemma_ink_on(item.0 + gap, item.1);
                                assert(ink(item.0) + none =~= ink(item.0));
                            },
                            None => {
                                lemma_inline(line);
                                lemma_ended(crate::terminal_markdown::inline(line));
                            },
                        },
                    }
                }
            },
        }
    }
}

/// A heading is set in its style, a bullet and a number become markers.
pub proof fn law_headings_and_items_are_marked(text: Seq<char>)
    requires
        text.len() > 0,
        !crate::text::is_space(text[0]),
        !crate::text::is_space(text.last()),
        is_free_of(text, '`') && is_free_of(text, '*') && is_free_of(text, ':'),
        is_unstyled(text),
    ensures
        markdown_line("# "@ + text) == "\x1b["@ + "36;1"@ + "m"@ + text + "\x1b[0m"@ + "\n"@,
        markdown_line("## "@ + text) == "\x1b["@ + "36;1"@ + "m"@ + text + "\x1b[0m"@ + "\n"@,
        markdown_line("### "@ + text) == "\x1b["@ + "94;1"@ + "m"@ + text + "\x1b[0m"@ + "\n"@,
        markdown_line("- "@ + text) == "\x1b["@ + "38;2;187;154;247"@ + "m"@ + "-"@ + "\x1b[0m"@
            + " "@ + text + "\n"@,
{
    reveal_strlit("### ");
    reveal_strlit("## ");
    reveal_strlit("# ");
    reveal_strlit("- ");
    reveal_strlit("---");
    reveal_strlit("\x1b[0m");
    let none = Seq::<char>::empty();
    law_plain_text_is_shown_as_it_is(text);
    lemma_reset_absent(text);
    let one = "# "@ + text;
    let two = "## "@ + text;
    let three = "### "@ + text;
    let dash = "- "@ + text;
    lemma_line_is_trimmed(one);
    lemma_line_is_trimmed(two);
    lemma_line_is_trimmed(three);
    lemma_line_is_trimmed(dash);
    assert(three.subrange(0, 4) =~= "### "@);
    assert(three.skip(4) =~= text);
    assert(two.subrange(0, 3) =~= "## "@);
    assert(two.skip(3) =~= text);
    if two.len() >= 4 {
        assert(two.subrange(0, 4)[2] == ' ');
    }
    assert(!has_prefix(two, "### "@));
    assert(one.subrange(0, 2) =~= "# "@);
    assert(one.skip(2) =~= text);
    if one.len() >= 4 {
        assert(one.subrange(0, 4)[1] == ' ');
    }
    assert(!has_prefix(one, "### "@));
    assert(one.subrange(0, 3)[1] == ' ');
    assert(!has_prefix(one, "## "@));
    assert(dash.subrange(0, 2) =~= "- "@);
    assert(dash.skip(2) =~= text);
    if dash.len() >= 4 {
        assert(dash.subrange(0, 4)[0] == '-');
    }
    assert(dash.subrange(0, 3)[0] == '-');
    assert(!has_prefix(dash, "### "@) && !has_prefix(dash, "## "@) && !has_prefix(dash, "# "@)) by {
        assert(dash.subrange(0, 2)[0] == '-');
    }
    assert(dash[1] == ' ');
    assert(dash != "---"@);
}

proof fn lemma_line_is_trimmed(s: Seq<char>)
    requires
        s.len() > 0,
        !crate::text::is_space(s[0]),
        !crate::text::is_space(s.last()),
    ensures
        trimmed(s) == s,
{
    let none = Seq::<char>::empty();
    crate::text_laws::law_trimming_drops_outer_space(none, s, none);
    assert(none + s + none =~= s);
}

proof fn lemma_reset_absent(text: Seq<char>)
    requires
        is_unstyled(text),
    ensures
        forall|q: Seq<char>| #[trigger] replaced(text, "\x1b[0m"@, q) == text,
{
    reveal_strlit("\x1b[0m");
    assert forall|q: Seq<char>| #[trigger] replaced(text, "\x1b[0m"@, q) == text by {
        assert forall|i: int| !occurs_at(text, "\x1b[0m"@, i) by {
            if occurs_at(text, "\x1b[0m"@, i) {
                assert(text.subrange(i, i + 4)[0] == text[i]);
            }
        }
        crate::text_laws::law_nothing_to_replace(text, "\x1b[0m"@, q);
    }
}

} // verus!
