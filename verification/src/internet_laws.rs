//! What searches and fetches show.
use vstd::prelude::*;

use crate::internet::{brave_entry, count_at_most, fetch_next, fetched_content, is_restricted, kept_bytes, page_text, response_text, search_text, tavily_entry, BraveResult, EntryView, FetchFormat, FetchStepView, NetAddress, SearchProvider, TavilyResult};
use crate::internet::{bare_host, brave_pair_names, brave_pair_values, context_found, fetch_host, search_failure, search_prompt, tavily_value, untagged, UrlView};
use crate::provider::MessageView;
use crate::internet::{bare_url, context_plan, decoded, entries_text, url_among, url_marks_end, url_start, url_unwrapped_end, without_blocks, without_blocks_from, without_tags_from, wraps_url, WebContextView};
use crate::json::{holds, json_pretty, JsonView};
use crate::safety::capped;
use crate::text::{decimal, find_from, has_prefix, has_text, joined, lemma_find_from, lower_text, occurs_at, replaced, texts, trimmed, words};
use crate::terminal_markdown::is_closing_mark;
use crate::text_laws::{is_free_of, law_nothing_to_replace, law_replacing_goes_left_to_right};

verus! {

// ---------------------------------------------------------------------------
// Searches
// ---------------------------------------------------------------------------

/// The section of hit `i`: its number, its title, its address and, where it has
/// one, its snippet.
pub open spec fn section(list: Seq<EntryView>, i: int) -> Seq<char> {
    let head = "\n"@ + decimal((i + 1) as nat) + ". "@ + list[i].title + "\nURL: "@ + list[i].url
        + "\n"@;
    match list[i].snippet {
        Some(snippet) => head + ("Snippet: "@ + capped(trimmed(snippet), 800) + "\n"@),
        None => head,
    }
}

proof fn lemma_sections(list: Seq<EntryView>, n: int)
    requires
        0 <= n <= list.len(),
    ensures
        entries_text(list, n) == Seq::new(n as nat, |i: int| section(list, i)).flatten(),
    decreases n,
{
    let now = Seq::new(n as nat, |i: int| section(list, i));
    if n == 0 {
        assert(now =~= Seq::<Seq<char>>::empty());
    } else {
        lemma_sections(list, n - 1);
        let before = Seq::new((n - 1) as nat, |i: int| section(list, i));
        assert(now =~= before.push(section(list, n - 1)));
        before.lemma_flatten_push(section(list, n - 1));
        let head = "\n"@ + decimal(n as nat) + ". "@ + list[n - 1].title + "\nURL: "@ + list[n
            - 1].url + "\n"@;
        assert(head + Seq::<char>::empty() =~= head);
    }
}

/// What a search found is told hit by hit: who was asked, for what, how many
/// hits there are, and then each hit in its own section and in its order.
pub proof fn law_every_hit_is_shown_once(
    provider: SearchProvider,
    query: Seq<char>,
    list: Seq<EntryView>,
)
    ensures
        search_text(provider, query, list) == "ok:\nprovider: "@ + (match provider {
            SearchProvider::Brave => "brave"@,
            SearchProvider::Tavily => "tavily"@,
        }) + "\nquery: "@ + query + "\ncount: "@ + decimal(list.len()) + "\n"@ + Seq::new(
            list.len(),
            |i: int| section(list, i),
        ).flatten(),
{
    lemma_sections(list, list.len() as int);
}

/// One more hit adds its section behind the others and changes nothing in them.
pub proof fn law_one_more_hit(
    provider: SearchProvider,
    query: Seq<char>,
    list: Seq<EntryView>,
    hit: EntryView,
)
    ensures
        entries_text(list.push(hit), list.len() as int + 1) == entries_text(
            list,
            list.len() as int,
        ) + section(list.push(hit), list.len() as int),
{
    let more = list.push(hit);
    let n = list.len() as int;
    lemma_sections(more, n + 1);
    lemma_sections(list, n);
    let all = Seq::new((n + 1) as nat, |i: int| section(more, i));
    let first = Seq::new(n as nat, |i: int| section(list, i));
    assert(all =~= first.push(section(more, n))) by {
        assert forall|i: int| 0 <= i < n implies section(more, i) == section(list, i) by {
            assert(more[i] == list[i]);
        }
    }
    first.lemma_flatten_push(section(more, n));
}

/// A hit keeps the title and the address under which it was reported; its
/// snippet is the description, or else what further snippets there are.
pub proof fn law_hits_keep_what_was_reported(b: BraveResult, t: TavilyResult)
    ensures
        brave_entry(b).title == b.title@,
        brave_entry(b).url == b.url@,
        b.description matches Some(d) ==> brave_entry(b).snippet == Some(d@),
        b.description is None && b.extra_snippets is None ==> brave_entry(b).snippet is None,
        b.description is None ==> (b.extra_snippets matches Some(more) ==> brave_entry(b).snippet
            == Some(joined(texts(more@), " "@))),
        tavily_entry(t).title == t.title@,
        tavily_entry(t).url == t.url@,
        trimmed(t.content@).len() > 0 ==> tavily_entry(t).snippet == Some(t.content@),
        trimmed(t.content@).len() == 0 ==> tavily_entry(t).snippet is None,
{
}

/// As many hits are kept as there are, up to the number asked for.
pub proof fn law_hits_are_limited(n: nat, max: usize)
    ensures
        count_at_most(n, max) <= n,
        count_at_most(n, max) <= max,
        count_at_most(n, max) == n || count_at_most(n, max) == max,
{
}

// ---------------------------------------------------------------------------
// Fetches
// ---------------------------------------------------------------------------

/// A version 4 address as one number.
pub open spec fn address_number(a: u8, b: u8, c: u8, d: u8) -> int {
    a * 16_777_216 + b * 65_536 + c * 256 + d
}

/// The addresses of version 4 that no request may reach: this machine, private
/// networks, shared and link-local addresses, benchmarks, and all from the
/// multicast range on.
pub proof fn law_restricted_addresses(a: u8, b: u8, c: u8, d: u8)
    ensures
        ({
            let n = address_number(a, b, c, d);
            is_restricted(NetAddress::V4(a, b, c, d)) <==> {
                ||| n == 0
                ||| 0x0a00_0000 <= n <= 0x0aff_ffff
                ||| 0x6440_0000 <= n <= 0x647f_ffff
                ||| 0x7f00_0000 <= n <= 0x7fff_ffff
                ||| 0xa9fe_0000 <= n <= 0xa9fe_ffff
                ||| 0xac10_0000 <= n <= 0xac1f_ffff
                ||| 0xc0a8_0000 <= n <= 0xc0a8_ffff
                ||| 0xc612_0000 <= n <= 0xc613_ffff
                ||| 0xe000_0000 <= n
            }
        }),
{
}

/// Of version 6, this machine, what stands for an older address, local networks
/// and multicast are out of reach; global addresses are not.
pub proof fn law_restricted_groups(
    a: u16,
    b: u16,
    c: u16,
    d: u16,
    e: u16,
    f: u16,
    g: u16,
    h: u16,
)
    ensures
        is_restricted(NetAddress::V6(0, 0, 0, 0, 0, 0, 0, 0)),
        is_restricted(NetAddress::V6(0, 0, 0, 0, 0, 0, 0, 1)),
        is_restricted(NetAddress::V6(0, 0, 0, 0, 0, 0xffff, g, h)),
        0xfc00 <= a < 0xfe00 ==> is_restricted(NetAddress::V6(a, b, c, d, e, f, g, h)),
        0xfe80 <= a < 0xfec0 ==> is_restricted(NetAddress::V6(a, b, c, d, e, f, g, h)),
        0xff00 <= a ==> is_restricted(NetAddress::V6(a, b, c, d, e, f, g, h)),
        0x2000 <= a < 0x4000 ==> !is_restricted(NetAddress::V6(a, b, c, d, e, f, g, h)),
{
}

/// A redirection is followed to where it leads, five times at most; anything
/// else is read.
pub proof fn law_redirections_are_followed(status: u16, n: int, url: Seq<char>, e: Seq<char>)
    ensures
        status < 300 || status >= 400 ==> fetch_next(status, n, Some(Ok(url)))
            == FetchStepView::Read,
        300 <= status < 400 && n < 5 ==> fetch_next(status, n, Some(Ok(url)))
            == FetchStepView::Redirect(url),
        300 <= status < 400 && n < 5 ==> fetch_next(status, n, None) == FetchStepView::Read,
        300 <= status < 400 && n < 5 ==> fetch_next(status, n, Some(Err(e)))
            == FetchStepView::Fail("invalid redirect location: "@ + e),
        300 <= status < 400 && n >= 5 ==> fetch_next(status, n, Some(Ok(url))) is Fail,
{
}

/// What is asked for raw, and what is no page, is shown as it came; a page is
/// shown as its text.
pub proof fn law_pages_are_shown_as_text(body: Seq<char>, kind: Seq<char>, format: FetchFormat)
    ensures
        format is Raw ==> fetched_content(body, kind, format) == body,
        !(format is Raw) && has_text(lower_text(kind), "text/html"@) ==> fetched_content(
            body,
            kind,
            format,
        ) == page_text(body),
        !has_text(lower_text(kind), "text/html"@) && is_free_of(body, '<') ==> fetched_content(
            body,
            kind,
            format,
        ) == body,
{
    reveal_strlit("<html");
    reveal_strlit("<body");
    reveal_strlit("<article");
    if is_free_of(body, '<') {
        let start = lower_text(crate::text::first_chars(body, 500));
        assert forall|i: int| 0 <= i < start.len() implies #[trigger] start[i] != '<' by {
            assert(start[i] == crate::text::lower_char(crate::text::first_chars(body, 500)[i]));
            assert(crate::text::first_chars(body, 500)[i] == body[i]);
        }
        lemma_needs_its_first(start, "<html"@, '<');
        lemma_needs_its_first(start, "<body"@, '<');
        lemma_needs_its_first(start, "<article"@, '<');
    }
}

/// A pattern stands in no text that lacks its first character.
proof fn lemma_needs_its_first(s: Seq<char>, p: Seq<char>, c: char)
    requires
        is_free_of(s, c),
        p.len() > 0,
        p[0] == c,
    ensures
        !has_text(s, p),
{
    assert forall|i: int| !occurs_at(s, p, i) by {
        if occurs_at(s, p, i) {
            assert(s.subrange(i, i + p.len())[0] == s[i]);
        }
    }
}

/// The bytes that are kept are the first ones, as many as are allowed.
pub proof fn law_first_bytes_are_kept(bytes: Seq<u8>, max: u64)
    ensures
        bytes.len() <= max ==> kept_bytes(bytes, max) == bytes,
        bytes.len() > max ==> kept_bytes(bytes, max) == bytes.take(max as int),
{
}

/// A response is shown with its address, its status, its content and whether
/// some of it is missing, under a word that says whether it succeeded.
pub proof fn law_responses_are_shown(
    url: Seq<char>,
    status: u16,
    names: Seq<Seq<char>>,
    values: Seq<Seq<char>>,
    kind: Seq<char>,
    body: Seq<char>,
    truncated: bool,
    format: FetchFormat,
)
    ensures
        exists|value: JsonView| #![trigger json_pretty(value)]
            {
                &&& response_text(url, status, names, values, Some(kind), body, truncated, format)
                    == (if 200 <= status < 300 {
                    "ok:\n"@
                } else {
                    "failed:\n"@
                }) + json_pretty(value)
                &&& holds(value, "url"@, JsonView::Str(url))
                &&& holds(value, "status"@, JsonView::Unsigned(status as u64))
                &&& holds(value, "content_type"@, JsonView::Str(kind))
                &&& holds(value, "content"@, JsonView::Str(fetched_content(body, kind, format)))
                &&& holds(value, "truncated"@, JsonView::Bool(truncated))
                &&& exists|headers: JsonView| #![trigger holds(value, "headers"@, headers)]
                    holds(value, "headers"@, headers) && headers is Object
                        && headers->Object_0.len() == names.len() && forall|i: int|
                        0 <= i < names.len() ==> #[trigger] headers->Object_0[i] == (
                            lower_text(names[i]),
                            JsonView::Str(values[i]),
                        )
            },
{
    reveal_strlit("url");
    reveal_strlit("status");
    reveal_strlit("content_type");
    reveal_strlit("content");
    reveal_strlit("truncated");
    reveal_strlit("headers");
    let content = fetched_content(body, kind, format);
    let value = crate::internet::response_value(url, status, names, values, kind, content, truncated);
    let m = value->Object_0;
    assert(m.len() == 6);
    assert(m[0].0.len() == 7 && m[0].0[0] == 'c');
    assert(m[1].0.len() == 12);
    assert(m[2].0.len() == 7 && m[2].0[0] == 'h');
    assert(m[3].0.len() == 6);
    assert(m[4].0.len() == 9);
    assert(m[5].0.len() == 3);
    let headers = m[2].1;
    assert(holds(value, "headers"@, headers));
    assert(m[5] == ("url"@, JsonView::Str(url)));
    assert(m[3] == ("status"@, JsonView::Unsigned(status as u64)));
    assert(m[1] == ("content_type"@, JsonView::Str(kind)));
    assert(m[0] == ("content"@, JsonView::Str(content)));
    assert(m[4] == ("truncated"@, JsonView::Bool(truncated)));
    assert(json_pretty(value) == json_pretty(value));
}

// ---------------------------------------------------------------------------
// Page text
// ---------------------------------------------------------------------------

/// No tag and no character reference in the text.
pub open spec fn is_bare(s: Seq<char>) -> bool {
    is_free_of(s, '<') && is_free_of(s, '>') && is_free_of(s, '&')
}

proof fn lemma_decoded_bare(s: Seq<char>)
    requires
        is_free_of(s, '&'),
    ensures
        decoded(s) == s,
{
    reveal_strlit("&amp;");
    reveal_strlit("&lt;");
    reveal_strlit("&gt;");
    reveal_strlit("&quot;");
    reveal_strlit("&#39;");
    reveal_strlit("&apos;");
    reveal_strlit("&nbsp;");
    lemma_needs_its_first(s, "&amp;"@, '&');
    lemma_needs_its_first(s, "&lt;"@, '&');
    lemma_needs_its_first(s, "&gt;"@, '&');
    lemma_needs_its_first(s, "&quot;"@, '&');
    lemma_needs_its_first(s, "&#39;"@, '&');
    lemma_needs_its_first(s, "&apos;"@, '&');
    lemma_needs_its_first(s, "&nbsp;"@, '&');
    law_nothing_to_replace(s, "&amp;"@, "&"@);
    law_nothing_to_replace(s, "&lt;"@, "<"@);
    law_nothing_to_replace(s, "&gt;"@, ">"@);
    law_nothing_to_replace(s, "&quot;"@, "\""@);
    law_nothing_to_replace(s, "&#39;"@, "'"@);
    law_nothing_to_replace(s, "&apos;"@, "'"@);
    law_nothing_to_replace(s, "&nbsp;"@, " "@);
}

proof fn lemma_tags_before(s: Seq<char>, i: int, k: int)
    requires
        0 <= i <= k <= s.len(),
        forall|j: int| i <= j < k ==> #[trigger] s[j] != '<' && s[j] != '>',
    ensures
        without_tags_from(s, i, false) == s.subrange(i, k) + without_tags_from(s, k, false),
        without_tags_from(s, i, true) == without_tags_from(s, k, true),
    decreases k - i,
{
    if i < k {
        lemma_tags_before(s, i + 1, k);
        assert(seq![s[i]] + s.subrange(i + 1, k) =~= s.subrange(i, k));
        assert(seq![s[i]] + (s.subrange(i + 1, k) + without_tags_from(s, k, false)) =~= s.subrange(
            i,
            k,
        ) + without_tags_from(s, k, false));
    } else {
        assert(s.subrange(i, k) + without_tags_from(s, k, false) =~= without_tags_from(
            s,
            k,
            false,
        ));
    }
}

proof fn lemma_no_blocks(s: Seq<char>, tag: Seq<char>)
    requires
        !has_text(lower_text(s), "<"@ + tag),
    ensures
        without_blocks(s, tag) == s,
{
    lemma_find_from(lower_text(s), "<"@ + tag, 0);
    assert(s.skip(0) =~= s);
}

/// The text of a page without tags is its words, one space apart.
pub proof fn law_plain_page_is_its_words(s: Seq<char>)
    requires
        is_bare(s),
    ensures
        page_text(s) == joined(words(joined(words(s), " "@)), " "@),
{
    reveal_strlit("<");
    reveal_strlit("script");
    reveal_strlit("style");
    assert(is_free_of(lower_text(s), '<')) by {
        assert forall|i: int| 0 <= i < lower_text(s).len() implies #[trigger] lower_text(s)[i]
            != '<' by {
            assert(s[i] != '<');
        }
    }
    lemma_needs_its_first(lower_text(s), "<"@ + "script"@, '<');
    lemma_needs_its_first(lower_text(s), "<"@ + "style"@, '<');
    lemma_no_blocks(s, "script"@);
    lemma_no_blocks(s, "style"@);
    lemma_tags_before(s, 0, s.len() as int);
    assert(s.subrange(0, s.len() as int) + Seq::<char>::empty() =~= s);
    lemma_decoded_bare(s);
    let once = joined(words(s), " "@);
    lemma_words_bare(s, 0);
    lemma_joined_bare(words(s));
    lemma_decoded_bare(once);
}

pub open spec fn all_free(ws: Seq<Seq<char>>) -> bool {
    forall|i: int| 0 <= i < ws.len() ==> is_free_of(#[trigger] ws[i], '&')
}

proof fn lemma_words_bare(s: Seq<char>, i: int)
    requires
        is_free_of(s, '&'),
        0 <= i <= s.len(),
    ensures
        all_free(crate::text::words_from(s, i)),
    decreases s.len() - i,
{
    let a = crate::text::skip_space(s, i);
    let b = crate::text::word_end(s, a);
    if 0 <= i <= a < b <= s.len() {
        lemma_words_bare(s, b);
        let rest = crate::text::words_from(s, b);
        let all = seq![s.subrange(a, b)] + rest;
        assert forall|k: int| 0 <= k < all.len() implies is_free_of(#[trigger] all[k], '&') by {
            if k > 0 {
                assert(all[k] == rest[k - 1]);
            }
        }
    }
}

proof fn lemma_joined_bare(ws: Seq<Seq<char>>)
    requires
        all_free(ws),
    ensures
        is_free_of(joined(ws, " "@), '&'),
    decreases ws.len(),
{
    reveal_strlit(" ");
    if ws.len() > 1 {
        assert forall|k: int| 0 <= k < ws.drop_last().len() implies is_free_of(
            #[trigger] ws.drop_last()[k],
            '&',
        ) by {
            assert(ws.drop_last()[k] == ws[k]);
        }
        lemma_joined_bare(ws.drop_last());
        assert(is_free_of(ws.last(), '&'));
    } else if ws.len() == 1 {
        assert(is_free_of(ws[0], '&'));
    }
}

/// A tag leaves no trace but a gap between words: what stands before it and
/// behind it is kept.
pub proof fn law_tags_leave_gaps(before: Seq<char>, tag: Seq<char>, after: Seq<char>)
    requires
        is_free_of(before, '<') && is_free_of(before, '>'),
        is_free_of(tag, '<') && is_free_of(tag, '>'),
        is_free_of(after, '<') && is_free_of(after, '>'),
    ensures
        without_tags_from(before + seq!['<'] + tag + seq!['>'] + after, 0, false) == before + seq![
            ' ',
            ' ',
        ] + after,
{
    let s = before + seq!['<'] + tag + seq!['>'] + after;
    let a = before.len() as int;
    let b = a + 1 + tag.len();
    assert forall|j: int| 0 <= j < a implies s[j] == before[j] by {}
    lemma_tags_before(s, 0, a);
    assert(s.subrange(0, a) =~= before);
    assert(s[a] == '<');
    assert forall|j: int| a + 1 <= j < b implies #[trigger] s[j] != '<' && s[j] != '>' by {
        assert(s[j] == tag[j - a - 1]);
    }
    lemma_tags_before(s, a + 1, b);
    assert(s[b] == '>');
    assert forall|j: int| b + 1 <= j < s.len() implies #[trigger] s[j] != '<' && s[j] != '>' by {
        assert(s[j] == after[j - b - 1]);
    }
    lemma_tags_before(s, b + 1, s.len() as int);
    assert(s.subrange(b + 1, s.len() as int) =~= after);
    assert(after + Seq::<char>::empty() =~= after);
    assert(before + (seq![' '] + (seq![' '] + after)) =~= before + seq![' ', ' '] + after);
}

/// A script or a style is left out with all that is in it, and what stands
/// before it and behind it is kept.
pub proof fn law_blocks_are_left_out(
    before: Seq<char>,
    tag: Seq<char>,
    inside: Seq<char>,
    after: Seq<char>,
)
    requires
        is_free_of(before, '<'),
        is_free_of(inside, '<'),
        is_free_of(after, '<'),
        is_free_of(tag, '<'),
        lower_text(tag) == tag,
        tag.len() > 0,
        tag[0] != '/',
    ensures
        without_blocks(before + ("<"@ + tag) + inside + ("</"@ + tag + ">"@) + after, tag) == before
            + after,
{
    reveal_strlit("<");
    reveal_strlit("</");
    reveal_strlit(">");
    let open = "<"@ + tag;
    let close = "</"@ + tag + ">"@;
    let s = before + open + inside + close + after;
    let low = lower_text(s);
    let a = before.len() as int;
    let b = a + open.len() + inside.len();
    let c = b + close.len();
    assert forall|j: int| 0 <= j < s.len() && j != a && j != b implies #[trigger] low[j] != '<' by {
        if j < a {
            assert(s[j] == before[j]);
        } else if j < a + open.len() {
            assert(s[j] == open[j - a]);
            assert(open[j - a] == tag[j - a - 1]);
        } else if j < b {
            assert(s[j] == inside[j - a - open.len()]);
        } else if j < c {
            assert(s[j] == close[j - b]);
            if j - b >= 2 && j - b < 2 + tag.len() {
                assert(close[j - b] == tag[j - b - 2]);
            }
        } else {
            assert(s[j] == after[j - c]);
        }
    }
    assert forall|j: int| a <= j < a + open.len() implies #[trigger] low[j] == open[j - a] by {
        assert(s[j] == open[j - a]);
        if j > a {
            assert(lower_text(tag)[j - a - 1] == tag[j - a - 1]);
        }
    }
    assert forall|j: int| b <= j < c implies #[trigger] low[j] == close[j - b] by {
        assert(s[j] == close[j - b]);
        if 2 <= j - b < 2 + tag.len() {
            assert(lower_text(tag)[j - b - 2] == tag[j - b - 2]);
        }
    }
    assert(low.subrange(a, a + open.len()) =~= open);
    assert(low.subrange(b, c) =~= close);
    lemma_find_from(low, open, 0);
    lemma_starts_at(low, open, find_from(low, open, 0)->Some_0);
    assert(occurs_at(low, open, a));
    assert(find_from(low, open, 0) == Some(a));
    lemma_find_from(low, close, a);
    assert(occurs_at(low, close, b));
    let f = find_from(low, close, a)->Some_0;
    lemma_starts_at(low, close, f);
    assert(f == b) by {
        if f == a {
            assert(low.subrange(a, a + close.len())[1] == low[a + 1]);
            assert(low[a + 1] == tag[0]);
        }
    }
    lemma_find_from(low, open, c);
    if let Some(g) = find_from(low, open, c) {
        lemma_starts_at(low, open, g);
    }
    assert(find_from(low, open, c) is None);
    assert(without_blocks_from(s, low, open, close, c) == s.skip(c));
    assert(s.subrange(0, a) =~= before);
    assert(s.skip(c) =~= after);
}

proof fn lemma_starts_at(s: Seq<char>, p: Seq<char>, i: int)
    requires
        p.len() > 0,
    ensures
        occurs_at(s, p, i) ==> s[i] == p[0],
{
    if occurs_at(s, p, i) {
        assert(s.subrange(i, i + p.len())[0] == s[i]);
    }
}

// ---------------------------------------------------------------------------
// Addresses in prompts
// ---------------------------------------------------------------------------

proof fn lemma_url_ends(s: Seq<char>, from: int, n: int)
    requires
        0 <= from <= n <= s.len(),
    ensures
        from <= url_unwrapped_end(s, from, n) <= n,
        forall|j: int| url_unwrapped_end(s, from, n) <= j < n ==> wraps_url(#[trigger] s[j]),
        url_unwrapped_end(s, from, n) > from ==> !wraps_url(s[url_unwrapped_end(s, from, n) - 1]),
        from <= url_marks_end(s, from, n) <= n,
        forall|j: int| url_marks_end(s, from, n) <= j < n ==> is_closing_mark(#[trigger] s[j]),
        url_marks_end(s, from, n) > from ==> !is_closing_mark(s[url_marks_end(s, from, n) - 1]),
    decreases n,
{
    if from < n {
        lemma_url_ends(s, from, n - 1);
    }
}

proof fn lemma_url_start(s: Seq<char>, i: int)
    requires
        0 <= i <= s.len(),
    ensures
        i <= url_start(s, i) <= s.len(),
        forall|j: int| i <= j < url_start(s, i) ==> wraps_url(#[trigger] s[j]),
        url_start(s, i) < s.len() ==> !wraps_url(s[url_start(s, i)]),
    decreases s.len() - i,
{
    if i < s.len() && wraps_url(s[i]) {
        lemma_url_start(s, i + 1);
    }
}

/// An address is read without the brackets and quotes round it and the marks
/// that end a sentence.
pub proof fn law_addresses_lose_their_wrapping(
    front: Seq<char>,
    url: Seq<char>,
    marks: Seq<char>,
    back: Seq<char>,
)
    requires
        forall|i: int| 0 <= i < front.len() ==> wraps_url(#[trigger] front[i]),
        forall|i: int| 0 <= i < back.len() ==> wraps_url(#[trigger] back[i]),
        forall|i: int| 0 <= i < marks.len() ==> is_closing_mark(#[trigger] marks[i]),
        url.len() > 0,
        !wraps_url(url[0]),
        !wraps_url(url.last()),
        !is_closing_mark(url.last()),
    ensures
        bare_url(front + url + marks + back) == url,
{
    let s = front + url + marks + back;
    let a = front.len() as int;
    let e = a + url.len();
    let m = e + marks.len();
    assert(s[a] == url[0]);
    assert(s[e - 1] == url.last());
    lemma_url_start(s, 0);
    assert(url_start(s, 0) == a) by {
        let x = url_start(s, 0);
        if x < a {
            assert(s[x] == front[x]);
        }
    }
    lemma_url_ends(s, a, s.len() as int);
    let u = url_unwrapped_end(s, a, s.len() as int);
    assert(u == m) by {
        if u > m {
            assert(s[u - 1] == back[u - 1 - m]);
        } else if u < m {
            assert(wraps_url(s[u]));
            if u < e {
                assert(wraps_url(s[e - 1]));
            } else {
                assert(s[u] == marks[u - e]);
            }
        }
    }
    lemma_url_ends(s, a, m);
    let k = url_marks_end(s, a, m);
    assert(k == e) by {
        if k > e {
            assert(s[k - 1] == marks[k - 1 - e]);
        } else if k < e {
            assert(is_closing_mark(s[e - 1]));
        }
    }
    assert(s.subrange(a, e) =~= url);
}

/// The first web address of a prompt is looked up: no word before it is one.
pub proof fn law_first_address_is_looked_up(prompt: Seq<char>, k: int)
    requires
        0 <= k < words(prompt).len(),
        has_prefix(bare_url(words(prompt)[k]), "http://"@) || has_prefix(
            bare_url(words(prompt)[k]),
            "https://"@,
        ),
        forall|j: int|
            0 <= j < k ==> !has_prefix(#[trigger] bare_url(words(prompt)[j]), "http://"@)
                && !has_prefix(bare_url(words(prompt)[j]), "https://"@),
    ensures
        context_plan(prompt) == WebContextView::Fetch(bare_url(words(prompt)[k])),
{
    lemma_url_among(words(prompt), 0, k);
}

proof fn lemma_url_among(ws: Seq<Seq<char>>, i: int, k: int)
    requires
        0 <= i <= k < ws.len(),
        has_prefix(bare_url(ws[k]), "http://"@) || has_prefix(bare_url(ws[k]), "https://"@),
        forall|j: int|
            i <= j < k ==> !has_prefix(#[trigger] bare_url(ws[j]), "http://"@) && !has_prefix(
                bare_url(ws[j]),
                "https://"@,
            ),
    ensures
        url_among(ws, i) == Some(bare_url(ws[k])),
    decreases k - i,
{
    if i < k {
        assert(!has_prefix(bare_url(ws[i]), "http://"@));
        lemma_url_among(ws, i + 1, k);
    }
}

// ---------------------------------------------------------------------------
// Targets
// ---------------------------------------------------------------------------

/// Only web addresses are fetched, and only from a host, which is not the
/// machine itself; case makes no difference to a host.
pub proof fn law_hosts_that_are_fetched_from(url: UrlView, host: Seq<char>)
    requires
        url.host == Some(host),
    ensures
        url.scheme != "http"@ && url.scheme != "https"@ ==> fetch_host(url) is Err,
        lower_text(host) == "localhost"@ ==> fetch_host(url) is Err,
        (url.scheme == "http"@ || url.scheme == "https"@) && lower_text(host) != "localhost"@
            && lower_text(host) != "localhost.localdomain"@ ==> fetch_host(url) == Ok::<
            Seq<char>,
            Seq<char>,
        >(lower_text(host)),
        fetch_host(UrlView { host: None, ..url }) is Err,
{
}

/// Brackets round a host are left out where it is read as an address.
pub proof fn law_brackets_of_hosts(host: Seq<char>)
    requires
        host.len() > 0,
        host[0] != '[',
    ensures
        bare_host(seq!['['] + host + seq![']']) == host,
        bare_host(host) == host,
{
    let s = seq!['['] + host + seq![']'];
    assert(s.subrange(1, s.len() - 1) =~= host);
}

// ---------------------------------------------------------------------------
// Requests and contexts
// ---------------------------------------------------------------------------

/// A search asks for the query, as it is, and for as many hits as are wanted.
pub proof fn law_searches_ask_for_the_query(query: Seq<char>, n: u64)
    ensures
        holds(tavily_value(query, n as int), "query"@, JsonView::Str(query)),
        holds(tavily_value(query, n as int), "max_results"@, JsonView::Unsigned(n)),
        brave_pair_names().len() == brave_pair_values(query, n as nat).len(),
        brave_pair_names()[0] == "q"@ && brave_pair_values(query, n as nat)[0] == query,
        brave_pair_names()[1] == "count"@ && brave_pair_values(query, n as nat)[1] == decimal(
            n as nat,
        ),
{
    reveal_strlit("include_answer");
    reveal_strlit("include_raw_content");
    reveal_strlit("max_results");
    reveal_strlit("query");
    reveal_strlit("search_depth");
    let v = tavily_value(query, n as int);
    let m = v->Object_0;
    assert(m[2] == ("max_results"@, JsonView::Unsigned(n)));
    assert(m[3] == ("query"@, JsonView::Str(query)));
    assert(m[0].0.len() == 14 && m[1].0.len() == 19 && m[2].0.len() == 11 && m[3].0.len() == 5
        && m[4].0.len() == 12);
}

/// What was found for a prompt is told to the model by the system: the page
/// with its address, or the hits, cut where it is too long. A prompt that asks
/// for neither gets none.
pub proof fn law_what_was_found_is_told(
    prompt: Seq<char>,
    url: Seq<char>,
    query: Seq<char>,
    found: Seq<char>,
    error: Seq<char>,
)
    ensures
        context_plan(prompt) == WebContextView::Fetch(url) ==> {
            let m = context_found(prompt, Ok(found));
            &&& m is Ok && m->Ok_0 is Some
            &&& m->Ok_0->Some_0.role == "system"@
            &&& m->Ok_0->Some_0.content == "Web context fetched for the user's prompt.\nURL: "@ + url
                + "\n\n"@ + capped(found, 12_000)
        },
        context_plan(prompt) == WebContextView::Search(query) ==> {
            let m = context_found(prompt, Ok(found));
            &&& m is Ok && m->Ok_0 is Some
            &&& m->Ok_0->Some_0.role == "system"@
            &&& m->Ok_0->Some_0.content
                == "Web search context for the user's prompt. Use these results as evidence and cite URLs when relevant.\n\n"@
                + capped(found, 8_000)
        },
        context_plan(prompt) == WebContextView::Nothing ==> context_found(prompt, Ok(found)) == Ok::<
            Option<MessageView>,
            Seq<char>,
        >(None),
        context_plan(prompt) != WebContextView::Nothing ==> context_found(prompt, Err(error))
            == Err::<Option<MessageView>, Seq<char>>(error),
{
}

/// A prompt without an address is searched for where it asks for what is new,
/// with its own words; a greeting is not.
pub proof fn law_news_are_searched_for(prompt: Seq<char>)
    requires
        url_among(words(prompt), 0) is None,
    ensures
        has_text(search_prompt(prompt), "latest"@) || has_text(search_prompt(prompt), "news"@)
            || has_text(search_prompt(prompt), "today"@) ==> context_plan(prompt)
            == WebContextView::Search(trimmed(prompt)),
        search_prompt(prompt) == "hi"@ || search_prompt(prompt) == "hello"@ ==> context_plan(prompt)
            == WebContextView::Nothing,
{
    reveal_strlit("latest");
    reveal_strlit("news");
    reveal_strlit("today");
    reveal_strlit("hi");
    reveal_strlit("hello");
    let p = search_prompt(prompt);
    lemma_holds_letter(p, "latest"@, 0, 'l');
    lemma_holds_letter(p, "latest"@, 1, 'a');
    lemma_holds_letter(p, "news"@, 0, 'n');
    lemma_holds_letter(p, "today"@, 0, 't');
}

proof fn lemma_holds_letter(p: Seq<char>, text: Seq<char>, i: int, c: char)
    requires
        0 <= i < text.len(),
        text[i] == c,
    ensures
        has_text(p, text) ==> exists|k: int| 0 <= k < p.len() && #[trigger] p[k] == c,
{
    if has_text(p, text) {
        let k = choose|k: int| occurs_at(p, text, k);
        assert(p.subrange(k, k + text.len())[i] == p[k + i]);
    }
}

/// A failed search says which provider failed, with what status and why.
pub proof fn law_failed_searches_say_why(name: Seq<char>, status: u16, body: Seq<char>)
    ensures
        search_failure(name, status, body) == name + " search failed: HTTP "@ + decimal(status as nat)
            + " - "@ + capped(untagged(body), 500),
{
}

// ---------------------------------------------------------------------------
// Entities
// ---------------------------------------------------------------------------

/// Starts with an ampersand and has no other.
spec fn is_entity(e: Seq<char>) -> bool {
    e.len() > 1 && e[0] == '&' && forall|i: int| 1 <= i < e.len() ==> #[trigger] e[i] != '&'
}

proof fn lemma_other_entity(
    x: Seq<char>,
    e: Seq<char>,
    y: Seq<char>,
    p: Seq<char>,
    q: Seq<char>,
    j: int,
)
    requires
        is_free_of(x, '&'),
        is_free_of(y, '&'),
        is_entity(e),
        is_entity(p),
        0 <= j < e.len(),
        j < p.len(),
        e[j] != p[j],
    ensures
        replaced(x + e + y, p, q) == x + e + y,
{
    let s = x + e + y;
    assert forall|i: int| !#[trigger] occurs_at(s, p, i) by {
        if occurs_at(s, p, i) {
            assert(s.subrange(i, i + p.len())[0] == s[i]);
            assert(s.subrange(i, i + p.len())[j] == s[i + j]);
            if i < x.len() {
                assert(s[i] == x[i]);
            } else if i < x.len() + e.len() {
                assert(s[i] == e[i - x.len()]);
            } else {
                assert(s[i] == y[i - x.len() - e.len()]);
            }
            assert(i == x.len());
            assert(s[i + j] == e[j]);
        }
    }
    law_nothing_to_replace(s, p, q);
}

proof fn lemma_replaced_front(x: Seq<char>, t: Seq<char>, p: Seq<char>, q: Seq<char>)
    requires
        is_free_of(x, '&'),
        is_entity(p),
    ensures
        replaced(x + t, p, q) == x + replaced(t, p, q),
    decreases x.len(),
{
    if x.len() == 0 {
        assert(x + t =~= t);
        assert(x + replaced(t, p, q) =~= replaced(t, p, q));
    } else {
        let rest = x.skip(1) + t;
        assert(is_free_of(x.skip(1), '&')) by {
            assert forall|i: int| 0 <= i < x.skip(1).len() implies x.skip(1)[i] != '&' by {
                assert(x.skip(1)[i] == x[i + 1]);
            }
        }
        lemma_replaced_front(x.skip(1), t, p, q);
        assert(x + t =~= seq![x[0]] + rest);
        assert(!occurs_at(seq![x[0]] + rest, p, 0)) by {
            let s = seq![x[0]] + rest;
            if occurs_at(s, p, 0) {
                assert(s.subrange(0, p.len() as int)[0] == s[0]);
            }
        }
        law_replacing_goes_left_to_right(p, q, x[0], rest);
        assert(seq![x[0]] + (x.skip(1) + replaced(t, p, q)) =~= x + replaced(t, p, q));
    }
}

proof fn lemma_entity(x: Seq<char>, e: Seq<char>, y: Seq<char>, q: Seq<char>)
    requires
        is_free_of(x, '&'),
        is_free_of(y, '&'),
        is_entity(e),
    ensures
        replaced(x + e + y, e, q) == x + q + y,
{
    assert(x + e + y =~= x + (e + y));
    lemma_replaced_front(x, e + y, e, q);
    law_replacing_goes_left_to_right(e, q, '&', y);
    lemma_plain_text(y, e, q);
    assert(x + (q + y) =~= x + q + y);
}

proof fn lemma_plain_text(s: Seq<char>, p: Seq<char>, q: Seq<char>)
    requires
        is_free_of(s, '&'),
        is_entity(p),
    ensures
        replaced(s, p, q) == s,
{
    assert forall|i: int| !#[trigger] occurs_at(s, p, i) by {
        if occurs_at(s, p, i) {
            assert(s.subrange(i, i + p.len())[0] == s[i]);
        }
    }
    law_nothing_to_replace(s, p, q);
}

proof fn lemma_entities()
    ensures
        is_entity("&amp;"@) && is_entity("&lt;"@) && is_entity("&gt;"@) && is_entity("&quot;"@),
        is_entity("&#39;"@) && is_entity("&apos;"@) && is_entity("&nbsp;"@),
        "&amp;"@[1] == 'a' && "&amp;"@[2] == 'm' && "&lt;"@[1] == 'l' && "&gt;"@[1] == 'g',
        "&quot;"@[1] == 'q' && "&#39;"@[1] == '#' && "&apos;"@[1] == 'a' && "&apos;"@[2] == 'p',
        "&nbsp;"@[1] == 'n',
        "&lt;"@.len() > 2 && "&gt;"@.len() > 2 && "&quot;"@.len() > 2 && "&nbsp;"@.len() > 2,
        is_free_of("<"@, '&') && is_free_of(">"@, '&') && is_free_of("\""@, '&') && is_free_of(
            " "@,
            '&',
        ),
{
    reveal_strlit("&amp;");
    reveal_strlit("&lt;");
    reveal_strlit("&gt;");
    reveal_strlit("&quot;");
    reveal_strlit("&#39;");
    reveal_strlit("&apos;");
    reveal_strlit("&nbsp;");
    reveal_strlit("<");
    reveal_strlit(">");
    reveal_strlit("\"");
    reveal_strlit(" ");
}

proof fn lemma_free_of_three(x: Seq<char>, q: Seq<char>, y: Seq<char>)
    requires
        is_free_of(x, '&'),
        is_free_of(q, '&'),
        is_free_of(y, '&'),
    ensures
        is_free_of(x + q + y, '&'),
{
    let s = x + q + y;
    assert forall|i: int| 0 <= i < s.len() implies s[i] != '&' by {
        if i < x.len() {
            assert(s[i] == x[i]);
        } else if i < x.len() + q.len() {
            assert(s[i] == q[i - x.len()]);
        } else {
            assert(s[i] == y[i - x.len() - q.len()]);
        }
    }
}

/// An entity in a text is the character that it stands for, and the text round
/// it stays.
pub proof fn law_entities_are_read(x: Seq<char>, y: Seq<char>)
    requires
        is_free_of(x, '&'),
        is_free_of(y, '&'),
    ensures
        decoded(x + "&lt;"@ + y) == x + "<"@ + y,
        decoded(x + "&gt;"@ + y) == x + ">"@ + y,
        decoded(x + "&quot;"@ + y) == x + "\""@ + y,
        decoded(x + "&nbsp;"@ + y) == x + " "@ + y,
{
    lemma_less(x, y);
    lemma_greater(x, y);
    lemma_quote(x, y);
    lemma_blank(x, y);
}

proof fn lemma_less(x: Seq<char>, y: Seq<char>)
    requires
        is_free_of(x, '&'),
        is_free_of(y, '&'),
    ensures
        decoded(x + "&lt;"@ + y) == x + "<"@ + y,
{
    lemma_entities();
    let r = x + "<"@ + y;
    lemma_other_entity(x, "&lt;"@, y, "&amp;"@, "&"@, 1);
    lemma_entity(x, "&lt;"@, y, "<"@);
    lemma_free_of_three(x, "<"@, y);
    lemma_plain_text(r, "&gt;"@, ">"@);
    lemma_plain_text(r, "&quot;"@, "\""@);
    lemma_plain_text(r, "&#39;"@, "'"@);
    lemma_plain_text(r, "&apos;"@, "'"@);
    lemma_plain_text(r, "&nbsp;"@, " "@);
}

proof fn lemma_greater(x: Seq<char>, y: Seq<char>)
    requires
        is_free_of(x, '&'),
        is_free_of(y, '&'),
    ensures
        decoded(x + "&gt;"@ + y) == x + ">"@ + y,
{
    lemma_entities();
    let r = x + ">"@ + y;
    lemma_other_entity(x, "&gt;"@, y, "&amp;"@, "&"@, 1);
    lemma_other_entity(x, "&gt;"@, y, "&lt;"@, "<"@, 1);
    lemma_entity(x, "&gt;"@, y, ">"@);
    lemma_free_of_three(x, ">"@, y);
    lemma_plain_text(r, "&quot;"@, "\""@);
    lemma_plain_text(r, "&#39;"@, "'"@);
    lemma_plain_text(r, "&apos;"@, "'"@);
    lemma_plain_text(r, "&nbsp;"@, " "@);
}

proof fn lemma_quote(x: Seq<char>, y: Seq<char>)
    requires
        is_free_of(x, '&'),
        is_free_of(y, '&'),
    ensures
        decoded(x + "&quot;"@ + y) == x + "\""@ + y,
{
    lemma_entities();
    let r = x + "\""@ + y;
    lemma_other_entity(x, "&quot;"@, y, "&amp;"@, "&"@, 1);
    lemma_other_entity(x, "&quot;"@, y, "&lt;"@, "<"@, 1);
    lemma_other_entity(x, "&quot;"@, y, "&gt;"@, ">"@, 1);
    lemma_entity(x, "&quot;"@, y, "\""@);
    lemma_free_of_three(x, "\""@, y);
    lemma_plain_text(r, "&#39;"@, "'"@);
    lemma_plain_text(r, "&apos;"@, "'"@);
    lemma_plain_text(r, "&nbsp;"@, " "@);
}

proof fn lemma_blank(x: Seq<char>, y: Seq<char>)
    requires
        is_free_of(x, '&'),
        is_free_of(y, '&'),
    ensures
        decoded(x + "&nbsp;"@ + y) == x + " "@ + y,
{
    lemma_entities();
    lemma_other_entity(x, "&nbsp;"@, y, "&amp;"@, "&"@, 1);
    lemma_other_entity(x, "&nbsp;"@, y, "&lt;"@, "<"@, 1);
    lemma_other_entity(x, "&nbsp;"@, y, "&gt;"@, ">"@, 1);
    lemma_other_entity(x, "&nbsp;"@, y, "&quot;"@, "\""@, 1);
    lemma_other_entity(x, "&nbsp;"@, y, "&#39;"@, "'"@, 1);
    lemma_other_entity(x, "&nbsp;"@, y, "&apos;"@, "'"@, 1);
    lemma_entity(x, "&nbsp;"@, y, " "@);
}

/// A text without tags is its words, with its entities read.
pub proof fn law_untagged_text_is_its_words(s: Seq<char>)
    requires
        is_free_of(s, '<'),
        is_free_of(s, '>'),
    ensures
        untagged(s) == joined(words(decoded(s)), " "@),
{
    let n = s.len() as int;
    assert forall|j: int| 0 <= j < n implies #[trigger] s[j] != '<' && s[j] != '>' by {}
    lemma_tags_before(s, 0, n);
    assert(without_tags_from(s, n, false) =~= Seq::<char>::empty());
    assert(s.subrange(0, n) + Seq::<char>::empty() =~= s);
}

} // verus!
