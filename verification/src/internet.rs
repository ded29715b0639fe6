//! Web search and page fetching: what is asked for, what may be reached, and
//! how answers are shown.
use vstd::prelude::*;

use crate::features::provider_named;
use crate::intent::squeeze_prompt;
use crate::intent::squeezed;
use crate::json::{json_members, json_pretty, lemma_json_view, member, render_json_pretty, string_member, unsigned_of, Json, JsonView, Member};
use crate::provider::{opt_message, plain_message, system_message, usable_key, usable_key_of, Message, MessageView};
use crate::safety::{cap_text, capped};
use crate::terminal_markdown::is_closing_mark;
use crate::text::{char_count, chars_of, concat2, concat3, contains, copy_text, decimal_text, find_in, join, lower, push_item, push_text, replace, same_text, split_whitespace, starts_with, take_chars, text_between, trim};
use crate::text::{decimal, find_from, first_chars, has_prefix, has_text, joined, lemma_find_from, lemma_texts_empty, lower_text, opt_text, replaced, texts, trimmed, words};
use crate::workspace::{opt_str_text, result_texts, unit_result};

verus! {

pub const BRAVE_SEARCH_ENDPOINT: &'static str = "https://api.search.brave.com/res/v1/web/search";

pub const TAVILY_SEARCH_ENDPOINT: &'static str = "https://api.tavily.com/search";

pub const DEFAULT_MAX_RESULTS: usize = 5;

pub const MAX_SEARCH_RESULTS: usize = 10;

pub const DEFAULT_FETCH_MAX_BYTES: u64 = 1_000_000;

pub const HARD_FETCH_MAX_BYTES: u64 = 10_485_760;

pub const DEFAULT_TIMEOUT_MS: u64 = 15_000;

pub const HARD_TIMEOUT_MS: u64 = 60_000;

pub const MAX_REDIRECTS: usize = 5;

pub const SEARCH_CONTEXT_CAP: usize = 8_000;

pub const FETCH_CONTEXT_CAP: usize = 12_000;

pub const PROMPT_FETCH_MAX_BYTES: u64 = 80_000;

pub const USER_AGENT_VALUE: &'static str = "deepseek-arkey/0.1 (+https://github.com/JulianAbeleda/deepseek-arkey)";

pub const BRAVE_API_KEY_SETUP_HELP: &'static str = "Brave Search API key is not set.\n\nFor troubleshooting, you can share this message with an AI provider or support\nchat, but do not include any real API keys, tokens, or secrets.\n\nSet it for the current shell:\n  export BRAVE_SEARCH_API_KEY=\"your_brave_search_api_key\"\n\nFor zsh persistence on this machine:\n  echo 'export BRAVE_SEARCH_API_KEY=\"your_brave_search_api_key\"' >> ~/.zsh_secrets\n  source ~/.zshrc\n\nThe ~/.zshrc file sources ~/.zsh_secrets, so keep provider keys there instead\nof writing secrets directly into ~/.zshrc.\n\nThen verify:\n  deepseek\n  /features\n\nBRAVE_API_KEY is also accepted as a legacy alias, but BRAVE_SEARCH_API_KEY is\npreferred.";

// ---------------------------------------------------------------------------
// Options
// ---------------------------------------------------------------------------

#[derive(Debug, Clone, Copy, PartialEq, Eq, Structural)]
pub enum SearchProvider {
    Brave,
    Tavily,
}

pub open spec fn search_provider_of(value: Seq<char>) -> Result<SearchProvider, Seq<char>> {
    let w = lower_text(trimmed(value));
    if w.len() == 0 || w == "brave"@ {
        Ok(SearchProvider::Brave)
    } else if w == "tavily"@ {
        Ok(SearchProvider::Tavily)
    } else {
        Err("unsupported search provider `"@ + w + "`; use brave or tavily"@)
    }
}

pub open spec fn provider_result(r: Result<SearchProvider, String>) -> Result<
    SearchProvider,
    Seq<char>,
> {
    match r {
        Ok(p) => Ok(p),
        Err(e) => Err(e@),
    }
}

impl SearchProvider {
    pub fn parse(value: &str) -> (r: Result<SearchProvider, String>)
        ensures
            provider_result(r) == search_provider_of(value@),
    {
        let word = lower(trim(value).as_str());
        let w = word.as_str();
        if char_count(w) == 0 || same_text(w, "brave") {
            Ok(SearchProvider::Brave)
        } else if same_text(w, "tavily") {
            Ok(SearchProvider::Tavily)
        } else {
            Err(concat3("unsupported search provider `", w, "`; use brave or tavily"))
        }
    }

    /// The provider in use, by the runtime state and the environment.
    pub fn active(runtime_value: Option<&str>, env_value: Option<&str>) -> (r: Result<
        SearchProvider,
        String,
    >)
        ensures
            provider_result(r) == search_provider_of(
                provider_named(
                    crate::features::first_setting(
                        opt_str_text(runtime_value),
                        opt_str_text(env_value),
                    ),
                ),
            ),
    {
        let name = crate::features::active_search_provider(runtime_value, env_value);
        SearchProvider::parse(name.as_str())
    }

    pub open spec fn name_text(self) -> Seq<char> {
        match self {
            SearchProvider::Brave => "brave"@,
            SearchProvider::Tavily => "tavily"@,
        }
    }

    pub fn name(self) -> (r: &'static str)
        ensures
            r@ == self.name_text(),
    {
        match self {
            SearchProvider::Brave => "brave",
            SearchProvider::Tavily => "tavily",
        }
    }
}

/// The key for Brave search: the specific setting first, then the alias.
pub fn brave_api_key(search_key: Option<String>, alias_key: Option<String>) -> (r: Result<
    String,
    String,
>)
    ensures
        result_texts(r) == match usable_key(opt_text(search_key)) {
            Some(k) => Ok(k),
            None => match usable_key(opt_text(alias_key)) {
                Some(k) => Ok(k),
                None => Err(BRAVE_API_KEY_SETUP_HELP@),
            },
        },
{
    if let Some(key) = usable_key_of(search_key) {
        return Ok(key);
    }
    match usable_key_of(alias_key) {
        Some(key) => Ok(key),
        None => Err(copy_text(BRAVE_API_KEY_SETUP_HELP)),
    }
}

pub fn tavily_api_key(key: Option<String>) -> (r: Result<String, String>)
    ensures
        result_texts(r) == match usable_key(opt_text(key)) {
            Some(k) => Ok(k),
            None => Err("Tavily search requires TAVILY_API_KEY."@),
        },
{
    match usable_key_of(key) {
        Some(key) => Ok(key),
        None => Err(copy_text("Tavily search requires TAVILY_API_KEY.")),
    }
}

#[derive(Debug, Clone, Copy, PartialEq, Eq, Structural)]
pub enum FetchFormat {
    Markdown,
    Text,
    Raw,
}

pub open spec fn fetch_format_of(value: Option<Seq<char>>) -> Result<FetchFormat, Seq<char>> {
    match value {
        None => Ok(FetchFormat::Markdown),
        Some(v) => {
            let w = lower_text(trimmed(v));
            if w.len() == 0 || w == "markdown"@ || w == "md"@ {
                Ok(FetchFormat::Markdown)
            } else if w == "text"@ || w == "txt"@ || w == "plain"@ {
                Ok(FetchFormat::Text)
            } else if w == "raw"@ || w == "html"@ {
                Ok(FetchFormat::Raw)
            } else {
                Err("unknown fetch format `"@ + w + "`; use markdown, text, or raw"@)
            }
        },
    }
}

pub open spec fn format_result(r: Result<FetchFormat, String>) -> Result<FetchFormat, Seq<char>> {
    match r {
        Ok(f) => Ok(f),
        Err(e) => Err(e@),
    }
}

impl FetchFormat {
    pub fn parse(value: Option<&str>) -> (r: Result<FetchFormat, String>)
        ensures
            format_result(r) == fetch_format_of(opt_str_text(value)),
    {
        let value = match value {
            Some(v) => v,
            None => {
                return Ok(FetchFormat::Markdown);
            },
        };
        let word = lower(trim(value).as_str());
        let w = word.as_str();
        if char_count(w) == 0 || same_text(w, "markdown") || same_text(w, "md") {
            Ok(FetchFormat::Markdown)
        } else if same_text(w, "text") || same_text(w, "txt") || same_text(w, "plain") {
            Ok(FetchFormat::Text)
        } else if same_text(w, "raw") || same_text(w, "html") {
            Ok(FetchFormat::Raw)
        } else {
            Err(concat3("unknown fetch format `", w, "`; use markdown, text, or raw"))
        }
    }
}

#[derive(Debug, Clone, Copy, PartialEq, Eq, Structural)]
pub struct FetchOptions {
    pub format: FetchFormat,
    pub max_bytes: u64,
    pub timeout_ms: u64,
}

pub open spec fn at_most(n: u64, limit: u64) -> u64 {
    if n < limit {
        n
    } else {
        limit
    }
}

pub open spec fn fetch_options(format: FetchFormat, max_bytes: u64, timeout_ms: u64) -> FetchOptions {
    FetchOptions {
        format,
        max_bytes: at_most(max_bytes, HARD_FETCH_MAX_BYTES),
        timeout_ms: at_most(timeout_ms, HARD_TIMEOUT_MS),
    }
}

impl FetchOptions {
    pub fn new(format: FetchFormat, max_bytes: u64, timeout_ms: u64) -> (r: FetchOptions)
        ensures
            r == fetch_options(format, max_bytes, timeout_ms),
    {
        FetchOptions {
            format,
            max_bytes: if max_bytes < HARD_FETCH_MAX_BYTES {
                max_bytes
            } else {
                HARD_FETCH_MAX_BYTES
            },
            timeout_ms: if timeout_ms < HARD_TIMEOUT_MS { timeout_ms } else { HARD_TIMEOUT_MS },
        }
    }
}

/// Between one and the most results that are asked for.
pub open spec fn clamped_results(n: u64) -> int {
    if n < 1 {
        1
    } else if n > MAX_SEARCH_RESULTS {
        MAX_SEARCH_RESULTS as int
    } else {
        n as int
    }
}

pub fn clamp_search_results(value: u64) -> (r: usize)
    ensures
        r == clamped_results(value),
{
    if value < 1 {
        1
    } else if value > 10 {
        MAX_SEARCH_RESULTS
    } else {
        value as usize
    }
}

// ---------------------------------------------------------------------------
// Tool calls
// ---------------------------------------------------------------------------

/// A search to make.
#[derive(Debug)]
pub struct SearchRequest {
    pub query: String,
    pub max_results: usize,
}

/// A text member that is not blank, without white space round it.
pub open spec fn filled_member(arguments: JsonView, key: Seq<char>) -> Option<Seq<char>> {
    match string_member(arguments, key) {
        Some(v) => if trimmed(v).len() == 0 {
            None
        } else {
            Some(trimmed(v))
        },
        None => None,
    }
}

fn filled_argument(arguments: &Json, key: &str) -> (r: Option<String>)
    ensures
        opt_text(r) == filled_member(arguments@, key@),
{
    match arguments.get_str(key) {
        Some(v) => {
            let t = trim(v.as_str());
            if char_count(t.as_str()) == 0 {
                None
            } else {
                Some(t)
            }
        },
        None => None,
    }
}

pub open spec fn unsigned_member(arguments: JsonView, key: Seq<char>) -> Option<u64> {
    match member(arguments, key) {
        Some(v) => unsigned_of(v),
        None => None,
    }
}

fn unsigned_argument(arguments: &Json, key: &str) -> (r: Option<u64>)
    ensures
        r == unsigned_member(arguments@, key@),
{
    match arguments.get(key) {
        Some(v) => v.as_u64(),
        None => None,
    }
}

pub open spec fn search_request_result(r: Result<SearchRequest, String>) -> Result<
    (Seq<char>, int),
    Seq<char>,
> {
    match r {
        Ok(q) => Ok((q.query@, q.max_results as int)),
        Err(e) => Err(e@),
    }
}

/// The search that a tool call asks for, or the answer to a call that asks for
/// none.
pub fn web_search_request(arguments: &Json) -> (r: Result<SearchRequest, String>)
    ensures
        search_request_result(r) == match filled_member(arguments@, "query"@) {
            Some(q) => Ok(
                (
                    q,
                    match unsigned_member(arguments@, "max_results"@) {
                        Some(n) => clamped_results(n),
                        None => DEFAULT_MAX_RESULTS as int,
                    },
                ),
            ),
            None => Err("error: missing non-empty `query`"@),
        },
{
    let query = match filled_argument(arguments, "query") {
        Some(q) => q,
        None => {
            return Err(copy_text("error: missing non-empty `query`"));
        },
    };
    let max_results: usize = match unsigned_argument(arguments, "max_results") {
        Some(n) => clamp_search_results(n),
        None => DEFAULT_MAX_RESULTS,
    };
    Ok(SearchRequest { query, max_results })
}

/// A page to fetch.
#[derive(Debug)]
pub struct FetchRequest {
    pub url: String,
    pub options: FetchOptions,
}

pub open spec fn fetch_request_result(r: Result<FetchRequest, String>) -> Result<
    (Seq<char>, FetchOptions),
    Seq<char>,
> {
    match r {
        Ok(f) => Ok((f.url@, f.options)),
        Err(e) => Err(e@),
    }
}

pub open spec fn or_default(o: Option<u64>, d: u64) -> u64 {
    match o {
        Some(n) => n,
        None => d,
    }
}

/// The fetch that a tool call asks for, or the answer to a call that asks for
/// none.
pub fn fetch_url_request(arguments: &Json) -> (r: Result<FetchRequest, String>)
    ensures
        fetch_request_result(r) == match filled_member(arguments@, "url"@) {
            None => Err("error: missing non-empty `url`"@),
            Some(url) => match fetch_format_of(string_member(arguments@, "format"@)) {
                Err(e) => Err("error: "@ + e),
                Ok(format) => Ok(
                    (
                        url,
                        fetch_options(
                            format,
                            or_default(
                                unsigned_member(arguments@, "max_bytes"@),
                                DEFAULT_FETCH_MAX_BYTES,
                            ),
                            or_default(
                                unsigned_member(arguments@, "timeout_ms"@),
                                DEFAULT_TIMEOUT_MS,
                            ),
                        ),
                    ),
                ),
            },
        },
{
    let url = match filled_argument(arguments, "url") {
        Some(u) => u,
        None => {
            return Err(copy_text("error: missing non-empty `url`"));
        },
    };
    let wanted = match arguments.get_str("format") {
        Some(f) => Some(f.as_str()),
        None => None,
    };
    let format = match FetchFormat::parse(wanted) {
        Ok(f) => f,
        Err(e) => {
            return Err(concat2("error: ", e.as_str()));
        },
    };
    let max_bytes: u64 = match unsigned_argument(arguments, "max_bytes") {
        Some(n) => n,
        None => DEFAULT_FETCH_MAX_BYTES,
    };
    let timeout_ms: u64 = match unsigned_argument(arguments, "timeout_ms") {
        Some(n) => n,
        None => DEFAULT_TIMEOUT_MS,
    };
    Ok(FetchRequest { url, options: FetchOptions::new(format, max_bytes, timeout_ms) })
}

/// What a tool answers, given what came of its work.
pub fn tool_answer(result: Result<String, String>) -> (r: String)
    ensures
        r@ == match result_texts(result) {
            Ok(text) => text,
            Err(e) => "error: "@ + e,
        },
{
    match result {
        Ok(text) => text,
        Err(e) => concat2("error: ", e.as_str()),
    }
}

// ---------------------------------------------------------------------------
// Addresses
// ---------------------------------------------------------------------------

/// An address of the internet protocol, version 4 by its bytes and version 6 by
/// its eight groups.
#[derive(Debug, Clone, Copy, PartialEq, Eq, Structural)]
pub enum NetAddress {
    V4(u8, u8, u8, u8),
    V6(u16, u16, u16, u16, u16, u16, u16, u16),
}

/// An address that no request may reach: loopback, private, shared, link-local,
/// benchmarking, multicast, reserved, unspecified, and everything that maps an
/// older address.
pub open spec fn is_restricted(ip: NetAddress) -> bool {
    match ip {
        NetAddress::V4(a, b, c, d) => {
            ||| a == 127
            ||| a == 10
            ||| a == 172 && 16 <= b <= 31
            ||| a == 192 && b == 168
            ||| a == 169 && b == 254
            ||| a == 100 && 64 <= b <= 127
            ||| a == 198 && 18 <= b <= 19
            ||| a >= 224
            ||| a == 0 && b == 0 && c == 0 && d == 0
        },
        NetAddress::V6(a, b, c, d, e, f, g, h) => {
            ||| a == 0 && b == 0 && c == 0 && d == 0 && e == 0 && f == 0 && g == 0 && h <= 1
            ||| a == 0 && b == 0 && c == 0 && d == 0 && e == 0 && f == 0xffff
            ||| 0xff00 <= a
            ||| 0xfc00 <= a <= 0xfdff
            ||| 0xfe80 <= a <= 0xfebf
        },
    }
}

pub fn is_restricted_ip(ip: NetAddress) -> (r: bool)
    ensures
        r == is_restricted(ip),
{
    match ip {
        NetAddress::V4(a, b, c, d) => {
            a == 127 || a == 10 || (a == 172 && 16 <= b && b <= 31) || (a == 192 && b == 168) || (a
                == 169 && b == 254) || (a == 100 && 64 <= b && b <= 127) || (a == 198 && 18 <= b
                && b <= 19) || a >= 224 || (a == 0 && b == 0 && c == 0 && d == 0)
        },
        NetAddress::V6(a, b, c, d, e, f, g, h) => {
            (a == 0 && b == 0 && c == 0 && d == 0 && e == 0 && f == 0 && g == 0 && h <= 1) || (a
                == 0 && b == 0 && c == 0 && d == 0 && e == 0 && f == 0xffff) || a >= 0xff00 || (
            0xfc00 <= a && a <= 0xfdff) || (0xfe80 <= a && a <= 0xfebf)
        },
    }
}

/// An address and how it is written.
#[derive(Debug)]
pub struct NamedAddress {
    pub ip: NetAddress,
    pub text: String,
}

pub open spec fn restricted_text(text: Seq<char>) -> Seq<char> {
    "IP "@ + text + " is a restricted address (private/loopback/link-local)"@
}

pub fn validate_ip(address: &NamedAddress) -> (r: Result<(), String>)
    ensures
        unit_result(r) == if is_restricted(address.ip) {
            Err(restricted_text(address.text@))
        } else {
            Ok(())
        },
{
    if is_restricted_ip(address.ip) {
        Err(
            concat3(
                "IP ",
                address.text.as_str(),
                " is a restricted address (private/loopback/link-local)",
            ),
        )
    } else {
        Ok(())
    }
}

/// The first restricted address, from address `k` on.
pub open spec fn restricted_from(list: Seq<NamedAddress>, k: int) -> Option<Seq<char>>
    decreases list.len() - k,
{
    if k < 0 || k >= list.len() {
        None
    } else if is_restricted(list[k].ip) {
        Some(restricted_text(list[k].text@))
    } else {
        restricted_from(list, k + 1)
    }
}

/// Whether a host that stands for these addresses may be reached: it has one,
/// and none is restricted.
pub open spec fn addresses_allowed(list: Seq<NamedAddress>) -> Result<(), Seq<char>> {
    if list.len() == 0 {
        Err("host resolved to no addresses"@)
    } else {
        match restricted_from(list, 0) {
            Some(e) => Err(e),
            None => Ok(()),
        }
    }
}

pub fn validate_addresses(list: &Vec<NamedAddress>) -> (r: Result<(), String>)
    ensures
        unit_result(r) == addresses_allowed(list@),
{
    if list.len() == 0 {
        return Err(copy_text("host resolved to no addresses"));
    }
    let mut k: usize = 0;
    while k < list.len()
        invariant
            k <= list.len(),
            list.len() > 0,
            restricted_from(list@, 0) == restricted_from(list@, k as int),
        decreases list.len() - k,
    {
        if let Err(e) = validate_ip(&list[k]) {
            return Err(e);
        }
        k += 1;
    }
    Ok(())
}

proof fn lemma_restricted_from(list: Seq<NamedAddress>, k: int)
    requires
        0 <= k,
    ensures
        restricted_from(list, k) is None <==> forall|i: int|
            k <= i < list.len() ==> !is_restricted(#[trigger] list[i].ip),
    decreases list.len() - k,
{
    if k < list.len() {
        lemma_restricted_from(list, k + 1);
    }
}

/// A host passes exactly when it has an address and all of them are allowed:
/// one restricted address among many is enough to refuse it.
pub proof fn law_every_address_must_be_allowed(list: Seq<NamedAddress>)
    ensures
        addresses_allowed(list) is Ok <==> list.len() > 0 && forall|i: int|
            0 <= i < list.len() ==> !is_restricted(#[trigger] list[i].ip),
{
    lemma_restricted_from(list, 0);
}

// ---------------------------------------------------------------------------
// Web addresses
// ---------------------------------------------------------------------------

/// The parts of a web address that decide whether it may be fetched.
#[derive(Debug)]
pub struct UrlParts {
    pub text: String,
    pub scheme: String,
    pub host: Option<String>,
    pub port: Option<u16>,
}

#[verifier::ext_equal]
pub struct UrlView {
    pub text: Seq<char>,
    pub scheme: Seq<char>,
    pub host: Option<Seq<char>>,
    pub port: Option<u16>,
}

impl View for UrlParts {
    type V = UrlView;

    open spec fn view(&self) -> UrlView {
        UrlView {
            text: self.text@,
            scheme: self.scheme@,
            host: opt_text(self.host),
            port: self.port,
        }
    }
}

pub open spec fn url_result(r: Result<UrlParts, String>) -> Result<UrlView, Seq<char>> {
    match r {
        Ok(u) => Ok(u@),
        Err(e) => Err(e@),
    }
}

/// What `reqwest::Url::parse` makes of a text: the address in its normal
/// spelling, its scheme, host, and port or the scheme's known one, or the words
/// of its error.
pub uninterp spec fn url_parsed(text: Seq<char>) -> Result<UrlView, Seq<char>>;

/// What `reqwest::Url::join` makes of a base address and a reference.
pub uninterp spec fn url_joined(base: Seq<char>, reference: Seq<char>) -> Result<
    Seq<char>,
    Seq<char>,
>;

/// The address that `query_pairs_mut().extend_pairs` of `reqwest::Url` makes of
/// an address and pairs of names and values.
pub uninterp spec fn url_with_pairs(
    base: Seq<char>,
    names: Seq<Seq<char>>,
    values: Seq<Seq<char>>,
) -> Result<Seq<char>, Seq<char>>;

/// The text that `String::from_utf8_lossy` makes of bytes.
pub uninterp spec fn utf8_lossy(bytes: Seq<u8>) -> Seq<char>;

/// `reqwest::Url::parse`: the result is a function of the text alone.
#[verifier::external_body]
pub(crate) fn parse_url(text: &str) -> (r: Result<UrlParts, String>)
    ensures
        url_result(r) == url_parsed(text@),
{
    match reqwest::Url::parse(text) {
        Ok(url) => Ok(UrlParts {
            text: url.to_string(),
            scheme: url.scheme().to_string(),
            host: url.host_str().map(str::to_string),
            port: url.port_or_known_default(),
        }),
        Err(err) => Err(err.to_string()),
    }
}

/// `reqwest::Url::join`, on a base address given by its text: the result is a
/// function of both texts alone.
#[verifier::external_body]
pub(crate) fn join_url(base: &str, reference: &str) -> (r: Result<String, String>)
    ensures
        result_texts(r) == url_joined(base@, reference@),
{
    match reqwest::Url::parse(base).and_then(|url| url.join(reference)) {
        Ok(url) => Ok(url.to_string()),
        Err(err) => Err(err.to_string()),
    }
}

/// `query_pairs_mut().extend_pairs` of `reqwest::Url`, on an address given by
/// its text: the result is a function of the address and the pairs alone.
#[verifier::external_body]
fn extend_url(base: &str, names: &Vec<String>, values: &Vec<String>) -> (r: Result<String, String>)
    ensures
        result_texts(r) == url_with_pairs(base@, texts(names@), texts(values@)),
{
    let mut url = reqwest::Url::parse(base).map_err(|err| err.to_string())?;
    url.query_pairs_mut().extend_pairs(names.iter().zip(values.iter()));
    Ok(url.to_string())
}

/// `String::from_utf8_lossy`: the result is a function of the bytes alone.
#[verifier::external_body]
pub(crate) fn lossy_text(bytes: &Vec<u8>) -> (r: String)
    ensures
        r@ == utf8_lossy(bytes@),
{
    String::from_utf8_lossy(bytes).into_owned()
}

/// The host that a fetch goes to, in lower case: only web addresses with a host
/// other than the machine itself may be fetched.
pub open spec fn fetch_host(url: UrlView) -> Result<Seq<char>, Seq<char>> {
    if url.scheme != "http"@ && url.scheme != "https"@ {
        Err("only http:// and https:// URLs are supported"@)
    } else {
        match url.host {
            None => Err("URL must include a host"@),
            Some(h) => {
                let host = lower_text(h);
                if host == "localhost"@ || host == "localhost.localdomain"@ {
                    Err("requests to localhost are not allowed"@)
                } else {
                    Ok(host)
                }
            },
        }
    }
}

pub fn target_host(url: &UrlParts) -> (r: Result<String, String>)
    ensures
        result_texts(r) == fetch_host(url@),
{
    if !same_text(url.scheme.as_str(), "http") && !same_text(url.scheme.as_str(), "https") {
        return Err(copy_text("only http:// and https:// URLs are supported"));
    }
    match &url.host {
        None => Err(copy_text("URL must include a host")),
        Some(h) => {
            let host = lower(h.as_str());
            if same_text(host.as_str(), "localhost") || same_text(
                host.as_str(),
                "localhost.localdomain",
            ) {
                Err(copy_text("requests to localhost are not allowed"))
            } else {
                Ok(host)
            }
        },
    }
}

/// The host without the square brackets round a version 6 address.
pub open spec fn bare_host(host: Seq<char>) -> Seq<char> {
    if host.len() >= 2 && host[0] == '[' && host.last() == ']' {
        host.subrange(1, host.len() - 1)
    } else {
        host
    }
}

pub fn literal_candidate(host: &str) -> (r: String)
    ensures
        r@ == bare_host(host@),
{
    let v = chars_of(host);
    if v.len() >= 2 && v[0] == '[' && v[v.len() - 1] == ']' {
        text_between(&v, 1, v.len() - 1)
    } else {
        copy_text(host)
    }
}

pub open spec fn port_result(r: Result<u16, String>) -> Result<u16, Seq<char>> {
    match r {
        Ok(p) => Ok(p),
        Err(e) => Err(e@),
    }
}

pub fn target_port(url: &UrlParts) -> (r: Result<u16, String>)
    ensures
        port_result(r) == match url.port {
            Some(p) => Ok(p),
            None => Err("URL must include a port or known scheme"@),
        },
{
    match url.port {
        Some(p) => Ok(p),
        None => Err(copy_text("URL must include a port or known scheme")),
    }
}

/// What is known of a target before its name is looked up, where the host may be
/// the address `literal`: the name and port to look up, none for a literal
/// address, or why it is refused.
pub open spec fn lookup_of(url: UrlView, literal: Option<NamedAddress>) -> Result<
    Option<(Seq<char>, u16)>,
    Seq<char>,
> {
    match fetch_host(url) {
        Err(e) => Err(e),
        Ok(host) => match literal {
            Some(address) => if is_restricted(address.ip) {
                Err(restricted_text(address.text@))
            } else {
                Ok(None)
            },
            None => match url.port {
                Some(port) => Ok(Some((host, port))),
                None => Err("URL must include a port or known scheme"@),
            },
        },
    }
}

pub open spec fn lookup_result(r: Result<Option<(String, u16)>, String>) -> Result<
    Option<(Seq<char>, u16)>,
    Seq<char>,
> {
    match r {
        Ok(Some(pair)) => Ok(Some((pair.0@, pair.1))),
        Ok(None) => Ok(None),
        Err(e) => Err(e@),
    }
}

/// The name and port to look up for a target, if any; `literal` is the address
/// that the host is written as, where it is one.
pub fn target_lookup(url: &UrlParts, literal: Option<&NamedAddress>) -> (r: Result<
    Option<(String, u16)>,
    String,
>)
    ensures
        lookup_result(r) == lookup_of(
            url@,
            match literal {
                Some(address) => Some(*address),
                None => None,
            },
        ),
{
    let host = match target_host(url) {
        Ok(host) => host,
        Err(e) => return Err(e),
    };
    match literal {
        Some(address) => match validate_ip(address) {
            Ok(_) => Ok(None),
            Err(e) => Err(e),
        },
        None => match target_port(url) {
            Ok(port) => Ok(Some((host, port))),
            Err(e) => Err(e),
        },
    }
}

pub open spec fn resolved_view(r: Result<Vec<NamedAddress>, String>) -> Result<
    Seq<NamedAddress>,
    Seq<char>,
> {
    match r {
        Ok(list) => Ok(list@),
        Err(e) => Err(e@),
    }
}

/// Whether a target may be fetched, given what looking up its name came to: the
/// host to pin to the first address, none for a literal address, or why it is
/// refused.
pub open spec fn target_allowed(
    url: UrlView,
    literal: Option<NamedAddress>,
    resolved: Result<Seq<NamedAddress>, Seq<char>>,
) -> Result<Option<Seq<char>>, Seq<char>> {
    match lookup_of(url, literal) {
        Err(e) => Err(e),
        Ok(None) => Ok(None),
        Ok(Some((host, _))) => match resolved {
            Err(e) => Err("failed to resolve host: "@ + e),
            Ok(list) => match addresses_allowed(list) {
                Ok(_) => Ok(Some(host)),
                Err(e) => Err(e),
            },
        },
    }
}

pub open spec fn pin_result(r: Result<Option<String>, String>) -> Result<
    Option<Seq<char>>,
    Seq<char>,
> {
    match r {
        Ok(host) => Ok(opt_text(host)),
        Err(e) => Err(e@),
    }
}

/// Whether a target may be fetched: the host to pin to the first of the resolved
/// addresses, none where it is written as an address. What was resolved is not
/// looked at for such a one.
pub fn validate_fetch_target(
    url: &UrlParts,
    literal: Option<&NamedAddress>,
    resolved: Result<Vec<NamedAddress>, String>,
) -> (r: Result<Option<String>, String>)
    ensures
        pin_result(r) == target_allowed(
            url@,
            match literal {
                Some(address) => Some(*address),
                None => None,
            },
            resolved_view(resolved),
        ),
{
    match target_lookup(url, literal) {
        Err(e) => Err(e),
        Ok(None) => Ok(None),
        Ok(Some((host, _))) => match resolved {
            Err(e) => Err(concat2("failed to resolve host: ", e.as_str())),
            Ok(list) => match validate_addresses(&list) {
                Ok(_) => Ok(Some(host)),
                Err(e) => Err(e),
            },
        },
    }
}

/// A target that may be fetched is a web address, not on this machine by name,
/// and every address that it can lead to is allowed. One that is pinned has an
/// address to be pinned to, and what is refused before its name is looked up is
/// refused whatever that would give.
pub proof fn law_fetched_targets_are_allowed(
    url: UrlView,
    literal: Option<NamedAddress>,
    resolved: Result<Seq<NamedAddress>, Seq<char>>,
)
    ensures
        target_allowed(url, literal, resolved) is Ok ==> {
            &&& fetch_host(url) is Ok
            &&& literal is Some ==> !is_restricted(literal->Some_0.ip)
            &&& literal is None ==> resolved is Ok && resolved->Ok_0.len() > 0 && forall|i: int|
                0 <= i < resolved->Ok_0.len() ==> !is_restricted(#[trigger] resolved->Ok_0[i].ip)
        },
        target_allowed(url, literal, resolved) matches Ok(pin) ==> (pin is Some <==> literal
            is None) && (pin is Some ==> pin->Some_0 == fetch_host(url)->Ok_0),
        lookup_of(url, literal) matches Err(e) ==> target_allowed(url, literal, resolved) == Err::<
            Option<Seq<char>>,
            Seq<char>,
        >(e),
{
    if let Ok(list) = resolved {
        law_every_address_must_be_allowed(list);
    }
}

/// The address to start a fetch with.
pub fn start_fetch(url: &str) -> (r: Result<UrlParts, String>)
    ensures
        url_result(r) == match url_parsed(url@) {
            Ok(u) => Ok(u),
            Err(e) => Err("invalid URL: "@ + e),
        },
{
    match parse_url(url) {
        Ok(parts) => Ok(parts),
        Err(e) => Err(concat2("invalid URL: ", e.as_str())),
    }
}

/// What to do with a response.
#[derive(Debug)]
pub enum FetchStep {
    /// Fetch this address next.
    Redirect(String),
    /// Read the body.
    Read,
    /// Fail.
    Fail(String),
}

pub enum FetchStepView {
    Redirect(Seq<char>),
    Read,
    Fail(Seq<char>),
}

impl View for FetchStep {
    type V = FetchStepView;

    open spec fn view(&self) -> FetchStepView {
        match *self {
            FetchStep::Redirect(u) => FetchStepView::Redirect(u@),
            FetchStep::Read => FetchStepView::Read,
            FetchStep::Fail(e) => FetchStepView::Fail(e@),
        }
    }
}

pub open spec fn is_redirection(status: u16) -> bool {
    300 <= status < 400
}

/// What to do with a response after `redirects` redirections. `joined` is the
/// address that its location leads to, if it gives one.
pub open spec fn fetch_next(
    status: u16,
    redirects: int,
    joined: Option<Result<Seq<char>, Seq<char>>>,
) -> FetchStepView {
    if !is_redirection(status) {
        FetchStepView::Read
    } else if redirects >= MAX_REDIRECTS {
        FetchStepView::Fail(
            "too many redirects; stopped after "@ + decimal(MAX_REDIRECTS as nat) + " redirects"@,
        )
    } else {
        match joined {
            None => FetchStepView::Read,
            Some(Ok(url)) => FetchStepView::Redirect(url),
            Some(Err(e)) => FetchStepView::Fail("invalid redirect location: "@ + e),
        }
    }
}

pub open spec fn opt_joined(o: Option<Result<String, String>>) -> Option<
    Result<Seq<char>, Seq<char>>,
> {
    match o {
        Some(r) => Some(result_texts(r)),
        None => None,
    }
}

/// What to do with a response, given the address that its location leads to.
pub fn fetch_step_for(
    status: u16,
    redirects: usize,
    joined: Option<Result<String, String>>,
) -> (r: FetchStep)
    ensures
        r@ == fetch_next(status, redirects as int, opt_joined(joined)),
{
    if !(300 <= status && status < 400) {
        return FetchStep::Read;
    }
    if redirects >= MAX_REDIRECTS {
        return FetchStep::Fail(
            concat3(
                "too many redirects; stopped after ",
                decimal_text(MAX_REDIRECTS as u64).as_str(),
                " redirects",
            ),
        );
    }
    match joined {
        None => FetchStep::Read,
        Some(Ok(url)) => FetchStep::Redirect(url),
        Some(Err(e)) => FetchStep::Fail(concat2("invalid redirect location: ", e.as_str())),
    }
}

/// What to do with a response from `response_url`.
pub fn fetch_step(
    status: u16,
    redirects: usize,
    response_url: &str,
    location: Option<&str>,
) -> (r: FetchStep)
    ensures
        r@ == fetch_next(
            status,
            redirects as int,
            match location {
                Some(l) => Some(url_joined(response_url@, l@)),
                None => None,
            },
        ),
{
    let joined = match location {
        Some(l) => Some(join_url(response_url, l)),
        None => None,
    };
    fetch_step_for(status, redirects, joined)
}

/// A fetch follows at most five redirections.
pub proof fn law_redirections_are_bounded(
    status: u16,
    redirects: int,
    joined: Option<Result<Seq<char>, Seq<char>>>,
)
    requires
        fetch_next(status, redirects, joined) is Redirect,
    ensures
        redirects < MAX_REDIRECTS,
        is_redirection(status),
{
}

// ---------------------------------------------------------------------------
// Page text
// ---------------------------------------------------------------------------

pub open spec fn collapsed(s: Seq<char>) -> Seq<char> {
    joined(words(s), " "@)
}

fn collapse_whitespace(input: &str) -> (r: String)
    ensures
        r@ == collapsed(input@),
{
    join(&split_whitespace(input), " ")
}

/// The text with the common character references decoded, one after another.
pub open spec fn decoded(s: Seq<char>) -> Seq<char> {
    replaced(
        replaced(
            replaced(
                replaced(
                    replaced(
                        replaced(replaced(s, "&amp;"@, "&"@), "&lt;"@, "<"@),
                        "&gt;"@,
                        ">"@,
                    ),
                    "&quot;"@,
                    "\""@,
                ),
                "&#39;"@,
                "'"@,
            ),
            "&apos;"@,
            "'"@,
        ),
        "&nbsp;"@,
        " "@,
    )
}

fn decode_entities(input: &str) -> (r: String)
    ensures
        r@ == decoded(input@),
{
    let a = replace(input, "&amp;", "&");
    let b = replace(a.as_str(), "&lt;", "<");
    let c = replace(b.as_str(), "&gt;", ">");
    let d = replace(c.as_str(), "&quot;", "\"");
    let e = replace(d.as_str(), "&#39;", "'");
    let f = replace(e.as_str(), "&apos;", "'");
    replace(f.as_str(), "&nbsp;", " ")
}

/// The text from index `i` on with a space for each angle bracket and nothing
/// of what stands between them.
pub open spec fn without_tags_from(s: Seq<char>, i: int, in_tag: bool) -> Seq<char>
    decreases s.len() - i,
{
    if i < 0 || i >= s.len() {
        Seq::empty()
    } else if s[i] == '<' {
        seq![' '] + without_tags_from(s, i + 1, true)
    } else if s[i] == '>' {
        seq![' '] + without_tags_from(s, i + 1, false)
    } else if in_tag {
        without_tags_from(s, i + 1, in_tag)
    } else {
        seq![s[i]] + without_tags_from(s, i + 1, in_tag)
    }
}

/// A page without its tags.
pub open spec fn untagged(s: Seq<char>) -> Seq<char> {
    collapsed(decoded(without_tags_from(s, 0, false)))
}

pub fn strip_html_tags(input: &str) -> (r: String)
    ensures
        r@ == untagged(input@),
{
    let v = chars_of(input);
    let mut out = String::new();
    let mut in_tag = false;
    let mut i: usize = 0;
    let ghost want = without_tags_from(input@, 0, false);
    assert(out@ + without_tags_from(v@, 0, false) =~= want);
    while i < v.len()
        invariant
            i <= v.len(),
            v@ == input@,
            out@ + without_tags_from(v@, i as int, in_tag) == want,
        decreases v.len() - i,
    {
        let ghost before = out@;
        let ghost was = in_tag;
        let c = v[i];
        if c == '<' {
            in_tag = true;
            out.push(' ');
        } else if c == '>' {
            in_tag = false;
            out.push(' ');
        } else if !in_tag {
            out.push(c);
        }
        assert(before + without_tags_from(v@, i as int, was) =~= out@ + without_tags_from(
            v@,
            i + 1,
            in_tag,
        ));
        i += 1;
    }
    assert(out@ =~= want);
    collapse_whitespace(decode_entities(out.as_str()).as_str())
}

/// The page from index `i` on without the elements between `open` and `close`;
/// an element that is not closed takes the rest with it.
pub open spec fn without_blocks_from(
    s: Seq<char>,
    low: Seq<char>,
    open: Seq<char>,
    close: Seq<char>,
    i: int,
) -> Seq<char>
    decreases s.len() - i,
{
    match find_from(low, open, i) {
        None => s.skip(i),
        Some(a) => match find_from(low, close, a) {
            None => s.subrange(i, a),
            Some(b) => if 0 <= i <= a <= b && b + close.len() <= s.len() && i < b + close.len() {
                s.subrange(i, a) + without_blocks_from(s, low, open, close, b + close.len())
            } else {
                Seq::empty()
            },
        },
    }
}

/// The page without the elements of one name.
pub open spec fn without_blocks(s: Seq<char>, tag: Seq<char>) -> Seq<char> {
    without_blocks_from(s, lower_text(s), "<"@ + tag, "</"@ + tag + ">"@, 0)
}

fn remove_tag_blocks(input: &str, tag: &str) -> (r: String)
    ensures
        r@ == without_blocks(input@, tag@),
{
    let v = chars_of(input);
    let low = chars_of(lower(input).as_str());
    let open = chars_of(concat2("<", tag).as_str());
    let close = chars_of(concat3("</", tag, ">").as_str());
    proof {
        reveal_strlit("</");
    }
    let mut out = String::new();
    let mut i: usize = 0;
    let ghost want = without_blocks(input@, tag@);
    assert(out@ + without_blocks_from(v@, low@, open@, close@, 0) =~= want);
    loop
        invariant_except_break
            out@ + without_blocks_from(v@, low@, open@, close@, i as int) == want,
        invariant
            i <= v.len(),
            low.len() == v.len(),
            low@ == lower_text(v@),
            close@.len() >= 2,
        ensures
            out@ == want,
        decreases v.len() - i,
    {
        let ghost before = out@;
        let a = match find_in(&low, &open, i) {
            Some(a) => a,
            None => {
                push_text(&mut out, text_between(&v, i, v.len()).as_str());
                assert(v@.subrange(i as int, v.len() as int) =~= v@.skip(i as int));
                break;
            },
        };
        proof {
            lemma_find_from(low@, open@, i as int);
        }
        push_text(&mut out, text_between(&v, i, a).as_str());
        let b = match find_in(&low, &close, a) {
            Some(b) => b,
            None => {
                break;
            },
        };
        proof {
            lemma_find_from(low@, close@, a as int);
        }
        let next: usize = b + close.len();
        assert(before + without_blocks_from(v@, low@, open@, close@, i as int) =~= out@
            + without_blocks_from(v@, low@, open@, close@, next as int));
        i = next;
    }
    out
}

/// The text of a page: scripts, styles and tags are left out.
pub open spec fn page_text(html: Seq<char>) -> Seq<char> {
    collapsed(decoded(untagged(without_blocks(without_blocks(html, "script"@), "style"@))))
}

pub fn html_to_text(html: &str) -> (r: String)
    ensures
        r@ == page_text(html@),
{
    let no_scripts = remove_tag_blocks(html, "script");
    let no_styles = remove_tag_blocks(no_scripts.as_str(), "style");
    let no_tags = strip_html_tags(no_styles.as_str());
    collapse_whitespace(decode_entities(no_tags.as_str()).as_str())
}

/// The start of the text looks like a page.
pub open spec fn looks_like_html(body: Seq<char>) -> bool {
    let start = lower_text(first_chars(body, 500));
    has_text(start, "<html"@) || has_text(start, "<body"@) || has_text(start, "<article"@)
}

fn body_has_html(body: &str) -> (r: bool)
    ensures
        r == looks_like_html(body@),
{
    let start = lower(take_chars(body, 500).as_str());
    contains(start.as_str(), "<html") || contains(start.as_str(), "<body") || contains(
        start.as_str(),
        "<article",
    )
}

/// The content of a response in the format that was asked for.
pub open spec fn fetched_content(
    body: Seq<char>,
    content_type: Seq<char>,
    format: FetchFormat,
) -> Seq<char> {
    if format != FetchFormat::Raw && (has_text(lower_text(content_type), "text/html"@)
        || looks_like_html(body)) {
        page_text(body)
    } else {
        body
    }
}

/// The bytes that are kept of a body.
pub open spec fn kept_bytes(bytes: Seq<u8>, max: u64) -> Seq<u8> {
    if bytes.len() > max {
        bytes.take(max as int)
    } else {
        bytes
    }
}

pub open spec fn header_members(names: Seq<Seq<char>>, values: Seq<Seq<char>>) -> Seq<
    (Seq<char>, JsonView),
> {
    Seq::new(names.len(), |i: int| (lower_text(names[i]), JsonView::Str(values[i])))
}

/// A response as a JSON value.
pub open spec fn response_value(
    url: Seq<char>,
    status: u16,
    names: Seq<Seq<char>>,
    values: Seq<Seq<char>>,
    content_type: Seq<char>,
    content: Seq<char>,
    truncated: bool,
) -> JsonView {
    JsonView::Object(
        seq![
            ("content"@, JsonView::Str(content)),
            ("content_type"@, JsonView::Str(content_type)),
            ("headers"@, JsonView::Object(header_members(names, values))),
            ("status"@, JsonView::Unsigned(status as u64)),
            ("truncated"@, JsonView::Bool(truncated)),
            ("url"@, JsonView::Str(url)),
        ],
    )
}

pub open spec fn content_type_or(o: Option<Seq<char>>) -> Seq<char> {
    match o {
        Some(t) => t,
        None => "application/octet-stream"@,
    }
}

/// What a fetch shows of a response, given the text of its kept bytes.
pub open spec fn response_text(
    url: Seq<char>,
    status: u16,
    names: Seq<Seq<char>>,
    values: Seq<Seq<char>>,
    content_type: Option<Seq<char>>,
    body: Seq<char>,
    truncated: bool,
    format: FetchFormat,
) -> Seq<char> {
    let kind = content_type_or(content_type);
    (if 200 <= status < 300 {
        "ok:\n"@
    } else {
        "failed:\n"@
    }) + json_pretty(
        response_value(
            url,
            status,
            names,
            values,
            kind,
            fetched_content(body, kind, format),
            truncated,
        ),
    )
}

fn header_object(names: &Vec<String>, values: &Vec<String>) -> (r: Json)
    requires
        names.len() == values.len(),
    ensures
        r@ == JsonView::Object(header_members(texts(names@), texts(values@))),
{
    let ghost want = header_members(texts(names@), texts(values@));
    let mut members: Vec<Member> = Vec::new();
    let mut i: usize = 0;
    while i < names.len()
        invariant
            i <= names.len() == values.len(),
            want == header_members(texts(names@), texts(values@)),
            json_members(members@) == want.take(i as int),
        decreases names.len() - i,
    {
        assert(texts(names@)[i as int] == names@[i as int]@);
        assert(texts(values@)[i as int] == values@[i as int]@);
        let one = Member {
            key: lower(names[i].as_str()),
            value: Json::Str(copy_text(values[i].as_str())),
        };
        let ghost before = json_members(members@);
        members.push(one);
        assert(json_members(members@) =~= before.push((one.key@, one.value@)));
        i += 1;
        assert(json_members(members@) =~= want.take(i as int));
    }
    assert(json_members(members@) =~= want);
    let r = Json::Object(members);
    proof {
        lemma_json_view(r);
    }
    r
}

/// Shows a response, given the text of its kept bytes.
pub fn format_response(
    url: &str,
    status: u16,
    names: &Vec<String>,
    values: &Vec<String>,
    content_type: Option<&str>,
    body: &str,
    truncated: bool,
    format: FetchFormat,
) -> (r: String)
    requires
        names.len() == values.len(),
    ensures
        r@ == response_text(
            url@,
            status,
            texts(names@),
            texts(values@),
            opt_str_text(content_type),
            body@,
            truncated,
            format,
        ),
{
    let kind = match content_type {
        Some(t) => copy_text(t),
        None => copy_text("application/octet-stream"),
    };
    let raw = match format {
        FetchFormat::Raw => true,
        _ => false,
    };
    let content = if !raw && (contains(lower(kind.as_str()).as_str(), "text/html")
        || body_has_html(body)) {
        html_to_text(body)
    } else {
        copy_text(body)
    };
    let ghost shown = content@;
    let ghost kind_text = kind@;
    let mut members: Vec<Member> = Vec::new();
    members.push(Member { key: copy_text("content"), value: Json::Str(content) });
    members.push(Member { key: copy_text("content_type"), value: Json::Str(kind) });
    members.push(Member { key: copy_text("headers"), value: header_object(names, values) });
    members.push(Member { key: copy_text("status"), value: Json::Unsigned(status as u64) });
    members.push(Member { key: copy_text("truncated"), value: Json::Bool(truncated) });
    members.push(Member { key: copy_text("url"), value: Json::Str(copy_text(url)) });
    let value = Json::Object(members);
    proof {
        lemma_json_view(value);
        assert(json_members(members@) =~= response_value(
            url@,
            status,
            texts(names@),
            texts(values@),
            kind_text,
            shown,
            truncated,
        )->Object_0);
    }
    let rendered = render_json_pretty(&value);
    if 200 <= status && status < 300 {
        concat2("ok:\n", rendered.as_str())
    } else {
        concat2("failed:\n", rendered.as_str())
    }
}

fn first_bytes(bytes: &Vec<u8>, max: u64) -> (r: Vec<u8>)
    requires
        bytes.len() > max,
    ensures
        r@ == bytes@.take(max as int),
{
    let mut out: Vec<u8> = Vec::new();
    let n: usize = max as usize;
    let mut i: usize = 0;
    while i < n
        invariant
            i <= n <= bytes.len(),
            n == max,
            out@ == bytes@.take(i as int),
        decreases n - i,
    {
        out.push(bytes[i]);
        i += 1;
    }
    out
}

/// Shows a response.
pub fn response_to_text(
    url: &str,
    status: u16,
    names: &Vec<String>,
    values: &Vec<String>,
    content_type: Option<&str>,
    bytes: &Vec<u8>,
    options: FetchOptions,
) -> (r: String)
    requires
        names.len() == values.len(),
    ensures
        r@ == response_text(
            url@,
            status,
            texts(names@),
            texts(values@),
            opt_str_text(content_type),
            utf8_lossy(kept_bytes(bytes@, options.max_bytes)),
            bytes@.len() > options.max_bytes,
            options.format,
        ),
{
    let truncated = bytes.len() as u128 > options.max_bytes as u128;
    let body = if truncated {
        lossy_text(&first_bytes(bytes, options.max_bytes))
    } else {
        lossy_text(bytes)
    };
    format_response(
        url,
        status,
        names,
        values,
        content_type,
        body.as_str(),
        truncated,
        options.format,
    )
}

// ---------------------------------------------------------------------------
// Search
// ---------------------------------------------------------------------------

/// One hit of a search.
#[derive(Debug, PartialEq, Eq)]
pub struct SearchEntry {
    pub title: String,
    pub url: String,
    pub snippet: Option<String>,
}

#[verifier::ext_equal]
pub struct EntryView {
    pub title: Seq<char>,
    pub url: Seq<char>,
    pub snippet: Option<Seq<char>>,
}

impl View for SearchEntry {
    type V = EntryView;

    open spec fn view(&self) -> EntryView {
        EntryView { title: self.title@, url: self.url@, snippet: opt_text(self.snippet) }
    }
}

pub open spec fn entries(v: Seq<SearchEntry>) -> Seq<EntryView> {
    Seq::new(v.len(), |i: int| v[i]@)
}

/// What a search found.
#[derive(Debug)]
pub struct SearchResponse {
    pub provider: SearchProvider,
    pub query: String,
    pub results: Vec<SearchEntry>,
}

/// A hit as Brave reports it.
#[derive(Debug)]
pub struct BraveResult {
    pub title: String,
    pub url: String,
    pub description: Option<String>,
    pub extra_snippets: Option<Vec<String>>,
}

/// A hit as Tavily reports it.
#[derive(Debug)]
pub struct TavilyResult {
    pub title: String,
    pub url: String,
    pub content: String,
}

pub open spec fn brave_entry(b: BraveResult) -> EntryView {
    EntryView {
        title: b.title@,
        url: b.url@,
        snippet: match b.description {
            Some(d) => Some(d@),
            None => match b.extra_snippets {
                Some(items) => Some(joined(texts(items@), " "@)),
                None => None,
            },
        },
    }
}

pub open spec fn tavily_entry(t: TavilyResult) -> EntryView {
    EntryView {
        title: t.title@,
        url: t.url@,
        snippet: if trimmed(t.content@).len() == 0 {
            None
        } else {
            Some(t.content@)
        },
    }
}

pub open spec fn count_at_most(n: nat, max: usize) -> nat {
    if n < max {
        n
    } else {
        max as nat
    }
}

/// The first hits, at most as many as were asked for.
pub fn brave_entries(items: &Vec<BraveResult>, max_results: usize) -> (r: Vec<SearchEntry>)
    ensures
        entries(r@) == Seq::new(
            count_at_most(items@.len(), max_results),
            |i: int| brave_entry(items@[i]),
        ),
{
    let n: usize = if items.len() < max_results { items.len() } else { max_results };
    let mut out: Vec<SearchEntry> = Vec::new();
    let mut i: usize = 0;
    while i < n
        invariant
            i <= n <= items.len(),
            entries(out@) == Seq::new(i as nat, |i: int| brave_entry(items@[i])),
        decreases n - i,
    {
        let item = &items[i];
        let snippet = match &item.description {
            Some(d) => Some(copy_text(d.as_str())),
            None => match &item.extra_snippets {
                Some(list) => Some(join(list, " ")),
                None => None,
            },
        };
        let one = SearchEntry {
            title: copy_text(item.title.as_str()),
            url: copy_text(item.url.as_str()),
            snippet,
        };
        let ghost before = entries(out@);
        out.push(one);
        assert(entries(out@) =~= before.push(one@));
        i += 1;
        assert(entries(out@) =~= Seq::new(i as nat, |i: int| brave_entry(items@[i])));
    }
    out
}

/// The first hits, at most as many as were asked for.
pub fn tavily_entries(items: &Vec<TavilyResult>, max_results: usize) -> (r: Vec<SearchEntry>)
    ensures
        entries(r@) == Seq::new(
            count_at_most(items@.len(), max_results),
            |i: int| tavily_entry(items@[i]),
        ),
{
    let n: usize = if items.len() < max_results { items.len() } else { max_results };
    let mut out: Vec<SearchEntry> = Vec::new();
    let mut i: usize = 0;
    while i < n
        invariant
            i <= n <= items.len(),
            entries(out@) == Seq::new(i as nat, |i: int| tavily_entry(items@[i])),
        decreases n - i,
    {
        let item = &items[i];
        let snippet = if char_count(trim(item.content.as_str()).as_str()) == 0 {
            None
        } else {
            Some(copy_text(item.content.as_str()))
        };
        let one = SearchEntry {
            title: copy_text(item.title.as_str()),
            url: copy_text(item.url.as_str()),
            snippet,
        };
        let ghost before = entries(out@);
        out.push(one);
        assert(entries(out@) =~= before.push(one@));
        i += 1;
        assert(entries(out@) =~= Seq::new(i as nat, |i: int| tavily_entry(items@[i])));
    }
    out
}

/// The names of the pairs of a Brave search.
pub open spec fn brave_pair_names() -> Seq<Seq<char>> {
    seq!["q"@, "count"@, "search_lang"@, "country"@]
}

pub open spec fn brave_pair_values(query: Seq<char>, count: nat) -> Seq<Seq<char>> {
    seq![query, decimal(count), "en"@, "us"@]
}

/// The address of a Brave search.
pub fn brave_search_url(query: &str, max_results: usize) -> (r: Result<String, String>)
    ensures
        result_texts(r) == url_with_pairs(
            BRAVE_SEARCH_ENDPOINT@,
            brave_pair_names(),
            brave_pair_values(query@, max_results as nat),
        ),
{
    broadcast use lemma_texts_empty;

    let mut names: Vec<String> = Vec::new();
    push_item(&mut names, copy_text("q"));
    push_item(&mut names, copy_text("count"));
    push_item(&mut names, copy_text("search_lang"));
    push_item(&mut names, copy_text("country"));
    assert(texts(names@) =~= brave_pair_names());
    let mut values: Vec<String> = Vec::new();
    push_item(&mut values, copy_text(query));
    push_item(&mut values, decimal_text(max_results as u64));
    push_item(&mut values, copy_text("en"));
    push_item(&mut values, copy_text("us"));
    assert(texts(values@) =~= brave_pair_values(query@, max_results as nat));
    extend_url(BRAVE_SEARCH_ENDPOINT, &names, &values)
}

/// The body of a Tavily search.
pub open spec fn tavily_value(query: Seq<char>, max_results: int) -> JsonView {
    JsonView::Object(
        seq![
            ("include_answer"@, JsonView::Bool(false)),
            ("include_raw_content"@, JsonView::Bool(false)),
            ("max_results"@, JsonView::Unsigned(max_results as u64)),
            ("query"@, JsonView::Str(query)),
            ("search_depth"@, JsonView::Str("basic"@)),
        ],
    )
}

/// The body of a Tavily search.
pub fn tavily_payload(query: &str, max_results: usize) -> (r: Json)
    ensures
        r@ == tavily_value(query@, max_results as int),
{
    let mut members: Vec<Member> = Vec::new();
    members.push(Member { key: copy_text("include_answer"), value: Json::Bool(false) });
    members.push(Member { key: copy_text("include_raw_content"), value: Json::Bool(false) });
    members.push(
        Member { key: copy_text("max_results"), value: Json::Unsigned(max_results as u64) },
    );
    members.push(Member { key: copy_text("query"), value: Json::Str(copy_text(query)) });
    members.push(Member { key: copy_text("search_depth"), value: Json::Str(copy_text("basic")) });
    let r = Json::Object(members);
    proof {
        lemma_json_view(r);
        assert(json_members(members@) =~= seq![
            ("include_answer"@, JsonView::Bool(false)),
            ("include_raw_content"@, JsonView::Bool(false)),
            ("max_results"@, JsonView::Unsigned(max_results as u64)),
            ("query"@, JsonView::Str(query@)),
            ("search_depth"@, JsonView::Str("basic"@)),
        ]);
    }
    r
}

/// The JSON text of the body of a Tavily search.
pub fn tavily_body(query: &str, max_results: usize) -> (r: String)
    ensures
        r@ == crate::json::json_text(tavily_value(query@, max_results as int)),
{
    let payload = tavily_payload(query, max_results);
    crate::json::render_json(&payload)
}

/// Why a search failed, by the status and the body of its response.
pub open spec fn search_failure(name: Seq<char>, status: u16, body: Seq<char>) -> Seq<char> {
    name + " search failed: HTTP "@ + decimal(status as nat) + " - "@ + capped(untagged(body), 500)
}

pub fn search_failure_text(name: &str, status: u16, body: &str) -> (r: String)
    ensures
        r@ == search_failure(name@, status, body@),
{
    let mut out = concat3(name, " search failed: HTTP ", decimal_text(status as u64).as_str());
    push_text(&mut out, " - ");
    push_text(&mut out, cap_text(strip_html_tags(body).as_str(), 500).as_str());
    out
}

/// One hit as text.
pub open spec fn entry_text(e: EntryView, number: nat) -> Seq<char> {
    "\n"@ + decimal(number) + ". "@ + e.title + "\nURL: "@ + e.url + "\n"@ + (match e.snippet {
        Some(s) => "Snippet: "@ + capped(trimmed(s), 800) + "\n"@,
        None => Seq::empty(),
    })
}

/// The first `n` hits as text.
pub open spec fn entries_text(list: Seq<EntryView>, n: int) -> Seq<char>
    decreases n,
{
    if n <= 0 || n > list.len() {
        Seq::empty()
    } else {
        entries_text(list, n - 1) + entry_text(list[n - 1], n as nat)
    }
}

/// What a search found, as text.
pub open spec fn search_text(
    provider: SearchProvider,
    query: Seq<char>,
    list: Seq<EntryView>,
) -> Seq<char> {
    "ok:\nprovider: "@ + provider.name_text() + "\nquery: "@ + query + "\ncount: "@ + decimal(
        list.len(),
    ) + "\n"@ + entries_text(list, list.len() as int)
}

pub fn format_search_response(response: &SearchResponse) -> (r: String)
    ensures
        r@ == search_text(response.provider, response.query@, entries(response.results@)),
{
    let ghost list = entries(response.results@);
    let mut out = concat3("ok:\nprovider: ", response.provider.name(), "\nquery: ");
    push_text(&mut out, response.query.as_str());
    push_text(&mut out, "\ncount: ");
    push_text(&mut out, decimal_text(response.results.len() as u64).as_str());
    push_text(&mut out, "\n");
    let ghost head = out@;
    assert(head + entries_text(list, 0) =~= head);
    let mut i: usize = 0;
    while i < response.results.len()
        invariant
            i <= response.results.len(),
            list == entries(response.results@),
            list.len() == response.results.len(),
            out@ == head + entries_text(list, i as int),
        decreases response.results.len() - i,
    {
        let e = &response.results[i];
        assert(list[i as int] == response.results@[i as int]@);
        let ghost before = out@;
        let mut text = concat3("\n", decimal_text(i as u64 + 1).as_str(), ". ");
        push_text(&mut text, e.title.as_str());
        push_text(&mut text, "\nURL: ");
        push_text(&mut text, e.url.as_str());
        push_text(&mut text, "\n");
        let ghost start = text@;
        if let Some(snippet) = &e.snippet {
            push_text(&mut text, "Snippet: ");
            push_text(&mut text, cap_text(trim(snippet.as_str()).as_str(), 800).as_str());
            push_text(&mut text, "\n");
            assert(text@ =~= start + ("Snippet: "@ + capped(trimmed(snippet@), 800) + "\n"@));
        } else {
            assert(start + Seq::<char>::empty() =~= start);
        }
        push_text(&mut out, text.as_str());
        i += 1;
        assert(out@ =~= head + entries_text(list, i as int));
    }
    out
}

// ---------------------------------------------------------------------------
// Context for prompts
// ---------------------------------------------------------------------------

pub open spec fn wraps_url(c: char) -> bool {
    c == '"' || c == '\'' || c == '`' || c == '<' || c == '>' || c == ')' || c == '(' || c == '['
        || c == ']' || c == '{' || c == '}'
}

fn url_wrapping(c: char) -> (r: bool)
    ensures
        r == wraps_url(c),
{
    c == '"' || c == '\'' || c == '`' || c == '<' || c == '>' || c == ')' || c == '(' || c == '['
        || c == ']' || c == '{' || c == '}'
}

pub open spec fn url_start(s: Seq<char>, i: int) -> int
    decreases s.len() - i,
{
    if 0 <= i < s.len() && wraps_url(s[i]) {
        url_start(s, i + 1)
    } else {
        i
    }
}

pub open spec fn url_unwrapped_end(s: Seq<char>, from: int, n: int) -> int
    decreases n,
{
    if 0 < n <= s.len() && from < n && wraps_url(s[n - 1]) {
        url_unwrapped_end(s, from, n - 1)
    } else {
        n
    }
}

pub open spec fn url_marks_end(s: Seq<char>, from: int, n: int) -> int
    decreases n,
{
    if 0 < n <= s.len() && from < n && is_closing_mark(s[n - 1]) {
        url_marks_end(s, from, n - 1)
    } else {
        n
    }
}

/// A word without the marks round it and those that end a sentence.
pub open spec fn bare_url(s: Seq<char>) -> Seq<char> {
    let a = url_start(s, 0);
    s.subrange(a, url_marks_end(s, a, url_unwrapped_end(s, a, s.len() as int)))
}

fn bare_url_of(token: &str) -> (r: String)
    ensures
        r@ == bare_url(token@),
{
    let v = chars_of(token);
    let mut a: usize = 0;
    while a < v.len() && url_wrapping(v[a])
        invariant
            a <= v.len(),
            url_start(v@, 0) == url_start(v@, a as int),
        decreases v.len() - a,
    {
        a += 1;
    }
    let mut b: usize = v.len();
    while b > a && url_wrapping(v[b - 1])
        invariant
            a <= b <= v.len(),
            url_unwrapped_end(v@, a as int, v.len() as int) == url_unwrapped_end(
                v@,
                a as int,
                b as int,
            ),
        decreases b,
    {
        b -= 1;
    }
    let ghost e = b as int;
    while b > a && (v[b - 1] == '.' || v[b - 1] == ',' || v[b - 1] == ';' || v[b - 1] == ':' || v[b
        - 1] == '!' || v[b - 1] == '?')
        invariant
            a <= b <= v.len(),
            url_marks_end(v@, a as int, e) == url_marks_end(v@, a as int, b as int),
        decreases b,
    {
        b -= 1;
    }
    text_between(&v, a, b)
}

/// The first web address among the words from word `k` on.
pub open spec fn url_among(ws: Seq<Seq<char>>, k: int) -> Option<Seq<char>>
    decreases ws.len() - k,
{
    if k < 0 || k >= ws.len() {
        None
    } else {
        let url = bare_url(ws[k]);
        if has_prefix(url, "http://"@) || has_prefix(url, "https://"@) {
            Some(url)
        } else {
            url_among(ws, k + 1)
        }
    }
}

pub fn first_http_url(prompt: &str) -> (r: Option<String>)
    ensures
        opt_text(r) == url_among(words(prompt@), 0),
{
    let list = split_whitespace(prompt);
    let ghost ws = words(prompt@);
    let mut k: usize = 0;
    while k < list.len()
        invariant
            k <= list.len(),
            ws == texts(list@),
            ws == words(prompt@),
            ws.len() == list.len(),
            url_among(ws, 0) == url_among(ws, k as int),
        decreases list.len() - k,
    {
        assert(list@[k as int]@ == ws[k as int]);
        let url = bare_url_of(list[k].as_str());
        if starts_with(url.as_str(), "http://") || starts_with(url.as_str(), "https://") {
            return Some(url);
        }
        k += 1;
    }
    None
}

/// The normal form of a prompt for the search phrases.
pub open spec fn search_prompt(prompt: Seq<char>) -> Seq<char> {
    squeezed(lower_text(trimmed(prompt)))
}

/// A phrase that asks for something recent.
pub open spec fn asks_for_news(p: Seq<char>) -> bool {
    ||| has_text(p, "latest"@)
    ||| has_text(p, "recent"@)
    ||| has_text(p, "news"@)
    ||| has_text(p, "today"@)
    ||| has_text(p, "current version"@)
    ||| has_text(p, "current release"@)
    ||| has_text(p, "current price"@)
    ||| has_text(p, "look up"@)
    ||| has_text(p, "lookup"@)
    ||| has_text(p, "search web"@)
    ||| has_text(p, "web search"@)
    ||| has_text(p, "search the web"@)
    ||| has_text(p, "find online"@)
    ||| has_text(p, "on the internet"@)
}

pub open spec fn needs_search(prompt: Seq<char>) -> bool {
    let p = search_prompt(prompt);
    p.len() > 0 && p != "hi"@ && p != "hello"@ && asks_for_news(p)
}

pub fn prompt_needs_search(prompt: &str) -> (r: bool)
    ensures
        r == needs_search(prompt@),
{
    let normalized = squeeze_prompt(lower(trim(prompt).as_str()).as_str());
    let p = normalized.as_str();
    if char_count(p) == 0 || same_text(p, "hi") || same_text(p, "hello") {
        return false;
    }
    contains(p, "latest") || contains(p, "recent") || contains(p, "news") || contains(p, "today")
        || contains(p, "current version") || contains(p, "current release") || contains(
        p,
        "current price",
    ) || contains(p, "look up") || contains(p, "lookup") || contains(p, "search web") || contains(
        p,
        "web search",
    ) || contains(p, "search the web") || contains(p, "find online") || contains(
        p,
        "on the internet",
    )
}

/// What is looked up on the web before a prompt is answered.
#[derive(Debug)]
pub enum WebContext {
    Fetch(String),
    Search(String),
    Nothing,
}

pub enum WebContextView {
    Fetch(Seq<char>),
    Search(Seq<char>),
    Nothing,
}

impl View for WebContext {
    type V = WebContextView;

    open spec fn view(&self) -> WebContextView {
        match *self {
            WebContext::Fetch(u) => WebContextView::Fetch(u@),
            WebContext::Search(q) => WebContextView::Search(q@),
            WebContext::Nothing => WebContextView::Nothing,
        }
    }
}

/// What is looked up for a prompt: the first web address in it, or else the
/// prompt itself where it asks for something current.
pub open spec fn context_plan(prompt: Seq<char>) -> WebContextView {
    match url_among(words(prompt), 0) {
        Some(url) => WebContextView::Fetch(url),
        None => if needs_search(prompt) {
            WebContextView::Search(trimmed(prompt))
        } else {
            WebContextView::Nothing
        },
    }
}

pub fn web_context_plan(prompt: &str) -> (r: WebContext)
    ensures
        r@ == context_plan(prompt@),
{
    if let Some(url) = first_http_url(prompt) {
        return WebContext::Fetch(url);
    }
    if prompt_needs_search(prompt) {
        return WebContext::Search(trim(prompt));
    }
    WebContext::Nothing
}

/// How a fetched page is handed to the model.
pub open spec fn fetched_context(url: Seq<char>, content: Seq<char>) -> Seq<char> {
    "Web context fetched for the user's prompt.\nURL: "@ + url + "\n\n"@ + capped(
        content,
        FETCH_CONTEXT_CAP as int,
    )
}

pub fn fetch_context_text(url: &str, content: &str) -> (r: String)
    ensures
        r@ == fetched_context(url@, content@),
{
    let mut out = concat3("Web context fetched for the user's prompt.\nURL: ", url, "\n\n");
    push_text(&mut out, cap_text(content, FETCH_CONTEXT_CAP).as_str());
    out
}

/// How the hits of a search are handed to the model.
pub open spec fn searched_context(found: Seq<char>) -> Seq<char> {
    "Web search context for the user's prompt. Use these results as evidence and cite URLs when relevant.\n\n"@
        + capped(found, SEARCH_CONTEXT_CAP as int)
}

pub fn search_context_text(found: &str) -> (r: String)
    ensures
        r@ == searched_context(found@),
{
    concat2(
        "Web search context for the user's prompt. Use these results as evidence and cite URLs when relevant.\n\n",
        cap_text(found, SEARCH_CONTEXT_CAP).as_str(),
    )
}

/// The warning where no web context could be had; the prompt goes on without it.
pub fn web_context_warning(error: &str) -> (r: String)
    ensures
        r@ == "web context unavailable: "@ + error@,
{
    concat2("web context unavailable: ", error)
}

/// The context for a prompt, given what looking it up came to.
pub open spec fn context_found(prompt: Seq<char>, got: Result<Seq<char>, Seq<char>>) -> Result<
    Option<MessageView>,
    Seq<char>,
> {
    match (context_plan(prompt), got) {
        (WebContextView::Nothing, _) => Ok(None),
        (_, Err(e)) => Err(e),
        (WebContextView::Fetch(url), Ok(page)) => Ok(
            Some(plain_message("system"@, fetched_context(url, page))),
        ),
        (WebContextView::Search(_), Ok(hits)) => Ok(
            Some(plain_message("system"@, searched_context(hits))),
        ),
    }
}

pub open spec fn context_result(r: Result<Option<Message>, String>) -> Result<
    Option<MessageView>,
    Seq<char>,
> {
    match r {
        Ok(context) => Ok(opt_message(context)),
        Err(e) => Err(e@),
    }
}

/// The context for a prompt, given what looking up its plan came to. Where
/// nothing was to be looked up, there is none.
pub fn web_context_message_for_prompt(prompt: &str, got: Result<String, String>) -> (r: Result<
    Option<Message>,
    String,
>)
    ensures
        context_result(r) == context_found(prompt@, result_texts(got)),
{
    let plan = web_context_plan(prompt);
    if let WebContext::Nothing = plan {
        return Ok(None);
    }
    let text = match got {
        Ok(text) => text,
        Err(e) => return Err(e),
    };
    match plan {
        WebContext::Fetch(url) => Ok(
            Some(system_message(fetch_context_text(url.as_str(), text.as_str()).as_str())),
        ),
        WebContext::Search(_) => Ok(
            Some(system_message(search_context_text(text.as_str()).as_str())),
        ),
        WebContext::Nothing => Ok(None),
    }
}

/// The context to go on with, and the warning to give, where looking it up may
/// have failed.
pub open spec fn context_or_warning(found: Result<Option<MessageView>, Seq<char>>) -> (
    Option<MessageView>,
    Option<Seq<char>>,
) {
    match found {
        Ok(context) => (context, None),
        Err(e) => (None, Some("web context unavailable: "@ + e)),
    }
}

/// The context to go on with, and the warning to give: a prompt goes on without
/// its context where that cannot be had.
pub fn web_context_message_for_prompt_lossy(found: Result<Option<Message>, String>) -> (r: (
    Option<Message>,
    Option<String>,
))
    ensures
        (opt_message(r.0), opt_text(r.1)) == context_or_warning(context_result(found)),
{
    match found {
        Ok(context) => (context, None),
        Err(e) => (None, Some(web_context_warning(e.as_str()))),
    }
}

/// A prompt never fails for want of web context: it goes on without it, with a
/// warning exactly where looking it up failed, and with none where nothing was
/// to be looked up.
pub proof fn law_missing_context_only_warns(prompt: Seq<char>, got: Result<Seq<char>, Seq<char>>)
    ensures
        ({
            let (context, warning) = context_or_warning(context_found(prompt, got));
            &&& warning is Some <==> got is Err && context_plan(prompt) != WebContextView::Nothing
            &&& warning is Some ==> context is None && warning->Some_0
                == "web context unavailable: "@ + got->Err_0
            &&& context is Some <==> got is Ok && context_plan(prompt) != WebContextView::Nothing
        }),
{
}

} // verus!
