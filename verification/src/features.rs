//! Which features the environment enables, and which search provider is used.
use vstd::prelude::*;

use crate::provider::ENV_KEY;
use crate::text::{char_count, concat2, copy_text, lower, push_text, same_text, starts_with, trim};
use crate::text::{has_prefix, lower_text, opt_text, trimmed};
use crate::workspace::opt_str_text;

verus! {

pub const BRAVE_SEARCH_API_KEY: &'static str = "BRAVE_SEARCH_API_KEY";

pub const BRAVE_API_KEY: &'static str = "BRAVE_API_KEY";

pub const TAVILY_API_KEY: &'static str = "TAVILY_API_KEY";

pub const SEARCH_PROVIDER: &'static str = "DEEPSEEK_SEARCH_PROVIDER";

/// The search provider that a setting names; none means `brave`.
pub open spec fn provider_named(value: Option<Seq<char>>) -> Seq<char> {
    match value {
        Some(v) => {
            let w = lower_text(trimmed(v));
            if w.len() == 0 || w == "brave"@ {
                "brave"@
            } else if w == "tavily"@ {
                "tavily"@
            } else {
                "invalid: "@ + trimmed(v)
            }
        },
        None => "brave"@,
    }
}

fn search_provider(value: Option<&str>) -> (r: String)
    ensures
        r@ == provider_named(opt_str_text(value)),
{
    match value {
        Some(v) => {
            let shown = trim(v);
            let word = lower(shown.as_str());
            if char_count(word.as_str()) == 0 || same_text(word.as_str(), "brave") {
                copy_text("brave")
            } else if same_text(word.as_str(), "tavily") {
                copy_text("tavily")
            } else {
                concat2("invalid: ", shown.as_str())
            }
        },
        None => copy_text("brave"),
    }
}

/// The first of two settings that is there.
pub open spec fn first_setting(a: Option<Seq<char>>, b: Option<Seq<char>>) -> Option<Seq<char>> {
    match a {
        Some(v) => Some(v),
        None => b,
    }
}

pub fn active_search_provider(runtime_value: Option<&str>, env_value: Option<&str>) -> (r: String)
    ensures
        r@ == provider_named(
            first_setting(opt_str_text(runtime_value), opt_str_text(env_value)),
        ),
{
    match runtime_value {
        Some(v) => search_provider(Some(v)),
        None => search_provider(env_value),
    }
}

/// The provider that a toggle switches to.
pub open spec fn toggled_provider(active: Seq<char>) -> Seq<char> {
    if active == "tavily"@ {
        "brave"@
    } else {
        "tavily"@
    }
}

/// The provider that a toggle switches to.
pub fn next_search_provider(runtime_value: Option<&str>, env_value: Option<&str>) -> (r: String)
    ensures
        r@ == toggled_provider(
            provider_named(first_setting(opt_str_text(runtime_value), opt_str_text(env_value))),
        ),
{
    let active = active_search_provider(runtime_value, env_value);
    if same_text(active.as_str(), "tavily") {
        copy_text("brave")
    } else {
        copy_text("tavily")
    }
}

/// Each toggle of the stored provider goes to the other one, whatever the
/// environment says; two toggles come back.
pub proof fn law_toggle_alternates(active: Seq<char>, env: Option<Seq<char>>)
    ensures
        ({
            let first = toggled_provider(active);
            let second = toggled_provider(provider_named(first_setting(Some(first), env)));
            let third = toggled_provider(provider_named(first_setting(Some(second), env)));
            second != first && third == first
        }),
{
    reveal_strlit("brave");
    reveal_strlit("tavily");
    assert("brave"@.len() != "tavily"@.len());
    assert forall|w: Seq<char>| w == "brave"@ || w == "tavily"@ implies #[trigger] provider_named(
        Some(w),
    ) == w by {
        lemma_name_is_plain(w);
    }
}

proof fn lemma_name_is_plain(w: Seq<char>)
    requires
        w == "brave"@ || w == "tavily"@,
    ensures
        lower_text(trimmed(w)) == w,
{
    reveal_strlit("brave");
    reveal_strlit("tavily");
    assert(!crate::text::is_space(w[0]));
    assert(crate::text::skip_space(w, 0) == 0);
    assert(crate::text::trimmed_start(w) =~= w);
    assert(!crate::text::is_space(w[w.len() - 1]));
    assert(crate::text::space_end(w, w.len() as int) == w.len());
    assert(trimmed(w) =~= w);
    assert(lower_text(w) =~= w);
}

/// What the environment and the runtime state say.
#[derive(Debug)]
pub struct FeatureEnv {
    pub deepseek_api_key: bool,
    pub brave_search_api_key: bool,
    pub brave_api_key: bool,
    pub tavily_api_key: bool,
    pub search_provider: Option<String>,
    pub runtime_search_provider: Option<String>,
}

impl FeatureEnv {
    /// Nothing is set.
    pub fn empty() -> (r: FeatureEnv)
        ensures
            !r.deepseek_api_key && !r.brave_search_api_key && !r.brave_api_key && !r.tavily_api_key,
            r.search_provider is None,
            r.runtime_search_provider is None,
    {
        FeatureEnv {
            deepseek_api_key: false,
            brave_search_api_key: false,
            brave_api_key: false,
            tavily_api_key: false,
            search_provider: None,
            runtime_search_provider: None,
        }
    }
}

/// A setting that is there and not blank.
pub open spec fn is_set(value: Option<Seq<char>>) -> bool {
    value matches Some(v) && trimmed(v).len() > 0
}

/// Whether a setting is there and not blank.
pub fn setting_is_set(value: Option<&str>) -> (r: bool)
    ensures
        r == is_set(opt_str_text(value)),
{
    match value {
        Some(v) => char_count(trim(v).as_str()) > 0,
        None => false,
    }
}

pub open spec fn source_word(runtime: Option<Seq<char>>, env: Option<Seq<char>>) -> Seq<char> {
    if is_set(runtime) {
        "runtime"@
    } else if is_set(env) {
        "env"@
    } else {
        "default"@
    }
}

fn provider_source(runtime_value: Option<&str>, env_value: Option<&str>) -> (r: &'static str)
    ensures
        r@ == source_word(opt_str_text(runtime_value), opt_str_text(env_value)),
{
    if setting_is_set(runtime_value) {
        "runtime"
    } else if setting_is_set(env_value) {
        "env"
    } else {
        "default"
    }
}

pub open spec fn set_text(set: bool) -> Seq<char> {
    if set {
        "set"@
    } else {
        "missing"@
    }
}

fn set_word(enabled: bool) -> (r: &'static str)
    ensures
        r@ == set_text(enabled),
{
    if enabled { "set" } else { "missing" }
}

/// Whether web search can be used.
pub open spec fn internet_word(provider: Seq<char>, brave: bool, tavily: bool) -> Seq<char> {
    if has_prefix(provider, "invalid:"@) {
        "misconfigured"@
    } else if if provider == "tavily"@ {
        tavily
    } else {
        brave
    } {
        "enabled"@
    } else {
        "partial"@
    }
}

fn internet_status(provider: &str, brave: bool, tavily: bool) -> (r: &'static str)
    ensures
        r@ == internet_word(provider@, brave, tavily),
{
    if starts_with(provider, "invalid:") {
        return "misconfigured";
    }
    let ready = if same_text(provider, "tavily") { tavily } else { brave };
    if ready { "enabled" } else { "partial" }
}

/// The overview of features. It says which keys are set and never what they are.
pub open spec fn dashboard(
    key: bool,
    brave_search: bool,
    brave: bool,
    tavily: bool,
    env: Option<Seq<char>>,
    runtime: Option<Seq<char>>,
) -> Seq<char> {
    let provider = provider_named(first_setting(runtime, env));
    "Features\n\nDeepSeek\n  status        "@ + (if key {
        "enabled"@
    } else {
        "disabled"@
    }) + "\n  env           "@ + ENV_KEY@ + ": "@ + set_text(key)
        + "\n  enables       chat, streaming, agent mode\n\nInternet\n  status        "@
        + internet_word(provider, brave_search || brave, tavily) + "\n  provider      "@ + provider
        + "\n  source        "@ + source_word(runtime, env)
        + "\n  toggle        /features toggle\n  env           "@ + BRAVE_SEARCH_API_KEY@ + ": "@
        + set_text(brave_search) + "\n                "@ + BRAVE_API_KEY@ + ": "@ + set_text(brave)
        + "\n                "@ + TAVILY_API_KEY@ + ": "@ + set_text(tavily)
        + "\n                "@ + SEARCH_PROVIDER@ + ": "@ + (if is_set(env) {
        "set"@
    } else {
        "default: brave"@
    })
        + "\n  enables       web_search, current-info prefetch\n  notes         Search requires the selected provider key. fetch_url works without a search API key.\n\nFetch URL\n  status        enabled\n  env           none required\n  enables       URL summaries and agent fetch_url\n  limits        HTTP(S) only, restricted IPs blocked\n"@
}

fn opt_as_str(o: &Option<String>) -> (r: Option<&str>)
    ensures
        opt_str_text(r) == opt_text(*o),
{
    match o {
        Some(s) => Some(s.as_str()),
        None => None,
    }
}

pub fn format_features_dashboard(env: &FeatureEnv) -> (r: String)
    ensures
        r@ == dashboard(
            env.deepseek_api_key,
            env.brave_search_api_key,
            env.brave_api_key,
            env.tavily_api_key,
            opt_text(env.search_provider),
            opt_text(env.runtime_search_provider),
        ),
{
    let runtime = opt_as_str(&env.runtime_search_provider);
    let setting = opt_as_str(&env.search_provider);
    let provider = active_search_provider(runtime, setting);
    let mut out = concat2(
        "Features\n\nDeepSeek\n  status        ",
        if env.deepseek_api_key { "enabled" } else { "disabled" },
    );
    push_text(&mut out, "\n  env           ");
    push_text(&mut out, ENV_KEY);
    push_text(&mut out, ": ");
    push_text(&mut out, set_word(env.deepseek_api_key));
    push_text(
        &mut out,
        "\n  enables       chat, streaming, agent mode\n\nInternet\n  status        ",
    );
    push_text(
        &mut out,
        internet_status(
            provider.as_str(),
            env.brave_search_api_key || env.brave_api_key,
            env.tavily_api_key,
        ),
    );
    push_text(&mut out, "\n  provider      ");
    push_text(&mut out, provider.as_str());
    push_text(&mut out, "\n  source        ");
    push_text(&mut out, provider_source(runtime, setting));
    push_text(&mut out, "\n  toggle        /features toggle\n  env           ");
    push_text(&mut out, BRAVE_SEARCH_API_KEY);
    push_text(&mut out, ": ");
    push_text(&mut out, set_word(env.brave_search_api_key));
    push_text(&mut out, "\n                ");
    push_text(&mut out, BRAVE_API_KEY);
    push_text(&mut out, ": ");
    push_text(&mut out, set_word(env.brave_api_key));
    push_text(&mut out, "\n                ");
    push_text(&mut out, TAVILY_API_KEY);
    push_text(&mut out, ": ");
    push_text(&mut out, set_word(env.tavily_api_key));
    push_text(&mut out, "\n                ");
    push_text(&mut out, SEARCH_PROVIDER);
    push_text(&mut out, ": ");
    push_text(&mut out, if setting_is_set(setting) { "set" } else { "default: brave" });
    push_text(
        &mut out,
        "\n  enables       web_search, current-info prefetch\n  notes         Search requires the selected provider key. fetch_url works without a search API key.\n\nFetch URL\n  status        enabled\n  env           none required\n  enables       URL summaries and agent fetch_url\n  limits        HTTP(S) only, restricted IPs blocked\n",
    );
    out
}

} // verus!
