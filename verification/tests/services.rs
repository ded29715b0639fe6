use deepseek_arkey::cancel::{check_flag, CancellationToken, CANCELLED};
use deepseek_arkey::features::{
    active_search_provider, format_features_dashboard, next_search_provider, setting_is_set,
    FeatureEnv,
};
use deepseek_arkey::headers::{response_headers, HeaderLine};
use deepseek_arkey::internet::{
    brave_api_key, brave_entries, brave_search_url, clamp_search_results, fetch_step,
    fetch_step_for, fetch_url_request, first_http_url, format_search_response, html_to_text,
    is_restricted_ip, literal_candidate, prompt_needs_search, response_to_text, start_fetch,
    target_host, target_lookup, target_port, tavily_api_key, tavily_body, tavily_entries,
    tavily_payload, tool_answer, validate_addresses, validate_fetch_target,
    web_context_message_for_prompt, web_context_message_for_prompt_lossy, web_context_plan,
    web_search_request, BraveResult, FetchFormat, FetchOptions, FetchStep, NamedAddress,
    NetAddress, SearchProvider, SearchResponse, TavilyResult, UrlParts, WebContext,
    HARD_FETCH_MAX_BYTES, HARD_TIMEOUT_MS, MAX_REDIRECTS, MAX_SEARCH_RESULTS,
};
use deepseek_arkey::json::{Json, JsonError, Member};
use deepseek_arkey::paths::{join_path, normalize_path, parent_of, resolve_path};
use deepseek_arkey::provider::{
    assistant_tool_calls_message, assistant_tool_calls_message_with_reasoning, cache_stats,
    chat_outcome, chat_request_body, curl_args, curl_config, curl_quote,
    extract_assistant_decision_text, extract_assistant_text, login_check, message,
    message_in_answer, message_to_json, parse_api_key, prepare_chat, text_of_message, tool_message, ChatOptions,
    ChatTool, NativeFunctionCall, NativeToolCall, StreamEvent, StreamState, StreamStep,
    DEFAULT_SESSION_NAME, PROVIDER,
};
use deepseek_arkey::repl::one_off::{uses_session, PromptRun};
use deepseek_arkey::runtime::{
    debug_response, debug_result, debug_stream_delay, load_or_provider, runtime_path,
    runtime_result, set_backend, toggle_debug_result, DebugOutcome, RuntimeBackend, RuntimeState,
    Shown,
};
use deepseek_arkey::safety::{
    cap_text, redact_text, should_migrate, temporary_file_name, DEFAULT_TEXT_CAP,
};
use deepseek_arkey::session::{
    files_of_ended_session, old_session_path, restore_root, session_path, SessionState,
};
use deepseek_arkey::text_sort::sort_texts;
use deepseek_arkey::ui::{agent_help, interactive_help, print_banner, print_help, print_error, print_status, prompt_text};

fn object(members: Vec<(&str, Json)>) -> Json {
    Json::Object(
        members
            .into_iter()
            .map(|(key, value)| Member { key: key.to_string(), value })
            .collect(),
    )
}

fn text(value: &str) -> Json {
    Json::Str(value.to_string())
}

fn call() -> NativeToolCall {
    NativeToolCall {
        id: "call_1".to_string(),
        kind: "function".to_string(),
        function: NativeFunctionCall {
            name: "read_file".to_string(),
            arguments: "{\"path\":\"README.md\"}".to_string(),
        },
    }
}

fn parsed(raw: &str) -> serde_json::Value {
    serde_json::from_str(raw).unwrap()
}

fn session() -> SessionState {
    SessionState::new(PROVIDER, DEFAULT_SESSION_NAME, "model-a", 0)
}

#[test]
fn cancellation_token_reports_cancelled_state() {
    let token = CancellationToken::new();
    assert!(!token.is_cancelled());
    assert!(token.check().is_ok());

    token.cancel();

    assert!(token.is_cancelled());
    assert_eq!(token.check().unwrap_err(), CANCELLED);
}

#[test]
fn copies_of_a_token_share_the_flag() {
    let token = CancellationToken::new();
    let copy = token.clone();
    copy.cancel();
    assert!(token.is_cancelled());
    assert!(check_flag(false).is_ok());
}

#[test]
fn redacts_secret_tokens() {
    assert_eq!(
        redact_text("hello token=abc password=hunter2"),
        "hello token=[REDACTED] password=[REDACTED]"
    );
}

#[test]
fn caps_text() {
    assert_eq!(cap_text("abcdef", 3), "abc\n[truncated]");
}

#[test]
fn redaction_settles() {
    let once = redact_text("  API_KEY=x  authorization:Bearer token= plain ");
    assert_eq!(once, "API_KEY=[REDACTED] authorization:[REDACTED] token= plain");
    assert_eq!(redact_text(&once), once);
    assert_eq!(cap_text("abc", 3), "abc");
}

#[test]
fn redaction_forgets_the_value() {
    let shown = redact_text("see\tx-Token=abc\nand more");
    assert_eq!(shown, "see x-Token=[REDACTED] and more");
    assert_eq!(redact_text("see\tx-Token=longer!value\nand more"), shown);
    assert_eq!(redact_text("password=a"), redact_text("password=b"));
}

#[test]
fn new_versions_are_written_beside_the_file() {
    assert_eq!(temporary_file_name(Some("state.json"), "7"), ".state.json.7.tmp");
    assert_eq!(temporary_file_name(None, "7"), ".atomic-write.7.tmp");
    assert!(should_migrate(false, true));
    assert!(!should_migrate(true, true));
    assert!(!should_migrate(false, false));
}

#[test]
fn dashboard_reports_missing_keys_without_values() {
    let output = format_features_dashboard(&FeatureEnv::empty());
    assert!(output.contains("DeepSeek"));
    assert!(output.contains("DEEPSEEK_API_KEY: missing"));
    assert!(output.contains("provider      brave"));
    assert!(output.contains("BRAVE_SEARCH_API_KEY: missing"));
    assert!(output.contains("status        partial"));
}

#[test]
fn dashboard_reports_selected_provider_keys() {
    let output = format_features_dashboard(&FeatureEnv {
        deepseek_api_key: true,
        tavily_api_key: true,
        search_provider: Some("tavily".to_string()),
        ..FeatureEnv::empty()
    });
    assert!(output.contains("DEEPSEEK_API_KEY: set"));
    assert!(output.contains("provider      tavily"));
    assert!(output.contains("TAVILY_API_KEY: set"));
    assert!(output.contains("status        enabled"));
}

#[test]
fn dashboard_reports_invalid_search_provider() {
    let output = format_features_dashboard(&FeatureEnv {
        search_provider: Some("duckduckgo".to_string()),
        brave_search_api_key: true,
        ..FeatureEnv::empty()
    });
    assert!(output.contains("provider      invalid: duckduckgo"));
    assert!(output.contains("status        misconfigured"));
}

#[test]
fn dashboard_runtime_provider_overrides_env_provider() {
    let output = format_features_dashboard(&FeatureEnv {
        brave_search_api_key: true,
        search_provider: Some("tavily".to_string()),
        runtime_search_provider: Some("brave".to_string()),
        ..FeatureEnv::empty()
    });
    assert!(output.contains("provider      brave"));
    assert!(output.contains("source        runtime"));
    assert!(output.contains("toggle        /features toggle"));
    assert!(output.contains("status        enabled"));
}

#[test]
fn active_search_provider_prefers_runtime_then_env_then_brave() {
    assert_eq!(active_search_provider(Some("tavily"), Some("brave")), "tavily");
    assert_eq!(active_search_provider(None, Some("tavily")), "tavily");
    assert_eq!(active_search_provider(None, None), "brave");
}

#[test]
fn toggle_search_provider_persists_runtime_provider() {
    let state = RuntimeState::provider(Some("deepseek-v4-flash".to_string()), 0);
    let next = next_search_provider(state.search_provider.as_deref(), None);
    let state = state.with_search_provider(&next, 1);
    let first = format_features_dashboard(&FeatureEnv {
        runtime_search_provider: state.search_provider.clone(),
        ..FeatureEnv::empty()
    });
    assert!(first.contains("provider      tavily"));
    assert!(first.contains("source        runtime"));

    let next = next_search_provider(state.search_provider.as_deref(), None);
    let state = state.with_search_provider(&next, 2);
    let second = format_features_dashboard(&FeatureEnv {
        runtime_search_provider: state.search_provider.clone(),
        ..FeatureEnv::empty()
    });
    assert!(second.contains("provider      brave"));
    assert!(second.contains("source        runtime"));
}

#[test]
fn blank_settings_are_not_set() {
    assert!(setting_is_set(Some("x")));
    assert!(!setting_is_set(Some(" \t")));
    assert!(!setting_is_set(None));
}

#[test]
fn detects_url_prompt_context() {
    assert_eq!(
        first_http_url("read https://example.com/docs."),
        Some("https://example.com/docs".to_string())
    );
}

#[test]
fn detects_current_info_prompts_but_not_greetings() {
    assert!(prompt_needs_search("what is the latest DeepSeek model?"));
    assert!(prompt_needs_search("look up rust release notes"));
    assert!(prompt_needs_search("search the web for OpenAI news"));
    assert!(!prompt_needs_search("hello"));
    assert!(!prompt_needs_search("what is a config file?"));
}

#[test]
fn parses_search_provider_values() {
    assert_eq!(SearchProvider::parse("").unwrap(), SearchProvider::Brave);
    assert_eq!(SearchProvider::parse("BrAvE").unwrap(), SearchProvider::Brave);
    assert_eq!(SearchProvider::parse("tavily").unwrap(), SearchProvider::Tavily);
    assert!(SearchProvider::parse("duckduckgo").is_err());
}

#[test]
fn search_provider_defaults_to_brave_without_runtime_or_env() {
    assert_eq!(SearchProvider::active(None, None).unwrap(), SearchProvider::Brave);
}

#[test]
fn brave_key_prefers_search_specific_env() {
    assert_eq!(
        brave_api_key(Some(" search-key ".to_string()), Some("alias-key".to_string())).unwrap(),
        "search-key"
    );
    assert_eq!(brave_api_key(None, Some("alias-key".to_string())).unwrap(), "alias-key");
}

#[test]
fn brave_key_rejects_missing_and_blank_values() {
    let missing = brave_api_key(None, None).unwrap_err();
    assert!(missing.contains("Brave Search API key is not set"));
    assert!(missing.contains("AI provider or support"));
    assert!(missing.contains("do not include any real API keys"));
    assert!(missing.contains("export BRAVE_SEARCH_API_KEY"));
    assert!(missing.contains("~/.zsh_secrets"));
    assert!(missing.contains("/features"));
    assert!(missing.contains("BRAVE_API_KEY is also accepted"));

    let blank = brave_api_key(Some(" \t\n ".to_string()), None).unwrap_err();
    assert_eq!(blank, missing);
    assert!(tavily_api_key(None).is_err());
    assert_eq!(tavily_api_key(Some(" k ".to_string())).unwrap(), "k");
}

#[test]
fn web_search_tool_rejects_empty_query_before_network() {
    let refused = web_search_request(&object(vec![("query", text("   "))])).unwrap_err();
    assert!(refused.contains("missing non-empty `query`"));
}

#[test]
fn lossy_prompt_context_warns_and_continues_on_missing_search_key() {
    let prompt = "what is the latest Rust stable version?";
    assert!(matches!(web_context_plan(prompt), WebContext::Search(_)));
    let got = brave_api_key(None, None);
    let found = web_context_message_for_prompt(prompt, got);
    let (context, warning) = web_context_message_for_prompt_lossy(found);
    assert!(context.is_none());
    let warnings: Vec<String> = warning.into_iter().collect();
    assert_eq!(warnings.len(), 1);
    assert!(warnings[0].contains("Brave Search API key is not set"));
    assert!(warnings[0].contains("~/.zsh_secrets"));
}

#[test]
fn found_context_is_handed_on_without_a_warning() {
    let page = web_context_message_for_prompt(
        "summarize https://example.com please",
        Ok("page".to_string()),
    );
    let (context, warning) = web_context_message_for_prompt_lossy(page);
    let context = context.unwrap();
    assert_eq!(context.role, "system");
    assert_eq!(
        context.content,
        "Web context fetched for the user's prompt.\nURL: https://example.com\n\npage"
    );
    assert_eq!(warning, None);
    let hits = web_context_message_for_prompt(
        "what is the latest Rust stable version?",
        Ok("hits".to_string()),
    );
    assert!(hits.unwrap().unwrap().content.ends_with("when relevant.\n\nhits"));
    let quiet = web_context_message_for_prompt("hello", Err("unused".to_string()));
    let (context, warning) = web_context_message_for_prompt_lossy(quiet);
    assert!(context.is_none());
    assert_eq!(warning, None);
    let (context, warning) = web_context_message_for_prompt_lossy(Err("down".to_string()));
    assert!(context.is_none());
    assert_eq!(warning, Some("web context unavailable: down".to_string()));
}

#[test]
fn fetch_targets_are_checked_before_and_after_the_lookup() {
    let parts = |url: &str| start_fetch(url).unwrap();
    let at = |d: u8| NamedAddress {
        ip: NetAddress::V4(93, 184, 216, d),
        text: format!("93.184.216.{d}"),
    };
    let local = || NamedAddress { ip: NetAddress::V4(10, 0, 0, 1), text: "10.0.0.1".to_string() };
    let page = parts("https://Example.com/a");
    assert_eq!(target_lookup(&page, None), Ok(Some(("example.com".to_string(), 443))));
    assert_eq!(
        validate_fetch_target(&page, None, Ok(vec![at(1), at(2)])),
        Ok(Some("example.com".to_string()))
    );
    assert!(validate_fetch_target(&page, None, Ok(vec![at(1), local()]))
        .unwrap_err()
        .contains("10.0.0.1 is a restricted address"));
    assert_eq!(
        validate_fetch_target(&page, None, Ok(vec![])).unwrap_err(),
        "host resolved to no addresses"
    );
    assert_eq!(
        validate_fetch_target(&page, None, Err("no such host".to_string())).unwrap_err(),
        "failed to resolve host: no such host"
    );
    let literal = parts("http://93.184.216.34/");
    assert_eq!(target_lookup(&literal, Some(&at(34))), Ok(None));
    assert_eq!(validate_fetch_target(&literal, Some(&at(34)), Ok(vec![])), Ok(None));
    let inside = parts("http://10.0.0.1/");
    assert!(target_lookup(&inside, Some(&local())).is_err());
    assert!(validate_fetch_target(&inside, Some(&local()), Ok(vec![at(1)])).is_err());
    assert_eq!(
        target_lookup(&parts("http://localhost/"), None).unwrap_err(),
        "requests to localhost are not allowed"
    );
    assert!(target_lookup(&parts("ftp://example.com/"), None).is_err());
    let no_port = UrlParts {
        text: "http://example.com/".to_string(),
        scheme: "http".to_string(),
        host: Some("example.com".to_string()),
        port: None,
    };
    assert_eq!(
        validate_fetch_target(&no_port, None, Ok(vec![at(1)])).unwrap_err(),
        "URL must include a port or known scheme"
    );
}

#[test]
fn clamps_search_result_count() {
    assert_eq!(clamp_search_results(0), 1);
    assert_eq!(clamp_search_results(7), 7);
    assert_eq!(clamp_search_results(50), MAX_SEARCH_RESULTS);
}

#[test]
fn parses_fetch_format_values() {
    assert_eq!(FetchFormat::parse(None).unwrap(), FetchFormat::Markdown);
    assert_eq!(FetchFormat::parse(Some("text")).unwrap(), FetchFormat::Text);
    assert_eq!(FetchFormat::parse(Some("raw")).unwrap(), FetchFormat::Raw);
    assert!(FetchFormat::parse(Some("pdf")).is_err());
}

#[test]
fn fetch_url_tool_rejects_non_http_before_network() {
    let wanted = fetch_url_request(&object(vec![("url", text("file:///etc/passwd"))])).unwrap();
    let refused = match start_fetch(&wanted.url) {
        Err(error) => error,
        Ok(parts) => target_host(&parts).unwrap_err(),
    };
    let result = tool_answer(Err(refused));
    assert!(result.contains("only http:// and https:// URLs are supported"));
}

#[test]
fn clamps_fetch_options() {
    let options = FetchOptions::new(FetchFormat::Text, u64::MAX, u64::MAX);
    assert_eq!(options.max_bytes, HARD_FETCH_MAX_BYTES);
    assert_eq!(options.timeout_ms, HARD_TIMEOUT_MS);
}

#[test]
fn rejects_restricted_ips() {
    assert!(is_restricted_ip(NetAddress::V4(127, 0, 0, 1)));
    assert!(is_restricted_ip(NetAddress::V4(10, 0, 0, 1)));
    assert!(is_restricted_ip(NetAddress::V4(169, 254, 169, 254)));
    assert!(!is_restricted_ip(NetAddress::V4(93, 184, 216, 34)));
}

#[test]
fn every_address_of_a_host_counts() {
    let open = NamedAddress { ip: NetAddress::V4(93, 184, 216, 34), text: "93.184.216.34".into() };
    let local = NamedAddress { ip: NetAddress::V6(0, 0, 0, 0, 0, 0, 0, 1), text: "::1".into() };
    assert!(validate_addresses(&vec![open, local]).is_err());
    assert!(validate_addresses(&vec![]).is_err());
}

#[test]
fn strips_basic_html() {
    let html = "<html><style>x</style><script>bad()</script><body><h1>Hello &amp; welcome</h1><p>Text</p></body></html>";
    let text = html_to_text(html);
    assert!(text.contains("Hello & welcome"));
    assert!(text.contains("Text"));
    assert!(!text.contains("bad"));
}

#[test]
fn addresses_are_taken_apart() {
    let parts = start_fetch("https://Example.com/a?b=c").unwrap();
    assert_eq!(parts.scheme, "https");
    assert_eq!(target_host(&parts).unwrap(), "example.com");
    assert_eq!(target_port(&parts).unwrap(), 443);
    assert_eq!(literal_candidate("[::1]"), "::1");
    assert!(start_fetch("not a url").is_err());
}

#[test]
fn redirections_are_followed_and_bounded() {
    match fetch_step(302, 0, "https://example.com/a/b", Some("../c")) {
        FetchStep::Redirect(url) => assert_eq!(url, "https://example.com/c"),
        other => panic!("expected a redirection, got {other:?}"),
    }
    assert!(matches!(fetch_step(200, 0, "https://example.com", Some("/x")), FetchStep::Read));
    assert!(matches!(fetch_step(302, 0, "https://example.com", None), FetchStep::Read));
    match fetch_step_for(302, MAX_REDIRECTS, Some(Ok("https://example.com".to_string()))) {
        FetchStep::Fail(error) => assert!(error.contains("too many redirects")),
        other => panic!("expected a failure, got {other:?}"),
    }
    match fetch_step_for(302, 0, Some(Err("bad".to_string()))) {
        FetchStep::Fail(error) => assert_eq!(error, "invalid redirect location: bad"),
        other => panic!("expected a failure, got {other:?}"),
    }
}

#[test]
fn fetched_pages_are_framed_as_json() {
    let options = FetchOptions::new(FetchFormat::Text, 5, 1000);
    let answer = response_to_text(
        "https://example.com",
        200,
        &vec!["content-type".to_string()],
        &vec!["text/plain".to_string()],
        Some("text/plain"),
        &b"hello world".to_vec(),
        options,
    );
    assert!(answer.starts_with("ok:\n"));
    let value = parsed(answer.strip_prefix("ok:\n").unwrap());
    assert_eq!(value["url"], "https://example.com");
    assert_eq!(value["content"], "hello");
    assert_eq!(value["truncated"], true);
    let lossy = response_to_text(
        "https://example.com",
        404,
        &vec![],
        &vec![],
        None,
        &vec![0xffu8, b'a'],
        FetchOptions::new(FetchFormat::Raw, 100, 1000),
    );
    assert!(lossy.starts_with("failed:\n"));
    assert!(lossy.contains("\u{fffd}a"));
}

#[test]
fn last_header_of_a_name_wins() {
    let line = |name: &str, value: Option<&str>| HeaderLine {
        name: name.to_string(),
        value: value.map(str::to_string),
    };
    let (names, values) = response_headers(&vec![
        line("Set-Cookie", Some("a")),
        line("accept", Some("x")),
        line("set-cookie", Some("b")),
        line("Accept", None),
        line("odd", None),
    ]);
    assert_eq!(names, vec!["accept", "set-cookie"]);
    assert_eq!(values, vec!["x", "b"]);
}

#[test]
fn brave_results_become_entries() {
    let items = vec![BraveResult {
        title: "Title".to_string(),
        url: "https://example.com".to_string(),
        description: Some("Snippet".to_string()),
        extra_snippets: None,
    }];
    let entries = brave_entries(&items, 5);
    assert_eq!(entries[0].title, "Title");
    assert_eq!(entries[0].url, "https://example.com");
    assert_eq!(entries[0].snippet, Some("Snippet".to_string()));
    assert!(brave_entries(&items, 0).is_empty());
}

#[test]
fn tavily_results_become_entries() {
    let items = vec![TavilyResult {
        title: "Title".to_string(),
        url: "https://example.com".to_string(),
        content: "Snippet".to_string(),
    }];
    let results = tavily_entries(&items, 5);
    assert_eq!(results[0].snippet, Some("Snippet".to_string()));
    let shown = format_search_response(&SearchResponse {
        provider: SearchProvider::Tavily,
        query: "q".to_string(),
        results,
    });
    assert_eq!(
        shown,
        "ok:\nprovider: tavily\nquery: q\ncount: 1\n\n1. Title\nURL: https://example.com\nSnippet: Snippet\n"
    );
}

#[test]
fn searches_are_asked_for() {
    let url = brave_search_url("a b&c", 3).unwrap();
    assert!(url.starts_with("https://api.search.brave.com/res/v1/web/search?"));
    assert!(url.contains("q=a+b%26c"));
    assert!(url.contains("count=3"));
    let body = parsed(&tavily_body("q\"", 4));
    assert_eq!(body["query"], "q\"");
    assert_eq!(body["max_results"], 4);
    assert_eq!(tavily_payload("q", 4).get_str("search_depth"), Some(&"basic".to_string()));
}

#[test]
fn extracts_assistant_text() {
    let raw = r#"{"choices":[{"message":{"content":"hello"}}]}"#;
    assert_eq!(extract_assistant_text(raw).unwrap(), "hello");
}

#[test]
fn extracts_final_content_as_agent_decision_text() {
    let raw = r#"{"choices":[{"message":{"content":"done"}}]}"#;
    let text = extract_assistant_decision_text(raw).unwrap();
    let value = parsed(&text);
    assert_eq!(value["content"], "done");
    assert!(value["tool_calls"].is_null());
}

#[test]
fn preserves_legacy_json_content_as_agent_decision_text() {
    let raw = r#"{"choices":[{"message":{"content":"{\"tool\":{\"name\":\"list_files\",\"arguments\":{\"path\":\".\"}}}"}}]}"#;
    let text = extract_assistant_decision_text(raw).unwrap();
    let value = parsed(&text);
    assert_eq!(value.pointer("/tool/name").unwrap(), "list_files");
}

#[test]
fn normal_chat_request_omits_native_tools() {
    let messages = vec![message("user", "hello")];
    let body = parsed(&chat_request_body(
        "deepseek-v4-pro",
        &messages,
        None,
        None,
        false,
        None,
        None,
    ));
    assert!(body.get("tools").is_none());
    assert!(body.get("tool_choice").is_none());
    assert_eq!(body["messages"][0]["content"], "hello");
    assert_eq!(body["stream"], false);
}

#[test]
fn agent_chat_request_serializes_native_tools() {
    let messages = vec![message("user", "list files")];
    let tools = vec![ChatTool {
        kind: "function".to_string(),
        name: "list_files".to_string(),
        description: "List files.".to_string(),
        parameters: object(vec![
            ("properties", object(vec![("path", object(vec![("type", text("string"))]))])),
            ("required", Json::Array(vec![text("path")])),
            ("type", text("object")),
        ]),
    }];
    let body = parsed(&chat_request_body(
        "deepseek-v4-pro",
        &messages,
        None,
        None,
        false,
        Some(&tools),
        Some("auto"),
    ));
    assert_eq!(body["tool_choice"], "auto");
    assert_eq!(body["tools"][0]["type"], "function");
    assert_eq!(body["tools"][0]["function"]["name"], "list_files");
    assert_eq!(body["tools"][0]["function"]["parameters"]["required"][0], "path");
}

#[test]
fn native_tool_messages_serialize_openai_shape() {
    let assistant = assistant_tool_calls_message(vec![call()]);
    let tool = tool_message("call_1", "contents");
    let assistant_json = parsed(&message_to_json(&assistant));
    let tool_json = parsed(&message_to_json(&tool));
    assert_eq!(assistant_json["role"], "assistant");
    assert!(assistant_json["content"].is_null());
    assert_eq!(assistant_json["tool_calls"][0]["id"], "call_1");
    assert_eq!(tool_json["role"], "tool");
    assert_eq!(tool_json["tool_call_id"], "call_1");
}

#[test]
fn native_tool_message_can_include_reasoning_content() {
    let assistant =
        assistant_tool_calls_message_with_reasoning(vec![call()], Some("need file".to_string()));
    let value = parsed(&message_to_json(&assistant));
    assert_eq!(value["reasoning_content"], "need file");
}

#[test]
fn extracts_native_tool_calls_as_agent_decision_json() {
    let raw = r#"{"choices":[{"message":{"content":"","reasoning_content":"need file","tool_calls":[{"id":"call_1","type":"function","function":{"name":"read_file","arguments":"{\"path\":\"src/main.rs\"}"}}]}}]}"#;
    let text = extract_assistant_text(raw).unwrap();
    let value = parsed(&text);
    assert!(value.get("content").unwrap().is_null());
    assert_eq!(value.get("reasoning_content").unwrap(), "need file");
    assert_eq!(value.pointer("/tool_calls/0/function/name").unwrap(), "read_file");
}

#[test]
fn does_not_truncate_native_tool_call_decision_json() {
    let long_path = format!("{}README.md", "a".repeat(DEFAULT_TEXT_CAP));
    let arguments = format!("{{\\\"path\\\":\\\"{long_path}\\\"}}");
    let raw = format!(
        r#"{{"choices":[{{"message":{{"content":"","tool_calls":[{{"id":"call_1","type":"function","function":{{"name":"read_file","arguments":"{arguments}"}}}}]}}}}]}}"#
    );
    let text = extract_assistant_text(&raw).unwrap();
    let value = parsed(&text);
    assert_eq!(value.pointer("/tool_calls/0/function/name").unwrap(), "read_file");
    assert!(text.len() > DEFAULT_TEXT_CAP);
}

#[test]
fn rejects_error_response() {
    let raw = r#"{"error":{"message":"bad key"}}"#;
    assert!(extract_assistant_text(raw).unwrap_err().contains("provider error"));
}

#[test]
fn answers_without_text_are_errors() {
    assert!(extract_assistant_text("{}")
        .unwrap_err()
        .contains("provider response did not include assistant text"));
    assert!(extract_assistant_text("nope")
        .unwrap_err()
        .contains("provider returned invalid JSON"));
    let broken = JsonError { message: "expected value".to_string(), column: 1 };
    assert_eq!(
        message_in_answer("nope", Err(broken)).unwrap_err(),
        "provider returned invalid JSON: expected value; body=nope"
    );
    let said = object(vec![("content", text("  hi  "))]);
    assert_eq!(text_of_message("{}", Ok(said)).unwrap(), "hi");
}

#[test]
fn api_key_rejects_missing_and_blank_values() {
    let missing = parse_api_key(None).unwrap_err();
    assert!(missing.contains("DeepSeek API key is not set"));
    assert!(missing.contains("AI provider or support"));
    assert!(missing.contains("do not include any real API keys"));
    assert!(missing.contains("export DEEPSEEK_API_KEY"));
    assert!(missing.contains("~/.zsh_secrets"));
    assert!(missing.contains("keep provider keys there"));
    assert!(missing.contains("deepseek-arkey login"));

    let blank = parse_api_key(Some(" \t\n ".to_string())).unwrap_err();
    assert_eq!(blank, missing);
}

#[test]
fn api_key_trims_surrounding_whitespace() {
    assert_eq!(parse_api_key(Some("  secret-key\n".to_string())).unwrap(), "secret-key");
}

#[test]
fn curl_process_args_do_not_include_api_key() {
    let args = curl_args().join(" ");
    assert!(!args.contains("secret-key"));
    assert_eq!(args, "-q -K -");
}

#[test]
fn curl_config_carries_auth_header_off_argv() {
    let config = curl_config("secret-key", r#"{"messages":[]}"#, false);
    assert!(config.contains("Authorization: Bearer secret-key"));
    assert!(config.contains("Content-Type: application/json"));
    assert!(config.contains("data = "));
}

#[test]
fn curl_quote_escapes_config_string_controls() {
    assert_eq!(curl_quote("a\"b\\c\n\r\t"), "a\\\"b\\\\c\\n\\r\\t");
}

#[test]
fn streaming_chat_returns_cancelled_when_token_is_cancelled() {
    let cancel = CancellationToken::new();
    let mut stream = StreamState::new();
    let line = "data: {\"choices\":[{\"delta\":{\"content\":\"hello\"}}]}";
    match stream.on_line(cancel.is_cancelled(), line) {
        StreamStep::Emit(delta) => {
            assert_eq!(delta, "hello");
            assert!(matches!(stream.on_emitted(cancel.is_cancelled()), StreamStep::Next));
            cancel.cancel();
        }
        other => panic!("expected text, got {other:?}"),
    }
    match stream.on_emitted(cancel.is_cancelled()) {
        StreamStep::Fail(error) => assert_eq!(error, CANCELLED),
        other => panic!("expected a failure, got {other:?}"),
    }
    match stream.on_line(cancel.is_cancelled(), "") {
        StreamStep::Fail(error) => assert_eq!(error, CANCELLED),
        other => panic!("expected a failure, got {other:?}"),
    }
}

#[test]
fn streams_collect_their_pieces() {
    let mut stream = StreamState::new();
    for piece in ["he", "llo"] {
        stream.on_event(false, StreamEvent::Delta(piece.to_string()));
    }
    assert!(matches!(stream.on_line(false, ": comment"), StreamStep::Next));
    assert!(matches!(stream.on_line(false, "data: {broken"), StreamStep::Next));
    assert!(matches!(stream.on_line(false, "data: [DONE]"), StreamStep::Finish));
    assert_eq!(stream.warning().unwrap(), "stream warning: skipped 1 malformed event(s)");
    assert!(stream.owes_newline(true));
    assert_eq!(stream.outcome(true, "").unwrap(), "hello");
    assert_eq!(stream.outcome(false, " ").unwrap_err(), "provider request failed");
    assert_eq!(stream.outcome(false, "token=abc").unwrap_err(), "token=[REDACTED]");
    match stream.on_line(false, "data: {\"error\":\"bad\"}") {
        StreamStep::Fail(error) => assert_eq!(error, "provider error: \"bad\""),
        other => panic!("expected a failure, got {other:?}"),
    }
}

#[test]
fn login_tries_the_key_out() {
    let body = parsed(&login_check("m"));
    assert_eq!(body["messages"][0]["content"], "Say exactly: OK");
    assert_eq!(body["max_tokens"], 128);
    assert_eq!(body["model"], "m");
}

#[test]
fn requests_need_a_key_and_time() {
    let options = ChatOptions::chat(None, true);
    let key = || Some(" k ".to_string());
    assert_eq!(prepare_chat(true, key(), "{}", options).unwrap_err(), CANCELLED);
    assert!(prepare_chat(false, None, "{}", options).unwrap_err().contains("is not set"));
    let config = prepare_chat(false, key(), "{}", options).unwrap();
    assert!(config.contains("no-buffer\n"));
    assert!(config.contains("Bearer k\""));
}

#[test]
fn finished_requests_are_judged() {
    let raw = r#"{"choices":[{"message":{"content":"hi"}}],"usage":{"prompt_tokens_details":{"cached_tokens":7}}}"#;
    assert_eq!(chat_outcome(true, "", raw, ChatOptions::quiet(None)).unwrap(), "hi");
    assert_eq!(
        chat_outcome(false, "down", raw, ChatOptions::quiet(None)).unwrap_err(),
        "down"
    );
    assert_eq!(cache_stats(raw).unwrap(), "cache: cached_tokens=7");
    assert_eq!(cache_stats("{}"), None);
}

#[test]
fn debug_response_points_file_work_to_agent_mode() {
    let response = debug_response("can you write files?", "deepseek-v4-flash");
    assert!(response.contains("local diagnostic response"));
    assert!(response.contains("agent --root"));
}

#[test]
fn parses_debug_aliases() {
    assert_eq!(RuntimeBackend::parse("debug"), Some(RuntimeBackend::Debug));
    assert_eq!(RuntimeBackend::parse("manual"), Some(RuntimeBackend::Debug));
    assert_eq!(RuntimeBackend::parse("on"), Some(RuntimeBackend::Debug));
    assert_eq!(RuntimeBackend::parse("provider"), Some(RuntimeBackend::Provider));
    assert_eq!(RuntimeBackend::parse("off"), Some(RuntimeBackend::Provider));
    assert_eq!(RuntimeBackend::parse("unknown"), None);
}

#[test]
fn labels_debug_backend() {
    let state = RuntimeState::provider(Some("deepseek-v4-flash".to_string()), 0)
        .with_backend(RuntimeBackend::Debug, 0);
    assert_eq!(state.label("fallback"), "debug:deepseek-v4-flash");
}

#[test]
fn debug_commands_switch_the_backend() {
    let fresh = || Ok(RuntimeState::provider(Some("m".to_string()), 9));
    let text = |outcome: DebugOutcome| match outcome.shown {
        Shown::Text(text) => text,
        Shown::Json => panic!("expected text"),
    };
    assert_eq!(
        text(runtime_result(fresh(), "m", false).unwrap()),
        "LLM: provider\nRuntime: terminal\nModel: m\nUpdated: 9\n"
    );
    let shown = debug_result(fresh(), "m", None, false, 10).unwrap();
    assert!(shown.to_save().is_none());
    assert_eq!(shown.state.updated_at, 9);
    assert_eq!(text(shown), text(runtime_result(fresh(), "m", false).unwrap()));
    let changed = debug_result(fresh(), "m", Some("on"), false, 5).unwrap();
    assert!(changed.to_save().is_some());
    assert_eq!(
        changed.shown,
        Shown::Text("LLM: debug\nRuntime: terminal\nModel: m\nUpdated: 5\n".to_string())
    );
    let back = toggle_debug_result(Ok(changed.state), "m", 6).unwrap();
    assert_eq!(back.state.backend, RuntimeBackend::Provider);
    assert!(text(back).contains("Model: m"));
    assert!(debug_result(Err("unreadable".to_string()), "m", Some("sideways"), false, 7)
        .err()
        .unwrap()
        .contains("debug mode must be one of"));
    let unreadable = || Err("unreadable".to_string());
    assert_eq!(debug_result(unreadable(), "m", Some("on"), false, 7).err().unwrap(), "unreadable");
    assert_eq!(runtime_result(unreadable(), "m", false).unwrap_err(), "unreadable");
    assert!(toggle_debug_result(unreadable(), "m", 7).is_err());
    assert_eq!(debug_stream_delay(Some("0")), None);
    assert_eq!(debug_stream_delay(Some("25")), Some(25));
}

#[test]
fn states_are_shown_as_json_on_request() {
    let fresh = || Ok(RuntimeState::provider(Some("m".to_string()), 9));
    let shown = runtime_result(fresh(), "m", true).unwrap();
    assert_eq!(shown.shown, Shown::Json);
    assert_eq!(shown.state.updated_at, 9);
    assert!(shown.to_save().is_none());
    let changed = debug_result(fresh(), "m", Some("on"), true, 5).unwrap();
    assert_eq!(changed.shown, Shown::Json);
    assert_eq!(changed.state.backend, RuntimeBackend::Debug);
    assert!(changed.to_save().is_some());
}

#[test]
fn set_backends_keep_the_rest() {
    let state = RuntimeState::provider(Some("m".to_string()), 1).with_legacy_routing(true, 2);
    let next = set_backend(Ok(state), RuntimeBackend::Debug, 3).unwrap();
    assert_eq!(next.backend, RuntimeBackend::Debug);
    assert_eq!(next.model, Some("m".to_string()));
    assert!(next.legacy_routing);
    assert_eq!(next.updated_at, 3);
    let read_back = load_or_provider(Some(next), "other", 4);
    assert_eq!(read_back.backend, RuntimeBackend::Debug);
    assert_eq!(load_or_provider(None, "other", 4).model, Some("other".to_string()));
    assert!(set_backend(Err("gone".to_string()), RuntimeBackend::Debug, 3).is_err());
}

#[test]
fn prompts_without_a_session_leave_nothing() {
    assert!(!uses_session(true));
    assert!(uses_session(false));
    let mut state = SessionState::new(PROVIDER, DEFAULT_SESSION_NAME, "m", 0);
    state.push_turn("before", "said", 1);
    let run = PromptRun::start(true, RuntimeBackend::Provider, Ok(Some(state))).unwrap();
    assert_eq!(run.local_answer("now", "m"), None);
    let sent = run.messages(None, "now");
    assert_eq!(sent.len(), 1);
    assert_eq!(sent[0].content, "now");
    assert!(run.finish("now", &Ok("answer".to_string()), 2).is_none());
    let unreadable = Err("unreadable".to_string());
    let run = PromptRun::start(true, RuntimeBackend::Debug, unreadable).unwrap();
    assert_eq!(run.local_answer("now", "m"), Some(debug_response("now", "m")));
    assert!(run.finish("now", &Err("failed".to_string()), 2).is_none());
}

#[test]
fn prompts_in_a_session_add_their_turn() {
    let session = || {
        let mut state = SessionState::new(PROVIDER, DEFAULT_SESSION_NAME, "m", 0);
        state.push_turn("before", "said", 1);
        Ok(Some(state))
    };
    let run = PromptRun::start(false, RuntimeBackend::Provider, session()).unwrap();
    let sent = run.messages(None, "now");
    let contents: Vec<&str> = sent.iter().map(|message| message.content.as_str()).collect();
    assert_eq!(contents, vec!["before", "said", "now"]);
    let saved = run.finish("now", &Ok("answer".to_string()), 2).unwrap();
    assert_eq!(saved.messages.len(), 4);
    assert_eq!(saved.messages[3].content, "answer");
    assert_eq!(saved.updated_at, 2);
    let run = PromptRun::start(false, RuntimeBackend::Provider, session()).unwrap();
    assert!(run.finish("now", &Err("failed".to_string()), 2).is_none());
    let unreadable = Err("unreadable".to_string());
    assert_eq!(
        PromptRun::start(false, RuntimeBackend::Provider, unreadable).unwrap_err(),
        "unreadable"
    );
    let run = PromptRun::start(false, RuntimeBackend::Provider, Ok(None)).unwrap();
    assert!(run.finish("now", &Ok("answer".to_string()), 2).is_none());
}

#[test]
fn ended_sessions_are_deleted_at_both_places() {
    let home = Some("/home/me");
    let new_file = session_path(home);
    let old_file = old_session_path(home);
    assert_ne!(new_file, old_file);
    assert_eq!(
        files_of_ended_session(home, true, true),
        vec![new_file.clone(), old_file.clone()]
    );
    assert_eq!(files_of_ended_session(home, true, false), vec![new_file]);
    assert_eq!(files_of_ended_session(home, false, true), vec![old_file]);
    assert!(files_of_ended_session(home, false, false).is_empty());
    assert!(!should_migrate(false, false));
}

#[test]
fn caps_turn_count() {
    let mut state = SessionState::new(PROVIDER, DEFAULT_SESSION_NAME, "model", 0);
    for index in 0..25 {
        state.push_turn(&format!("u{index}"), &format!("a{index}"), 0);
    }
    assert_eq!(state.messages.len(), 40);
    assert_eq!(state.messages[0].content, "u5");
}

#[test]
fn stores_agent_root_permission() {
    let mut state = session();

    state.approve_agent_root("/w", Ok("/w".to_string()), true, 1).unwrap();
    assert_eq!(state.agent_root_path(), Some("/w".to_string()));

    state.clear_agent_root(2);
    assert_eq!(state.agent_root_path(), None);
}

#[test]
fn clears_messages_without_clearing_session_metadata() {
    let mut state = session();
    state.push_turn("hello", "world", 1);
    state.approve_agent_root("/w", Ok("/w".to_string()), true, 2).unwrap();

    state.clear_messages(3);

    assert!(state.messages.is_empty());
    assert_eq!(state.model, "model-a");
    assert_eq!(state.agent_root_path(), Some("/w".to_string()));
}

#[test]
fn normalizes_persisted_roots() {
    let mut state = session();
    state
        .approve_agent_root("/t/workspace/../workspace", Ok("/t/workspace".to_string()), true, 1)
        .unwrap();
    assert_eq!(state.agent_root_path(), Some("/t/workspace".to_string()));
    state.select_root("/t/workspace/.", Ok("/t/workspace".to_string()), true, 2).unwrap();
    assert_eq!(state.selected_root_path(), Some("/t/workspace".to_string()));
    assert!(state.select_root("/t/x", Err("gone".to_string()), false, 3).is_err());
}

#[test]
fn drops_relative_persisted_roots_on_session_load() {
    let (root, warning) =
        restore_root(Some("relative/path".to_string()), Ok("/x/relative/path".to_string()), true);
    assert!(root.is_none());
    assert!(warning.unwrap().starts_with("warning: dropping invalid persisted root: "));
}

#[test]
fn drops_stale_persisted_roots_on_session_load() {
    let (root, warning) = restore_root(
        Some("/tmp/deepseek-missing-session-root".to_string()),
        Err("No such file or directory (os error 2)".to_string()),
        false,
    );
    assert!(root.is_none());
    assert!(warning.is_some());
}

#[test]
fn state_is_kept_below_the_home_directory() {
    assert_eq!(
        session_path(Some("/h")),
        "/h/.local/state/provider-cli/deepseek-arkey/active-session.json"
    );
    assert_eq!(session_path(None), ".deepseek-arkey/active-session.json");
    assert_eq!(
        old_session_path(Some("/h")),
        "/h/.local/state/provider-cli/deepseek/active-session.json"
    );
    assert_eq!(
        runtime_path(Some("/h")),
        "/h/.local/state/provider-cli/deepseek-arkey/runtime-state.json"
    );
}

#[test]
fn prompt_includes_provider_and_model() {
    let prompt = prompt_text("deepseek-v4-flash", true);
    assert!(prompt.contains("deepseek"));
    assert!(prompt.contains("deepseek-v4-flash"));
    assert_eq!(prompt_text("m", false), "deepseek-arkey [m] › ");
}

#[test]
fn screens_are_written_with_and_without_colour() {
    assert_eq!(print_error("bad", false), "bad\n");
    assert_eq!(print_error("bad", true), "\x1b[31;1mbad\x1b[0m\n");
    assert!(print_banner("m", false).starts_with("deepseek [m]\n"));
    let state = session();
    let shown = print_status("m", "/s", Some(&state), false);
    assert_eq!(
        shown,
        "DeepSeek Status\nsession-path: /s\nsession: default\nmodel: model-a\nturns: 0\nhealth: ok\n"
    );
    assert!(print_status("m", "/s", None, false).ends_with("health: stateless\n"));
    let help = print_help("m", false);
    for command in [
        "/agent <task>", "/model", "/model <id>", "/status", "/runtime", "/debug", "/end", "/help",
        "/exit", "model               m\n",
    ] {
        assert!(help.contains(command), "{command}");
    }
    assert_eq!(interactive_help("m", false).matches("/agent <task>").count(), 1);
    assert!(!agent_help("m", "/w", false).contains("/agent <task>"));
    assert!(agent_help("m", "/w", false).ends_with("  workspace           /w\n"));
}

#[test]
fn paths_are_joined_and_normalised() {
    assert_eq!(join_path("/a", "b"), "/a/b");
    assert_eq!(join_path("/a/", "b"), "/a/b");
    assert_eq!(join_path("/a", "/b"), "/b");
    assert_eq!(normalize_path("/a/./b/../c").to_text(), "/a/c");
    let root = normalize_path("/w");
    assert!(resolve_path(&root, "a/../b").is_inside_of(&root));
    assert!(!resolve_path(&root, "../x").is_inside_of(&root));
    assert_eq!(parent_of("/a/b"), Some("/a".to_string()));
    assert_eq!(parent_of("/"), None);
}

#[test]
fn sorting_keeps_every_text() {
    let list: Vec<String> = ["b", "a", "ab", "", "b"].iter().map(|s| s.to_string()).collect();
    assert_eq!(sort_texts(&list), vec!["", "a", "ab", "b", "b"]);
}
