use deepseek_arkey::agent::approval_text::{patch_summary, shell_summary};
use deepseek_arkey::agent::commit_audit::{
    collect_git_evidence, commit_audit_target, git_args, is_commit_audit_prompt, prepare_task,
    GitRun,
};
use deepseek_arkey::agent::decision::{
    arguments_of_parse, extract_json_object, insert_missing_comma, normalize_decision,
    parse_decision, parse_decision_with_metadata, repair_malformed_arguments_string,
    system_prompt, AgentDecision, ParsedDecision, Repair, ToolCall,
};
use deepseek_arkey::agent::run::{
    sanitize_tool_observation, AgentEnd, AgentRun, Attempt, Phase, TranscriptEntry,
};
use deepseek_arkey::agent::summary::{
    capped_entries, read_latest_transcript, read_latest_transcript_summary,
    salvage_complete_objects, summarize_entries, transcript_dir, transcript_name, FoundRecord,
};
use deepseek_arkey::agent::tools::{
    apply_patch, format_entry, list_files_answer, listed_entries, patch_answer, patch_unchanged,
    plan_tool, read_file_answer, read_refusal, shell_answer, typed_approval, FileKind, ToolPlan,
};
use deepseek_arkey::agent::types::{
    approval_request, AgentChatRoute, AgentConfig, AgentRunOptions, AgentStep, ApprovalDecision,
    ApprovalMode,
};
use deepseek_arkey::agent::walk::{
    search_look, SearchFound, SearchLook, SearchWalk, TreeFound, TreeWalk, MAX_SEARCH_MATCHES,
};
use deepseek_arkey::agent::workspace::{is_ignored, Workspace};
use deepseek_arkey::cancel::CancellationToken;
use deepseek_arkey::input::approval::ApprovalScope;
use deepseek_arkey::json::{Json, JsonError, Member};

fn object(members: Vec<(&str, Json)>) -> Json {
    Json::Object(
        members
            .into_iter()
            .map(|(key, value)| Member { key: key.to_string(), value })
            .collect(),
    )
}

fn text(value: &str) -> Json {
    Json::Str(value.to_string())
}

fn tool(name: &str, arguments: Json) -> ToolCall {
    ToolCall { name: name.to_string(), arguments }
}

fn entry(role: &str, content: &str) -> TranscriptEntry {
    TranscriptEntry { role: role.to_string(), content: content.to_string() }
}

fn run(mode: ApprovalMode, max_steps: usize) -> AgentRun {
    AgentRun::start(&AgentConfig::new("/w".to_string(), max_steps), mode, "look token=abc")
}

fn answer(text: &str) -> Result<ParsedDecision, String> {
    Ok(ParsedDecision {
        decision: AgentDecision {
            thought: None,
            tool: None,
            tools: vec![],
            final_answer: Some(text.to_string()),
            blocked: None,
        },
        repair: Repair::Unchanged,
    })
}

fn idle() -> Result<ParsedDecision, String> {
    Ok(ParsedDecision {
        decision: AgentDecision {
            thought: None,
            tool: None,
            tools: vec![],
            final_answer: None,
            blocked: None,
        },
        repair: Repair::Unchanged,
    })
}

fn calls(tools: Vec<ToolCall>) -> Result<ParsedDecision, String> {
    Ok(ParsedDecision {
        decision: AgentDecision {
            thought: None,
            tool: None,
            tools,
            final_answer: None,
            blocked: None,
        },
        repair: Repair::Unchanged,
    })
}

fn list_here() -> ToolCall {
    tool("list_files", object(vec![("path", text("."))]))
}

#[test]
fn shell_summary_keeps_modal_preview_fields() {
    let summary = shell_summary(".", "run tests", "cargo test --offline");

    assert!(summary.contains("approval required: run_shell"));
    assert!(summary.contains("cwd: ."));
    assert!(summary.contains("reason: run tests"));
    assert!(summary.contains("command: cargo test --offline"));
    assert!(summary.contains("Type yes run"));
}

#[test]
fn patch_summary_keeps_find_replace_sections() {
    let summary = patch_summary("README.md", "docs", "old", "new");

    assert!(summary.contains("approval required: propose_patch"));
    assert!(summary.contains("path: README.md"));
    assert!(summary.contains("--- find ---\nold"));
    assert!(summary.contains("--- replace ---\nnew"));
    assert!(summary.contains("Type yes apply"));
}

#[test]
fn detects_commit_audit_targets() {
    assert_eq!(commit_audit_target("audit commit 3ca875a"), Some("3ca875a".to_string()));
    assert_eq!(
        commit_audit_target("3ca875a — [repo] < audit this commit"),
        Some("3ca875a".to_string())
    );
    assert_eq!(commit_audit_target("can you audit 3ca875a commit"), Some("3ca875a".to_string()));
    assert_eq!(commit_audit_target("audit this commit"), Some("HEAD".to_string()));
    assert_eq!(commit_audit_target("can you audit this commit"), Some("HEAD".to_string()));
}

#[test]
fn ignores_non_audit_hash_mentions() {
    assert_eq!(commit_audit_target("show commit 3ca875a"), None);
    assert_eq!(commit_audit_target("audit this repo"), None);
    assert_eq!(commit_audit_target("3ca875a is latest"), None);
    assert_eq!(commit_audit_target("audit our commit signing workflow"), None);
    assert!(!is_commit_audit_prompt("audit our commit signing workflow"));
}

#[test]
fn prepared_task_embeds_local_evidence_contract() {
    let missing = GitRun::Failed("No such file or directory (os error 2)".to_string());
    let evidence = collect_git_evidence(&missing, &missing, &missing);
    let task = prepare_task("audit commit HEAD", &evidence);
    assert!(task.contains("Original user request:"));
    assert!(task.contains("Resolved commit target: HEAD"));
    assert!(task.contains("Local git evidence collected before model review:"));
    assert!(task.contains("Do not ask the user to paste the diff"));
}

#[test]
fn prepared_task_reports_non_git_evidence_failures() {
    let outside = GitRun::Ran {
        status: "exit status: 128".to_string(),
        stdout: String::new(),
        stderr: "fatal: not a git repository".to_string(),
    };
    let evidence = collect_git_evidence(&outside, &outside, &outside);
    let task = prepare_task("audit commit HEAD", &evidence);

    assert!(task.contains("Resolved commit target: HEAD"));
    assert!(task.contains("git status --short --branch"));
    assert!(task.contains("git show --stat --patch --find-renames"));
    assert!(task.contains("status: exit status: 128") || task.contains("not a git repository"));
}

#[test]
fn other_tasks_are_left_alone() {
    assert_eq!(prepare_task("fix it", "evidence"), "fix it");
    assert_eq!(
        git_args(2, "HEAD"),
        vec!["show", "--stat", "--patch", "--find-renames", "HEAD", "--"]
    );
    assert_eq!(git_args(0, "HEAD"), vec!["status", "--short", "--branch"]);
    assert_eq!(git_args(1, "HEAD"), vec!["log", "--oneline", "-5"]);
}

#[test]
fn decisions_are_found_in_prose() {
    assert_eq!(
        extract_json_object("Sure: {\"a\":\"}\"} done}"),
        Some("{\"a\":\"}\"}".to_string())
    );
    assert_eq!(extract_json_object("{ open } {"), Some("{ open }".to_string()));
    assert_eq!(extract_json_object("{\"a\": {} "), Some("{\"a\": {}".to_string()));
    assert_eq!(extract_json_object("none"), None);
    let told = parse_decision("I think {\"final_answer\":\"yes\"}").unwrap();
    assert_eq!(told.final_answer, Some("yes".to_string()));
    assert_eq!(parse_decision("no json").unwrap_err(), "agent response was not JSON");
}

#[test]
fn native_tool_calls_keep_their_order() {
    let decision = parse_decision(
        r#"{"content":null,"tool_calls":[{"function":{"name":"list_files","arguments":"{\"path\":\".\"}"}},{"function":{"name":"read_file","arguments":{"path":"a"}}},{"id":"x"}]}"#,
    )
    .unwrap();
    let names: Vec<&str> = decision.tools.iter().map(|t| t.name.as_str()).collect();
    assert_eq!(names, vec!["list_files", "read_file"]);
    assert_eq!(decision.tools[0].arguments, object(vec![("path", text("."))]));
    assert_eq!(decision.tool.unwrap().name, "list_files");
}

#[test]
fn placeholder_content_hides_nothing() {
    let decision = parse_decision(
        r#"{"content":"answer with concrete findings","tool_calls":null,"blocked":"no access"}"#,
    )
    .unwrap();
    assert_eq!(decision.final_answer, None);
    assert_eq!(decision.blocked, Some("no access".to_string()));
    let decision = parse_decision(r#"{"content":" real "}"#).unwrap();
    assert_eq!(decision.final_answer, Some("real".to_string()));
}

#[test]
fn malformed_argument_strings_are_mended() {
    let broken = r#"{"tool_calls":[{"function":{"name":"read_file","arguments":"{"path":"a"}"}}]}"#;
    assert_eq!(
        repair_malformed_arguments_string(broken),
        Some(
            r#"{"tool_calls":[{"function":{"name":"read_file","arguments":{"path":"a"}}}]}"#
                .to_string()
        )
    );
    let parsed = parse_decision_with_metadata(broken).unwrap();
    assert_eq!(parsed.repair, Repair::ArgumentsString);
    assert_eq!(parsed.decision.tools[0].arguments, object(vec![("path", text("a"))]));
}

#[test]
fn missing_commas_are_mended() {
    let broken = r#"{"final_answer":"é" "thought":"x"}"#;
    let column = broken.find("\"thought\"").unwrap() + 1;
    assert_eq!(
        insert_missing_comma(broken, column),
        Some(r#"{"final_answer":"é" ,"thought":"x"}"#.to_string())
    );
    assert_eq!(insert_missing_comma(broken, 0), None);
    assert_eq!(insert_missing_comma(broken, 2), None);
    let parsed = parse_decision_with_metadata(broken).unwrap();
    assert_eq!(parsed.repair, Repair::MissingComma);
    assert_eq!(parsed.decision.thought, Some("x".to_string()));
}

#[test]
fn wrong_shapes_are_named() {
    let wrong = |raw: &str| parse_decision(raw).unwrap_err();
    assert_eq!(
        wrong(r#"{"blocked":true}"#),
        "invalid agent JSON: invalid type: boolean `true`, expected a string"
    );
    assert_eq!(
        wrong(r#"{"thought":7}"#),
        "invalid agent JSON: invalid type: integer `7`, expected a string"
    );
    assert_eq!(
        wrong(r#"{"thought":1.5}"#),
        "invalid agent JSON: invalid type: floating point `1.5`, expected a string"
    );
    assert_eq!(
        wrong(r#"{"tool":"a\"b"}"#),
        "invalid agent JSON: invalid type: string \"a\\\"b\", expected struct ToolCall"
    );
    assert_eq!(wrong(r#"{"tool":{}}"#), "invalid agent JSON: missing field `name`");
    assert_eq!(
        wrong(r#"{"tools":{}}"#),
        "invalid agent JSON: invalid type: map, expected a sequence"
    );
    assert_eq!(
        wrong(r#"{"tools":[[]]}"#),
        "invalid agent JSON: invalid length 0, expected struct ToolCall with 2 elements"
    );
    assert_eq!(
        wrong(r#"{"tools":[["a",1,2]]}"#),
        "invalid agent JSON: invalid length 3, expected fewer elements in array"
    );
    assert_eq!(
        wrong(r#"{"tool_calls":[{"function":{}}]}"#),
        "invalid agent JSON: missing tool function name"
    );
    assert!(wrong(r#"{"tool_calls":[{"function":{"name":"a","arguments":"{"}}]}"#)
        .starts_with("invalid tool arguments JSON: "));
    assert!(wrong("{\"a\" 1}").starts_with("invalid agent JSON: "));
    let broken = JsonError { message: "bad".to_string(), column: 1 };
    assert_eq!(arguments_of_parse(Err(broken)).unwrap_err(), "invalid tool arguments JSON: bad");
    let list = object(vec![("tools", Json::Array(vec![Json::Array(vec![text("a")])]))]);
    assert_eq!(normalize_decision(&list).unwrap().tools, vec![tool("a", Json::Null)]);
}

#[test]
fn instructions_name_every_tool() {
    let prompt = system_prompt("/w");
    for name in [
        "list_files",
        "read_file",
        "search_files",
        "inspect_tree",
        "web_search",
        "fetch_url",
        "run_shell",
        "propose_patch",
    ] {
        assert!(prompt.contains(&format!("\n- {name}: {{")), "{name}");
        let plan = plan_tool(&tool(name, object(vec![])), ApprovalMode::Deny);
        assert_ne!(plan, ToolPlan::Answer(format!("error: unknown agent tool `{name}`")));
    }
    assert!(prompt.contains("other network actions"));
}

#[test]
fn instructions_name_the_root() {
    let prompt = system_prompt("/w");
    assert!(prompt.starts_with("You are DeepSeek local agent mode."));
    assert!(prompt.contains("workspace:\n/w\n\nReturn exactly one JSON object"));
    assert!(prompt.contains("{\"blocked\":\"short reason\"}"));
    assert!(prompt.contains("\"arguments\":\"{\\\"path\\\":\\\".\\\"}\""));
}

#[test]
fn answers_end_a_run() {
    let mut run = run(ApprovalMode::Deny, 3);
    assert_eq!(run.messages[1].content, "Task: look token=[REDACTED]");
    run.on_decision("raw", answer("done password=x"));
    match &run.phase {
        Phase::Done(AgentEnd::Answer { answer, steps }) => {
            assert_eq!(answer, "done password=[REDACTED]");
            assert_eq!(*steps, 1);
        }
        other => panic!("expected an answer, got {other:?}"),
    }
    run.on_tool_result("late", false);
    assert!(matches!(run.phase, Phase::Done(_)));
}

#[test]
fn replies_are_read_as_they_come() {
    let mut run = run(ApprovalMode::Deny, 3);
    run.on_reply(Ok("{\"final_answer\":\"ok\"}".to_string()), false);
    match run.phase {
        Phase::Done(end) => {
            let outcome = end.outcome(Ok("/t.json".to_string())).unwrap();
            assert_eq!(outcome.answer, "ok");
            assert_eq!(outcome.transcript_path, "/t.json");
        }
        other => panic!("expected an end, got {other:?}"),
    }
}

#[test]
fn invalid_replies_are_asked_for_again_once() {
    let mut run = run(ApprovalMode::Deny, 3);
    run.on_decision("junk", Err("agent response was not JSON".to_string()));
    assert_eq!(run.phase, Phase::Ask(Attempt::AfterInvalid));
    assert_eq!(run.messages.len(), 4);
    run.on_decision("junk again", Err("still not".to_string()));
    match run.phase {
        Phase::Done(end) => {
            assert!(end.wants_transcript());
            assert_eq!(
                end.outcome(Err("disk full".to_string())).unwrap_err(),
                "still not\nraw snippet: junk again\ntranscript write failed: disk full"
            );
        }
        other => panic!("expected a failure, got {other:?}"),
    }
}

#[test]
fn idle_decisions_are_asked_about_once() {
    let mut run = run(ApprovalMode::Deny, 3);
    run.on_decision("{}", idle());
    assert_eq!(run.phase, Phase::Ask(Attempt::AfterIdle));
    run.on_decision("{}", idle());
    match run.phase {
        Phase::Done(end) => assert_eq!(
            end.outcome(Ok("/t".to_string())).unwrap_err(),
            "agent response did not include final_answer, blocked, or tool after retry\ntranscript: /t"
        ),
        other => panic!("expected a failure, got {other:?}"),
    }
}

#[test]
fn idle_decisions_after_tools_fall_back() {
    let mut run = run(ApprovalMode::Deny, 3);
    run.on_decision("raw", calls(vec![list_here()]));
    run.on_announced();
    run.on_tool_result("ok: no entries", false);
    assert_eq!(run.step, 2);
    run.on_decision("{}", idle());
    run.on_decision("{}", idle());
    match &run.phase {
        Phase::Done(AgentEnd::Answer { answer, .. }) => {
            assert!(answer.starts_with("blocked: model returned no actionable decision"))
        }
        other => panic!("expected an answer, got {other:?}"),
    }
}

#[test]
fn tools_run_in_order_and_steps_are_bounded() {
    let mut run = run(ApprovalMode::Deny, 1);
    run.on_decision("raw", calls(vec![list_here(), tool("other", Json::Null)]));
    assert_eq!(
        run.announced_step(),
        Some(AgentStep { step: 1, item: Some(1), total: 2, tool: "list_files".to_string() })
    );
    run.on_announced();
    assert_eq!(run.ready_tool(), Some((list_here(), ApprovalMode::Deny)));
    run.on_tool_result("one", false);
    assert_eq!(run.announced_step().unwrap().label(), "1.2");
    run.on_announced();
    run.on_tool_result("two", false);
    assert_eq!(
        run.messages.last().unwrap().content,
        "Tool result for step 1, item 1 (list_files):\none\n\nTool result for step 1, item 2 (other):\ntwo\nContinue with JSON only."
    );
    match &run.phase {
        Phase::Done(AgentEnd::Answer { answer, steps }) => {
            assert_eq!(answer, "blocked: reached max agent steps (1)");
            assert_eq!(*steps, 1);
        }
        other => panic!("expected an end, got {other:?}"),
    }
    assert_eq!(run.transcript.last().unwrap().role, "tool:other");
}

#[test]
fn gated_tools_wait_for_the_user() {
    let shell = tool("run_shell", object(vec![("command", text("ls"))]));
    let mut run = run(ApprovalMode::External, 2);
    run.on_decision("raw", calls(vec![shell]));
    run.on_announced();
    assert_eq!(run.phase, Phase::Approve);
    assert_eq!(run.ready_tool(), None);
    let request = run.pending_request().unwrap();
    assert_eq!(request.scope, ApprovalScope::Shell);
    assert_eq!(request.root, "/w");
    run.on_approval(ApprovalDecision::Deny);
    let (call, mode) = run.ready_tool().unwrap();
    assert_eq!(
        plan_tool(&call, mode),
        ToolPlan::Answer("error: run_shell denied by user".to_string())
    );
}

#[test]
fn cancelled_runs_stop() {
    let mut run = run(ApprovalMode::Deny, 2);
    run.check_cancelled(false);
    assert_eq!(run.phase, Phase::Ask(Attempt::First));
    run.check_cancelled(true);
    match run.phase {
        Phase::Done(end) => {
            assert!(!end.wants_transcript());
            assert_eq!(end.outcome(Ok(String::new())).unwrap_err(), "cancelled");
        }
        other => panic!("expected an end, got {other:?}"),
    }
}

#[test]
fn settings_of_a_run() {
    assert_eq!(AgentConfig::new("/w".to_string(), 0).max_steps, 1);
    let options = AgentRunOptions::new(AgentConfig::new("/w".to_string(), 5));
    assert_eq!(options.chat_route(), AgentChatRoute::Standard);
    assert_eq!(options.approval, ApprovalMode::Interactive);
    let options = options.quiet_cache(true).approval_mode(ApprovalMode::External);
    assert_eq!(options.chat_route(), AgentChatRoute::Quiet);
    let options = options.cancel(CancellationToken::new());
    assert_eq!(options.chat_route(), AgentChatRoute::QuietCancelled);
    assert_eq!(AgentChatRoute::from_options(false, true), AgentChatRoute::Cancelled);
}

#[test]
fn control_characters_are_written_out() {
    assert_eq!(sanitize_tool_observation("a\tb\r\n"), "a\tb\r\n");
    assert_eq!(sanitize_tool_observation("\x1b[0m\u{9f}"), "\\u{001B}[0m\\u{009F}");
}

#[test]
fn tool_calls_are_planned() {
    let plan = |call: ToolCall| plan_tool(&call, ApprovalMode::Deny);
    assert_eq!(plan(list_here()), ToolPlan::ListFiles { path: ".".to_string() });
    assert_eq!(
        plan(tool("read_file", Json::Null)),
        ToolPlan::Answer("error: missing non-empty `path`".to_string())
    );
    assert_eq!(
        plan(tool("search_files", object(vec![("path", text(".")), ("query", text(""))]))),
        ToolPlan::Answer("error: missing non-empty `query`".to_string())
    );
    assert_eq!(
        plan(tool("inspect_tree", object(vec![("depth", Json::Unsigned(9)), ("path", text("."))]))),
        ToolPlan::InspectTree { path: ".".to_string(), depth: 4 }
    );
    assert_eq!(
        plan(tool("web_search", object(vec![("query", text("q"))]))),
        ToolPlan::WebSearch { query: "q".to_string(), max_results: 5 }
    );
    assert_eq!(
        plan(tool("fetch_url", Json::Null)),
        ToolPlan::Answer("error: missing non-empty `url`".to_string())
    );
    assert_eq!(
        plan(tool("format_disk", Json::Null)),
        ToolPlan::Answer("error: unknown agent tool `format_disk`".to_string())
    );
}

#[test]
fn gated_tools_are_planned_by_mode() {
    let patch = tool(
        "propose_patch",
        object(vec![("find", text("a")), ("path", text("f")), ("replace", text("b"))]),
    );
    assert_eq!(
        plan_tool(&patch, ApprovalMode::Approved),
        ToolPlan::ProposePatch {
            path: "f".to_string(),
            find: "a".to_string(),
            replace: "b".to_string()
        }
    );
    assert!(matches!(plan_tool(&patch, ApprovalMode::Interactive), ToolPlan::AskUser { .. }));
    assert!(matches!(plan_tool(&patch, ApprovalMode::Deny), ToolPlan::Answer(_)));
    assert_eq!(typed_approval("propose_patch", Some(" yes apply\n")), ApprovalMode::Approved);
    assert_eq!(typed_approval("propose_patch", Some("yes run")), ApprovalMode::Deny);
    assert_eq!(typed_approval("run_shell", Some("yes run")), ApprovalMode::Approved);
    assert_eq!(typed_approval("run_shell", None), ApprovalMode::Deny);
    assert!(approval_request("/w", 1, &list_here()).is_none());
    let request = approval_request("/w", 1, &tool("run_shell", Json::Null)).unwrap();
    assert!(request.summary.contains("command: <missing command>"));
    assert!(request.summary.contains("reason: no reason provided"));
}

#[test]
fn patches_replace_one_occurrence() {
    assert_eq!(apply_patch("one two", "two", "three"), Ok("one three".to_string()));
    assert_eq!(apply_patch("one", "two", "x"), Err("find text was not found".to_string()));
    assert_eq!(apply_patch("aaa", "aa", "x"), Err("find text is ambiguous".to_string()));
}

#[test]
fn read_results_are_framed() {
    assert_eq!(format_entry(FileKind::Directory, "src"), "dir\tsrc");
    assert_eq!(
        list_files_answer(&vec!["file\tb".to_string(), "dir\ta".to_string()]),
        "ok:\ndir\ta\nfile\tb"
    );
    assert_eq!(list_files_answer(&vec![]), "ok: no entries");
    assert_eq!(read_refusal(false, 0), Some("error: path is not a file".to_string()));
    assert_eq!(
        read_refusal(true, 65_537),
        Some("error: file exceeds read cap of 65536 bytes".to_string())
    );
    assert_eq!(read_refusal(true, 65_536), None);
    assert_eq!(read_file_answer(Ok("x".to_string())), "ok:\nx");
    assert_eq!(read_file_answer(Err("gone".to_string())), "error: gone");
}

#[test]
fn changed_files_are_not_patched() {
    assert_eq!(patch_unchanged("a b", "a b", "b", "c"), Ok("a c".to_string()));
    assert_eq!(
        patch_unchanged("a b", "a b!", "b", "c").unwrap_err(),
        "file changed while the patch was prepared"
    );
    assert_eq!(patch_unchanged("a b", "x", "z", "c").unwrap_err(), "find text was not found");
    assert_eq!(patch_answer("src/a"), "ok: patched src/a");
    assert_eq!(shell_answer("exit status: 0", "o", "e"), "status: exit status: 0\nstdout:\no\nstderr:\ne");
}

#[test]
fn requests_stay_in_the_workspace() {
    let workspace = Workspace { root: "/w".to_string() };
    assert_eq!(workspace.requested_path("src/a"), Ok("/w/src/a".to_string()));
    let refused = Err("path must stay inside workspace root".to_string());
    assert_eq!(workspace.requested_path("../x"), refused);
    assert_eq!(workspace.requested_path("/etc"), refused);
    assert_eq!(
        workspace.accept_resolved(Ok("/etc/passwd".to_string())),
        Err("path escapes workspace root".to_string())
    );
    assert_eq!(workspace.accept_resolved(Ok("/w/a".to_string())), Ok("/w/a".to_string()));
    assert_eq!(workspace.accept_resolved(Err("gone".to_string())), Err("gone".to_string()));
    assert_eq!(workspace.display_path("/w/src/a"), "src/a");
    assert_eq!(workspace.display_path("/w"), ".");
    assert!(is_ignored("/w/.git"));
    assert!(is_ignored("/w/target/"));
    assert!(!is_ignored("/w/src"));
}

#[test]
fn searches_walk_in_order() {
    let mut walk = SearchWalk::new("/w", "/w", "needle");
    let first = walk.next_path().unwrap();
    assert_eq!(first, "/w");
    let names = ["b.txt", "a.txt", ".git", "target"].iter().map(|n| n.to_string()).collect();
    walk.on_found(&first, SearchFound::Directory(names));
    let next = walk.next_path().unwrap();
    assert_eq!(next, "/w/a.txt");
    walk.on_found(&next, SearchFound::File("x\n  a needle here\nneedle".to_string()));
    let next = walk.next_path().unwrap();
    assert_eq!(next, "/w/b.txt");
    walk.on_found(&next, SearchFound::Nothing);
    assert_eq!(walk.next_path(), None);
    assert_eq!(walk.matches, vec!["a.txt:2: a needle here", "a.txt:3: needle"]);
}

#[test]
fn searches_stop_at_their_limit() {
    let mut walk = SearchWalk::new("/w", "/w/a", "x");
    walk.pending.push("/w/b".to_string());
    let first = walk.next_path().unwrap();
    walk.on_found(&first, SearchFound::File("x\n".repeat(200)));
    assert_eq!(walk.matches.len(), MAX_SEARCH_MATCHES);
    assert_eq!(walk.next_path(), None);
}

#[test]
fn trees_are_shown_to_their_depth() {
    let mut walk = TreeWalk::new("/w", "/w", 1);
    let (path, depth) = walk.next_path().unwrap();
    assert_eq!((path.as_str(), depth), ("/w", 0));
    walk.on_found(
        &path,
        depth,
        TreeFound::Entry {
            kind: FileKind::Directory,
            names: vec!["src".to_string(), "Cargo.toml".to_string(), "node_modules".to_string()],
        },
    );
    let (path, depth) = walk.next_path().unwrap();
    assert_eq!((path.as_str(), depth), ("/w/Cargo.toml", 1));
    walk.on_found(&path, depth, TreeFound::Entry { kind: FileKind::File, names: vec![] });
    let (path, depth) = walk.next_path().unwrap();
    assert_eq!(path, "/w/src");
    walk.on_found(
        &path,
        depth,
        TreeFound::Entry { kind: FileKind::Directory, names: vec!["main.rs".to_string()] },
    );
    assert_eq!(walk.next_path(), None);
    assert_eq!(walk.entries, vec!["dir\t.", "file\tCargo.toml", "dir\tsrc"]);
}

#[test]
fn records_are_summarized() {
    let entries = vec![
        entry("task", "look  at\nthis"),
        entry("assistant", "junk"),
        entry("parser", "retried invalid decision JSON: x"),
        entry("assistant_retry", "{\"tool\":{\"name\":\"list_files\"}}"),
        entry("tool:list_files", "ok: no entries"),
        entry("assistant", "{\"final_answer\":\"all  done\"}"),
        entry("assistant", "not a decision"),
    ];
    assert_eq!(
        summarize_entries(&entries, true),
        "task: look at this\nentries: 7\nassistant turns: 4\nwarning: transcript JSON is incomplete; summarized complete entries only\n\nparser:\n- retried invalid decision JSON: x\n\ntools:\n1. list_files\n\nfinal: final_answer: all done"
    );
    assert_eq!(
        summarize_entries(&vec![], false),
        "task: unavailable\nentries: 0\nassistant turns: 0\n\nparser:\n- none\n\ntools:\n- none\n\nfinal: unavailable"
    );
}

#[test]
fn cut_off_records_keep_their_whole_entries() {
    let cut = r#"[{"role":"task","content":"a } {"},{"role":"x","content":{"y":1}}, {"role":"#;
    assert_eq!(
        salvage_complete_objects(cut),
        vec![r#"{"role":"task","content":"a } {"}"#, r#"{"role":"x","content":{"y":1}}"#]
    );
    assert!(salvage_complete_objects("}{").is_empty());
    let cut = |saved| {
        Ok(Some(FoundRecord {
            path: "/d/2.json".to_string(),
            whole: Err("eof".to_string()),
            saved,
        }))
    };
    let (path, shown) =
        read_latest_transcript_summary(cut(vec![entry("task", "a")])).unwrap().unwrap();
    assert_eq!(path, "/d/2.json");
    assert!(shown.contains("warning: transcript JSON is incomplete"));
    assert_eq!(
        read_latest_transcript_summary(cut(vec![])).unwrap_err(),
        "invalid agent transcript JSON: eof"
    );
}

#[test]
fn latest_summary_hands_on_what_was_found() {
    assert_eq!(read_latest_transcript_summary(Ok(None)), Ok(None));
    assert_eq!(
        read_latest_transcript_summary(Err("denied".to_string())),
        Err("denied".to_string())
    );
    let whole = FoundRecord {
        path: "/d/3.json".to_string(),
        whole: Ok(vec![entry("task", "look around")]),
        saved: vec![],
    };
    let (path, shown) = read_latest_transcript_summary(Ok(Some(whole))).unwrap().unwrap();
    assert_eq!(path, "/d/3.json");
    assert_eq!(shown, summarize_entries(&vec![entry("task", "look around")], false));
    assert!(shown.contains("look around"));
}

#[test]
fn listings_keep_the_first_readable_entries() {
    let mut found: Vec<Option<String>> = (0..250).map(|n| Some(format!("/w/{n}"))).collect();
    found[1] = None;
    let listed = listed_entries(&found);
    assert_eq!(listed.len(), 199);
    assert_eq!(listed[0], "/w/0");
    assert_eq!(listed[1], "/w/2");
    assert_eq!(listed[198], "/w/199");
    assert!(listed_entries(&vec![]).is_empty());
    assert_eq!(listed_entries(&vec![None, Some("/w/a".to_string())]), vec!["/w/a".to_string()]);
}

#[test]
fn searches_look_at_files_that_are_not_too_large() {
    assert_eq!(search_look(true, FileKind::Directory, 1_000_000), SearchLook::List);
    assert_eq!(search_look(true, FileKind::File, 65_536), SearchLook::Read);
    assert_eq!(search_look(true, FileKind::File, 65_537), SearchLook::Skip);
    assert_eq!(search_look(false, FileKind::File, 1), SearchLook::Skip);
    assert_eq!(search_look(false, FileKind::Directory, 1), SearchLook::Skip);
    assert_eq!(search_look(true, FileKind::Other, 1), SearchLook::Skip);
    assert_eq!(search_look(true, FileKind::Unknown, 0), SearchLook::Skip);
}

#[test]
fn latest_record_is_the_last_by_name() {
    let names: Vec<String> =
        ["2.json", "10.json", "3.txt", ".json"].iter().map(|n| n.to_string()).collect();
    assert_eq!(read_latest_transcript("/d", &names), Some("/d/2.json".to_string()));
    assert_eq!(read_latest_transcript("/d", &vec!["x".to_string()]), None);
    assert_eq!(transcript_dir("/w"), "/w/.deepseek-arkey/agent-transcripts");
    assert_eq!(transcript_name(12), "12.json");
    let long = vec![entry("task", &"a".repeat(12_001))];
    assert!(capped_entries(&long)[0].content.ends_with("\n[truncated]"));
}

#[test]
fn type_errors_are_worded_like_those_of_serde_json() {
    for raw in ["true", "7", "-3", "1.5", "1e300", "[]", "{}"] {
        let value: serde_json::Value = serde_json::from_str(raw).unwrap();
        let words = serde_json::from_value::<Option<String>>(value).unwrap_err().to_string();
        assert_eq!(
            parse_decision(&format!("{{\"thought\":{raw}}}")).unwrap_err(),
            format!("invalid agent JSON: {words}")
        );
    }
    for raw in ["null", "\"tab\\t\\u0001é\"", "{}", "0.25"] {
        let value: serde_json::Value = serde_json::from_str(raw).unwrap();
        let words =
            serde_json::from_value::<Vec<serde_json::Value>>(value).unwrap_err().to_string();
        assert_eq!(
            parse_decision(&format!("{{\"tools\":{raw}}}")).unwrap_err(),
            format!("invalid agent JSON: {words}")
        );
    }
}
