use deepseek_arkey::agent::types::{AgentStep, ApprovalDecision, ApprovalRequest};
use deepseek_arkey::cli::{
    parse_agent_transcript_command, run, AgentTranscriptCommand, Args, Command, InteractiveMode,
    RunPlan, SessionCommand,
};
use deepseek_arkey::input::approval::{ApprovalChoice, ApprovalScope};
use deepseek_arkey::intent::{
    classify_intent, classify_normalized, path_boundary_violation, recent_task_context,
    squeeze_prompt, Intent,
};
use deepseek_arkey::provider::{assistant_message, user_message, Message};
use deepseek_arkey::repl::chat::{ChatEffect, ChatState, LineContext};
use deepseek_arkey::repl::commands::{
    is_end_command, is_exit_command, parse_agent_task_command, parse_chat_command,
    parse_debug_command, parse_features_command, parse_model_command, parse_runtime_command,
    ChatCommand, CommandError, CommandParse, FeaturesCommand, RuntimeCommand,
};
use deepseek_arkey::repl::lines::{read_line, LineStep};
use deepseek_arkey::repl::memory::{cap_interactive_memory, prompt_messages};
use deepseek_arkey::repl::navigation::{parse_navigation_request_from, settle_navigation};
use deepseek_arkey::repl::routing::{
    agent_route_confirmation, is_agent_task_cancel_choice, is_agent_task_choice,
    is_cd_previous_request, is_workspace_agent_prompt, is_workspace_request,
    no_pending_agent_task_text, parse_shell_read_command, plan_docked_turn, shell_pwd_text,
    task_root_for_prompt, workspace_agent_root_for_prompt, ShellReadCommand, Surroundings, TurnPlan,
};
use deepseek_arkey::repl::status::{interactive_agent_status, interactive_chat_status};
use deepseek_arkey::repl::stream::{
    context_scan_status, rendered_markdown_effective_stream_delay, rendered_markdown_stream_chunks,
    rendered_markdown_stream_delay, terminal_stream_chunk_delay,
};
use deepseek_arkey::repl::turns::{
    approval_decision_for_choice, approval_grant, ApprovedSet, Drain, DrainOp,
    DrainOutcome, TurnEvent,
};
use deepseek_arkey::workspace::{
    accept_root, effective_workspace_root, infer_natural_root, parse_root_command,
    path_boundary_clarify_text, root_request, root_status,
};

fn place() -> Surroundings {
    Surroundings {
        home: Some("/home/me".to_string()),
        cwd: Some("/home/me".to_string()),
        cwd_is_home: true,
    }
}

fn context() -> LineContext {
    LineContext {
        place: place(),
        navigation: Ok(None),
        names_existing_file: false,
        agent_root_matches: false,
    }
}

fn chat(root: Option<&str>, legacy: bool) -> ChatState {
    ChatState::new(root.map(str::to_string), None, legacy)
}

fn printed(effects: &[ChatEffect]) -> String {
    effects
        .iter()
        .filter_map(|effect| match effect {
            ChatEffect::Print(text) => Some(text.as_str()),
            _ => None,
        })
        .collect()
}

fn spawned(effects: &[ChatEffect]) -> Option<&TurnPlan> {
    effects.iter().find_map(|effect| match effect {
        ChatEffect::Spawn(turn) => Some(turn),
        _ => None,
    })
}

fn request(root: &str, scope: ApprovalScope) -> ApprovalRequest {
    ApprovalRequest {
        step: 1,
        tool: "run_shell".to_string(),
        scope,
        root: root.to_string(),
        summary: "approval required: run_shell\n".to_string(),
    }
}

fn agent_turn(task: &str, root: &str) -> TurnPlan {
    TurnPlan::Agent { task: task.to_string(), root: root.to_string() }
}

#[test]
fn repl_recognizes_exit_commands() {
    for prompt in ["exit", "quit", "/exit", "/quit", "/exit quit", "/quit exit"] {
        assert!(is_exit_command(prompt));
    }
    assert!(!is_exit_command("/end"));
}

#[test]
fn repl_recognizes_end_commands() {
    for prompt in ["session end", "/end", "/end session"] {
        assert!(is_end_command(prompt));
    }
    assert!(!is_end_command("/exit"));
}

#[test]
fn commands_recognizes_exit_commands() {
    for prompt in ["exit", "quit", "/exit", "/quit", "/exit quit", "/quit exit"] {
        assert!(is_exit_command(prompt));
    }
    assert!(!is_exit_command("/end"));
}

#[test]
fn commands_recognizes_end_commands() {
    for prompt in ["session end", "/end", "/end session"] {
        assert!(is_end_command(prompt));
    }
    assert!(!is_end_command("/exit"));
}

#[test]
fn approval_for_session_records_tool_type() {
    let mut approved = ApprovedSet::new();
    let decision = approval_decision_for_choice(
        "run_shell",
        ApprovalChoice::ApproveForSession,
        &mut approved,
    );

    assert_eq!(decision, ApprovalDecision::ApproveForSession);
    assert!(approved.contains("run_shell"));
    assert!(!approved.contains("propose_patch"));
}

#[test]
fn approval_once_and_reject_do_not_record_session_tool() {
    let mut approved = ApprovedSet::new();

    assert_eq!(
        approval_decision_for_choice("run_shell", ApprovalChoice::ApproveOnce, &mut approved),
        ApprovalDecision::Approve
    );
    assert!(approved.is_empty());

    assert_eq!(
        approval_decision_for_choice("run_shell", ApprovalChoice::Reject, &mut approved),
        ApprovalDecision::Deny
    );
    assert!(approved.is_empty());
}

#[test]
fn natural_location_prompt_wins_over_selected_root() {
    let selected = "/tmp/selected-workspace";
    assert_eq!(
        task_root_for_prompt("go through downloads", Some(selected), &place()),
        Some("/home/me/Downloads".to_string())
    );
    assert_eq!(
        task_root_for_prompt("fix this repo", Some(selected), &place()),
        Some(selected.to_string())
    );
}

#[test]
fn selected_root_routes_workspace_prompts_to_agent() {
    let selected = "/tmp/selected-workspace";
    for prompt in [
        "analyze this repo structure",
        "tell me the main modules",
        "list files",
        "scan src",
        "read Cargo.toml",
        "what is this repo trying to do",
        "inspect shell denial gate",
        "inspect patch approval gate",
        "audit commit 3ca875a",
        "3ca875a — [repo] Close analysis followups < can you audit this commit",
    ] {
        assert_eq!(
            workspace_agent_root_for_prompt(prompt, Some(selected), &place()),
            Some(selected.to_string()),
            "{prompt}"
        );
    }
}

#[test]
fn smoke_fixture_phrases_do_not_route_as_production_tasks() {
    let selected = "/tmp/selected-workspace";
    for prompt in [
        "try a shell command",
        "deny shell command",
        "approve shell command",
        "deny patch edit",
        "approve patch edit",
    ] {
        assert_eq!(
            workspace_agent_root_for_prompt(prompt, Some(selected), &place()),
            None,
            "{prompt}"
        );
        assert!(!is_workspace_agent_prompt(prompt), "{prompt}");
    }
}

#[test]
fn selected_root_keeps_casual_followups_in_chat() {
    let selected = "/tmp/selected-workspace";
    for prompt in [
        "hi",
        "what is a repo",
        "does that make sense",
        "does that align with Kimi",
        "switch to main branch",
        "stay in touch",
    ] {
        assert_eq!(
            workspace_agent_root_for_prompt(prompt, Some(selected), &place()),
            None,
            "{prompt}"
        );
        assert!(!is_workspace_agent_prompt(prompt), "{prompt}");
    }
}

#[test]
fn rendered_markdown_stream_chunks_preserve_line_boundaries() {
    assert_eq!(
        rendered_markdown_stream_chunks("one\n\nthree\n"),
        vec!["one\n", "\n", "three\n"]
    );
    assert_eq!(rendered_markdown_stream_chunks("tail"), vec!["tail"]);
    assert!(rendered_markdown_stream_chunks("").is_empty());
}

#[test]
fn terminal_stream_chunk_delay_skips_blank_lines() {
    assert_eq!(terminal_stream_chunk_delay("answer\n", 12), 12);
    assert_eq!(terminal_stream_chunk_delay("\n", 12), 0);
}

#[test]
fn rendered_markdown_effective_stream_delay_keeps_small_outputs_at_default() {
    let chunks = rendered_markdown_stream_chunks("one\n\ntwo\nthree\n");
    assert_eq!(rendered_markdown_effective_stream_delay(&chunks, 12), 12);
}

#[test]
fn rendered_markdown_effective_stream_delay_caps_large_outputs() {
    let rendered = (0..301).map(|index| format!("line {index}\n")).collect::<String>();
    let chunks = rendered_markdown_stream_chunks(&rendered);
    assert_eq!(rendered_markdown_effective_stream_delay(&chunks, 12), 4);
}

#[test]
fn rendered_markdown_effective_stream_delay_can_disable_or_skip_sleep() {
    assert_eq!(
        rendered_markdown_effective_stream_delay(&rendered_markdown_stream_chunks("one\n"), 0),
        0
    );
    assert_eq!(
        rendered_markdown_effective_stream_delay(&rendered_markdown_stream_chunks("\n\n"), 12),
        0
    );
}

#[test]
fn agent_task_choice_accepts_natural_confirmation_words() {
    assert!(is_agent_task_choice("y"));
    assert!(is_agent_task_choice("yes"));
    assert!(is_agent_task_choice("yes agent"));
    assert!(is_agent_task_choice("agent task"));
    assert!(is_agent_task_choice("agent"));
    assert!(!is_agent_task_choice("n"));
    assert!(!is_agent_task_choice("/agent"));
    assert!(!is_agent_task_choice("agent task please"));
}

#[test]
fn agent_task_cancel_choice_accepts_short_negative_words() {
    assert!(is_agent_task_cancel_choice("n"));
    assert!(is_agent_task_cancel_choice("no"));
    assert!(!is_agent_task_cancel_choice("y"));
    assert!(!is_agent_task_cancel_choice("no thanks"));
}

#[test]
fn agent_route_confirmation_points_to_short_choices() {
    let response = agent_route_confirmation("/tmp/workspace");
    assert!(response.contains("Type y to continue"));
    assert!(response.contains("n to cancel"));
    assert!(!response.contains("yes agent"));
}

#[test]
fn parses_direct_agent_task_slash_command() {
    assert_eq!(parse_agent_task_command("/agent scan src"), Some("scan src".to_string()));
    assert_eq!(
        parse_agent_task_command("/agent   inspect README.md"),
        Some("inspect README.md".to_string())
    );
    assert_eq!(parse_agent_task_command("/agent"), None);
    assert_eq!(parse_agent_task_command("agent task"), None);
}

#[test]
fn parses_shell_like_read_commands() {
    assert!(matches!(parse_shell_read_command("pwd"), Some(ShellReadCommand::Pwd)));
    assert!(matches!(
        parse_shell_read_command("ls"),
        Some(ShellReadCommand::Ls(task)) if task == "list files"
    ));
    assert!(matches!(
        parse_shell_read_command("ls src"),
        Some(ShellReadCommand::Ls(task)) if task == "list files in src"
    ));
    assert!(parse_shell_read_command("lsdir").is_none());
    assert!(parse_shell_read_command("pwd src").is_none());
}

#[test]
fn shell_pwd_prints_current_root() {
    assert_eq!(shell_pwd_text(Some("/tmp/workspace")), "/tmp/workspace\n");
    assert_eq!(shell_pwd_text(None), "root: unset\n");
}

#[test]
fn no_pending_agent_task_text_points_to_root_or_direct_agent() {
    let response = no_pending_agent_task_text();
    assert!(response.contains("No pending agent task to confirm"));
    assert!(response.contains("/root <path>"));
    assert!(response.contains("/agent <task>"));
    assert!(response.contains("leading slash"));
}

#[test]
fn interactive_memory_is_capped_in_process() {
    let mut memory: Vec<Message> = Vec::new();
    for index in 0..25 {
        memory.push(user_message(&format!("u{index}")));
        memory.push(assistant_message(&format!("a{index}")));
    }
    cap_interactive_memory(&mut memory);
    assert_eq!(memory.len(), 40);
    assert_eq!(memory[0].content, "u5");
}

#[test]
fn context_scan_status_shows_elapsed_loading_seconds() {
    let status = context_scan_status(0, &vec![]);
    assert_eq!(status, "Loading 0s");
    assert!(!status.ends_with('\n'));
}

#[test]
fn context_scan_status_lists_tool_steps_transiently() {
    let status = context_scan_status(
        0,
        &vec![
            AgentStep { step: 1, item: None, total: 1, tool: "list_files".to_string() },
            AgentStep { step: 2, item: Some(1), total: 2, tool: "read_file".to_string() },
            AgentStep { step: 2, item: Some(2), total: 2, tool: "read_file".to_string() },
        ],
    );
    assert!(status.contains("Loading 0s"));
    assert!(status.contains("agent step 1: list_files"));
    assert!(status.contains("agent step 2.1: read_file"));
    assert!(status.contains("agent step 2.2: read_file"));
}

#[test]
fn parses_model_slash_command() {
    assert_eq!(parse_model_command("/model"), Some(None));
    assert_eq!(parse_model_command("/model   "), Some(None));
    assert_eq!(
        parse_model_command("/model deepseek-v4-pro"),
        Some(Some("deepseek-v4-pro".to_string()))
    );
    assert_eq!(parse_model_command("model deepseek-v4-flash"), None);
}

#[test]
fn parses_debug_slash_command() {
    assert_eq!(parse_debug_command("/debug"), Some(None));
    assert_eq!(parse_debug_command("/debug off"), Some(Some("off".to_string())));
    assert_eq!(parse_debug_command("/debug manual"), Some(Some("manual".to_string())));
    assert_eq!(parse_debug_command("debug"), None);
}

#[test]
fn parses_runtime_legacy_routing_command() {
    assert_eq!(parse_runtime_command("/runtime"), Ok(Some(RuntimeCommand::Status)));
    assert_eq!(
        parse_runtime_command("/runtime legacy-routing on"),
        Ok(Some(RuntimeCommand::LegacyRouting(true)))
    );
    assert_eq!(
        parse_runtime_command("/runtime legacy-routing off"),
        Ok(Some(RuntimeCommand::LegacyRouting(false)))
    );
    assert!(parse_runtime_command("/runtime unknown").is_err());
    assert!(parse_runtime_command("/runtime ").is_err());
    assert!(parse_runtime_command("/runtime legacy-routing").is_err());
    assert_eq!(parse_runtime_command("runtime"), Ok(None));
}

#[test]
fn parses_invalid_runtime_as_chat_command_error() {
    assert_eq!(
        parse_chat_command("/runtime unknown"),
        CommandParse::Invalid(CommandError::UnknownRuntimeCommand)
    );
}

#[test]
fn parses_direct_agent_task_as_valid_chat_command() {
    assert_eq!(
        parse_chat_command("/agent fix the bug"),
        CommandParse::Valid(ChatCommand::DirectAgentTask("fix the bug".to_string()))
    );
}

#[test]
fn parses_features_slash_command() {
    assert_eq!(
        parse_chat_command("/features"),
        CommandParse::Valid(ChatCommand::Features(FeaturesCommand::Show))
    );
    assert_eq!(
        parse_chat_command("/features toggle"),
        CommandParse::Valid(ChatCommand::Features(FeaturesCommand::Toggle))
    );
    assert_eq!(
        parse_features_command("/features unknown"),
        Err(CommandError::UnknownFeaturesCommand)
    );
}

#[test]
fn recognizes_agent_transcript_command() {
    assert_eq!(
        parse_agent_transcript_command(&vec!["transcript".to_string(), "latest".to_string()]),
        Some(AgentTranscriptCommand::LatestRaw)
    );
    assert_eq!(
        parse_agent_transcript_command(&vec![
            "transcript".to_string(),
            "latest".to_string(),
            "--summary".to_string()
        ]),
        Some(AgentTranscriptCommand::LatestSummary)
    );
    assert_eq!(parse_agent_transcript_command(&vec!["inspect".to_string()]), None);
}

#[test]
fn parses_root_slash_command() {
    assert_eq!(parse_root_command("/root"), Some(None));
    assert_eq!(parse_root_command("/root   .  "), Some(Some(".".to_string())));
    assert_eq!(parse_root_command("/root clear"), Some(Some("clear".to_string())));
    assert_eq!(parse_root_command("root ."), None);
}

#[test]
fn root_status_reports_source() {
    let root = "/tmp/workspace";
    assert!(root_status(Some(root), true).contains("root-source: explicit"));
    assert!(root_status(Some(root), false).contains("root-source: cwd"));
    assert!(root_status(None, false).contains("root: unset"));
}

#[test]
fn infers_natural_roots_from_prompt() {
    let home = Some("/home/me");
    assert_eq!(
        infer_natural_root("read my files on my desktop", home),
        Some("/home/me/Desktop".to_string())
    );
    assert_eq!(
        infer_natural_root("scan my downloads", home),
        Some("/home/me/Downloads".to_string())
    );
    assert_eq!(
        infer_natural_root("inspect documents", home),
        Some("/home/me/Documents".to_string())
    );
    assert_eq!(
        infer_natural_root("Inspect DOCUMENTS", home),
        Some("/home/me/Documents".to_string())
    );
    assert_eq!(infer_natural_root("fix main.rs", home), None);
    assert_eq!(infer_natural_root("scan my downloads", None), None);
}

#[test]
fn env_folder_is_a_natural_root() {
    let home = Some("/home/me");
    let env = Some("/home/me/env".to_string());
    assert_eq!(
        infer_natural_root("go to my env folder and tell me what you find there", home),
        env
    );
    assert_eq!(infer_natural_root("scan the env directory", home), env);
    assert_eq!(infer_natural_root("list files in my env", home), env);
    assert_eq!(infer_natural_root("describe my environment", home), None);
}

#[test]
fn outside_root_clarify_suggests_parent_root() {
    let text = path_boundary_clarify_text("/tmp/workspace", "/Users/example/.ssh/config");
    assert!(text.contains("Suggested root: /Users/example/.ssh"));
    assert!(text.contains("Type /root /Users/example/.ssh"));
}

#[test]
fn detects_path_references_outside_root() {
    let root = "/tmp/workspace";
    assert_eq!(path_boundary_violation("fix README.md", root), None);
    assert_eq!(path_boundary_violation("fix src/main.rs.", root), None);
    assert!(path_boundary_violation("fix ../outside.md", root).is_some());
    assert!(path_boundary_violation("audit /Users/example/.ssh/config", root).is_some());
}

#[test]
fn classifies_open_questions_as_chat() {
    let root = Some("/tmp/workspace");
    assert_eq!(
        classify_intent("what do you think about this design?", false, root, false),
        Intent::Chat
    );
    assert_eq!(classify_intent("how do I fix this?", false, root, false), Intent::Chat);
    assert_eq!(classify_intent("explain this codebase", false, root, false), Intent::Chat);
}

#[test]
fn classifies_imperatives_as_tasks_inside_workspace() {
    let root = Some("/tmp/workspace");
    assert_eq!(
        classify_intent("fix the duplicate helper in both repos and run tests", false, root, false),
        Intent::Task
    );
    assert_eq!(classify_intent("fix it", false, root, false), Intent::Task);
    assert_eq!(classify_intent("implement a logout button", false, root, false), Intent::Task);
}

#[test]
fn classifies_ambiguous_or_home_tasks_as_clarify() {
    assert_eq!(
        classify_intent("can you look at this?", false, Some("/tmp/workspace"), false),
        Intent::Clarify
    );
    assert_eq!(
        classify_intent("fix the README in this directory", false, None, false),
        Intent::Clarify
    );
}

#[test]
fn normal_form_drops_case_and_punctuation() {
    assert_eq!(squeeze_prompt("fix  it, now!"), "fix it now");
    assert_eq!(
        classify_normalized("fix it now", "Fix it, NOW!", false, true, false),
        classify_intent("Fix it, NOW!", false, Some("/w"), false)
    );
    assert!(is_workspace_request("scan src"));
    assert!(is_workspace_agent_prompt("SCAN src!"));
}

#[test]
fn waiting_tasks_count_as_context() {
    assert!(recent_task_context(&vec!["hello".to_string(), "fix it".to_string()]));
    assert!(!recent_task_context(&vec!["hello".to_string()]));
}

#[test]
fn roots_are_chosen_and_checked() {
    assert_eq!(effective_workspace_root(Some("/a"), Some("/b"), false), Some("/a".to_string()));
    assert_eq!(effective_workspace_root(None, Some("/b"), false), Some("/b".to_string()));
    assert_eq!(effective_workspace_root(None, Some("/b"), true), None);
    assert_eq!(root_request("clear", "/a"), None);
    assert_eq!(root_request("sub", "/a"), Some("/a/sub".to_string()));
    assert_eq!(accept_root("/a", Ok("/a".to_string()), true), Ok("/a".to_string()));
    assert_eq!(
        accept_root("/a", Ok("/a".to_string()), false),
        Err("/a is not a directory".to_string())
    );
    assert_eq!(accept_root("/a", Err("gone".to_string()), false), Err("/a: gone".to_string()));
}

#[test]
fn previous_root_is_asked_for_in_words() {
    assert!(is_cd_previous_request(" CD back "));
    assert!(is_cd_previous_request("cd -"));
    assert!(!is_cd_previous_request("cd"));
}

#[test]
fn moving_phrases_name_a_place() {
    let home = Some("/home/me");
    let request = parse_navigation_request_from("go to my env folder", None, home).unwrap();
    assert!(!request.explicit);
    assert_eq!(request.candidates, vec!["/home/me/env".to_string()]);
    let request = parse_navigation_request_from("navigate into my env folder", None, home).unwrap();
    assert_eq!(request.candidates, vec!["/home/me/env".to_string()]);
    let request = parse_navigation_request_from("cd into v1_DNU", Some("/home/me/env"), home)
        .unwrap();
    assert!(request.explicit);
    assert_eq!(request.candidates[0], "/home/me/env/v1_DNU");
    let request = parse_navigation_request_from("enter the deepseek repo", None, home).unwrap();
    assert_eq!(request.candidates, vec!["/home/me/deepseek".to_string()]);
    let request = parse_navigation_request_from("open the minimax repo", None, home).unwrap();
    assert_eq!(request.candidates, vec!["/home/me/minimax".to_string()]);
    let request = parse_navigation_request_from("go inside ~/env/deepseek", Some("/x"), home)
        .unwrap();
    assert!(request.explicit);
    assert_eq!(request.candidates, vec!["/home/me/env/deepseek".to_string()]);
}

#[test]
fn task_phrases_do_not_move_the_root() {
    let home = Some("/home/me");
    for prompt in [
        "go through downloads",
        "switch to main branch",
        "stay in touch",
        "open a ticket",
        "go to my env folder and tell me what you find there",
    ] {
        assert!(parse_navigation_request_from(prompt, None, home).is_none(), "{prompt}");
    }
}

#[test]
fn only_a_found_directory_becomes_the_root() {
    let missing: Result<String, String> = Err("/a: gone".to_string());
    let found: Result<String, String> = Ok("/b".to_string());
    assert_eq!(settle_navigation(true, &vec![missing.clone(), found]), Ok(Some("/b".to_string())));
    assert_eq!(settle_navigation(true, &vec![missing.clone()]), Err("/a: gone".to_string()));
    assert_eq!(settle_navigation(false, &vec![missing]), Ok(None));
    assert_eq!(
        settle_navigation(true, &vec![]),
        Err("no directory to start from".to_string())
    );
}

#[test]
fn turns_go_to_the_agent_only_inside_the_root() {
    assert_eq!(
        plan_docked_turn("/agent scan src".to_string(), Some("/w"), &place(), true),
        agent_turn("scan src", "/w")
    );
    assert_eq!(
        plan_docked_turn("scan ../other".to_string(), Some("/w"), &place(), false),
        TurnPlan::Chat { prompt: "scan ../other".to_string() }
    );
    assert_eq!(
        plan_docked_turn("scan src".to_string(), Some("/w"), &place(), false),
        agent_turn("scan src", "/w")
    );
    assert_eq!(
        plan_docked_turn("scan src".to_string(), Some("/w"), &place(), true),
        TurnPlan::Chat { prompt: "scan src".to_string() }
    );
}

#[test]
fn lines_are_read_in_either_mode() {
    assert_eq!(read_line(InteractiveMode::Chat, "  "), LineStep::Skip);
    assert_eq!(read_line(InteractiveMode::Chat, "/exit"), LineStep::Leave);
    assert_eq!(read_line(InteractiveMode::Chat, "/agent"), LineStep::SwitchToAgent);
    assert_eq!(
        read_line(InteractiveMode::Agent, "/agent"),
        LineStep::Say("mode: agent".to_string())
    );
    assert_eq!(read_line(InteractiveMode::Agent, "/chat"), LineStep::SwitchToChat);
    assert_eq!(
        read_line(InteractiveMode::Agent, "/root x"),
        LineStep::Complain("/root is only available in chat mode".to_string())
    );
    assert_eq!(
        read_line(InteractiveMode::Agent, "/agent x"),
        LineStep::Complain("already in agent mode; enter the task without /agent".to_string())
    );
    assert_eq!(
        read_line(InteractiveMode::Chat, "/agent x"),
        LineStep::AgentTask("x".to_string())
    );
    assert_eq!(read_line(InteractiveMode::Chat, " hi "), LineStep::Answer("hi".to_string()));
    assert_eq!(
        read_line(InteractiveMode::Chat, "/features nope"),
        LineStep::Complain(
            "unknown features command; use /features or /features toggle".to_string()
        )
    );
}

#[test]
fn prompts_carry_memory_and_context() {
    let memory = vec![user_message("a"), assistant_message("b")];
    let all = prompt_messages(&memory, Some(user_message("context")), "now");
    let contents: Vec<&str> = all.iter().map(|m| m.content.as_str()).collect();
    assert_eq!(contents, vec!["a", "b", "context", "now"]);
}

#[test]
fn stream_pause_can_be_set() {
    assert_eq!(rendered_markdown_stream_delay(None), 12);
    assert_eq!(rendered_markdown_stream_delay(Some("30")), 30);
    assert_eq!(rendered_markdown_stream_delay(Some("soon")), 12);
}

#[test]
fn pieces_of_an_answer_add_up_to_it() {
    let text = "a\n\nb\nlast";
    assert_eq!(rendered_markdown_stream_chunks(text).concat(), text);
}

#[test]
fn grants_keep_roots_and_scopes_apart() {
    let mut approved = ApprovedSet::new();
    approved.insert(&approval_grant("/w", ApprovalScope::Shell));
    assert!(approved.contains(&approval_grant("/w", ApprovalScope::Shell)));
    assert!(!approved.contains(&approval_grant("/w", ApprovalScope::Write)));
    assert!(!approved.contains(&approval_grant("/v", ApprovalScope::Shell)));
    approved.insert(&approval_grant("/w", ApprovalScope::Shell));
    assert_eq!(approved.keys.len(), 1);
}

#[test]
fn chat_status_says_where_agents_are_allowed() {
    assert_eq!(
        interactive_chat_status("head\n", Some("/w"), true, Some("/w/app"), 2),
        format!(
            "head\nmode: chat\nchat-memory: process\nchat-turns: 2\n{}agent-session: allowed\nagent-root: /w/app\n",
            root_status(Some("/w"), true)
        )
    );
    assert_eq!(
        interactive_chat_status("", None, false, None, 0),
        format!(
            "mode: chat\nchat-memory: process\nchat-turns: 0\n{}agent-session: confirm-required\n",
            root_status(None, false)
        )
    );
    assert_eq!(interactive_agent_status("head\n", "/w"), "head\nmode: agent\nroot: /w\n");
}

#[test]
fn reports_are_shown_in_order() {
    let mut drain = Drain::new();
    let mut steps = Vec::new();
    let (ops, outcome) = drain.take(TurnEvent::Delta("he".to_string()), &mut steps, Some(1));
    assert!(ops.is_empty());
    assert!(matches!(outcome, DrainOutcome::More));
    drain.take(TurnEvent::Delta("llo".to_string()), &mut steps, Some(1));
    let step = AgentStep { step: 1, item: None, total: 1, tool: "list_files".to_string() };
    let (ops, _) = drain.take(TurnEvent::ToolStep(step), &mut steps, Some(3));
    assert_eq!(
        ops,
        vec![
            DrainOp::Stream("hello".to_string()),
            DrainOp::Progress("Loading 3s\n\nagent step 1: list_files".to_string()),
        ]
    );
    assert_eq!(steps.len(), 1);
    let (ops, outcome) = drain.take(TurnEvent::Disconnected, &mut steps, None);
    assert!(ops.is_empty());
    assert!(matches!(
        outcome,
        DrainOutcome::Complete(Err(error)) if error == "response worker disconnected"
    ));
    assert!(drain.streamed);
}

#[test]
fn prompts_wait_while_a_turn_runs() {
    let mut state = chat(Some("/w"), false);
    let effects = state.on_submit("hello", &context());
    assert_eq!(spawned(&effects), Some(&TurnPlan::Chat { prompt: "hello".to_string() }));
    assert!(state.in_flight);
    assert_eq!(printed(&state.on_submit("scan src", &context())), "queued: 1 prompt(s)\n");
    assert_eq!(printed(&state.on_submit("more", &context())), "queued: 2 prompt(s)\n");
    let done = DrainOutcome::Complete(Ok(("hello".to_string(), "hi".to_string())));
    let effects = state.on_reported(done, true, &place());
    assert_eq!(effects[0], ChatEffect::FinishStream);
    assert_eq!(spawned(&effects), Some(&agent_turn("scan src", "/w")));
    assert_eq!(state.queued, vec!["more".to_string()]);
    assert_eq!(state.memory.len(), 2);
    let effects = state.on_cancel();
    assert!(effects.contains(&ChatEffect::CancelTurn));
    assert_eq!(printed(&effects), "cancelled current response\n");
    assert!(state.queued.is_empty());
    assert!(!state.in_flight);
}

#[test]
fn paths_outside_the_root_ask_instead() {
    let mut state = chat(Some("/w"), false);
    let effects = state.on_submit("scan ../other", &context());
    assert!(spawned(&effects).is_none());
    assert!(printed(&effects).contains("Referenced path is outside"));
    let effects = state.on_submit("/agent fix /etc/hosts", &context());
    assert!(spawned(&effects).is_none());
    assert!(printed(&effects).contains("Referenced path is outside"));
}

#[test]
fn tasks_are_confirmed_where_routing_asks_for_it() {
    let mut state = chat(Some("/w"), true);
    let effects = state.on_submit("fix it", &context());
    assert!(printed(&effects).contains("route: agent task\nroot: /w\n"));
    let effects = state.on_submit("y", &context());
    assert_eq!(effects[0], ChatEffect::ApproveAgentRoot("/w".to_string()));
    assert_eq!(spawned(&effects), Some(&agent_turn("fix it", "/w")));
    let mut state = chat(Some("/w"), true);
    state.on_submit("fix it", &context());
    assert_eq!(
        printed(&state.on_submit("no", &context())),
        "agent task cancelled\nmode: chat\n"
    );
    assert!(printed(&state.on_submit("yes", &context())).contains("No pending agent task"));
}

#[test]
fn approved_agent_root_needs_no_second_word() {
    let mut state = ChatState::new(None, Some("/w".to_string()), true);
    let mut known = context();
    known.agent_root_matches = true;
    let effects = state.on_submit("fix it", &known);
    assert_eq!(spawned(&effects), Some(&agent_turn("fix it", "/w")));
}

#[test]
fn unclear_tasks_are_asked_about() {
    let mut state = chat(None, true);
    let effects = state.on_submit("fix the README in this directory", &context());
    assert!(printed(&effects).contains("route: unclear"));
    assert!(spawned(&effects).is_none());
}

#[test]
fn moving_clears_the_approved_agent_root() {
    let mut state = ChatState::new(Some("/w".to_string()), Some("/w".to_string()), false);
    let mut moving = context();
    moving.navigation = Ok(Some("/v".to_string()));
    let effects = state.on_submit("cd into v", &moving);
    assert_eq!(
        effects,
        vec![
            ChatEffect::ClearAgentRoot,
            ChatEffect::SaveRoot(Some("/v".to_string())),
            ChatEffect::Print("root: /v\nroot-source: explicit\n".to_string()),
        ]
    );
    assert_eq!(state.selected_root, Some("/v".to_string()));
    assert_eq!(state.previous_root, Some("/w".to_string()));
    assert_eq!(state.approved_agent_root, None);
    state.on_submit("cd -", &context());
    assert_eq!(state.selected_root, Some("/w".to_string()));
    state.on_submit("cd back", &context());
    assert_eq!(state.selected_root, Some("/v".to_string()));
    let mut failing = context();
    failing.navigation = Err("/x: gone".to_string());
    assert_eq!(printed(&state.on_submit("cd x", &failing)), "root error: /x: gone\n");
}

#[test]
fn going_back_needs_a_root_to_go_to() {
    let mut state = chat(None, false);
    assert_eq!(printed(&state.on_submit("cd -", &context())), "root error: no previous root\n");
}

#[test]
fn root_commands_are_resolved_and_applied() {
    let mut state = chat(Some("/w"), false);
    assert_eq!(
        state.on_submit("/root sub", &context()),
        vec![ChatEffect::ResolveRoot("sub".to_string())]
    );
    let effects = state.on_root_resolved(Ok(None), &place());
    assert!(printed(&effects).contains("root: unset"));
    assert_eq!(state.selected_root, None);
    assert_eq!(state.previous_root, Some("/w".to_string()));
    let effects = state.on_root_resolved(Err("bad".to_string()), &place());
    assert_eq!(printed(&effects), "root error: bad\n");
    assert!(printed(&state.on_submit("/root", &context())).contains("root: unset"));
}

#[test]
fn requests_for_approval_open_a_dialog_once_per_root_and_scope() {
    let mut state = chat(Some("/w"), false);
    state.on_submit("scan src", &context());
    let shell = request("/w", ApprovalScope::Shell);
    let effects = state.on_reported(DrainOutcome::Approval(shell), false, &place());
    assert!(matches!(effects[0], ChatEffect::ShowApproval { .. }));
    assert!(state.on_submit("hello", &context()).is_empty());
    let effects = state.on_choice(ApprovalChoice::ApproveForSession);
    assert_eq!(
        effects,
        vec![
            ChatEffect::ClearApproval,
            ChatEffect::Reply(ApprovalDecision::ApproveForSession),
            ChatEffect::Print("approval: approved shell for root\n".to_string()),
            ChatEffect::StartScan,
        ]
    );
    let shell = request("/w", ApprovalScope::Shell);
    let effects = state.on_reported(DrainOutcome::Approval(shell), false, &place());
    assert!(effects.contains(&ChatEffect::Reply(ApprovalDecision::Approve)));
    let write = request("/w", ApprovalScope::Write);
    let effects = state.on_reported(DrainOutcome::Approval(write), false, &place());
    assert!(matches!(effects[0], ChatEffect::ShowApproval { .. }));
    let effects = state.on_choice(ApprovalChoice::Reject);
    assert!(effects.contains(&ChatEffect::Reply(ApprovalDecision::Deny)));
    assert_eq!(printed(&effects), "approval: denied run_shell\n");
    let elsewhere = request("/v", ApprovalScope::Shell);
    let effects = state.on_reported(DrainOutcome::Approval(elsewhere), false, &place());
    assert!(matches!(effects[0], ChatEffect::ShowApproval { .. }));
}

#[test]
fn choice_without_a_request_only_closes_the_dialog() {
    let mut state = chat(None, false);
    assert_eq!(state.on_choice(ApprovalChoice::ApproveOnce), vec![ChatEffect::ClearApproval]);
}

#[test]
fn failed_turns_leave_no_memory() {
    let mut state = chat(Some("/w"), false);
    state.on_submit("hello", &context());
    let failed = DrainOutcome::Complete(Err("no network".to_string()));
    let effects = state.on_reported(failed, false, &place());
    assert_eq!(printed(&effects), "error: no network\n");
    assert!(state.memory.is_empty());
    assert!(!state.in_flight);
}

#[test]
fn commands_of_the_docked_chat() {
    let mut state = chat(Some("/w"), false);
    assert_eq!(state.on_submit("?", &context()), vec![ChatEffect::ShowHelp]);
    assert_eq!(state.on_submit("/status", &context()), vec![ChatEffect::ShowStatus]);
    assert_eq!(state.on_submit("/model", &context()), vec![ChatEffect::ShowModels]);
    assert_eq!(
        state.on_submit("/model m", &context()),
        vec![ChatEffect::SetModel("m".to_string())]
    );
    assert_eq!(
        state.on_submit("/runtime legacy-routing on", &context()),
        vec![ChatEffect::Runtime(RuntimeCommand::LegacyRouting(true))]
    );
    assert_eq!(
        printed(&state.on_submit("/runtime x", &context())),
        "error: unknown runtime command; use /runtime or /runtime legacy-routing <on|off>\n"
    );
    assert_eq!(state.on_submit("pwd", &context()), vec![ChatEffect::Print("/w\n".to_string())]);
    assert_eq!(
        spawned(&state.on_submit("ls src", &context())),
        Some(&agent_turn("list files in src", "/w"))
    );
    let effects = state.on_submit("/end", &context());
    assert_eq!(effects[0], ChatEffect::DeleteSession);
    assert_eq!(effects[2], ChatEffect::Leave);
    let effects = state.on_submit("/agent", &context());
    assert_eq!(effects[1], ChatEffect::SwitchToAgent);
}

fn args() -> Args {
    Args {
        command: None,
        prompt: None,
        no_session: false,
        model: None,
        temperature: None,
        stream: false,
        chat: false,
        agent_mode: false,
    }
}

#[test]
fn calls_are_planned() {
    let both = Args { chat: true, agent_mode: true, ..args() };
    assert_eq!(run(both).unwrap_err(), "choose only one of --chat or --agent");
    match run(args()).unwrap() {
        RunPlan::Interactive { mode, model, .. } => {
            assert_eq!(mode, InteractiveMode::Chat);
            assert_eq!(model, "deepseek-v4-flash");
        }
        other => panic!("expected a conversation, got {other:?}"),
    }
    let one = Args { prompt: Some("hi".to_string()), model: Some("m".to_string()), ..args() };
    match run(one).unwrap() {
        RunPlan::Prompt { prompt, model, .. } => {
            assert_eq!(prompt, "hi");
            assert_eq!(model, "m");
        }
        other => panic!("expected a prompt, got {other:?}"),
    }
    let task = Args {
        command: Some(Command::Agent {
            task: vec!["analyze".to_string(), "this".to_string()],
            root: ".".to_string(),
            max_steps: 8,
            final_only: true,
        }),
        ..args()
    };
    match run(task).unwrap() {
        RunPlan::Agent { task, max_steps, final_only, .. } => {
            assert_eq!(task, "analyze this");
            assert_eq!(max_steps, 8);
            assert!(final_only);
        }
        other => panic!("expected an agent run, got {other:?}"),
    }
    let start = Args {
        command: Some(Command::Session { command: SessionCommand::Start { name: None } }),
        ..args()
    };
    match run(start).unwrap() {
        RunPlan::StartSession { name, .. } => assert_eq!(name, "default"),
        other => panic!("expected a session, got {other:?}"),
    }
}
