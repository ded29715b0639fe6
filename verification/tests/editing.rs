use deepseek_arkey::input::ansi::visible_suffix;
use deepseek_arkey::input::approval::{
    approval_panel_rows, ApprovalChoice, ApprovalKeyAction, ApprovalModal, ApprovalScope,
};
use deepseek_arkey::input::composer::DockedComposer;
use deepseek_arkey::input::edit::{
    buffer_prefix, byte_index, insert_at, insert_str_at, next_word_cursor, previous_word_cursor,
    remove_at, remove_before, remove_previous_word,
};
use deepseek_arkey::input::inline::{piped_action, InlineInput};
use deepseek_arkey::input::layout::{output_row, parse_forced_terminal_size, terminal_size};
use deepseek_arkey::input::render::{
    compose_rendered_dock_rows, progress_panel_rows, prompt_echo_block_lines,
    submitted_prompt_echo_with_options,
};
use deepseek_arkey::input::slash::{
    next_slash_completion, slash_command_matches, slash_completion_panel_rows,
};
use deepseek_arkey::input::types::{
    is_key_press_or_repeat, InputAction, InputEvent, KeyCode, KeyEvent, KeyEventKind, KeyModifiers,
    TermOp, DOCK_RESERVED_ROWS,
};
use deepseek_arkey::input::visible::{compose_dock_rows, truncate_display_text, visible_len};

fn strip_ansi(text: &str) -> String {
    let mut output = String::new();
    let mut chars = text.chars().peekable();
    while let Some(ch) = chars.next() {
        if ch == '\x1b' && chars.peek() == Some(&'[') {
            chars.next();
            for next in chars.by_ref() {
                if ('@'..='~').contains(&next) {
                    break;
                }
            }
            continue;
        }
        output.push(ch);
    }
    output
}

fn plain(rows: &[String]) -> Vec<String> {
    rows.iter().map(|row| strip_ansi(row)).collect()
}

fn key(code: KeyCode) -> KeyEvent {
    KeyEvent { code, modifiers: KeyModifiers::none(), kind: KeyEventKind::Press }
}

fn ctrl(ch: char) -> KeyEvent {
    KeyEvent {
        code: KeyCode::Char(ch),
        modifiers: KeyModifiers { control: true, alt: false, shift: false },
        kind: KeyEventKind::Press,
    }
}

fn with_kind(kind: KeyEventKind) -> KeyEvent {
    KeyEvent { code: KeyCode::Char('h'), modifiers: KeyModifiers::none(), kind }
}

fn type_text(composer: &mut DockedComposer, text: &str) {
    for ch in text.chars() {
        composer.poll_action(Some(InputEvent::Key(key(KeyCode::Char(ch)))));
    }
}

fn submit(composer: &mut DockedComposer) -> Option<InputAction> {
    composer.poll_action(Some(InputEvent::Key(key(KeyCode::Enter)))).1
}

#[test]
fn key_event_filter_ignores_release_events() {
    assert!(is_key_press_or_repeat(with_kind(KeyEventKind::Press)));
    assert!(is_key_press_or_repeat(with_kind(KeyEventKind::Repeat)));
    assert!(!is_key_press_or_repeat(with_kind(KeyEventKind::Release)));
}

#[test]
fn approval_modal_key_actions_map_shortcuts() {
    let modal =
        ApprovalModal::scoped("run_shell".to_string(), ApprovalScope::Shell, String::new());

    assert_eq!(
        modal.key_action(key(KeyCode::Char('1'))),
        ApprovalKeyAction::Choose(ApprovalChoice::ApproveOnce)
    );
    assert_eq!(
        modal.key_action(key(KeyCode::Char('2'))),
        ApprovalKeyAction::Choose(ApprovalChoice::ApproveForSession)
    );
    assert_eq!(
        modal.key_action(key(KeyCode::Char('3'))),
        ApprovalKeyAction::Choose(ApprovalChoice::Reject)
    );
    assert_eq!(
        modal.key_action(key(KeyCode::Char('n'))),
        ApprovalKeyAction::Choose(ApprovalChoice::Reject)
    );
    assert_eq!(
        modal.key_action(key(KeyCode::Char('N'))),
        ApprovalKeyAction::Choose(ApprovalChoice::Reject)
    );
    assert_eq!(
        modal.key_action(key(KeyCode::Esc)),
        ApprovalKeyAction::Choose(ApprovalChoice::Reject)
    );
    assert_eq!(modal.key_action(ctrl('c')), ApprovalKeyAction::Choose(ApprovalChoice::Reject));
    assert_eq!(modal.key_action(ctrl('d')), ApprovalKeyAction::Choose(ApprovalChoice::Reject));
}

#[test]
fn approval_modal_key_actions_move_and_choose_selection() {
    let mut modal =
        ApprovalModal::scoped("propose_patch".to_string(), ApprovalScope::Write, String::new());

    assert_eq!(modal.key_action(key(KeyCode::Down)), ApprovalKeyAction::MoveSelection(1));
    assert_eq!(modal.key_action(key(KeyCode::Up)), ApprovalKeyAction::MoveSelection(-1));

    modal.move_selection(1);
    assert_eq!(
        modal.key_action(key(KeyCode::Enter)),
        ApprovalKeyAction::Choose(ApprovalChoice::ApproveForSession)
    );
}

#[test]
fn approval_modal_key_actions_ignore_or_pass_through() {
    let modal =
        ApprovalModal::scoped("run_shell".to_string(), ApprovalScope::Shell, String::new());

    assert_eq!(modal.key_action(key(KeyCode::PageUp)), ApprovalKeyAction::PassThrough);
    assert_eq!(modal.key_action(key(KeyCode::PageDown)), ApprovalKeyAction::PassThrough);
    assert_eq!(modal.key_action(key(KeyCode::Char('x'))), ApprovalKeyAction::Ignore);
}

#[test]
fn edits_at_cursor() {
    let mut text = "hi".to_string();
    let mut cursor = 1;
    insert_at(&mut text, &mut cursor, 'e');
    assert_eq!(text, "hei");
    assert_eq!(cursor, 2);
    assert_eq!(remove_before(&mut text, &mut cursor), Some('e'));
    assert_eq!(text, "hi");
    assert_eq!(cursor, 1);
    assert_eq!(remove_at(&mut text, cursor), Some('i'));
    assert_eq!(text, "h");
}

#[test]
fn visible_len_ignores_ansi() {
    assert_eq!(visible_len("\x1b[36mdeepseek\x1b[0m › "), 11);
}

#[test]
fn dock_display_uses_visible_suffix_for_long_lines() {
    assert_eq!(visible_suffix("abcdef", 4), "cdef");
    assert_eq!(visible_suffix("ab界", 3), "b界");
    assert_eq!(buffer_prefix("hello", 3), "hel");
}

#[test]
fn dock_display_keeps_ansi_sequences_intact_at_narrow_widths() {
    let text =
        "\x1b[36;1mdeepseek\x1b[0m \x1b[38;2;122;162;247m[deepseek-v4-flash]\x1b[0m › draft";
    let suffix = visible_suffix(text, 10);

    assert_eq!(suffix, "\x1b[38;2;122;162;247mh]\x1b[0m › draft");
    assert_eq!(visible_len(&suffix), 10);
}

#[test]
fn dock_display_preserves_active_ansi_style_inside_suffix() {
    let suffix = visible_suffix("\x1b[31mabcdef\x1b[0m", 4);

    assert_eq!(suffix, "\x1b[31mcdef\x1b[0m");
    assert_eq!(visible_len(&suffix), 4);
}

#[test]
fn dock_display_does_not_treat_rgb_zero_as_ansi_reset() {
    let suffix = visible_suffix("\x1b[38;2;0;162;0mabcdef\x1b[0m", 4);

    assert_eq!(suffix, "\x1b[38;2;0;162;0mcdef\x1b[0m");
    assert_eq!(visible_len(&suffix), 4);
}

#[test]
fn word_motion_skips_whitespace_and_words() {
    let text = "one  two\nthree";

    assert_eq!(previous_word_cursor(text, 8), 5);
    assert_eq!(previous_word_cursor(text, 5), 0);
    assert_eq!(next_word_cursor(text, 0), 5);
    assert_eq!(next_word_cursor(text, 5), 9);
}

#[test]
fn deletes_previous_word() {
    let mut text = "one  two\nthree".to_string();
    let mut cursor = 8;

    assert!(remove_previous_word(&mut text, &mut cursor));
    assert_eq!(text, "one  \nthree");
    assert_eq!(cursor, 5);
}

#[test]
fn dock_composer_wraps_multiline_buffer_and_tracks_cursor() {
    let rows = compose_dock_rows("p> ", "alpha\nbeta", 8, 20);

    assert_eq!(rows.lines, vec!["p> alpha".to_string(), "beta".to_string()]);
    assert_eq!(rows.cursor_row, 1);
    assert_eq!(rows.cursor_col, 2);
    assert!(DOCK_RESERVED_ROWS >= rows.lines.len());
}

#[test]
fn dock_reserves_vertical_padding_rows() {
    let mut rows = compose_dock_rows("p> ", "draft", 5, 20);
    rows.lines.insert(0, String::new());
    rows.lines.push(String::new());
    rows.cursor_row += 1;

    assert_eq!(rows.lines.first().map(String::as_str), Some(""));
    assert_eq!(rows.lines.last().map(String::as_str), Some(""));
    assert_eq!(rows.cursor_row, 1);
    assert!(DOCK_RESERVED_ROWS >= rows.lines.len());
}

#[test]
fn tab_completes_unique_slash_command_prefix() {
    let mut composer = DockedComposer::new("prompt › ".to_string());
    composer.buffer = "/sta".to_string();
    composer.cursor = 4;

    assert!(composer.apply_slash_completion());
    assert_eq!(composer.buffer, "/status");
    assert_eq!(composer.cursor, 7);
}

#[test]
fn repeated_tab_cycles_multiple_slash_matches() {
    let mut composer = DockedComposer::new("prompt › ".to_string());
    composer.buffer = "/r".to_string();
    composer.cursor = 2;

    assert!(composer.apply_slash_completion());
    assert_eq!(composer.buffer, "/root");
    assert_eq!(composer.cursor, 5);
    assert!(composer.apply_slash_completion());
    assert_eq!(composer.buffer, "/runtime");
    assert_eq!(composer.cursor, 8);
    assert!(composer.apply_slash_completion());
    assert_eq!(composer.buffer, "/root");
}

#[test]
fn slash_completion_preserves_trailing_text_after_command_token() {
    let completion = next_slash_completion("/r path", 2, None, None).unwrap();
    let rest = &"/r path"[byte_index("/r path", completion.token_end)..];

    assert_eq!(completion.command, "/root");
    assert_eq!(rest, " path");
}

#[test]
fn editing_after_completion_resets_slash_cycle() {
    let mut composer = DockedComposer::new("prompt › ".to_string());
    composer.buffer = "/r".to_string();
    composer.cursor = 2;

    assert!(composer.apply_slash_completion());
    assert!(composer.slash_completion_index.is_some());
    insert_at(&mut composer.buffer, &mut composer.cursor, 'x');
    composer.reset_slash_completion();

    assert_eq!(composer.buffer, "/rootx");
    assert_eq!(composer.slash_completion_index, None);
    assert_eq!(composer.slash_completion_prefix, None);
}

#[test]
fn slash_draft_renders_completion_panel_suggestions() {
    let panel = slash_completion_panel_rows("/r", None, 48, true);
    let plain = plain(&panel);

    assert_eq!(plain.len(), 3);
    assert!(plain[0].starts_with("─"));
    assert!(plain[1].contains("/root"));
    assert!(plain[1].contains("Show or set active workspace root"));
    assert!(plain[2].contains("/runtime"));
    assert!(plain[2].contains("Show provider/debug runtime state"));
    assert_eq!(slash_command_matches("/sta"), vec!["/status"]);
}

#[test]
fn help_slash_command_completes_from_h_prefix() {
    let mut composer = DockedComposer::new("prompt › ".to_string());
    composer.buffer = "/h".to_string();
    composer.cursor = 2;

    assert!(strip_ansi(&slash_completion_panel_rows("/h", None, 48, true)[1]).contains("/help"));
    assert!(composer.apply_slash_completion());
    assert_eq!(composer.buffer, "/help");
    assert_eq!(composer.cursor, 5);
}

#[test]
fn quit_alias_is_available_to_slash_completion() {
    let mut composer = DockedComposer::new("prompt › ".to_string());
    composer.buffer = "/q".to_string();
    composer.cursor = 2;

    assert!(strip_ansi(&slash_completion_panel_rows("/q", None, 48, true)[1]).contains("/quit"));
    assert!(composer.apply_slash_completion());
    assert_eq!(composer.buffer, "/quit");
    assert_eq!(composer.cursor, 5);
}

#[test]
fn no_match_slash_draft_renders_panel_message() {
    let panel = slash_completion_panel_rows("/zzz", None, 32, true);

    assert_eq!(panel.len(), 2);
    assert!(strip_ansi(&panel[1]).contains("No slash command match"));
}

#[test]
fn slash_completion_panel_marks_selected_command() {
    let mut composer = DockedComposer::new("prompt › ".to_string());
    composer.buffer = "/r".to_string();
    composer.cursor = 2;

    assert!(composer.apply_slash_completion());
    let panel = slash_completion_panel_rows("/r", composer.slash_completion_index, 48, true);
    let first = plain(&panel);

    assert!(first.iter().any(|line| line.starts_with("› /root")));
    assert!(!first.iter().any(|line| line.starts_with("› /runtime")));

    assert!(composer.apply_slash_completion());
    let panel = slash_completion_panel_rows("/r", composer.slash_completion_index, 48, true);
    let second = plain(&panel);

    assert!(second.iter().any(|line| line.starts_with("› /runtime")));
}

#[test]
fn completion_panel_does_not_alter_input_cursor_position() {
    let panel = slash_completion_panel_rows("/r", None, 20, true);
    let rows = compose_rendered_dock_rows("p> ", "/r", 2, 20, &panel, false, true);

    assert!(strip_ansi(&rows.lines[1]).starts_with("─"));
    let prompt_row =
        rows.lines.iter().position(|line| strip_ansi(line).starts_with("p> /r")).unwrap();
    assert_eq!(rows.cursor_row, prompt_row);
    assert_eq!(rows.cursor_col, 5);
    assert!(DOCK_RESERVED_ROWS >= rows.lines.len());
}

#[test]
fn completion_panel_rows_are_capped_to_dock_reservation() {
    let panel = slash_completion_panel_rows("/", None, 80, true);
    let rows = compose_rendered_dock_rows("p> ", "/", 1, 80, &panel, false, true);

    assert_eq!(rows.lines.len(), DOCK_RESERVED_ROWS);
    let prompt_row =
        rows.lines.iter().position(|line| strip_ansi(line).starts_with("p> /")).unwrap();
    assert_eq!(rows.cursor_row, prompt_row);
    assert_eq!(rows.cursor_col, 4);
}

#[test]
fn approval_modal_renders_inside_dock_without_input_row() {
    let modal = ApprovalModal::new(
        "run_shell".to_string(),
        "approval required: run_shell\ncwd: .\nreason: run tests\ncommand: cargo test --offline\nType yes run to approve, n to deny.\n".to_string(),
    );
    let panel = approval_panel_rows(&modal, 56, true);
    let rows = compose_rendered_dock_rows("p> ", "hidden", 6, 56, &panel, true, true);
    let plain = strip_ansi(&rows.lines.join("\n"));

    assert!(rows.lines.len() <= DOCK_RESERVED_ROWS);
    assert!(!plain.contains("p> hidden"));
    assert!(plain.contains("approval"));
    assert!(plain.contains("run_shell requires approval"));
    assert!(plain.contains("command: cargo test --offline"));
    assert!(plain.contains("→ [1] Approve once"));
    assert!(plain.contains("[2] Approve for this session"));
}

#[test]
fn approval_modal_selection_maps_to_session_choice() {
    let mut modal = ApprovalModal::new(
        "propose_patch".to_string(),
        "approval required: propose_patch\npath: src/input.rs\n".to_string(),
    );
    modal.move_selection(1);

    assert_eq!(modal.selected_choice(), ApprovalChoice::ApproveForSession);
}

#[test]
fn dock_active_rows_follow_rendered_rows() {
    let mut composer = DockedComposer::new("p> ".to_string());

    assert_eq!(composer.active_dock_rows(), 1);

    composer.rendered_dock_rows = 3;
    assert_eq!(composer.active_dock_rows(), 3);

    composer.rendered_dock_rows = DOCK_RESERVED_ROWS + 4;
    assert_eq!(composer.active_dock_rows(), DOCK_RESERVED_ROWS);
}

#[test]
fn output_region_expands_when_dock_reservation_shrinks() {
    assert!(output_row(24, 3) > output_row(24, DOCK_RESERVED_ROWS));
}

#[test]
fn submitted_prompt_echo_uses_highlighted_prompt_block() {
    let echo = submitted_prompt_echo_with_options("inspect README", 40, true);
    let plain = strip_ansi(&echo);
    let lines = plain.lines().collect::<Vec<_>>();

    assert_eq!(lines.len(), 5);
    assert_eq!(lines[0], "");
    assert_eq!(lines[1], " ".repeat(40));
    assert!(lines[2].starts_with(">  inspect README"));
    assert_eq!(visible_len(lines[2]), 40);
    assert_eq!(lines[3], " ".repeat(40));
    assert_eq!(lines[4], "");
    assert!(echo.contains("48;2;40;42;54"));
    assert!(echo.contains("\x1b[1;38;2;187;154;247;48;2;40;42;54m"));

    let raw_lines = echo.lines().collect::<Vec<_>>();
    assert!(!raw_lines[1].contains("48;2;40;42;54"));
    assert!(raw_lines[2].contains("48;2;40;42;54"));
    assert!(!raw_lines[3].contains("48;2;40;42;54"));
}

#[test]
fn submitted_prompt_echo_prefixes_multiline_prompts() {
    let echo = submitted_prompt_echo_with_options("first line\nsecond line", 32, false);
    let plain = strip_ansi(&echo);

    assert!(plain.contains(">  first line"));
    assert!(plain.contains(">  second line"));
    assert!(!echo.contains("\x1b["));
    assert!(plain.lines().all(|line| line.is_empty() || visible_len(line) == 32));
}

#[test]
fn prompt_echo_block_wraps_and_pads_content_rows() {
    let lines =
        prompt_echo_block_lines("this is a longer prompt that should wrap cleanly", 30, true);
    let plain = strip_ansi(&lines.join("\n"));

    assert!(lines.len() > 3);
    assert!(plain.contains(">  this is a longer prompt"));
    assert!(lines.iter().all(|line| visible_len(&strip_ansi(line)) == 30));
    assert!(!lines[0].contains("48;2;40;42;54"));
    assert!(lines[1].contains("48;2;40;42;54"));
    assert!(!lines.last().unwrap().contains("48;2;40;42;54"));
}

#[test]
fn composer_stream_state_can_reset() {
    let mut composer = DockedComposer::new("prompt › ".to_string());
    composer.buffer = "draft".to_string();
    composer.stream_buffer = "hello".to_string();
    assert_eq!(composer.stream_buffer, "hello");
    assert!(!composer.status_active);
    composer.status_active = true;
    composer.status_rows = 3;
    composer.reset_stream_state();
    assert!(composer.stream_buffer.is_empty());
    assert!(!composer.status_active);
    assert_eq!(composer.status_rows, 0);
    assert_eq!(composer.buffer, "draft");
}

#[test]
fn composer_status_state_is_consumed_before_rewrite() {
    let mut composer = DockedComposer::new("prompt › ".to_string());
    composer.status_active = true;
    composer.status_rows = 2;
    assert!(composer.take_status_active());
    assert!(!composer.status_active);
    assert_eq!(composer.status_rows, 0);
    assert!(!composer.take_status_active());
}

#[test]
fn progress_panel_rows_are_capped_and_padded() {
    let rows = progress_panel_rows("Loading 1s\n\nagent step 1: list_files", 32, true);
    assert_eq!(rows.len(), 3);
    let plain = plain(&rows);
    assert_eq!(plain[0].trim_end(), "Loading 1s");
    assert_eq!(plain[1].trim_end(), "");
    assert_eq!(plain[2].trim_end(), "agent step 1: list_files");
    assert!(plain.iter().all(|row| visible_len(row) == 32));
}

#[test]
fn progress_dock_rows_render_above_prompt() {
    let panel = progress_panel_rows("Loading 1s\n\nagent step 1: list_files", 48, true);
    let rows = compose_rendered_dock_rows("deepseek [model] › ", "", 0, 48, &panel, false, true);
    let plain = plain(&rows.lines);

    let loading_row = plain.iter().position(|row| row.trim_end() == "Loading 1s").unwrap();
    let step_row =
        plain.iter().position(|row| row.trim_end() == "agent step 1: list_files").unwrap();
    let prompt_row = plain.iter().position(|row| row.starts_with("deepseek [model] ›")).unwrap();
    let help_row = plain.iter().position(|row| row.contains("Enter send")).unwrap();

    assert!(loading_row < prompt_row);
    assert!(step_row < prompt_row);
    assert_eq!(loading_row + 2, step_row);
    assert!(prompt_row < help_row);
}

#[test]
fn sequential_stream_cursor_advances_with_text() {
    let mut composer = DockedComposer::new("prompt › ".to_string());
    composer.set_transcript_start_row(Some(0));
    composer.advance_transcript_text("abc");
    assert_eq!(composer.transcript_cursor_row, Some(0));
    assert_eq!(composer.transcript_cursor_column, 3);
    composer.advance_transcript_text("\ndef");
    assert_eq!(composer.transcript_cursor_row, Some(1));
    assert_eq!(composer.transcript_cursor_column, 3);
}

#[test]
fn transcript_cursor_ignores_ansi_sequences() {
    let mut composer = DockedComposer::new("prompt › ".to_string());
    composer.set_transcript_start_row(Some(0));
    composer.advance_transcript_text("\x1b[36;1ma\x1b[0m\x1b[38;2;125;207;255mb\x1b[0m");

    assert_eq!(composer.transcript_cursor_row, Some(0));
    assert_eq!(composer.transcript_cursor_column, 2);
}

#[test]
fn parses_forced_terminal_size() {
    assert_eq!(parse_forced_terminal_size("80x24"), Some((80, 24)));
    assert_eq!(parse_forced_terminal_size("0x0"), Some((1, 1)));
    assert_eq!(parse_forced_terminal_size("80:24"), None);
}

#[test]
fn terminal_size_falls_back_and_is_never_empty() {
    assert_eq!(terminal_size(Some("100x30"), Some((80, 24))), (100, 30));
    assert_eq!(terminal_size(Some("bad"), Some((70, 20))), (70, 20));
    assert_eq!(terminal_size(None, Some((0, 0))), (1, 1));
    assert_eq!(terminal_size(None, None), (80, 24));
}

#[test]
fn removing_what_was_inserted_restores_the_text() {
    let mut text = "a界c".to_string();
    let mut cursor = 2;
    insert_at(&mut text, &mut cursor, 'é');
    assert_eq!(text, "a界éc");
    assert_eq!(remove_before(&mut text, &mut cursor), Some('é'));
    assert_eq!(text, "a界c");
    assert_eq!(cursor, 2);
    insert_str_at(&mut text, &mut cursor, "xy");
    assert_eq!(text, "a界xyc");
    assert_eq!(cursor, 4);
    assert_eq!(byte_index("a界c", 2), 4);
}

#[test]
fn removing_at_the_edges_does_nothing() {
    let mut text = "ab".to_string();
    let mut cursor = 0;
    assert_eq!(remove_before(&mut text, &mut cursor), None);
    assert_eq!(remove_at(&mut text, 2), None);
    assert!(!remove_previous_word(&mut text, &mut cursor));
    assert_eq!(text, "ab");
}

#[test]
fn long_text_is_shortened_with_dots() {
    assert_eq!(truncate_display_text("abcdef", 5), "ab...");
    assert_eq!(truncate_display_text("abcdef", 6), "abcdef");
    assert_eq!(truncate_display_text("abcdef", 2), "..");
    assert_eq!(truncate_display_text("abcdef", 0), "");
}

#[test]
fn enter_hands_in_the_draft_and_keeps_it_in_history() {
    let mut composer = DockedComposer::new("p> ".to_string());
    type_text(&mut composer, "hello");
    match submit(&mut composer) {
        Some(InputAction::Submit(line)) => assert_eq!(line, "hello"),
        other => panic!("expected a submitted line, got {other:?}"),
    }
    assert_eq!(composer.buffer, "");
    composer.poll_action(Some(InputEvent::Key(key(KeyCode::Up))));
    assert_eq!(composer.buffer, "hello");
    composer.poll_action(Some(InputEvent::Key(key(KeyCode::Down))));
    assert_eq!(composer.buffer, "");
}

#[test]
fn open_dialog_takes_the_keys() {
    let mut composer = DockedComposer::new("p> ".to_string());
    type_text(&mut composer, "draft");
    composer.show_approval_modal(
        "run_shell".to_string(),
        Some(ApprovalScope::Shell),
        "approval required: run_shell\n".to_string(),
    );
    assert_eq!(composer.buffer, "");
    let (_, action) = composer.poll_action(Some(InputEvent::Key(key(KeyCode::Char('x')))));
    assert!(action.is_none());
    composer.poll_action(Some(InputEvent::Paste("text".to_string())));
    assert_eq!(composer.buffer, "");
    let (_, action) = composer.poll_action(Some(InputEvent::Key(key(KeyCode::Char('2')))));
    match action {
        Some(InputAction::Approval(choice)) => {
            assert_eq!(choice, ApprovalChoice::ApproveForSession)
        }
        other => panic!("expected a choice, got {other:?}"),
    }
    composer.clear_approval_modal();
    type_text(&mut composer, "x");
    assert_eq!(composer.buffer, "x");
}

#[test]
fn scoped_dialog_names_what_it_covers() {
    let modal = ApprovalModal::scoped(
        "propose_patch".to_string(),
        ApprovalScope::Write,
        "approval required: propose_patch\n".to_string(),
    );
    let panel = plain(&approval_panel_rows(&modal, 60, true)).join("\n");
    assert!(panel.contains("Approve writes for this root"));
}

#[test]
fn released_keys_do_nothing() {
    let mut composer = DockedComposer::new("p> ".to_string());
    composer.poll_action(Some(InputEvent::Key(with_kind(KeyEventKind::Release))));
    assert_eq!(composer.buffer, "");
}

#[test]
fn pasted_text_lands_at_the_cursor() {
    let mut composer = DockedComposer::new("p> ".to_string());
    type_text(&mut composer, "ad");
    composer.poll_action(Some(InputEvent::Key(key(KeyCode::Left))));
    composer.poll_action(Some(InputEvent::Paste("bc".to_string())));
    assert_eq!(composer.buffer, "abcd");
    assert_eq!(composer.cursor, 3);
}

#[test]
fn dialog_steps_undo_each_other() {
    let mut modal = ApprovalModal::new("run_shell".to_string(), String::new());
    modal.move_selection(1);
    modal.move_selection(-1);
    assert_eq!(modal.selected_choice(), ApprovalChoice::ApproveOnce);
    modal.move_selection(-1);
    assert_eq!(modal.selected_choice(), ApprovalChoice::Reject);
}

#[test]
fn inline_input_edits_and_submits() {
    let mut input = InlineInput::new();
    let ops = input.start("> ");
    assert!(!ops.is_empty());
    for ch in ['o', 'k'] {
        let (_, action) = input.read_action("> ", InputEvent::Key(key(KeyCode::Char(ch))));
        assert!(action.is_none());
    }
    let (_, action) = input.read_action("> ", InputEvent::Key(key(KeyCode::Enter)));
    match action {
        Some(InputAction::Submit(line)) => assert_eq!(line, "ok"),
        other => panic!("expected a line, got {other:?}"),
    }
}

#[test]
fn piped_input_submits_lines_and_then_exits() {
    match piped_action(Some("hello\n".to_string())) {
        InputAction::Submit(line) => assert_eq!(line.trim_end(), "hello"),
        other => panic!("expected a line, got {other:?}"),
    }
    assert!(matches!(piped_action(None), InputAction::Exit));
}

#[test]
fn printing_above_the_dock_draws_the_text() {
    let mut composer = DockedComposer::new("p> ".to_string());
    let ops = composer.print_above("hello\n");
    assert!(ops
        .iter()
        .any(|op| matches!(op, TermOp::Text(text) if text.contains("hello"))));
}
