use deepseek_arkey::answer_format::{
    format_agent_answer, format_parsed_answer, split_markdown_table_lines, terminal_agent_answer,
};
use deepseek_arkey::json::{Json, Member};
use deepseek_arkey::terminal_markdown::render_terminal_markdown;
use deepseek_arkey::terminal_width::{
    char_display_width, display_width, pad_display_width, wrap_plain_text,
};

fn strip_ansi(text: &str) -> String {
    let mut output = String::new();
    let mut chars = text.chars().peekable();
    while let Some(ch) = chars.next() {
        if ch == '\x1b' && chars.peek() == Some(&'[') {
            chars.next();
            for next in chars.by_ref() {
                if ('@'..='~').contains(&next) {
                    break;
                }
            }
            continue;
        }
        output.push(ch);
    }
    output
}

#[test]
fn formats_flat_agent_markdown_into_scannable_blocks() {
    let raw = "## Arkey v2 / PKOS v0.2 Repository Analysis ### Overview A Rust-core migration project. --- ### Structure **Rust Core Packages**: - `arkey-core/` - `arkey-rs/` ### Key Design Decisions 1. Incremental migration 2. Reference preservation";
    let formatted = format_agent_answer(raw);
    assert!(formatted.contains("## Arkey v2 / PKOS v0.2 Repository Analysis\n\n"));
    assert!(formatted.contains("### Overview\nA Rust-core migration project."));
    assert!(formatted.contains("\n---\n"));
    assert!(formatted.contains("\n- `arkey-core/`"));
    assert!(formatted.contains("\n1. Incremental migration"));
    assert!(formatted.ends_with('\n'));
}

#[test]
fn formats_json_agent_answer_into_readable_markdown() {
    let raw = r#"{"repository":{"name":"arkey","version":"v2","workspace_structure":{"crates":["arkey-core","arkey-rs"],"ready":true}}}"#;
    let formatted = format_agent_answer(raw);
    assert!(formatted.contains("## Repository\n"));
    assert!(formatted.contains("- Name: arkey"));
    assert!(formatted.contains("- Version: v2"));
    assert!(formatted.contains("### Workspace Structure\n"));
    assert!(formatted.contains("- arkey-core"));
    assert!(formatted.contains("- arkey-rs"));
    assert!(formatted.contains("- Ready: true"));
    assert!(formatted.ends_with('\n'));
}

#[test]
fn formats_json_array_agent_answer_into_readable_markdown() {
    let raw = r#"[{"name":"deepseek","passed":true},{"name":"minimax","passed":true}]"#;
    let formatted = format_agent_answer(raw);
    assert!(formatted.contains("1. Item 1"));
    assert!(formatted.contains("- Name: deepseek"));
    assert!(formatted.contains("2. Item 2"));
    assert!(formatted.contains("- Name: minimax"));
}

#[test]
fn leaves_inline_horizontal_rule_text_alone() {
    let raw = "Use --- as a separator inside prose.";
    let formatted = format_agent_answer(raw);
    assert_eq!(formatted, "Use --- as a separator inside prose.\n");
}

#[test]
fn splits_multi_digit_numbered_lists() {
    let raw = "9. item 10. next item";
    let formatted = format_agent_answer(raw);
    assert!(formatted.contains("9. item\n\n10. next item"));
}

#[test]
fn does_not_split_version_numbers_as_numbered_lists() {
    let raw = "Runtime is v2. It is ready.";
    let formatted = format_agent_answer(raw);
    assert_eq!(formatted, "Runtime is v2. It is ready.\n");
}

#[test]
fn splits_common_agent_heading_bodies() {
    let raw = "### Overall Purpose This is a Rust migration. ### Architecture **Rust Workspace:** details";
    let formatted = format_agent_answer(raw);
    assert!(formatted.contains("### Overall Purpose\nThis is a Rust migration."));
    assert!(formatted.contains("### Architecture\n**Rust Workspace:** details"));
}

#[test]
fn splits_purpose_heading_body() {
    let raw = "### Purpose A standalone Rust CLI for querying models.";
    let formatted = format_agent_answer(raw);
    assert!(formatted.contains("### Purpose\nA standalone Rust CLI for querying models."));
}

#[test]
fn splits_flattened_markdown_table_rows() {
    let raw = "### Supported Commands | Command | Description | |---|---| | `chat` | Single-shot prompt | | `agent` | Autonomous run | Key inline code: `run_interactive`.";
    let formatted = format_agent_answer(raw);
    assert!(formatted.contains("### Supported Commands\n| Command | Description |"));
    assert!(formatted.contains("\n|---|---|"));
    assert!(formatted.contains("\n| `chat` | Single-shot prompt |"));
    assert!(formatted.contains("\n| `agent` | Autonomous run |"));
    assert!(formatted.contains("\nKey inline code: `run_interactive`."));
}

#[test]
fn split_markdown_table_lines_splits_overlong_table_line() {
    let raw = "| Command | Description | |---|---| | `chat` | Single-shot prompt | Key inline code: `run_interactive`.";
    let split = split_markdown_table_lines(raw);
    assert!(split.contains("| Command | Description |\n"));
    assert!(split.contains("|---|---|\n"));
    assert!(split.contains("| `chat` | Single-shot prompt |\n"));
    assert!(split.contains("\nKey inline code: `run_interactive`."));
}

#[test]
fn splits_heading_body_before_bold_text() {
    let raw = "## Arkey v2 / PKOS v0.2 Repository Analysis **Purpose:** Rust migration.";
    let formatted = format_agent_answer(raw);
    assert!(formatted
        .contains("## Arkey v2 / PKOS v0.2 Repository Analysis\n**Purpose:** Rust migration."));
}

#[test]
fn terminal_agent_answer_renders_tokyo_markdown_styles() {
    let raw = "## Result\n\n**text here** and `code`\n\n- item\n\n1. next\n\n---\n\n```text\n**raw**\n```";
    let rendered = terminal_agent_answer(raw);
    assert!(rendered.contains("\x1b[36;1mResult\x1b[0m"));
    assert!(rendered.contains("\x1b[1mtext here\x1b[0m"));
    assert!(rendered.contains("\x1b[38;2;125;207;255mcode\x1b[0m"));
    assert!(rendered.contains("\x1b[38;2;187;154;247m-\x1b[0m item"));
    assert!(rendered.contains("\x1b[38;2;187;154;247m1.\x1b[0m next"));
    assert!(rendered.contains("\x1b[90m----------------------------------------\x1b[0m"));
    assert!(rendered.contains("**raw**"));
    assert_eq!(
        strip_ansi(&rendered),
        "Result\n\ntext here and code\n\n- item\n\n1. next\n\n----------------------------------------\n\n```text\n**raw**\n```\n"
    );
}

#[test]
fn terminal_agent_answer_handles_nested_inline_styles() {
    let rendered = terminal_agent_answer(
        "## **Important** Result\n\n**use the `run_shell` tool**\n\nSee https://example.com.",
    );

    assert!(!rendered.contains("**Important**"));
    assert!(rendered.contains("\x1b[36;1m\x1b[1mImportant\x1b[0m\x1b[36;1m Result\x1b[0m"));
    assert!(rendered.contains("\x1b[1muse the "));
    assert!(rendered.contains("\x1b[38;2;125;207;255mrun_shell\x1b[0m\x1b[1m tool\x1b[0m"));
    assert!(rendered.contains("\x1b[38;2;125;207;255mhttps://example.com\x1b[0m."));
    assert_eq!(
        strip_ansi(&rendered),
        "Important Result\n\nuse the run_shell tool\n\nSee https://example.com.\n"
    );
}

#[test]
fn renders_headings_at_all_levels() {
    let rendered = render_terminal_markdown("# One\n## Two\n### Three\n");
    assert!(rendered.contains("\x1b[36;1mOne\x1b[0m"));
    assert!(rendered.contains("\x1b[36;1mTwo\x1b[0m"));
    assert!(rendered.contains("\x1b[94;1mThree\x1b[0m"));
}

#[test]
fn renders_nested_inline_styles_inside_headings() {
    let rendered = render_terminal_markdown("## **Important** Result\n");
    assert!(rendered.contains("\x1b[36;1m\x1b[1mImportant\x1b[0m\x1b[36;1m Result\x1b[0m"));
    assert_eq!(strip_ansi(&rendered), "Important Result\n");
}

#[test]
fn renders_bullets_and_numbered_lists() {
    let rendered = render_terminal_markdown("- item\n1. next\n");
    assert!(rendered.contains("\x1b[38;2;187;154;247m-\x1b[0m item"));
    assert!(rendered.contains("\x1b[38;2;187;154;247m1.\x1b[0m next"));
}

#[test]
fn preserves_fenced_code_blocks_raw() {
    let rendered = render_terminal_markdown("```text\n**raw**\n```\n");
    assert!(rendered.contains("**raw**"));
    assert_eq!(strip_ansi(&rendered), "```text\n**raw**\n```\n");
}

#[test]
fn renders_aligned_markdown_tables() {
    let raw = "| A | Longer |\n|---|---|\n| `x` | **y** |\n";
    let rendered = render_terminal_markdown(raw);
    let stripped = strip_ansi(&rendered);

    assert!(stripped.contains("| A   | Longer |"));
    assert!(stripped.contains("|-----|--------|"));
    assert!(stripped.contains("| x   | y      |"));
}

#[test]
fn renders_inline_code_and_urls() {
    let rendered = render_terminal_markdown("Use `run_shell`: https://example.com.\n");
    assert!(rendered.contains("\x1b[38;2;125;207;255mrun_shell\x1b[0m"));
    assert!(rendered.contains("\x1b[38;2;125;207;255mhttps://example.com\x1b[0m."));
}

#[test]
fn renders_horizontal_rules_as_muted_lines() {
    let rendered = render_terminal_markdown("---\n");
    assert!(rendered.contains("\x1b[90m----------------------------------------\x1b[0m"));
}

#[test]
fn display_width_ignores_ansi_sequences() {
    assert_eq!(display_width("\x1b[36;1mwide\x1b[0m"), 4);
}

#[test]
fn wraps_words_and_chunks_long_words() {
    assert_eq!(wrap_plain_text("this wraps cleanly", 10), ["this wraps", "cleanly"]);
    assert_eq!(wrap_plain_text("abcdefghijkl", 5), ["abcde", "fghij", "kl"]);
}

#[test]
fn pads_to_display_width() {
    assert_eq!(pad_display_width("\x1b[1mx\x1b[0m", 3), "\x1b[1mx\x1b[0m  ");
}

#[test]
fn wide_and_empty_characters_have_their_widths() {
    assert_eq!(char_display_width('a'), 1);
    assert_eq!(char_display_width('界'), 2);
    assert_eq!(char_display_width('\n'), 0);
    assert_eq!(display_width("a界"), 3);
    assert_eq!(display_width(""), 0);
}

#[test]
fn wrapped_lines_fit_their_width() {
    let lines = wrap_plain_text("a 界界界 long-word-that-is-cut 界", 7);
    assert!(lines.iter().all(|line| display_width(line) <= 7));
}

#[test]
fn padded_text_fills_its_width() {
    assert_eq!(display_width(&pad_display_width("界", 6)), 6);
    assert_eq!(pad_display_width("longer", 3), "longer");
}

#[test]
fn formatted_answer_ends_its_last_line() {
    assert_eq!(format_agent_answer(" \n"), "");
    assert!(format_agent_answer("one").ends_with("one\n"));
}

#[test]
fn formatted_lines_are_clean() {
    let formatted = format_agent_answer("one  \n\n \n\t\ntwo \n\n\n\nthree");
    assert!(formatted.contains("one\n"));
    assert!(formatted.contains("three\n"));
    assert!(!formatted.contains("\n\n\n"));
    assert!(formatted.lines().all(|line| line == line.trim_end()));
}

#[test]
fn json_answers_are_spelled_out() {
    let value = Json::Object(vec![Member {
        key: "build_ok".to_string(),
        value: Json::Bool(false),
    }]);
    let formatted = format_parsed_answer("{\"build_ok\":false}", Some(&value));
    assert!(formatted.contains("- Build Ok: false"));
    assert_eq!(format_agent_answer("{\"build_ok\":false}"), formatted);
}
