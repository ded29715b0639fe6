//! What the program prints around a conversation. Each function gives the text,
//! with or without colour.
use vstd::prelude::*;

use crate::input::render::{style_prompt_echo_with_color, styled};
use crate::provider::{APP_COMMAND, DEFAULT_MODEL, PROVIDER, SECOND_MODEL};
use crate::session::{SessionState, SessionView};
use crate::text::{concat2, concat3, decimal_text, lower, push_text};
use crate::text::{decimal, has_prefix, has_text, lower_text, occurs_at};

verus! {

pub open spec fn accent(text: Seq<char>, color: bool) -> Seq<char> {
    styled("36;1"@, text, color)
}

pub open spec fn backend(text: Seq<char>, color: bool) -> Seq<char> {
    styled("38;2;122;162;247"@, text, color)
}

pub open spec fn heading(text: Seq<char>, color: bool) -> Seq<char> {
    styled("34;1"@, text, color)
}

pub open spec fn muted(text: Seq<char>, color: bool) -> Seq<char> {
    styled("90"@, text, color)
}

pub open spec fn grounding(text: Seq<char>, color: bool) -> Seq<char> {
    styled("32"@, text, color)
}

/// A text with its line break.
pub open spec fn line(text: Seq<char>) -> Seq<char> {
    text + "\n"@
}

fn push_line(out: &mut String, text: &str)
    ensures
        final(out)@ == old(out)@ + line(text@),
{
    push_text(out, text);
    push_text(out, "\n");
    assert(out@ =~= old(out)@ + line(text@));
}

fn push_styled(out: &mut String, code: &str, text: &str, color: bool)
    ensures
        final(out)@ == old(out)@ + line(styled(code@, text@, color)),
{
    push_line(out, style_prompt_echo_with_color(code, text, color).as_str());
}

/// A model in brackets.
pub open spec fn bracketed(model: Seq<char>) -> Seq<char> {
    "["@ + model + "]"@
}

pub open spec fn banner_text(model: Seq<char>, color: bool) -> Seq<char> {
    line(accent(lower_text(PROVIDER@), color) + " "@ + muted(bracketed(model), color)) + line(
        muted("Enter send · ? help · /model · /debug · /runtime · /end · /exit"@, color),
    )
}

/// The lines at the start of a chat.
pub fn print_banner(model: &str, color: bool) -> (r: String)
    ensures
        r@ == banner_text(model@, color),
{
    let name = style_prompt_echo_with_color("36;1", lower(PROVIDER).as_str(), color);
    let shown = style_prompt_echo_with_color("90", concat3("[", model, "]").as_str(), color);
    let mut out = concat2(concat3(name.as_str(), " ", shown.as_str()).as_str(), "\n");
    push_styled(
        &mut out,
        "90",
        "Enter send · ? help · /model · /debug · /runtime · /end · /exit",
        color,
    );
    out
}

/// The prompt before the user's line.
pub fn prompt_text(model: &str, color: bool) -> (r: String)
    ensures
        r@ == accent(APP_COMMAND@, color) + " "@ + backend(bracketed(model@), color) + " › "@,
{
    let name = style_prompt_echo_with_color("36;1", APP_COMMAND, color);
    let shown = style_prompt_echo_with_color(
        "38;2;122;162;247",
        concat3("[", model, "]").as_str(),
        color,
    );
    let mut out = concat3(name.as_str(), " ", shown.as_str());
    push_text(&mut out, " › ");
    out
}

/// The commands that both modes have.
pub open spec fn shared_help(color: bool) -> Seq<char> {
    line(heading(PROVIDER@ + " Commands"@, color)) + line(muted("Session"@, color)) + line(
        "  /model              Show or switch DeepSeek model"@,
    ) + line("  /model <id>         Switch model for this active session"@) + line(
        "  /status             Show active session details"@,
    ) + line("  /runtime            Show provider/debug runtime state"@) + line(
        "  /debug [on|off]     Toggle local debug backend"@,
    ) + line("  /end                End the current session and clear context"@)
}

pub open spec fn general_help(model: Seq<char>, color: bool) -> Seq<char> {
    line(""@) + line(muted("General"@, color)) + line("  ? or /help          Show this help"@) + line(
        "  /exit               Exit without clearing context"@,
    ) + line(""@) + line(muted("Shell"@, color)) + line("  model               "@ + model)
}

/// The command that only the chat has: in agent mode every line is a task.
pub const AGENT_TASK_HELP: &'static str = "  /agent <task>       Run one task with the workspace agent";

pub open spec fn help_text(model: Seq<char>, color: bool) -> Seq<char> {
    shared_help(color) + line(AGENT_TASK_HELP@) + general_help(model, color)
}

fn push_shared_help(out: &mut String, color: bool)
    ensures
        final(out)@ == old(out)@ + shared_help(color),
{
    push_styled(out, "34;1", concat2(PROVIDER, " Commands").as_str(), color);
    push_styled(out, "90", "Session", color);
    push_line(out, "  /model              Show or switch DeepSeek model");
    push_line(out, "  /model <id>         Switch model for this active session");
    push_line(out, "  /status             Show active session details");
    push_line(out, "  /runtime            Show provider/debug runtime state");
    push_line(out, "  /debug [on|off]     Toggle local debug backend");
    push_line(out, "  /end                End the current session and clear context");
    assert(out@ =~= old(out)@ + shared_help(color));
}

fn push_general_help(out: &mut String, model: &str, color: bool)
    ensures
        final(out)@ == old(out)@ + general_help(model@, color),
{
    push_line(out, "");
    push_styled(out, "90", "General", color);
    push_line(out, "  ? or /help          Show this help");
    push_line(out, "  /exit               Exit without clearing context");
    push_line(out, "");
    push_styled(out, "90", "Shell", color);
    push_line(out, concat2("  model               ", model).as_str());
    assert(out@ =~= old(out)@ + general_help(model@, color));
}

pub fn print_help(model: &str, color: bool) -> (r: String)
    ensures
        r@ == help_text(model@, color),
{
    let mut out = String::new();
    push_shared_help(&mut out, color);
    assert(out@ =~= shared_help(color));
    push_line(&mut out, AGENT_TASK_HELP);
    push_general_help(&mut out, model, color);
    out
}

pub open spec fn interactive_help_text(model: Seq<char>, color: bool) -> Seq<char> {
    help_text(model, color) + line(""@) + line(muted("Workspace"@, color)) + line(
        "  /agent              Switch to agent mode"@,
    ) + line(
        "  /chat               Stay in chat and drop a pending task"@,
    ) + line("  /root [path|clear]  Show or choose the workspace root"@) + line(
        "  /features [toggle]  Show features or switch web search"@,
    )
}

/// The help of the docked chat.
pub fn interactive_help(model: &str, color: bool) -> (r: String)
    ensures
        r@ == interactive_help_text(model@, color),
{
    let mut out = print_help(model, color);
    push_line(&mut out, "");
    push_styled(&mut out, "90", "Workspace", color);
    push_line(&mut out, "  /agent              Switch to agent mode");
    push_line(&mut out, "  /chat               Stay in chat and drop a pending task");
    push_line(&mut out, "  /root [path|clear]  Show or choose the workspace root");
    push_line(&mut out, "  /features [toggle]  Show features or switch web search");
    out
}

pub open spec fn model_help_text(model: Seq<char>, color: bool) -> Seq<char> {
    line(heading("Model commands"@, color)) + line("current: "@ + accent(model, color)) + line(""@)
        + line(muted("Usage"@, color)) + line("  /model <id>"@) + line(""@) + line(
        muted("Current DeepSeek text models"@, color),
    ) + line("  "@ + DEFAULT_MODEL@) + line("  "@ + SECOND_MODEL@) + line(""@) + line(
        muted("Legacy aliases deepseek-chat and deepseek-reasoner retire on 2026-07-24."@, color),
    )
}

pub fn print_model_help(model: &str, color: bool) -> (r: String)
    ensures
        r@ == model_help_text(model@, color),
{
    let title = style_prompt_echo_with_color("34;1", "Model commands", color);
    let mut out = concat2(title.as_str(), "\n");
    let shown = style_prompt_echo_with_color("36;1", model, color);
    push_line(&mut out, concat2("current: ", shown.as_str()).as_str());
    push_line(&mut out, "");
    push_styled(&mut out, "90", "Usage", color);
    push_line(&mut out, "  /model <id>");
    push_line(&mut out, "");
    push_styled(&mut out, "90", "Current DeepSeek text models", color);
    push_line(&mut out, concat2("  ", DEFAULT_MODEL).as_str());
    push_line(&mut out, concat2("  ", SECOND_MODEL).as_str());
    push_line(&mut out, "");
    push_styled(
        &mut out,
        "90",
        "Legacy aliases deepseek-chat and deepseek-reasoner retire on 2026-07-24.",
        color,
    );
    out
}

pub fn print_model_set(model: &str, color: bool) -> (r: String)
    ensures
        r@ == line("model set: "@ + accent(model@, color)),
{
    let shown = style_prompt_echo_with_color("36;1", model, color);
    concat3("model set: ", shown.as_str(), "\n")
}

pub open spec fn opt_session(o: Option<&SessionState>) -> Option<SessionView> {
    match o {
        Some(s) => Some(s@),
        None => None,
    }
}

pub open spec fn status_text(
    model: Seq<char>,
    path: Seq<char>,
    session: Option<SessionView>,
    color: bool,
) -> Seq<char> {
    let head = line(heading(PROVIDER@ + " Status"@, color)) + line("session-path: "@ + path);
    match session {
        Some(state) => head + line("session: "@ + state.name) + line("model: "@ + state.model)
            + line("turns: "@ + decimal((state.messages.len() / 2) as nat)) + line(
            grounding("health: ok"@, color),
        ),
        None => head + line("session: none"@) + line("model: "@ + model) + line(
            muted("health: stateless"@, color),
        ),
    }
}

/// The status of the session, given where it is kept and what is there.
pub fn print_status(
    model: &str,
    path: &str,
    session: Option<&SessionState>,
    color: bool,
) -> (r: String)
    ensures
        r@ == status_text(model@, path@, opt_session(session), color),
{
    let title = style_prompt_echo_with_color("34;1", concat2(PROVIDER, " Status").as_str(), color);
    let mut out = concat2(title.as_str(), "\n");
    push_line(&mut out, concat2("session-path: ", path).as_str());
    match session {
        Some(state) => {
            push_line(&mut out, concat2("session: ", state.name.as_str()).as_str());
            push_line(&mut out, concat2("model: ", state.model.as_str()).as_str());
            assert(state@.messages.len() == state.messages.len());
            let turns = decimal_text((state.messages.len() / 2) as u64);
            push_line(&mut out, concat2("turns: ", turns.as_str()).as_str());
            push_styled(&mut out, "32", "health: ok", color);
        },
        None => {
            push_line(&mut out, "session: none");
            push_line(&mut out, concat2("model: ", model).as_str());
            push_styled(&mut out, "90", "health: stateless", color);
        },
    }
    out
}

pub fn print_session_started(name: &str, color: bool) -> (r: String)
    ensures
        r@ == line("session started: "@ + accent(name@, color)),
{
    let shown = style_prompt_echo_with_color("36;1", name, color);
    concat3("session started: ", shown.as_str(), "\n")
}

pub fn print_login_ok(color: bool) -> (r: String)
    ensures
        r@ == line(grounding(PROVIDER@ + " login ok"@, color)),
{
    let shown = style_prompt_echo_with_color("32", concat2(PROVIDER, " login ok").as_str(), color);
    concat2(shown.as_str(), "\n")
}

pub fn print_session_ended(color: bool) -> (r: String)
    ensures
        r@ == line(grounding("session ended"@, color)),
{
    concat2(style_prompt_echo_with_color("32", "session ended", color).as_str(), "\n")
}

pub fn print_no_session(color: bool) -> (r: String)
    ensures
        r@ == line(muted("session: none"@, color)),
{
    concat2(style_prompt_echo_with_color("90", "session: none", color).as_str(), "\n")
}

pub fn print_error(message: &str, color: bool) -> (r: String)
    ensures
        r@ == line(styled("31;1"@, message@, color)),
{
    concat2(style_prompt_echo_with_color("31;1", message, color).as_str(), "\n")
}

// ---------------------------------------------------------------------------
// Agent mode
// ---------------------------------------------------------------------------

pub open spec fn agent_banner_text(model: Seq<char>, root: Seq<char>) -> Seq<char> {
    line("deepseek ["@ + model + "] agent"@) + line("workspace: "@ + root) + line(
        "read tools on - edits require yes apply - shell requires yes run"@,
    ) + line("Enter send - ? help - /chat - /model - /status - /end - /exit"@)
}

/// The lines at the start of agent mode.
pub fn print_agent_banner(model: &str, root: &str) -> (r: String)
    ensures
        r@ == agent_banner_text(model@, root@),
{
    let mut out = concat2(concat3("deepseek [", model, "] agent").as_str(), "\n");
    push_line(&mut out, concat2("workspace: ", root).as_str());
    push_line(&mut out, "read tools on - edits require yes apply - shell requires yes run");
    push_line(&mut out, "Enter send - ? help - /chat - /model - /status - /end - /exit");
    out
}

pub fn agent_prompt_text(model: &str) -> (r: String)
    ensures
        r@ == "deepseek ["@ + model@ + "] agent › "@,
{
    concat3("deepseek [", model, "] agent › ")
}

/// The help of agent mode: the commands that it has, and where the agent works.
pub fn agent_help(model: &str, root: &str, color: bool) -> (r: String)
    ensures
        r@ == shared_help(color) + general_help(model@, color) + line(
            "  workspace           "@ + root@,
        ),
{
    let mut out = String::new();
    push_shared_help(&mut out, color);
    assert(out@ =~= shared_help(color));
    push_general_help(&mut out, model, color);
    push_line(&mut out, concat2("  workspace           ", root).as_str());
    out
}

// ---------------------------------------------------------------------------
// Laws
// ---------------------------------------------------------------------------

/// The help of the chat documents the command that runs one task, on a line of
/// its own.
pub proof fn law_help_documents_agent_tasks(model: Seq<char>, color: bool)
    ensures
        has_text(help_text(model, color), line(AGENT_TASK_HELP@)),
        has_prefix(AGENT_TASK_HELP@, "  /agent <task>"@),
{
    let text = help_text(model, color);
    let at = shared_help(color).len() as int;
    let shown = line(AGENT_TASK_HELP@);
    assert(text.subrange(at, at + shown.len()) =~= shown);
    assert(occurs_at(text, shown, at));
    reveal_strlit("  /agent <task>");
    reveal_strlit("  /agent <task>       Run one task with the workspace agent");
    assert(AGENT_TASK_HELP@.subrange(0, "  /agent <task>"@.len() as int) =~= "  /agent <task>"@);
}

} // verus!
