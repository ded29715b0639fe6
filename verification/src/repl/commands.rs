//! The commands of an interactive session.
use vstd::prelude::*;

use crate::text::{char_count, same_text, strip_prefix, trim};
use crate::text::{opt_text, trimmed, without_prefix};
use crate::workspace::{parse_root_command, root_command};

verus! {

#[derive(Debug, Clone, Copy, PartialEq, Eq, Structural)]
pub enum RuntimeCommand {
    Status,
    LegacyRouting(bool),
}

#[derive(Debug, Clone, Copy, PartialEq, Eq, Structural)]
pub enum FeaturesCommand {
    Show,
    Toggle,
}

#[derive(Debug, Clone, Copy, PartialEq, Eq, Structural)]
pub enum CommandError {
    UnknownRuntimeCommand,
    UnknownFeaturesCommand,
}

impl CommandError {
    pub open spec fn text(self) -> Seq<char> {
        match self {
            CommandError::UnknownRuntimeCommand => "unknown runtime command; use /runtime or /runtime legacy-routing <on|off>"@,
            CommandError::UnknownFeaturesCommand => "unknown features command; use /features or /features toggle"@,
        }
    }

    pub fn message(self) -> (r: &'static str)
        ensures
            r@ == self.text(),
    {
        match self {
            CommandError::UnknownRuntimeCommand => "unknown runtime command; use /runtime or /runtime legacy-routing <on|off>",
            CommandError::UnknownFeaturesCommand => "unknown features command; use /features or /features toggle",
        }
    }
}

/// What a line is taken for.
#[derive(Debug, PartialEq)]
pub enum CommandParse<T> {
    NotACommand,
    Valid(T),
    Invalid(CommandError),
}

#[derive(Debug, PartialEq)]
pub enum ChatCommand {
    Help,
    ChatMode,
    SwitchToAgent,
    DirectAgentTask(String),
    Status,
    Features(FeaturesCommand),
    Root(Option<String>),
    Runtime(RuntimeCommand),
    Debug(Option<String>),
    Model(Option<String>),
    End,
    Exit,
}

pub enum CommandView {
    Help,
    ChatMode,
    SwitchToAgent,
    DirectAgentTask(Seq<char>),
    Status,
    Features(FeaturesCommand),
    Root(Option<Seq<char>>),
    Runtime(RuntimeCommand),
    Debug(Option<Seq<char>>),
    Model(Option<Seq<char>>),
    End,
    Exit,
}

impl View for ChatCommand {
    type V = CommandView;

    open spec fn view(&self) -> CommandView {
        match *self {
            ChatCommand::Help => CommandView::Help,
            ChatCommand::ChatMode => CommandView::ChatMode,
            ChatCommand::SwitchToAgent => CommandView::SwitchToAgent,
            ChatCommand::DirectAgentTask(task) => CommandView::DirectAgentTask(task@),
            ChatCommand::Status => CommandView::Status,
            ChatCommand::Features(c) => CommandView::Features(c),
            ChatCommand::Root(arg) => CommandView::Root(opt_text(arg)),
            ChatCommand::Runtime(c) => CommandView::Runtime(c),
            ChatCommand::Debug(mode) => CommandView::Debug(opt_text(mode)),
            ChatCommand::Model(model) => CommandView::Model(opt_text(model)),
            ChatCommand::End => CommandView::End,
            ChatCommand::Exit => CommandView::Exit,
        }
    }
}

pub open spec fn parse_view(r: CommandParse<ChatCommand>) -> CommandParse<CommandView> {
    match r {
        CommandParse::NotACommand => CommandParse::NotACommand,
        CommandParse::Valid(c) => CommandParse::Valid(c@),
        CommandParse::Invalid(e) => CommandParse::Invalid(e),
    }
}

pub open spec fn is_exit(p: Seq<char>) -> bool {
    p == "exit"@ || p == "quit"@ || p == "/exit"@ || p == "/quit"@ || p == "/exit quit"@ || p
        == "/quit exit"@
}

pub fn is_exit_command(prompt: &str) -> (r: bool)
    ensures
        r == is_exit(prompt@),
{
    same_text(prompt, "exit") || same_text(prompt, "quit") || same_text(prompt, "/exit")
        || same_text(prompt, "/quit") || same_text(prompt, "/exit quit") || same_text(
        prompt,
        "/quit exit",
    )
}

pub open spec fn is_end(p: Seq<char>) -> bool {
    p == "session end"@ || p == "/end"@ || p == "/end session"@
}

pub fn is_end_command(prompt: &str) -> (r: bool)
    ensures
        r == is_end(prompt@),
{
    same_text(prompt, "session end") || same_text(prompt, "/end") || same_text(
        prompt,
        "/end session",
    )
}

/// The argument of a command: the command alone has none, and a blank one is
/// none either.
pub open spec fn optional_argument(p: Seq<char>, command: Seq<char>, start: Seq<char>) -> Option<
    Option<Seq<char>>,
> {
    if p == command {
        Some(None)
    } else {
        match without_prefix(p, start) {
            Some(rest) => if trimmed(rest).len() == 0 {
                Some(None)
            } else {
                Some(Some(trimmed(rest)))
            },
            None => None,
        }
    }
}

pub open spec fn opt_opt(o: Option<Option<String>>) -> Option<Option<Seq<char>>> {
    match o {
        Some(arg) => Some(opt_text(arg)),
        None => None,
    }
}

fn read_argument(prompt: &str, command: &str, start: &str) -> (r: Option<Option<String>>)
    ensures
        opt_opt(r) == optional_argument(prompt@, command@, start@),
{
    if same_text(prompt, command) {
        return Some(None);
    }
    match strip_prefix(prompt, start) {
        Some(rest) => {
            let value = trim(rest.as_str());
            if char_count(value.as_str()) == 0 {
                Some(None)
            } else {
                Some(Some(value))
            }
        },
        None => None,
    }
}

pub fn parse_debug_command(prompt: &str) -> (r: Option<Option<String>>)
    ensures
        opt_opt(r) == optional_argument(prompt@, "/debug"@, "/debug "@),
{
    read_argument(prompt, "/debug", "/debug ")
}

pub fn parse_model_command(prompt: &str) -> (r: Option<Option<String>>)
    ensures
        opt_opt(r) == optional_argument(prompt@, "/model"@, "/model "@),
{
    read_argument(prompt, "/model", "/model ")
}

/// The task that follows `/agent`, if there is one.
pub open spec fn agent_task(p: Seq<char>) -> Option<Seq<char>> {
    match without_prefix(p, "/agent "@) {
        Some(rest) => if trimmed(rest).len() > 0 {
            Some(trimmed(rest))
        } else {
            None
        },
        None => None,
    }
}

pub fn parse_agent_task_command(prompt: &str) -> (r: Option<String>)
    ensures
        opt_text(r) == agent_task(prompt@),
{
    match strip_prefix(prompt, "/agent ") {
        Some(rest) => {
            let task = trim(rest.as_str());
            if char_count(task.as_str()) > 0 {
                Some(task)
            } else {
                None
            }
        },
        None => None,
    }
}

pub open spec fn features_command(p: Seq<char>) -> Result<Option<FeaturesCommand>, CommandError> {
    if p == "/features"@ {
        Ok(Some(FeaturesCommand::Show))
    } else {
        match without_prefix(p, "/features "@) {
            None => Ok(None),
            Some(rest) => if trimmed(rest) == "toggle"@ {
                Ok(Some(FeaturesCommand::Toggle))
            } else {
                Err(CommandError::UnknownFeaturesCommand)
            },
        }
    }
}

pub fn parse_features_command(prompt: &str) -> (r: Result<Option<FeaturesCommand>, CommandError>)
    ensures
        r == features_command(prompt@),
{
    if same_text(prompt, "/features") {
        return Ok(Some(FeaturesCommand::Show));
    }
    match strip_prefix(prompt, "/features ") {
        None => Ok(None),
        Some(rest) => if same_text(trim(rest.as_str()).as_str(), "toggle") {
            Ok(Some(FeaturesCommand::Toggle))
        } else {
            Err(CommandError::UnknownFeaturesCommand)
        },
    }
}

pub open spec fn runtime_command(p: Seq<char>) -> Result<Option<RuntimeCommand>, CommandError> {
    if p == "/runtime"@ {
        Ok(Some(RuntimeCommand::Status))
    } else {
        match without_prefix(p, "/runtime "@) {
            None => Ok(None),
            Some(rest) => if trimmed(rest) == "legacy-routing on"@ {
                Ok(Some(RuntimeCommand::LegacyRouting(true)))
            } else if trimmed(rest) == "legacy-routing off"@ {
                Ok(Some(RuntimeCommand::LegacyRouting(false)))
            } else {
                Err(CommandError::UnknownRuntimeCommand)
            },
        }
    }
}

pub fn parse_runtime_command(prompt: &str) -> (r: Result<Option<RuntimeCommand>, CommandError>)
    ensures
        r == runtime_command(prompt@),
{
    if same_text(prompt, "/runtime") {
        return Ok(Some(RuntimeCommand::Status));
    }
    match strip_prefix(prompt, "/runtime ") {
        None => Ok(None),
        Some(rest) => {
            let args = trim(rest.as_str());
            if same_text(args.as_str(), "legacy-routing on") {
                Ok(Some(RuntimeCommand::LegacyRouting(true)))
            } else if same_text(args.as_str(), "legacy-routing off") {
                Ok(Some(RuntimeCommand::LegacyRouting(false)))
            } else {
                Err(CommandError::UnknownRuntimeCommand)
            }
        },
    }
}

/// The commands with an argument, once the fixed ones are ruled out.
pub open spec fn argument_command(p: Seq<char>) -> CommandParse<CommandView> {
    match features_command(p) {
        Err(e) => CommandParse::Invalid(e),
        Ok(Some(c)) => CommandParse::Valid(CommandView::Features(c)),
        Ok(None) => match root_command(p) {
            Some(arg) => CommandParse::Valid(CommandView::Root(arg)),
            None => match runtime_command(p) {
                Err(e) => CommandParse::Invalid(e),
                Ok(Some(c)) => CommandParse::Valid(CommandView::Runtime(c)),
                Ok(None) => match optional_argument(p, "/debug"@, "/debug "@) {
                    Some(mode) => CommandParse::Valid(CommandView::Debug(mode)),
                    None => match optional_argument(p, "/model"@, "/model "@) {
                        Some(model) => CommandParse::Valid(CommandView::Model(model)),
                        None => CommandParse::NotACommand,
                    },
                },
            },
        },
    }
}

/// The command that a line is.
pub open spec fn chat_command(p: Seq<char>) -> CommandParse<CommandView> {
    if is_exit(p) {
        CommandParse::Valid(CommandView::Exit)
    } else if is_end(p) {
        CommandParse::Valid(CommandView::End)
    } else if p == "?"@ || p == "/help"@ {
        CommandParse::Valid(CommandView::Help)
    } else if p == "/chat"@ {
        CommandParse::Valid(CommandView::ChatMode)
    } else if p == "/agent"@ {
        CommandParse::Valid(CommandView::SwitchToAgent)
    } else {
        match agent_task(p) {
            Some(task) => CommandParse::Valid(CommandView::DirectAgentTask(task)),
            None => if p == "/status"@ {
                CommandParse::Valid(CommandView::Status)
            } else {
                argument_command(p)
            },
        }
    }
}

fn parse_argument_command(prompt: &str) -> (r: CommandParse<ChatCommand>)
    ensures
        parse_view(r) == argument_command(prompt@),
{
    match parse_features_command(prompt) {
        Err(e) => return CommandParse::Invalid(e),
        Ok(Some(c)) => return CommandParse::Valid(ChatCommand::Features(c)),
        Ok(None) => {},
    }
    if let Some(arg) = parse_root_command(prompt) {
        return CommandParse::Valid(ChatCommand::Root(arg));
    }
    match parse_runtime_command(prompt) {
        Err(e) => return CommandParse::Invalid(e),
        Ok(Some(c)) => return CommandParse::Valid(ChatCommand::Runtime(c)),
        Ok(None) => {},
    }
    if let Some(mode) = parse_debug_command(prompt) {
        return CommandParse::Valid(ChatCommand::Debug(mode));
    }
    if let Some(model) = parse_model_command(prompt) {
        return CommandParse::Valid(ChatCommand::Model(model));
    }
    CommandParse::NotACommand
}

pub fn parse_chat_command(prompt: &str) -> (r: CommandParse<ChatCommand>)
    ensures
        parse_view(r) == chat_command(prompt@),
{
    if is_exit_command(prompt) {
        return CommandParse::Valid(ChatCommand::Exit);
    }
    if is_end_command(prompt) {
        return CommandParse::Valid(ChatCommand::End);
    }
    if same_text(prompt, "?") || same_text(prompt, "/help") {
        return CommandParse::Valid(ChatCommand::Help);
    }
    if same_text(prompt, "/chat") {
        return CommandParse::Valid(ChatCommand::ChatMode);
    }
    if same_text(prompt, "/agent") {
        return CommandParse::Valid(ChatCommand::SwitchToAgent);
    }
    if let Some(task) = parse_agent_task_command(prompt) {
        return CommandParse::Valid(ChatCommand::DirectAgentTask(task));
    }
    if same_text(prompt, "/status") {
        return CommandParse::Valid(ChatCommand::Status);
    }
    parse_argument_command(prompt)
}

// ---------------------------------------------------------------------------
// Laws
// ---------------------------------------------------------------------------

/// A line that starts with neither a slash nor a question mark is a command
/// only where it ends the program or the session.
pub proof fn law_plain_lines_are_prompts(p: Seq<char>)
    requires
        p.len() > 0,
        p[0] != '/',
        p[0] != '?',
        !is_exit(p),
        !is_end(p),
    ensures
        chat_command(p) == CommandParse::<CommandView>::NotACommand,
{
    reveal_strlit("?");
    reveal_strlit("/help");
    reveal_strlit("/chat");
    reveal_strlit("/agent");
    reveal_strlit("/agent ");
    reveal_strlit("/status");
    reveal_strlit("/features");
    reveal_strlit("/features ");
    reveal_strlit("/root");
    reveal_strlit("/root ");
    reveal_strlit("/runtime");
    reveal_strlit("/runtime ");
    reveal_strlit("/debug");
    reveal_strlit("/debug ");
    reveal_strlit("/model");
    reveal_strlit("/model ");
    lemma_no_prefix(p, "/agent "@);
    lemma_no_prefix(p, "/features "@);
    lemma_no_prefix(p, "/root "@);
    lemma_no_prefix(p, "/runtime "@);
    lemma_no_prefix(p, "/debug "@);
    lemma_no_prefix(p, "/model "@);
}

proof fn lemma_no_prefix(p: Seq<char>, start: Seq<char>)
    requires
        p.len() > 0,
        start.len() > 0,
        p[0] != start[0],
    ensures
        without_prefix(p, start) is None,
{
    if crate::text::has_prefix(p, start) {
        assert(p.subrange(0, start.len() as int)[0] == p[0]);
    }
}

} // verus!
