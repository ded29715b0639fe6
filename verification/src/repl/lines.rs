//! Conversations without a dock: what a line asks for in either mode.
use vstd::prelude::*;

use crate::cli::InteractiveMode;
use crate::repl::commands::{chat_command, parse_chat_command, ChatCommand, CommandParse, CommandView, FeaturesCommand, RuntimeCommand};
use crate::text::{char_count, copy_text, trim};
use crate::text::{opt_text, trimmed};

verus! {

/// What a line asks for.
#[derive(Debug, PartialEq)]
pub enum LineStep {
    Skip,
    Leave,
    EndSession,
    Help,
    SwitchToChat,
    SwitchToAgent,
    AgentTask(String),
    Status,
    Features(FeaturesCommand),
    Runtime(RuntimeCommand),
    Debug(Option<String>),
    ShowModels,
    SetModel(String),
    Say(String),
    Complain(String),
    Answer(String),
}

pub enum StepView {
    Skip,
    Leave,
    EndSession,
    Help,
    SwitchToChat,
    SwitchToAgent,
    AgentTask(Seq<char>),
    Status,
    Features(FeaturesCommand),
    Runtime(RuntimeCommand),
    Debug(Option<Seq<char>>),
    ShowModels,
    SetModel(Seq<char>),
    Say(Seq<char>),
    Complain(Seq<char>),
    Answer(Seq<char>),
}

impl View for LineStep {
    type V = StepView;

    open spec fn view(&self) -> StepView {
        match *self {
            LineStep::Skip => StepView::Skip,
            LineStep::Leave => StepView::Leave,
            LineStep::EndSession => StepView::EndSession,
            LineStep::Help => StepView::Help,
            LineStep::SwitchToChat => StepView::SwitchToChat,
            LineStep::SwitchToAgent => StepView::SwitchToAgent,
            LineStep::AgentTask(task) => StepView::AgentTask(task@),
            LineStep::Status => StepView::Status,
            LineStep::Features(c) => StepView::Features(c),
            LineStep::Runtime(c) => StepView::Runtime(c),
            LineStep::Debug(mode) => StepView::Debug(opt_text(mode)),
            LineStep::ShowModels => StepView::ShowModels,
            LineStep::SetModel(model) => StepView::SetModel(model@),
            LineStep::Say(text) => StepView::Say(text@),
            LineStep::Complain(text) => StepView::Complain(text@),
            LineStep::Answer(prompt) => StepView::Answer(prompt@),
        }
    }
}

/// What a command does in a mode. The agent takes tasks as they are and keeps
/// to its root; the chat hands on what it has no command for.
pub open spec fn command_step(mode: InteractiveMode, p: Seq<char>, command: CommandView) -> StepView {
    let agent = mode is Agent;
    match command {
        CommandView::Exit => StepView::Leave,
        CommandView::End => StepView::EndSession,
        CommandView::Help => StepView::Help,
        CommandView::ChatMode => if agent {
            StepView::SwitchToChat
        } else {
            StepView::Answer(p)
        },
        CommandView::SwitchToAgent => if agent {
            StepView::Say("mode: agent"@)
        } else {
            StepView::SwitchToAgent
        },
        CommandView::DirectAgentTask(task) => if agent {
            StepView::Complain("already in agent mode; enter the task without /agent"@)
        } else {
            StepView::AgentTask(task)
        },
        CommandView::Root(_) => if agent {
            StepView::Complain("/root is only available in chat mode"@)
        } else {
            StepView::Answer(p)
        },
        CommandView::Status => StepView::Status,
        CommandView::Features(c) => StepView::Features(c),
        CommandView::Runtime(c) => StepView::Runtime(c),
        CommandView::Debug(word) => StepView::Debug(word),
        CommandView::Model(None) => StepView::ShowModels,
        CommandView::Model(Some(model)) => StepView::SetModel(model),
    }
}

/// What a line asks for in a mode.
pub open spec fn line_step(mode: InteractiveMode, line: Seq<char>) -> StepView {
    let p = trimmed(line);
    if p.len() == 0 {
        StepView::Skip
    } else {
        match chat_command(p) {
            CommandParse::NotACommand => StepView::Answer(p),
            CommandParse::Invalid(error) => StepView::Complain(error.text()),
            CommandParse::Valid(command) => command_step(mode, p, command),
        }
    }
}

fn read_command_step(mode: InteractiveMode, p: &str, command: ChatCommand) -> (r: LineStep)
    ensures
        r@ == command_step(mode, p@, command@),
{
    let agent = match mode {
        InteractiveMode::Agent => true,
        InteractiveMode::Chat => false,
    };
    match command {
        ChatCommand::Exit => LineStep::Leave,
        ChatCommand::End => LineStep::EndSession,
        ChatCommand::Help => LineStep::Help,
        ChatCommand::ChatMode => if agent {
            LineStep::SwitchToChat
        } else {
            LineStep::Answer(copy_text(p))
        },
        ChatCommand::SwitchToAgent => if agent {
            LineStep::Say(copy_text("mode: agent"))
        } else {
            LineStep::SwitchToAgent
        },
        ChatCommand::DirectAgentTask(task) => if agent {
            LineStep::Complain(copy_text("already in agent mode; enter the task without /agent"))
        } else {
            LineStep::AgentTask(task)
        },
        ChatCommand::Root(_) => if agent {
            LineStep::Complain(copy_text("/root is only available in chat mode"))
        } else {
            LineStep::Answer(copy_text(p))
        },
        ChatCommand::Status => LineStep::Status,
        ChatCommand::Features(c) => LineStep::Features(c),
        ChatCommand::Runtime(c) => LineStep::Runtime(c),
        ChatCommand::Debug(word) => LineStep::Debug(word),
        ChatCommand::Model(model) => match model {
            None => LineStep::ShowModels,
            Some(model) => LineStep::SetModel(model),
        },
    }
}

/// What a line asks for in a mode.
pub fn read_line(mode: InteractiveMode, line: &str) -> (r: LineStep)
    ensures
        r@ == line_step(mode, line@),
{
    let p = trim(line);
    if char_count(p.as_str()) == 0 {
        return LineStep::Skip;
    }
    match parse_chat_command(p.as_str()) {
        CommandParse::NotACommand => LineStep::Answer(p),
        CommandParse::Invalid(error) => LineStep::Complain(copy_text(error.message())),
        CommandParse::Valid(command) => read_command_step(mode, p.as_str(), command),
    }
}

pub const NO_ROOT_FOR_TASK: &'static str = "agent task needs a workspace root; run from a project directory or use interactive /root <path>";

// ---------------------------------------------------------------------------
// Laws
// ---------------------------------------------------------------------------

/// In either mode the same lines leave the program, end the session or go on to
/// be answered as they are.
pub proof fn law_modes_agree_on_prompts(line: Seq<char>)
    ensures
        line_step(InteractiveMode::Agent, line) is Leave <==> line_step(InteractiveMode::Chat, line)
            is Leave,
        line_step(InteractiveMode::Agent, line) is EndSession <==> line_step(
            InteractiveMode::Chat,
            line,
        ) is EndSession,
        line_step(InteractiveMode::Agent, line) is Answer ==> line_step(InteractiveMode::Chat, line)
            == line_step(InteractiveMode::Agent, line),
{
}

} // verus!
