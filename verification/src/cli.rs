//! What a call of the program asks for.
use vstd::prelude::*;

use crate::provider::{DEFAULT_MODEL, DEFAULT_SESSION_NAME};
use crate::text::{copy_text, join, same_text};
use crate::text::{joined, opt_text, texts};

verus! {

#[derive(Debug, Clone, Copy, PartialEq, Eq, Structural)]
pub enum InteractiveMode {
    Agent,
    Chat,
}

#[derive(Debug)]
pub enum SessionCommand {
    Start { name: Option<String> },
    Status,
    End,
}

/// The arguments of a call. A temperature is the text of its number.
#[derive(Debug)]
pub struct Args {
    pub command: Option<Command>,
    pub prompt: Option<String>,
    pub no_session: bool,
    pub model: Option<String>,
    pub temperature: Option<String>,
    pub stream: bool,
    pub chat: bool,
    pub agent_mode: bool,
}

#[derive(Debug)]
pub enum Command {
    Chat {
        prompt: Option<String>,
        no_session: bool,
        model: Option<String>,
        temperature: Option<String>,
        stream: bool,
    },
    Agent { task: Vec<String>, root: String, max_steps: usize, final_only: bool },
    Login,
    Debug { mode: Option<String>, json: bool },
    Session { command: SessionCommand },
}

#[derive(Debug, Clone, Copy, PartialEq, Eq, Structural)]
pub enum AgentTranscriptCommand {
    LatestRaw,
    LatestSummary,
}

/// The words after `agent` that ask for a record instead of a run.
pub open spec fn transcript_command(task: Seq<Seq<char>>) -> Option<AgentTranscriptCommand> {
    if task == seq!["transcript"@, "latest"@] {
        Some(AgentTranscriptCommand::LatestRaw)
    } else if task == seq!["transcript"@, "latest"@, "--summary"@] {
        Some(AgentTranscriptCommand::LatestSummary)
    } else {
        None
    }
}

pub fn parse_agent_transcript_command(task: &Vec<String>) -> (r: Option<AgentTranscriptCommand>)
    ensures
        r == transcript_command(texts(task@)),
{
    let ghost all = texts(task@);
    assert(all.len() == task.len());
    if task.len() < 2 || task.len() > 3 {
        return None;
    }
    assert(all[0] == task@[0]@ && all[1] == task@[1]@);
    if !same_text(task[0].as_str(), "transcript") || !same_text(task[1].as_str(), "latest") {
        return None;
    }
    if task.len() == 2 {
        assert(all =~= seq!["transcript"@, "latest"@]);
        return Some(AgentTranscriptCommand::LatestRaw);
    }
    assert(all[2] == task@[2]@);
    if same_text(task[2].as_str(), "--summary") {
        assert(all =~= seq!["transcript"@, "latest"@, "--summary"@]);
        Some(AgentTranscriptCommand::LatestSummary)
    } else {
        None
    }
}

/// What the program does.
#[derive(Debug)]
pub enum RunPlan {
    Prompt {
        prompt: String,
        model: String,
        temperature: Option<String>,
        no_session: bool,
        stream: bool,
    },
    Interactive {
        mode: InteractiveMode,
        model: String,
        temperature: Option<String>,
        stream: bool,
    },
    Transcript { root: String, command: AgentTranscriptCommand },
    Agent {
        task: String,
        model: String,
        temperature: Option<String>,
        root: String,
        max_steps: usize,
        final_only: bool,
    },
    Login { model: String },
    Debug { model: String, backend: Option<String>, json: bool },
    StartSession { name: String, model: String },
    SessionStatus { model: String },
    EndSession,
}

pub enum PlanView {
    Prompt {
        prompt: Seq<char>,
        model: Seq<char>,
        temperature: Option<Seq<char>>,
        no_session: bool,
        stream: bool,
    },
    Interactive {
        mode: InteractiveMode,
        model: Seq<char>,
        temperature: Option<Seq<char>>,
        stream: bool,
    },
    Transcript { root: Seq<char>, command: AgentTranscriptCommand },
    Agent {
        task: Seq<char>,
        model: Seq<char>,
        temperature: Option<Seq<char>>,
        root: Seq<char>,
        max_steps: int,
        final_only: bool,
    },
    Login { model: Seq<char> },
    Debug { model: Seq<char>, backend: Option<Seq<char>>, json: bool },
    StartSession { name: Seq<char>, model: Seq<char> },
    SessionStatus { model: Seq<char> },
    EndSession,
}

impl View for RunPlan {
    type V = PlanView;

    open spec fn view(&self) -> PlanView {
        match *self {
            RunPlan::Prompt { prompt, model, temperature, no_session, stream } => PlanView::Prompt {
                prompt: prompt@,
                model: model@,
                temperature: opt_text(temperature),
                no_session,
                stream,
            },
            RunPlan::Interactive { mode, model, temperature, stream } => PlanView::Interactive {
                mode,
                model: model@,
                temperature: opt_text(temperature),
                stream,
            },
            RunPlan::Transcript { root, command } => PlanView::Transcript { root: root@, command },
            RunPlan::Agent { task, model, temperature, root, max_steps, final_only } => PlanView::Agent {
                task: task@,
                model: model@,
                temperature: opt_text(temperature),
                root: root@,
                max_steps: max_steps as int,
                final_only,
            },
            RunPlan::Login { model } => PlanView::Login { model: model@ },
            RunPlan::Debug { model, backend, json } => PlanView::Debug {
                model: model@,
                backend: opt_text(backend),
                json,
            },
            RunPlan::StartSession { name, model } => PlanView::StartSession {
                name: name@,
                model: model@,
            },
            RunPlan::SessionStatus { model } => PlanView::SessionStatus { model: model@ },
            RunPlan::EndSession => PlanView::EndSession,
        }
    }
}

pub open spec fn text_or(o: Option<Seq<char>>, otherwise: Seq<char>) -> Seq<char> {
    match o {
        Some(s) => s,
        None => otherwise,
    }
}

fn or_text(o: Option<String>, otherwise: &str) -> (r: String)
    ensures
        r@ == text_or(opt_text(o), otherwise@),
{
    match o {
        Some(s) => s,
        None => copy_text(otherwise),
    }
}

/// A prompt that was given is answered; without one a conversation begins.
pub open spec fn talk(
    prompt: Option<Seq<char>>,
    mode: InteractiveMode,
    model: Seq<char>,
    temperature: Option<Seq<char>>,
    no_session: bool,
    stream: bool,
) -> PlanView {
    match prompt {
        Some(prompt) => PlanView::Prompt { prompt, model, temperature, no_session, stream },
        None => PlanView::Interactive { mode, model, temperature, stream },
    }
}

fn plan_talk(
    prompt: Option<String>,
    mode: InteractiveMode,
    model: String,
    temperature: Option<String>,
    no_session: bool,
    stream: bool,
) -> (r: RunPlan)
    ensures
        r@ == talk(opt_text(prompt), mode, model@, opt_text(temperature), no_session, stream),
{
    match prompt {
        Some(prompt) => RunPlan::Prompt { prompt, model, temperature, no_session, stream },
        None => RunPlan::Interactive { mode, model, temperature, stream },
    }
}

/// What a call asks for, command by command.
pub open spec fn run_plan(args: Args) -> PlanView {
    let model = text_or(opt_text(args.model), DEFAULT_MODEL@);
    match args.command {
        Some(Command::Chat { prompt, no_session, model: chat_model, temperature, stream }) => talk(
            opt_text(prompt),
            InteractiveMode::Chat,
            text_or(opt_text(chat_model), model),
            opt_text(temperature),
            no_session,
            stream,
        ),
        Some(Command::Agent { task, root, max_steps, final_only }) => match transcript_command(
            texts(task@),
        ) {
            Some(command) => PlanView::Transcript { root: root@, command },
            None => PlanView::Agent {
                task: joined(texts(task@), " "@),
                model,
                temperature: opt_text(args.temperature),
                root: root@,
                max_steps: max_steps as int,
                final_only,
            },
        },
        Some(Command::Login) => PlanView::Login { model },
        Some(Command::Debug { mode, json }) => PlanView::Debug {
            model,
            backend: opt_text(mode),
            json,
        },
        Some(Command::Session { command }) => match command {
            SessionCommand::Start { name } => PlanView::StartSession {
                name: text_or(opt_text(name), DEFAULT_SESSION_NAME@),
                model,
            },
            SessionCommand::Status => PlanView::SessionStatus { model },
            SessionCommand::End => PlanView::EndSession,
        },
        None => talk(
            opt_text(args.prompt),
            if args.agent_mode {
                InteractiveMode::Agent
            } else {
                InteractiveMode::Chat
            },
            model,
            opt_text(args.temperature),
            args.no_session,
            args.stream,
        ),
    }
}

pub open spec fn plan_result(r: Result<RunPlan, String>) -> Result<PlanView, Seq<char>> {
    match r {
        Ok(p) => Ok(p@),
        Err(e) => Err(e@),
    }
}

/// What a call asks for. The two modes exclude each other.
pub fn run(args: Args) -> (r: Result<RunPlan, String>)
    ensures
        plan_result(r) == if args.chat && args.agent_mode {
            Err("choose only one of --chat or --agent"@)
        } else {
            Ok(run_plan(args))
        },
{
    if args.chat && args.agent_mode {
        return Err(copy_text("choose only one of --chat or --agent"));
    }
    let model = or_text(args.model, DEFAULT_MODEL);
    let plan = match args.command {
        Some(Command::Chat { prompt, no_session, model: chat_model, temperature, stream }) => {
            let chosen = or_text(chat_model, model.as_str());
            plan_talk(prompt, InteractiveMode::Chat, chosen, temperature, no_session, stream)
        },
        Some(Command::Agent { task, root, max_steps, final_only }) => {
            match parse_agent_transcript_command(&task) {
                Some(command) => RunPlan::Transcript { root, command },
                None => RunPlan::Agent {
                    task: join(&task, " "),
                    model,
                    temperature: args.temperature,
                    root,
                    max_steps,
                    final_only,
                },
            }
        },
        Some(Command::Login) => RunPlan::Login { model },
        Some(Command::Debug { mode, json }) => RunPlan::Debug { model, backend: mode, json },
        Some(Command::Session { command }) => match command {
            SessionCommand::Start { name } => RunPlan::StartSession {
                name: or_text(name, DEFAULT_SESSION_NAME),
                model,
            },
            SessionCommand::Status => RunPlan::SessionStatus { model },
            SessionCommand::End => RunPlan::EndSession,
        },
        None => {
            let mode = if args.agent_mode {
                InteractiveMode::Agent
            } else {
                InteractiveMode::Chat
            };
            plan_talk(args.prompt, mode, model, args.temperature, args.no_session, args.stream)
        },
    };
    Ok(plan)
}

} // verus!
