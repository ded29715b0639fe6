//! Where a prompt goes: to the chat, or to the agent in some workspace.
use vstd::prelude::*;

use crate::agent::commit_audit::{is_commit_audit_prompt, normal_task, words_ask_audit};
use crate::intent::{boundary_violation, first_word, normal_prompt, normalize_prompt, path_boundary_violation, unicode_lower};
use crate::repl::commands::{agent_task, parse_agent_task_command};
use crate::text::{char_count, concat2, concat3, contains, copy_text, lower, same_text, split_whitespace, starts_with, strip_prefix, trim};
use crate::text::{has_prefix, has_text, lower_text, opt_text, texts, trimmed, without_prefix, words};
use crate::workspace::{effective_root, effective_workspace_root, infer_natural_root, natural_root, opt_str_text};

verus! {

/// What the program knows of its surroundings.
#[derive(Debug)]
pub struct Surroundings {
    pub home: Option<String>,
    pub cwd: Option<String>,
    pub cwd_is_home: bool,
}

#[verifier::ext_equal]
pub struct PlaceView {
    pub home: Option<Seq<char>>,
    pub cwd: Option<Seq<char>>,
    pub cwd_is_home: bool,
}

impl View for Surroundings {
    type V = PlaceView;

    open spec fn view(&self) -> PlaceView {
        PlaceView {
            home: opt_text(self.home),
            cwd: opt_text(self.cwd),
            cwd_is_home: self.cwd_is_home,
        }
    }
}

pub fn opt_as_str(o: &Option<String>) -> (r: Option<&str>)
    ensures
        opt_str_text(r) == opt_text(*o),
{
    match o {
        Some(s) => Some(s.as_str()),
        None => None,
    }
}

/// The root to work in.
pub open spec fn root_in(selected: Option<Seq<char>>, place: PlaceView) -> Option<Seq<char>> {
    effective_root(selected, place.cwd, place.cwd_is_home)
}

pub fn workspace_root_in(selected_root: Option<&str>, place: &Surroundings) -> (r: Option<String>)
    ensures
        opt_text(r) == root_in(opt_str_text(selected_root), place@),
{
    effective_workspace_root(selected_root, opt_as_str(&place.cwd), place.cwd_is_home)
}

// ---------------------------------------------------------------------------
// Texts
// ---------------------------------------------------------------------------

pub const CLARIFY_ROUTE_TEXT: &'static str = "route: unclear\nDo you want chat analysis or an agent task?\nType /chat to discuss, /root <path> to choose a workspace, or /agent <task> to execute.\n";

pub const NO_PENDING_AGENT_TASK_TEXT: &'static str = "route: unclear\nNo pending agent task to confirm.\nType /root <path> to choose a workspace, then repeat the task; or type /agent <task> with the leading slash to run one directly.\n";

pub open spec fn confirmation_text(root: Seq<char>) -> Seq<char> {
    "route: agent task\nroot: "@ + root
        + "\nRun this as an agent task?\nType y to continue, n to cancel, or /chat to keep chatting.\n"@
}

pub fn agent_route_confirmation(root: &str) -> (r: String)
    ensures
        r@ == confirmation_text(root@),
{
    concat3(
        "route: agent task\nroot: ",
        root,
        "\nRun this as an agent task?\nType y to continue, n to cancel, or /chat to keep chatting.\n",
    )
}

pub fn clarify_route_text() -> (r: String)
    ensures
        r@ == CLARIFY_ROUTE_TEXT@,
{
    copy_text(CLARIFY_ROUTE_TEXT)
}

pub fn no_pending_agent_task_text() -> (r: String)
    ensures
        r@ == NO_PENDING_AGENT_TASK_TEXT@,
{
    copy_text(NO_PENDING_AGENT_TASK_TEXT)
}

pub open spec fn pwd_text(root: Option<Seq<char>>) -> Seq<char> {
    match root {
        Some(root) => root + "\n"@,
        None => "root: unset\n"@,
    }
}

pub fn shell_pwd_text(root: Option<&str>) -> (r: String)
    ensures
        r@ == pwd_text(opt_str_text(root)),
{
    match root {
        Some(root) => concat2(root, "\n"),
        None => copy_text("root: unset\n"),
    }
}

// ---------------------------------------------------------------------------
// Short answers
// ---------------------------------------------------------------------------

pub open spec fn is_yes(p: Seq<char>) -> bool {
    p == "y"@ || p == "yes"@ || p == "yes agent"@ || p == "agent task"@ || p == "agent"@
}

pub fn is_agent_task_choice(prompt: &str) -> (r: bool)
    ensures
        r == is_yes(prompt@),
{
    same_text(prompt, "y") || same_text(prompt, "yes") || same_text(prompt, "yes agent")
        || same_text(prompt, "agent task") || same_text(prompt, "agent")
}

pub open spec fn is_no(p: Seq<char>) -> bool {
    p == "n"@ || p == "no"@
}

pub fn is_agent_task_cancel_choice(prompt: &str) -> (r: bool)
    ensures
        r == is_no(prompt@),
{
    same_text(prompt, "n") || same_text(prompt, "no")
}

pub open spec fn asks_previous_root(p: Seq<char>) -> bool {
    let q = lower_text(trimmed(p));
    q == "cd -"@ || q == "cd previous"@ || q == "cd back"@
}

pub fn is_cd_previous_request(prompt: &str) -> (r: bool)
    ensures
        r == asks_previous_root(prompt@),
{
    let q = lower(trim(prompt).as_str());
    same_text(q.as_str(), "cd -") || same_text(q.as_str(), "cd previous") || same_text(
        q.as_str(),
        "cd back",
    )
}

// ---------------------------------------------------------------------------
// Shell-like commands
// ---------------------------------------------------------------------------

#[derive(Debug, PartialEq)]
pub enum ShellReadCommand {
    Pwd,
    Ls(String),
}

pub enum ShellReadView {
    Pwd,
    Ls(Seq<char>),
}

pub open spec fn opt_shell(o: Option<ShellReadCommand>) -> Option<ShellReadView> {
    match o {
        Some(ShellReadCommand::Pwd) => Some(ShellReadView::Pwd),
        Some(ShellReadCommand::Ls(task)) => Some(ShellReadView::Ls(task@)),
        None => None,
    }
}

/// `pwd`, `ls`, or `ls` with a path, which is a task for the agent.
pub open spec fn shell_read(prompt: Seq<char>) -> Option<ShellReadView> {
    let p = trimmed(prompt);
    if p == "pwd"@ {
        Some(ShellReadView::Pwd)
    } else if p == "ls"@ {
        Some(ShellReadView::Ls("list files"@))
    } else {
        match without_prefix(p, "ls "@) {
            Some(rest) => if trimmed(rest).len() > 0 {
                Some(ShellReadView::Ls("list files in "@ + trimmed(rest)))
            } else {
                None
            },
            None => None,
        }
    }
}

pub fn parse_shell_read_command(prompt: &str) -> (r: Option<ShellReadCommand>)
    ensures
        opt_shell(r) == shell_read(prompt@),
{
    let p = trim(prompt);
    if same_text(p.as_str(), "pwd") {
        return Some(ShellReadCommand::Pwd);
    }
    if same_text(p.as_str(), "ls") {
        return Some(ShellReadCommand::Ls(copy_text("list files")));
    }
    match strip_prefix(p.as_str(), "ls ") {
        Some(rest) => {
            let path = trim(rest.as_str());
            if char_count(path.as_str()) > 0 {
                Some(ShellReadCommand::Ls(concat2("list files in ", path.as_str())))
            } else {
                None
            }
        },
        None => None,
    }
}

// ---------------------------------------------------------------------------
// Roots for prompts
// ---------------------------------------------------------------------------

/// The root for a task: the folder that it speaks of, else the chosen root, else
/// where the program runs.
pub open spec fn task_root(prompt: Seq<char>, selected: Option<Seq<char>>, place: PlaceView) -> Option<
    Seq<char>,
> {
    match natural_root(unicode_lower(prompt), place.home) {
        Some(root) => Some(root),
        None => match selected {
            Some(root) => Some(root),
            None => root_in(None, place),
        },
    }
}

pub fn task_root_for_prompt(
    prompt: &str,
    selected_root: Option<&str>,
    place: &Surroundings,
) -> (r: Option<String>)
    ensures
        opt_text(r) == task_root(prompt@, opt_str_text(selected_root), place@),
{
    if let Some(root) = infer_natural_root(prompt, opt_as_str(&place.home)) {
        return Some(root);
    }
    match selected_root {
        Some(root) => Some(copy_text(root)),
        None => workspace_root_in(None, place),
    }
}

/// A normal prompt that only goes on with the talk.
pub open spec fn is_chat_followup(n: Seq<char>) -> bool {
    ||| n == "hi"@
    ||| n == "hello"@
    ||| has_prefix(n, "does that "@)
    ||| has_prefix(n, "does this "@)
    ||| has_prefix(n, "what is a "@)
    ||| has_prefix(n, "what are "@)
    ||| has_prefix(n, "why "@)
    ||| has_prefix(n, "how "@)
    ||| has_prefix(n, "should "@)
    ||| has_prefix(n, "stay in touch"@)
}

pub fn is_workspace_chat_followup(prompt: &str) -> (r: bool)
    ensures
        r == is_chat_followup(prompt@),
{
    same_text(prompt, "hi") || same_text(prompt, "hello") || starts_with(prompt, "does that ")
        || starts_with(prompt, "does this ") || starts_with(prompt, "what is a ") || starts_with(
        prompt,
        "what are ",
    ) || starts_with(prompt, "why ") || starts_with(prompt, "how ") || starts_with(
        prompt,
        "should ",
    ) || starts_with(prompt, "stay in touch")
}

/// A word with which a request to look into the workspace starts.
pub open spec fn is_workspace_verb(w: Seq<char>) -> bool {
    w == "analyze"@ || w == "audit"@ || w == "inspect"@ || w == "list"@ || w == "read"@ || w
        == "review"@ || w == "scan"@ || w == "summarize"@
}

fn workspace_verb(w: &str) -> (r: bool)
    ensures
        r == is_workspace_verb(w@),
{
    same_text(w, "analyze") || same_text(w, "audit") || same_text(w, "inspect") || same_text(
        w,
        "list",
    ) || same_text(w, "read") || same_text(w, "review") || same_text(w, "scan") || same_text(
        w,
        "summarize",
    )
}

/// A phrase that asks about the workspace.
pub open spec fn has_workspace_phrase(n: Seq<char>) -> bool {
    ||| has_text(n, "repo structure"@)
    ||| has_text(n, "repository structure"@)
    ||| has_text(n, "project structure"@)
    ||| has_text(n, "codebase structure"@)
    ||| has_text(n, "main modules"@)
    ||| has_text(n, "list files"@)
    ||| has_text(n, "what is this repo trying to do"@)
    ||| has_text(n, "what is this repository trying to do"@)
    ||| has_text(n, "what is this project trying to do"@)
    ||| has_text(n, "tell me what this repo is trying to do"@)
    ||| has_text(n, "tell me what this project is trying to do"@)
}

fn workspace_phrase(n: &str) -> (r: bool)
    ensures
        r == has_workspace_phrase(n@),
{
    contains(n, "repo structure") || contains(n, "repository structure") || contains(
        n,
        "project structure",
    ) || contains(n, "codebase structure") || contains(n, "main modules") || contains(
        n,
        "list files",
    ) || contains(n, "what is this repo trying to do") || contains(
        n,
        "what is this repository trying to do",
    ) || contains(n, "what is this project trying to do") || contains(
        n,
        "tell me what this repo is trying to do",
    ) || contains(n, "tell me what this project is trying to do")
}

/// A normal prompt that is a request about the workspace.
pub open spec fn asks_workspace(n: Seq<char>) -> bool {
    &&& n.len() > 0
    &&& !is_chat_followup(n)
    &&& !has_text(n, "main branch"@)
    &&& words_ask_audit(words(normal_task(n))) || is_workspace_verb(first_word(n))
        || has_workspace_phrase(n)
}

/// Whether a prompt in its normal form is a request about the workspace.
pub fn is_workspace_request(normalized: &str) -> (r: bool)
    ensures
        r == asks_workspace(normalized@),
{
    if char_count(normalized) == 0 || is_workspace_chat_followup(normalized) || contains(
        normalized,
        "main branch",
    ) {
        return false;
    }
    if is_commit_audit_prompt(normalized) {
        return true;
    }
    let ws = split_whitespace(normalized);
    assert(texts(ws@).len() == ws.len());
    if ws.len() > 0 {
        assert(texts(ws@)[0] == ws@[0]@);
        if workspace_verb(ws[0].as_str()) {
            return true;
        }
    }
    proof {
        if ws.len() == 0 {
            reveal_strlit("analyze");
            reveal_strlit("audit");
            reveal_strlit("inspect");
            reveal_strlit("list");
            reveal_strlit("read");
            reveal_strlit("review");
            reveal_strlit("scan");
            reveal_strlit("summarize");
            assert(first_word(normalized@).len() == 0);
        }
    }
    workspace_phrase(normalized)
}

pub fn is_workspace_agent_prompt(prompt: &str) -> (r: bool)
    ensures
        r == asks_workspace(normal_prompt(prompt@)),
{
    is_workspace_request(normalize_prompt(prompt).as_str())
}

/// The root in which the agent takes up a prompt, if it does.
pub open spec fn workspace_root_for(
    prompt: Seq<char>,
    selected: Option<Seq<char>>,
    place: PlaceView,
) -> Option<Seq<char>> {
    if is_chat_followup(normal_prompt(prompt)) {
        None
    } else {
        match natural_root(unicode_lower(prompt), place.home) {
            Some(root) => Some(root),
            None => if asks_workspace(normal_prompt(prompt)) {
                root_in(selected, place)
            } else {
                None
            },
        }
    }
}

pub fn workspace_agent_root_for_prompt(
    prompt: &str,
    selected_root: Option<&str>,
    place: &Surroundings,
) -> (r: Option<String>)
    ensures
        opt_text(r) == workspace_root_for(prompt@, opt_str_text(selected_root), place@),
{
    if is_workspace_chat_followup(normalize_prompt(prompt).as_str()) {
        return None;
    }
    if let Some(root) = infer_natural_root(prompt, opt_as_str(&place.home)) {
        return Some(root);
    }
    if is_workspace_agent_prompt(prompt) {
        workspace_root_in(selected_root, place)
    } else {
        None
    }
}

// ---------------------------------------------------------------------------
// Turns
// ---------------------------------------------------------------------------

/// How a prompt is answered.
#[derive(Debug, PartialEq)]
pub enum TurnPlan {
    Agent { task: String, root: String },
    Chat { prompt: String },
}

pub enum TurnView {
    Agent { task: Seq<char>, root: Seq<char> },
    Chat { prompt: Seq<char> },
}

impl View for TurnPlan {
    type V = TurnView;

    open spec fn view(&self) -> TurnView {
        match *self {
            TurnPlan::Agent { task, root } => TurnView::Agent { task: task@, root: root@ },
            TurnPlan::Chat { prompt } => TurnView::Chat { prompt: prompt@ },
        }
    }
}

/// The agent's turn on a task, where it has a root and names nothing outside
/// it.
pub open spec fn agent_turn(task: Seq<char>, root: Option<Seq<char>>) -> Option<TurnView> {
    match root {
        Some(root) => if boundary_violation(task, root) is None {
            Some(TurnView::Agent { task, root })
        } else {
            None
        },
        None => None,
    }
}

/// How a prompt is answered once it is its turn: a task for the agent goes to
/// the agent, and so does a request about the workspace, unless routing is left
/// to confirmations; the rest is chat.
pub open spec fn docked_turn(
    prompt: Seq<char>,
    selected: Option<Seq<char>>,
    place: PlaceView,
    legacy: bool,
) -> TurnView {
    let direct = match agent_task(prompt) {
        Some(task) => agent_turn(task, task_root(task, selected, place)),
        None => None,
    };
    let routed = if legacy {
        None
    } else {
        agent_turn(prompt, workspace_root_for(prompt, selected, place))
    };
    match direct {
        Some(turn) => turn,
        None => match routed {
            Some(turn) => turn,
            None => TurnView::Chat { prompt },
        },
    }
}

pub fn plan_docked_turn(
    prompt: String,
    selected_root: Option<&str>,
    place: &Surroundings,
    legacy_routing: bool,
) -> (r: TurnPlan)
    ensures
        r@ == docked_turn(prompt@, opt_str_text(selected_root), place@, legacy_routing),
{
    if let Some(task) = parse_agent_task_command(prompt.as_str()) {
        if let Some(root) = task_root_for_prompt(task.as_str(), selected_root, place) {
            if path_boundary_violation(task.as_str(), root.as_str()).is_none() {
                return TurnPlan::Agent { task, root };
            }
        }
    }
    if !legacy_routing {
        if let Some(root) = workspace_agent_root_for_prompt(prompt.as_str(), selected_root, place) {
            if path_boundary_violation(prompt.as_str(), root.as_str()).is_none() {
                return TurnPlan::Agent { task: prompt, root };
            }
        }
    }
    TurnPlan::Chat { prompt }
}

// ---------------------------------------------------------------------------
// Laws
// ---------------------------------------------------------------------------

/// A turn that goes to the agent names nothing outside the root that it works
/// in.
pub proof fn law_agent_turns_stay_inside(
    prompt: Seq<char>,
    selected: Option<Seq<char>>,
    place: PlaceView,
    legacy: bool,
)
    ensures
        match docked_turn(prompt, selected, place, legacy) {
            TurnView::Agent { task, root } => boundary_violation(task, root) is None,
            TurnView::Chat { .. } => true,
        },
{
}

/// With confirmations asked for, only an explicit task reaches the agent.
pub proof fn law_legacy_routing_needs_a_command(
    prompt: Seq<char>,
    selected: Option<Seq<char>>,
    place: PlaceView,
)
    requires
        agent_task(prompt) is None,
    ensures
        docked_turn(prompt, selected, place, true) == (TurnView::Chat { prompt }),
{
}

/// A prompt that only goes on with the talk is never taken up by the agent.
pub proof fn law_followups_stay_in_chat(
    prompt: Seq<char>,
    selected: Option<Seq<char>>,
    place: PlaceView,
)
    requires
        is_chat_followup(normal_prompt(prompt)),
    ensures
        workspace_root_for(prompt, selected, place) is None,
        !asks_workspace(normal_prompt(prompt)),
{
}

/// A short answer is never both yes and no.
pub proof fn law_answers_are_distinct(p: Seq<char>)
    ensures
        !(is_yes(p) && is_no(p)),
{
    reveal_strlit("y");
    reveal_strlit("yes");
    reveal_strlit("yes agent");
    reveal_strlit("agent task");
    reveal_strlit("agent");
    reveal_strlit("n");
    reveal_strlit("no");
    assert(is_yes(p) ==> p[0] == 'y' || p[0] == 'a');
    assert(is_no(p) ==> p[0] == 'n');
}

} // verus!
