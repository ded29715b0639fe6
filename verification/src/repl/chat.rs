//! The docked chat: what follows from each line, choice and report. Drawing,
//! workers and files are outside; every decision is made here.
use vstd::prelude::*;

use crate::agent::types::{opt_request, AgentStep, ApprovalDecision, ApprovalRequest, RequestView, StepView};
use crate::input::approval::{ApprovalChoice, ApprovalScope};
use crate::intent::{boundary_violation, classify_intent, file_words, intent_of, is_task, names_path, normal_prompt, path_boundary_violation, recent_task_context, Intent};
use crate::paths::path_text;
use crate::provider::{assistant_message, messages_view, push_message, user_message, Message, MessageView};
use crate::repl::commands::{chat_command, parse_chat_command, ChatCommand, CommandParse, CommandView, FeaturesCommand, RuntimeCommand};
use crate::repl::navigation::opt_result;
use crate::repl::routing::{agent_route_confirmation, asks_previous_root, clarify_route_text, confirmation_text, docked_turn, is_agent_task_cancel_choice, is_agent_task_choice, is_cd_previous_request, is_no, is_yes, no_pending_agent_task_text, opt_as_str, parse_shell_read_command, plan_docked_turn, pwd_text, root_in, shell_pwd_text, shell_read, task_root, task_root_for_prompt, workspace_agent_root_for_prompt, workspace_root_for, workspace_root_in, PlaceView, ShellReadCommand, ShellReadView, Surroundings, TurnPlan, TurnView, CLARIFY_ROUTE_TEXT, NO_PENDING_AGENT_TASK_TEXT};
use crate::repl::stream::steps_view;
use crate::repl::turns::{answer_view, approval_decision_for_choice, approval_grant, approved_after, decision_for, grant, ApprovedSet, DrainOutcome, DrainOutcomeView};
use crate::session::{cap_messages, history_with_turn};
use crate::text::{char_count, concat3, copy_text, decimal_text, push_item, push_text, same_text, trim};
use crate::text::{decimal, lemma_texts_empty, opt_text, texts, trimmed};
use crate::workspace::{boundary_text, path_boundary_clarify_text, root_status, root_status_text};

verus! {

/// What the program is to do next, in order.
#[derive(Debug, PartialEq)]
pub enum ChatEffect {
    /// Print above the dock.
    Print(String),
    /// Start showing progress.
    StartScan,
    /// Start a turn.
    Spawn(TurnPlan),
    /// Ask the running turn to stop.
    CancelTurn,
    ClearProgress,
    FinishStream,
    ShowCursor,
    /// Open the dialog for a request.
    ShowApproval { tool: String, scope: ApprovalScope, summary: String },
    ClearApproval,
    /// Answer the request of the running turn.
    Reply(ApprovalDecision),
    /// Forget the saved agent root.
    ClearAgentRoot,
    /// Save the agent root.
    ApproveAgentRoot(String),
    /// Save the selected root, or that there is none.
    SaveRoot(Option<String>),
    /// Look up the argument of a root command and report back.
    ResolveRoot(String),
    ShowHelp,
    ShowStatus,
    ShowModels,
    Features(FeaturesCommand),
    Runtime(RuntimeCommand),
    Debug(Option<String>),
    SetModel(String),
    DeleteSession,
    SwitchToAgent,
    Leave,
}

pub enum EffectView {
    Print(Seq<char>),
    StartScan,
    Spawn(TurnView),
    CancelTurn,
    ClearProgress,
    FinishStream,
    ShowCursor,
    ShowApproval { tool: Seq<char>, scope: ApprovalScope, summary: Seq<char> },
    ClearApproval,
    Reply(ApprovalDecision),
    ClearAgentRoot,
    ApproveAgentRoot(Seq<char>),
    SaveRoot(Option<Seq<char>>),
    ResolveRoot(Seq<char>),
    ShowHelp,
    ShowStatus,
    ShowModels,
    Features(FeaturesCommand),
    Runtime(RuntimeCommand),
    Debug(Option<Seq<char>>),
    SetModel(Seq<char>),
    DeleteSession,
    SwitchToAgent,
    Leave,
}

impl View for ChatEffect {
    type V = EffectView;

    open spec fn view(&self) -> EffectView {
        match *self {
            ChatEffect::Print(s) => EffectView::Print(s@),
            ChatEffect::StartScan => EffectView::StartScan,
            ChatEffect::Spawn(turn) => EffectView::Spawn(turn@),
            ChatEffect::CancelTurn => EffectView::CancelTurn,
            ChatEffect::ClearProgress => EffectView::ClearProgress,
            ChatEffect::FinishStream => EffectView::FinishStream,
            ChatEffect::ShowCursor => EffectView::ShowCursor,
            ChatEffect::ShowApproval { tool, scope, summary } => EffectView::ShowApproval {
                tool: tool@,
                scope,
                summary: summary@,
            },
            ChatEffect::ClearApproval => EffectView::ClearApproval,
            ChatEffect::Reply(d) => EffectView::Reply(d),
            ChatEffect::ClearAgentRoot => EffectView::ClearAgentRoot,
            ChatEffect::ApproveAgentRoot(root) => EffectView::ApproveAgentRoot(root@),
            ChatEffect::SaveRoot(root) => EffectView::SaveRoot(opt_text(root)),
            ChatEffect::ResolveRoot(arg) => EffectView::ResolveRoot(arg@),
            ChatEffect::ShowHelp => EffectView::ShowHelp,
            ChatEffect::ShowStatus => EffectView::ShowStatus,
            ChatEffect::ShowModels => EffectView::ShowModels,
            ChatEffect::Features(c) => EffectView::Features(c),
            ChatEffect::Runtime(c) => EffectView::Runtime(c),
            ChatEffect::Debug(mode) => EffectView::Debug(opt_text(mode)),
            ChatEffect::SetModel(model) => EffectView::SetModel(model@),
            ChatEffect::DeleteSession => EffectView::DeleteSession,
            ChatEffect::SwitchToAgent => EffectView::SwitchToAgent,
            ChatEffect::Leave => EffectView::Leave,
        }
    }
}

pub open spec fn effects(v: Seq<ChatEffect>) -> Seq<EffectView> {
    Seq::new(v.len(), |i: int| v[i]@)
}

fn no_effects() -> (r: Vec<ChatEffect>)
    ensures
        effects(r@) == Seq::<EffectView>::empty(),
{
    let r: Vec<ChatEffect> = Vec::new();
    assert(effects(r@) =~= Seq::<EffectView>::empty());
    r
}

fn push_effect(out: &mut Vec<ChatEffect>, effect: ChatEffect)
    ensures
        effects(final(out)@) == effects(old(out)@).push(effect@),
{
    out.push(effect);
    assert(effects(out@) =~= effects(old(out)@).push(effect@));
}

fn one_effect(effect: ChatEffect) -> (r: Vec<ChatEffect>)
    ensures
        effects(r@) == seq![effect@],
{
    let mut out = no_effects();
    push_effect(&mut out, effect);
    assert(effects(out@) =~= seq![effect@]);
    out
}

fn print(text: String) -> (r: Vec<ChatEffect>)
    ensures
        effects(r@) == seq![EffectView::Print(text@)],
{
    one_effect(ChatEffect::Print(text))
}

/// A task that waits for the user's word.
#[derive(Debug, PartialEq)]
pub struct PendingAgentTask {
    pub prompt: String,
    pub root: String,
}

/// The state of a docked chat.
#[derive(Debug)]
pub struct ChatState {
    pub legacy_routing: bool,
    pub in_flight: bool,
    pub scanning: bool,
    pub queued: Vec<String>,
    pub memory: Vec<Message>,
    pub pending_task: Option<PendingAgentTask>,
    pub pending_approval: Option<ApprovalRequest>,
    pub approved: ApprovedSet,
    pub steps: Vec<AgentStep>,
    pub selected_root: Option<String>,
    pub previous_root: Option<String>,
    pub approved_agent_root: Option<String>,
}

#[verifier::ext_equal]
pub struct ChatView {
    pub legacy_routing: bool,
    pub in_flight: bool,
    pub scanning: bool,
    pub queued: Seq<Seq<char>>,
    pub memory: Seq<MessageView>,
    pub pending_task: Option<(Seq<char>, Seq<char>)>,
    pub pending_approval: Option<RequestView>,
    pub approved: Set<Seq<char>>,
    pub steps: Seq<StepView>,
    pub selected_root: Option<Seq<char>>,
    pub previous_root: Option<Seq<char>>,
    pub approved_agent_root: Option<Seq<char>>,
}

pub open spec fn opt_pending(o: Option<PendingAgentTask>) -> Option<(Seq<char>, Seq<char>)> {
    match o {
        Some(t) => Some((t.prompt@, t.root@)),
        None => None,
    }
}

impl ChatView {
    /// Prompts wait only while a turn is running, and a task that waits for the
    /// user names nothing outside its root.
    pub open spec fn wf(self) -> bool {
        &&& !self.in_flight ==> self.queued.len() == 0
        &&& match self.pending_task {
            Some((prompt, root)) => boundary_violation(prompt, root) is None,
            None => true,
        }
    }
}

/// What is known from outside when a line comes in: the surroundings, where the
/// line leads if it is a request to move, whether it names a file that exists,
/// and whether the approved agent root is the one that the task would run in.
#[derive(Debug)]
pub struct LineContext {
    pub place: Surroundings,
    pub navigation: Result<Option<String>, String>,
    pub names_existing_file: bool,
    pub agent_root_matches: bool,
}

pub struct ContextView {
    pub place: PlaceView,
    pub navigation: Result<Option<Seq<char>>, Seq<char>>,
    pub names_existing_file: bool,
    pub agent_root_matches: bool,
}

impl View for LineContext {
    type V = ContextView;

    open spec fn view(&self) -> ContextView {
        ContextView {
            place: self.place@,
            navigation: opt_result(self.navigation),
            names_existing_file: self.names_existing_file,
            agent_root_matches: self.agent_root_matches,
        }
    }
}

// ---------------------------------------------------------------------------
// What follows, as mathematics
// ---------------------------------------------------------------------------

pub open spec fn without_task(v: ChatView) -> ChatView {
    ChatView { pending_task: None, ..v }
}

pub open spec fn said(text: Seq<char>) -> Seq<EffectView> {
    seq![EffectView::Print(text)]
}

/// A turn begins.
pub open spec fn begun(v: ChatView) -> ChatView {
    ChatView { steps: Seq::empty(), scanning: true, in_flight: true, ..v }
}

pub open spec fn begin_effects(turn: TurnView) -> Seq<EffectView> {
    seq![EffectView::StartScan, EffectView::Spawn(turn)]
}

/// A prompt waits for the running turn.
pub open spec fn queued_up(v: ChatView, p: Seq<char>) -> (ChatView, Seq<EffectView>) {
    let w = ChatView { queued: v.queued.push(p), ..v };
    (w, said("queued: "@ + decimal(w.queued.len()) + " prompt(s)\n"@))
}

pub open spec fn unclear(v: ChatView) -> (ChatView, Seq<EffectView>) {
    (without_task(v), said(CLARIFY_ROUTE_TEXT@))
}

/// The agent takes up a task in a root; without one, and with a path outside
/// it, the user is asked instead. Whether a task that waits is dropped at the
/// start depends on `drops`.
pub open spec fn sent_to_agent(
    v: ChatView,
    task: Seq<char>,
    root: Option<Seq<char>>,
    drops: bool,
) -> (ChatView, Seq<EffectView>) {
    match root {
        None => unclear(v),
        Some(root) => match boundary_violation(task, root) {
            Some(path) => (without_task(v), said(boundary_text(root, path_text(path)))),
            None => (
                begun(if drops { without_task(v) } else { v }),
                begin_effects(TurnView::Agent { task, root }),
            ),
        },
    }
}

/// The root changes. What was approved for the agent does not carry over.
pub open spec fn moved_to(v: ChatView, root: Option<Seq<char>>, previous: Option<Seq<char>>) -> ChatView {
    ChatView {
        selected_root: root,
        previous_root: previous,
        approved_agent_root: None,
        pending_task: None,
        ..v
    }
}

pub open spec fn move_effects(root: Option<Seq<char>>, status: Seq<char>) -> Seq<EffectView> {
    seq![EffectView::ClearAgentRoot, EffectView::SaveRoot(root), EffectView::Print(status)]
}

/// The root that was left, kept unless nothing changes.
pub open spec fn left_root(v: ChatView, next: Option<Seq<char>>) -> Option<Seq<char>> {
    if v.selected_root != next {
        v.selected_root
    } else {
        v.previous_root
    }
}

/// What a command does.
pub open spec fn commanded(v: ChatView, p: Seq<char>, command: CommandView, place: PlaceView) -> (
    ChatView,
    Seq<EffectView>,
) {
    match command {
        CommandView::Exit => (v, seq![EffectView::Leave]),
        CommandView::End => (
            v,
            seq![EffectView::DeleteSession, EffectView::Print("session ended\n"@), EffectView::Leave],
        ),
        CommandView::Help => (v, seq![EffectView::ShowHelp]),
        CommandView::ChatMode => (without_task(v), said("mode: chat\n"@)),
        CommandView::SwitchToAgent => (
            v,
            seq![EffectView::Print("switching to agent mode\n"@), EffectView::SwitchToAgent],
        ),
        CommandView::DirectAgentTask(task) => if v.in_flight {
            queued_up(v, p)
        } else {
            sent_to_agent(v, task, task_root(task, v.selected_root, place), false)
        },
        CommandView::Status => (v, seq![EffectView::ShowStatus]),
        CommandView::Features(c) => (v, seq![EffectView::Features(c)]),
        CommandView::Root(None) => (
            v,
            said(root_status_text(root_in(v.selected_root, place), v.selected_root is Some)),
        ),
        CommandView::Root(Some(arg)) => (v, seq![EffectView::ResolveRoot(arg)]),
        CommandView::Runtime(c) => (v, seq![EffectView::Runtime(c)]),
        CommandView::Debug(mode) => (v, seq![EffectView::Debug(mode)]),
        CommandView::Model(None) => (v, seq![EffectView::ShowModels]),
        CommandView::Model(Some(model)) => (v, seq![EffectView::SetModel(model)]),
    }
}

/// The user confirms the task that waits.
pub open spec fn confirmed(v: ChatView) -> (ChatView, Seq<EffectView>) {
    match v.pending_task {
        Some((prompt, root)) => (
            begun(without_task(v)),
            seq![
                EffectView::ApproveAgentRoot(root),
                EffectView::Print(
                    "agent task accepted\nroot: "@ + root + "\npending: "@ + prompt + "\n"@,
                ),
            ] + begin_effects(TurnView::Agent { task: prompt, root }),
        ),
        None => (v, said(NO_PENDING_AGENT_TASK_TEXT@)),
    }
}

/// The user drops the task that waits.
pub open spec fn declined(v: ChatView) -> (ChatView, Seq<EffectView>) {
    match v.pending_task {
        Some(_) => (without_task(v), said("agent task cancelled\nmode: chat\n"@)),
        None => (v, said(NO_PENDING_AGENT_TASK_TEXT@)),
    }
}

/// The user goes back to the root before.
pub open spec fn went_back(v: ChatView) -> (ChatView, Seq<EffectView>) {
    match v.previous_root {
        Some(root) => (
            moved_to(v, Some(root), v.selected_root),
            move_effects(Some(root), root_status_text(Some(root), true)),
        ),
        None => (v, said("root error: no previous root\n"@)),
    }
}

/// A prompt about to be answered where confirmations are asked for.
pub open spec fn routed_by_intent(v: ChatView, p: Seq<char>, context: ContextView) -> (
    ChatView,
    Seq<EffectView>,
) {
    let intent = intent_of(
        normal_prompt(p),
        waits_task(v.queued),
        root_in(v.selected_root, context.place) is Some,
        names_path(file_words(p)) || context.names_existing_file,
    );
    match intent {
        Intent::Chat => (begun(v), begin_effects(TurnView::Chat { prompt: p })),
        Intent::Clarify => unclear(v),
        Intent::Task => match task_root(p, v.selected_root, context.place) {
            None => unclear(v),
            Some(root) => if boundary_violation(p, root) is None && !(v.approved_agent_root is Some
                && context.agent_root_matches) {
                (
                    ChatView { pending_task: Some((p, root)), ..v },
                    said(confirmation_text(root)),
                )
            } else {
                sent_to_agent(v, p, Some(root), true)
            },
        },
    }
}

/// One of the prompts that wait is a task.
pub open spec fn waits_task(queued: Seq<Seq<char>>) -> bool {
    exists|i: int| 0 <= i < queued.len() && is_task(normal_prompt(#[trigger] queued[i]), false)
}

/// A prompt that is no command and moves nothing is answered.
pub open spec fn routed(v: ChatView, p: Seq<char>, context: ContextView) -> (
    ChatView,
    Seq<EffectView>,
) {
    let root = workspace_root_for(p, v.selected_root, context.place);
    if v.in_flight {
        queued_up(v, p)
    } else if !v.legacy_routing {
        match root {
            Some(r) => match boundary_violation(p, r) {
                Some(path) => (without_task(v), said(boundary_text(r, path_text(path)))),
                None => (
                    begun(v),
                    begin_effects(docked_turn(p, v.selected_root, context.place, false)),
                ),
            },
            None => (
                begun(v),
                begin_effects(docked_turn(p, v.selected_root, context.place, false)),
            ),
        }
    } else {
        match root {
            Some(r) => sent_to_agent(v, p, Some(r), true),
            None => routed_by_intent(v, p, context),
        }
    }
}

/// A prompt that is no command.
pub open spec fn prompted(v: ChatView, p: Seq<char>, context: ContextView) -> (
    ChatView,
    Seq<EffectView>,
) {
    if asks_previous_root(p) {
        went_back(v)
    } else {
        match context.navigation {
            Ok(Some(root)) => (
                moved_to(v, Some(root), left_root(v, Some(root))),
                move_effects(Some(root), root_status_text(Some(root), true)),
            ),
            Err(error) => (v, said("root error: "@ + error + "\n"@)),
            Ok(None) => if is_yes(p) {
                confirmed(v)
            } else if is_no(p) {
                declined(v)
            } else {
                match shell_read(p) {
                    Some(ShellReadView::Pwd) => (
                        v,
                        said(pwd_text(root_in(v.selected_root, context.place))),
                    ),
                    Some(ShellReadView::Ls(task)) => if v.in_flight {
                        queued_up(v, p)
                    } else {
                        sent_to_agent(v, task, root_in(v.selected_root, context.place), true)
                    },
                    None => routed(v, p, context),
                }
            },
        }
    }
}

/// A line was handed in. Blank lines do nothing, and neither does any line
/// while a dialog is open.
pub open spec fn submitted(v: ChatView, line: Seq<char>, context: ContextView) -> (
    ChatView,
    Seq<EffectView>,
) {
    let p = trimmed(line);
    if p.len() == 0 || v.pending_approval is Some {
        (v, Seq::empty())
    } else {
        match chat_command(p) {
            CommandParse::Invalid(error) => (v, said("error: "@ + error.text() + "\n"@)),
            CommandParse::Valid(command) => commanded(v, p, command, context.place),
            CommandParse::NotACommand => prompted(v, p, context),
        }
    }
}

/// The argument of a root command was looked up.
pub open spec fn root_resolved(
    v: ChatView,
    found: Result<Option<Seq<char>>, Seq<char>>,
    place: PlaceView,
) -> (ChatView, Seq<EffectView>) {
    match found {
        Ok(next) => (
            moved_to(v, next, left_root(v, next)),
            move_effects(next, root_status_text(root_in(next, place), next is Some)),
        ),
        Err(error) => (v, said("root error: "@ + error + "\n"@)),
    }
}

/// The next prompt that waits gets its turn.
pub open spec fn next_turn(v: ChatView, place: PlaceView) -> (ChatView, Seq<EffectView>) {
    if v.queued.len() > 0 {
        (
            begun(ChatView { queued: v.queued.skip(1), ..v }),
            begin_effects(docked_turn(v.queued[0], v.selected_root, place, v.legacy_routing)),
        )
    } else {
        (v, Seq::empty())
    }
}

/// The running turn is over.
pub open spec fn turn_over(
    v: ChatView,
    result: Result<(Seq<char>, Seq<char>), Seq<char>>,
    place: PlaceView,
) -> (ChatView, Seq<EffectView>) {
    let w = ChatView { in_flight: false, scanning: false, steps: Seq::empty(), ..v };
    let (x, shown) = match result {
        Ok((prompt, response)) => (
            ChatView { memory: history_with_turn(w.memory, prompt, response), ..w },
            seq![EffectView::FinishStream],
        ),
        Err(error) => (
            w,
            seq![
                EffectView::ShowCursor,
                EffectView::ClearProgress,
                EffectView::Print("error: "@ + error + "\n"@),
            ],
        ),
    };
    let (y, more) = next_turn(x, place);
    (y, shown + more)
}

/// The running turn asks for approval. What was approved for the root before is
/// approved again; for anything else a dialog opens.
pub open spec fn approval_asked(v: ChatView, request: RequestView) -> (ChatView, Seq<EffectView>) {
    if v.approved.contains(grant(request.root, request.scope)) {
        (
            ChatView { scanning: true, ..v },
            seq![
                EffectView::Print(
                    "approval: auto-approved "@ + request.scope.label_text() + " for root\n"@,
                ),
                EffectView::Reply(ApprovalDecision::Approve),
                EffectView::StartScan,
            ],
        )
    } else {
        (
            ChatView { scanning: false, pending_approval: Some(request), ..v },
            seq![
                EffectView::ShowApproval {
                    tool: request.tool,
                    scope: request.scope,
                    summary: request.summary,
                },
            ],
        )
    }
}

/// A round of reports from the running turn has ended.
pub open spec fn reported(
    v: ChatView,
    outcome: DrainOutcomeView,
    streamed: bool,
    place: PlaceView,
) -> (ChatView, Seq<EffectView>) {
    match outcome {
        DrainOutcomeView::Approval(request) => {
            let (w, shown) = approval_asked(v, request);
            (ChatView { scanning: w.scanning && !streamed, ..w }, shown)
        },
        DrainOutcomeView::Complete(result) => turn_over(v, result, place),
        _ => (ChatView { scanning: v.scanning && !streamed, ..v }, Seq::empty()),
    }
}

/// What is said of a choice.
pub open spec fn choice_text(choice: ApprovalChoice, request: RequestView) -> Seq<char> {
    match choice {
        ApprovalChoice::ApproveOnce => "approval: approved "@ + request.tool + "\n"@,
        ApprovalChoice::ApproveForSession => "approval: approved "@ + request.scope.label_text()
            + " for root\n"@,
        ApprovalChoice::Reject => "approval: denied "@ + request.tool + "\n"@,
    }
}

/// The user chose in the dialog.
pub open spec fn chosen(v: ChatView, choice: ApprovalChoice) -> (ChatView, Seq<EffectView>) {
    match v.pending_approval {
        None => (v, seq![EffectView::ClearApproval]),
        Some(request) => (
            ChatView {
                pending_approval: None,
                scanning: true,
                approved: approved_after(v.approved, grant(request.root, request.scope), choice),
                ..v
            },
            seq![
                EffectView::ClearApproval,
                EffectView::Reply(decision_for(choice)),
                EffectView::Print(choice_text(choice, request)),
                EffectView::StartScan,
            ],
        ),
    }
}

/// The user stops the running turn, and with it what waits.
pub open spec fn cancelled(v: ChatView) -> (ChatView, Seq<EffectView>) {
    if v.in_flight {
        (
            ChatView {
                in_flight: false,
                scanning: false,
                steps: Seq::empty(),
                queued: Seq::empty(),
                ..v
            },
            seq![
                EffectView::CancelTurn,
                EffectView::ClearProgress,
                EffectView::FinishStream,
                EffectView::Print("cancelled current response\n"@),
            ],
        )
    } else {
        (v, Seq::empty())
    }
}

/// The state at the start, with the roots that the session had.
pub open spec fn fresh_chat(
    selected: Option<Seq<char>>,
    agent_root: Option<Seq<char>>,
    legacy: bool,
) -> ChatView {
    ChatView {
        legacy_routing: legacy,
        in_flight: false,
        scanning: false,
        queued: Seq::empty(),
        memory: Seq::empty(),
        pending_task: None,
        pending_approval: None,
        approved: Set::empty(),
        steps: Seq::empty(),
        selected_root: if selected is Some {
            selected
        } else {
            agent_root
        },
        previous_root: None,
        approved_agent_root: agent_root,
    }
}

// ---------------------------------------------------------------------------
// What follows, as code
// ---------------------------------------------------------------------------

fn copy_opt(o: &Option<String>) -> (r: Option<String>)
    ensures
        opt_text(r) == opt_text(*o),
{
    match o {
        Some(s) => Some(copy_text(s.as_str())),
        None => None,
    }
}

fn same_opt(a: &Option<String>, b: &Option<String>) -> (r: bool)
    ensures
        r == (opt_text(*a) == opt_text(*b)),
{
    match (a, b) {
        (Some(x), Some(y)) => same_text(x.as_str(), y.as_str()),
        (None, None) => true,
        _ => false,
    }
}

impl View for ChatState {
    type V = ChatView;

    open spec fn view(&self) -> ChatView {
        ChatView {
            legacy_routing: self.legacy_routing,
            in_flight: self.in_flight,
            scanning: self.scanning,
            queued: texts(self.queued@),
            memory: messages_view(self.memory@),
            pending_task: opt_pending(self.pending_task),
            pending_approval: opt_request(self.pending_approval),
            approved: self.approved@,
            steps: steps_view(self.steps@),
            selected_root: opt_text(self.selected_root),
            previous_root: opt_text(self.previous_root),
            approved_agent_root: opt_text(self.approved_agent_root),
        }
    }
}

impl ChatState {
    pub open spec fn wf(&self) -> bool {
        self@.wf() && self.approved.wf()
    }

    /// A chat that begins, with the roots that the session had.
    pub fn new(
        selected_root: Option<String>,
        agent_root: Option<String>,
        legacy_routing: bool,
    ) -> (r: ChatState)
        ensures
            r@ == fresh_chat(opt_text(selected_root), opt_text(agent_root), legacy_routing),
            r.wf(),
    {
        broadcast use lemma_texts_empty;

        let selected = match selected_root {
            Some(root) => Some(root),
            None => copy_opt(&agent_root),
        };
        let r = ChatState {
            legacy_routing,
            in_flight: false,
            scanning: false,
            queued: Vec::new(),
            memory: Vec::new(),
            pending_task: None,
            pending_approval: None,
            approved: ApprovedSet::new(),
            steps: Vec::new(),
            selected_root: selected,
            previous_root: None,
            approved_agent_root: agent_root,
        };
        assert(messages_view(r.memory@) =~= Seq::empty());
        assert(steps_view(r.steps@) =~= Seq::empty());
        r
    }

    /// Takes over the routing setting.
    pub fn set_legacy_routing(&mut self, enabled: bool)
        requires
            old(self).wf(),
        ensures
            final(self)@ == (ChatView { legacy_routing: enabled, ..old(self)@ }),
            final(self).wf(),
    {
        self.legacy_routing = enabled;
        assert(self@ =~= (ChatView { legacy_routing: enabled, ..old(self)@ }));
    }

    /// Progress is shown while a turn runs that has not answered yet, unless a
    /// dialog is open.
    pub fn shows_progress(&self) -> (r: bool)
        ensures
            r == (self@.in_flight && self@.pending_approval is None && self@.scanning),
    {
        self.in_flight && self.pending_approval.is_none() && self.scanning
    }

    fn drop_task(&mut self)
        ensures
            final(self)@ == without_task(old(self)@),
            final(self).approved == old(self).approved,
    {
        self.pending_task = None;
        assert(self@ =~= without_task(old(self)@));
    }

    fn begin(&mut self, turn: TurnPlan) -> (r: Vec<ChatEffect>)
        ensures
            final(self)@ == begun(old(self)@),
            final(self).approved == old(self).approved,
            effects(r@) == begin_effects(turn@),
    {
        self.steps = Vec::new();
        self.scanning = true;
        self.in_flight = true;
        assert(steps_view(self.steps@) =~= Seq::empty());
        assert(self@ =~= begun(old(self)@));
        let mut out = one_effect(ChatEffect::StartScan);
        push_effect(&mut out, ChatEffect::Spawn(turn));
        assert(effects(out@) =~= begin_effects(turn@));
        out
    }

    fn queue_up(&mut self, p: &str) -> (r: Vec<ChatEffect>)
        ensures
            (final(self)@, effects(r@)) == queued_up(old(self)@, p@),
            final(self).approved == old(self).approved,
    {
        push_item(&mut self.queued, copy_text(p));
        let ghost want = queued_up(old(self)@, p@);
        assert(self@ =~= want.0);
        assert(texts(self.queued@).len() == self.queued.len());
        let n = decimal_text(self.queued.len() as u64);
        print(concat3("queued: ", n.as_str(), " prompt(s)\n"))
    }

    fn ask_what(&mut self) -> (r: Vec<ChatEffect>)
        ensures
            (final(self)@, effects(r@)) == unclear(old(self)@),
            final(self).approved == old(self).approved,
    {
        self.drop_task();
        print(clarify_route_text())
    }

    fn send_to_agent(&mut self, task: &str, root: Option<String>, drops: bool) -> (r: Vec<
        ChatEffect,
    >)
        ensures
            (final(self)@, effects(r@)) == sent_to_agent(old(self)@, task@, opt_text(root), drops),
            final(self).approved == old(self).approved,
    {
        let root = match root {
            None => return self.ask_what(),
            Some(root) => root,
        };
        if let Some(path) = path_boundary_violation(task, root.as_str()) {
            self.drop_task();
            return print(path_boundary_clarify_text(root.as_str(), path.as_str()));
        }
        if drops {
            self.drop_task();
        }
        self.begin(TurnPlan::Agent { task: copy_text(task), root })
    }

    fn move_to(
        &mut self,
        root: Option<String>,
        previous: Option<String>,
        status: String,
    ) -> (r: Vec<ChatEffect>)
        ensures
            final(self)@ == moved_to(old(self)@, opt_text(root), opt_text(previous)),
            final(self).approved == old(self).approved,
            effects(r@) == move_effects(opt_text(root), status@),
    {
        let saved = copy_opt(&root);
        let ghost want = moved_to(old(self)@, opt_text(root), opt_text(previous));
        let ghost shown = move_effects(opt_text(root), status@);
        self.selected_root = root;
        self.previous_root = previous;
        self.approved_agent_root = None;
        self.pending_task = None;
        assert(self@ =~= want);
        let mut out = one_effect(ChatEffect::ClearAgentRoot);
        push_effect(&mut out, ChatEffect::SaveRoot(saved));
        push_effect(&mut out, ChatEffect::Print(status));
        assert(effects(out@) =~= shown);
        out
    }

    fn root_left(&self, next: &Option<String>) -> (r: Option<String>)
        ensures
            opt_text(r) == left_root(self@, opt_text(*next)),
    {
        if same_opt(&self.selected_root, next) {
            copy_opt(&self.previous_root)
        } else {
            copy_opt(&self.selected_root)
        }
    }

    fn on_command(&mut self, p: &str, command: ChatCommand, place: &Surroundings) -> (r: Vec<
        ChatEffect,
    >)
        requires
            old(self).approved.wf(),
        ensures
            (final(self)@, effects(r@)) == commanded(old(self)@, p@, command@, place@),
            final(self).approved == old(self).approved,
    {
        match command {
            ChatCommand::Exit => one_effect(ChatEffect::Leave),
            ChatCommand::End => {
                let mut out = one_effect(ChatEffect::DeleteSession);
                push_effect(&mut out, ChatEffect::Print(copy_text("session ended\n")));
                push_effect(&mut out, ChatEffect::Leave);
                assert(effects(out@) =~= commanded(old(self)@, p@, command@, place@).1);
                out
            },
            ChatCommand::Help => one_effect(ChatEffect::ShowHelp),
            ChatCommand::ChatMode => {
                self.drop_task();
                print(copy_text("mode: chat\n"))
            },
            ChatCommand::SwitchToAgent => {
                let mut out = print(copy_text("switching to agent mode\n"));
                push_effect(&mut out, ChatEffect::SwitchToAgent);
                assert(effects(out@) =~= commanded(old(self)@, p@, command@, place@).1);
                out
            },
            ChatCommand::DirectAgentTask(task) => {
                if self.in_flight {
                    return self.queue_up(p);
                }
                let root = task_root_for_prompt(
                    task.as_str(),
                    opt_as_str(&self.selected_root),
                    place,
                );
                self.send_to_agent(task.as_str(), root, false)
            },
            ChatCommand::Status => one_effect(ChatEffect::ShowStatus),
            ChatCommand::Features(c) => one_effect(ChatEffect::Features(c)),
            ChatCommand::Root(arg) => match arg {
                None => {
                    let root = workspace_root_in(opt_as_str(&self.selected_root), place);
                    print(root_status(opt_as_str(&root), self.selected_root.is_some()))
                },
                Some(arg) => one_effect(ChatEffect::ResolveRoot(arg)),
            },
            ChatCommand::Runtime(c) => one_effect(ChatEffect::Runtime(c)),
            ChatCommand::Debug(mode) => one_effect(ChatEffect::Debug(mode)),
            ChatCommand::Model(model) => match model {
                None => one_effect(ChatEffect::ShowModels),
                Some(model) => one_effect(ChatEffect::SetModel(model)),
            },
        }
    }

    fn confirm(&mut self) -> (r: Vec<ChatEffect>)
        ensures
            (final(self)@, effects(r@)) == confirmed(old(self)@),
            final(self).approved == old(self).approved,
    {
        let (prompt, root) = match &self.pending_task {
            None => return print(no_pending_agent_task_text()),
            Some(task) => (copy_text(task.prompt.as_str()), copy_text(task.root.as_str())),
        };
        let mut text = concat3("agent task accepted\nroot: ", root.as_str(), "\npending: ");
        push_text(&mut text, prompt.as_str());
        push_text(&mut text, "\n");
        let mut out = one_effect(ChatEffect::ApproveAgentRoot(copy_text(root.as_str())));
        push_effect(&mut out, ChatEffect::Print(text));
        self.drop_task();
        let ghost turn = TurnView::Agent { task: prompt@, root: root@ };
        let begin = self.begin(TurnPlan::Agent { task: prompt, root });
        let all = append(out, begin);
        assert(effects(all@) =~= confirmed(old(self)@).1);
        all
    }

    fn decline(&mut self) -> (r: Vec<ChatEffect>)
        ensures
            (final(self)@, effects(r@)) == declined(old(self)@),
            final(self).approved == old(self).approved,
    {
        if self.pending_task.is_some() {
            self.drop_task();
            print(copy_text("agent task cancelled\nmode: chat\n"))
        } else {
            print(no_pending_agent_task_text())
        }
    }

    fn go_back(&mut self) -> (r: Vec<ChatEffect>)
        ensures
            (final(self)@, effects(r@)) == went_back(old(self)@),
            final(self).approved == old(self).approved,
    {
        let root = match &self.previous_root {
            None => return print(copy_text("root error: no previous root\n")),
            Some(root) => copy_text(root.as_str()),
        };
        let status = root_status(Some(root.as_str()), true);
        let left = copy_opt(&self.selected_root);
        self.move_to(Some(root), left, status)
    }

    fn route_by_intent(&mut self, p: &str, context: &LineContext) -> (r: Vec<ChatEffect>)
        ensures
            (final(self)@, effects(r@)) == routed_by_intent(old(self)@, p@, context@),
            final(self).approved == old(self).approved,
    {
        let recent = recent_task_context(&self.queued);
        assert(recent == waits_task(self@.queued)) by {
            let queued = self.queued@;
            let all = texts(queued);
            if recent {
                let i = choose|i: int|
                    0 <= i < queued.len() && is_task(normal_prompt(#[trigger] queued[i]@), false);
                assert(is_task(normal_prompt(all[i]), false));
            }
            if waits_task(all) {
                let i = choose|i: int|
                    0 <= i < all.len() && is_task(normal_prompt(#[trigger] all[i]), false);
                assert(is_task(normal_prompt(queued[i]@), false));
            }
        }
        let place = &context.place;
        let root = workspace_root_in(opt_as_str(&self.selected_root), place);
        match classify_intent(p, recent, opt_as_str(&root), context.names_existing_file) {
            Intent::Chat => self.begin(TurnPlan::Chat { prompt: copy_text(p) }),
            Intent::Clarify => self.ask_what(),
            Intent::Task => {
                let root = match task_root_for_prompt(p, opt_as_str(&self.selected_root), place) {
                    None => return self.ask_what(),
                    Some(root) => root,
                };
                let matches = self.approved_agent_root.is_some() && context.agent_root_matches;
                if path_boundary_violation(p, root.as_str()).is_none() && !matches {
                    let text = agent_route_confirmation(root.as_str());
                    self.pending_task = Some(PendingAgentTask { prompt: copy_text(p), root });
                    assert(self@ =~= routed_by_intent(old(self)@, p@, context@).0);
                    return print(text);
                }
                self.send_to_agent(p, Some(root), true)
            },
        }
    }

    fn route(&mut self, p: &str, context: &LineContext) -> (r: Vec<ChatEffect>)
        ensures
            (final(self)@, effects(r@)) == routed(old(self)@, p@, context@),
            final(self).approved == old(self).approved,
    {
        if self.in_flight {
            return self.queue_up(p);
        }
        let place = &context.place;
        let root = workspace_agent_root_for_prompt(p, opt_as_str(&self.selected_root), place);
        if !self.legacy_routing {
            if let Some(r) = &root {
                if let Some(path) = path_boundary_violation(p, r.as_str()) {
                    self.drop_task();
                    return print(path_boundary_clarify_text(r.as_str(), path.as_str()));
                }
            }
            let turn = plan_docked_turn(copy_text(p), opt_as_str(&self.selected_root), place, false);
            return self.begin(turn);
        }
        match root {
            Some(r) => self.send_to_agent(p, Some(r), true),
            None => self.route_by_intent(p, context),
        }
    }

    fn on_prompt(&mut self, p: &str, context: &LineContext) -> (r: Vec<ChatEffect>)
        ensures
            (final(self)@, effects(r@)) == prompted(old(self)@, p@, context@),
            final(self).approved == old(self).approved,
    {
        if is_cd_previous_request(p) {
            return self.go_back();
        }
        match &context.navigation {
            Ok(Some(root)) => {
                let next = Some(copy_text(root.as_str()));
                let status = root_status(Some(root.as_str()), true);
                let left = self.root_left(&next);
                return self.move_to(next, left, status);
            },
            Err(error) => {
                return print(concat3("root error: ", error.as_str(), "\n"));
            },
            Ok(None) => {},
        }
        if is_agent_task_choice(p) {
            return self.confirm();
        }
        if is_agent_task_cancel_choice(p) {
            return self.decline();
        }
        match parse_shell_read_command(p) {
            Some(ShellReadCommand::Pwd) => {
                let root = workspace_root_in(opt_as_str(&self.selected_root), &context.place);
                print(shell_pwd_text(opt_as_str(&root)))
            },
            Some(ShellReadCommand::Ls(task)) => {
                if self.in_flight {
                    return self.queue_up(p);
                }
                let root = workspace_root_in(opt_as_str(&self.selected_root), &context.place);
                self.send_to_agent(task.as_str(), root, true)
            },
            None => self.route(p, context),
        }
    }

    /// A line was handed in.
    pub fn on_submit(&mut self, line: &str, context: &LineContext) -> (r: Vec<ChatEffect>)
        requires
            old(self).wf(),
        ensures
            (final(self)@, effects(r@)) == submitted(old(self)@, line@, context@),
            final(self).wf(),
    {
        let p = trim(line);
        if char_count(p.as_str()) == 0 || self.pending_approval.is_some() {
            return no_effects();
        }
        let r = match parse_chat_command(p.as_str()) {
            CommandParse::Invalid(error) => print(concat3("error: ", error.message(), "\n")),
            CommandParse::Valid(command) => self.on_command(p.as_str(), command, &context.place),
            CommandParse::NotACommand => self.on_prompt(p.as_str(), context),
        };
        r
    }

    /// The argument of a root command was looked up.
    pub fn on_root_resolved(
        &mut self,
        found: Result<Option<String>, String>,
        place: &Surroundings,
    ) -> (r: Vec<ChatEffect>)
        requires
            old(self).wf(),
        ensures
            (final(self)@, effects(r@)) == root_resolved(old(self)@, opt_result(found), place@),
            final(self).wf(),
    {
        match found {
            Ok(next) => {
                let root = workspace_root_in(opt_as_str(&next), place);
                let status = root_status(opt_as_str(&root), next.is_some());
                let left = self.root_left(&next);
                self.move_to(next, left, status)
            },
            Err(error) => print(concat3("root error: ", error.as_str(), "\n")),
        }
    }

    fn start_next(&mut self, place: &Surroundings) -> (r: Vec<ChatEffect>)
        ensures
            (final(self)@, effects(r@)) == next_turn(old(self)@, place@),
            final(self).approved == old(self).approved,
    {
        let ghost all = self@.queued;
        assert(all.len() == self.queued.len());
        if self.queued.len() == 0 {
            return no_effects();
        }
        let next = self.queued.remove(0);
        assert(next@ == all[0]);
        assert(self@.queued =~= all.skip(1));
        assert(self@ =~= (ChatView { queued: all.skip(1), ..old(self)@ }));
        let turn = plan_docked_turn(
            next,
            opt_as_str(&self.selected_root),
            place,
            self.legacy_routing,
        );
        self.begin(turn)
    }

    fn on_turn_over(&mut self, result: Result<(String, String), String>, place: &Surroundings) -> (r:
        Vec<ChatEffect>)
        ensures
            (final(self)@, effects(r@)) == turn_over(old(self)@, answer_view(result), place@),
            final(self).approved == old(self).approved,
    {
        self.in_flight = false;
        self.scanning = false;
        self.steps = Vec::new();
        assert(steps_view(self.steps@) =~= Seq::empty());
        let ghost settled = ChatView {
            in_flight: false,
            scanning: false,
            steps: Seq::empty(),
            ..old(self)@
        };
        assert(self@ =~= settled);
        let shown = match result {
            Ok((prompt, response)) => {
                let mut memory: Vec<Message> = Vec::new();
                std::mem::swap(&mut memory, &mut self.memory);
                push_message(&mut memory, user_message(prompt.as_str()));
                push_message(&mut memory, assistant_message(response.as_str()));
                self.memory = cap_messages(memory);
                assert(self@ =~= (ChatView {
                    memory: history_with_turn(settled.memory, prompt@, response@),
                    ..settled
                }));
                one_effect(ChatEffect::FinishStream)
            },
            Err(error) => {
                let mut out = one_effect(ChatEffect::ShowCursor);
                push_effect(&mut out, ChatEffect::ClearProgress);
                push_effect(
                    &mut out,
                    ChatEffect::Print(concat3("error: ", error.as_str(), "\n")),
                );
                assert(effects(out@) =~= seq![
                    EffectView::ShowCursor,
                    EffectView::ClearProgress,
                    EffectView::Print("error: "@ + error@ + "\n"@),
                ]);
                out
            },
        };
        let more = self.start_next(place);
        append(shown, more)
    }

    fn on_approval_asked(&mut self, request: ApprovalRequest) -> (r: Vec<ChatEffect>)
        ensures
            (final(self)@, effects(r@)) == approval_asked(old(self)@, request@),
            final(self).approved == old(self).approved,
    {
        let key = approval_grant(request.root.as_str(), request.scope);
        if self.approved.contains(key.as_str()) {
            self.scanning = true;
            assert(self@ =~= (ChatView { scanning: true, ..old(self)@ }));
            let mut out = print(
                concat3("approval: auto-approved ", request.scope.label(), " for root\n"),
            );
            push_effect(&mut out, ChatEffect::Reply(ApprovalDecision::Approve));
            push_effect(&mut out, ChatEffect::StartScan);
            assert(effects(out@) =~= approval_asked(old(self)@, request@).1);
            out
        } else {
            let shown = one_effect(
                ChatEffect::ShowApproval {
                    tool: copy_text(request.tool.as_str()),
                    scope: request.scope,
                    summary: copy_text(request.summary.as_str()),
                },
            );
            self.scanning = false;
            self.pending_approval = Some(request);
            assert(self@ =~= approval_asked(old(self)@, request@).0);
            shown
        }
    }

    /// A round of reports from the running turn has ended.
    pub fn on_reported(
        &mut self,
        outcome: DrainOutcome,
        streamed: bool,
        place: &Surroundings,
    ) -> (r: Vec<ChatEffect>)
        requires
            old(self).wf(),
        ensures
            (final(self)@, effects(r@)) == reported(old(self)@, outcome@, streamed, place@),
            final(self).wf(),
    {
        match outcome {
            DrainOutcome::Approval(request) => {
                let shown = self.on_approval_asked(request);
                let ghost before = self@;
                if streamed {
                    self.scanning = false;
                }
                assert(self@ =~= (ChatView { scanning: before.scanning && !streamed, ..before }));
                shown
            },
            DrainOutcome::Complete(result) => self.on_turn_over(result, place),
            _ => {
                if streamed {
                    self.scanning = false;
                }
                assert(self@ =~= (ChatView {
                    scanning: old(self)@.scanning && !streamed,
                    ..old(self)@
                }));
                no_effects()
            },
        }
    }

    /// The user chose in the dialog.
    pub fn on_choice(&mut self, choice: ApprovalChoice) -> (r: Vec<ChatEffect>)
        requires
            old(self).wf(),
        ensures
            (final(self)@, effects(r@)) == chosen(old(self)@, choice),
            final(self).wf(),
    {
        let request = match &self.pending_approval {
            None => return one_effect(ChatEffect::ClearApproval),
            Some(request) => request.copy(),
        };
        let key = approval_grant(request.root.as_str(), request.scope);
        let decision = approval_decision_for_choice(key.as_str(), choice, &mut self.approved);
        self.pending_approval = None;
        self.scanning = true;
        assert(self@ =~= chosen(old(self)@, choice).0);
        let text = match choice {
            ApprovalChoice::ApproveOnce => concat3(
                "approval: approved ",
                request.tool.as_str(),
                "\n",
            ),
            ApprovalChoice::ApproveForSession => concat3(
                "approval: approved ",
                request.scope.label(),
                " for root\n",
            ),
            ApprovalChoice::Reject => concat3("approval: denied ", request.tool.as_str(), "\n"),
        };
        let mut out = one_effect(ChatEffect::ClearApproval);
        push_effect(&mut out, ChatEffect::Reply(decision));
        push_effect(&mut out, ChatEffect::Print(text));
        push_effect(&mut out, ChatEffect::StartScan);
        assert(effects(out@) =~= chosen(old(self)@, choice).1);
        out
    }

    /// The user stops the running turn.
    pub fn on_cancel(&mut self) -> (r: Vec<ChatEffect>)
        requires
            old(self).wf(),
        ensures
            (final(self)@, effects(r@)) == cancelled(old(self)@),
            final(self).wf(),
    {
        broadcast use lemma_texts_empty;

        if !self.in_flight {
            return no_effects();
        }
        self.in_flight = false;
        self.scanning = false;
        self.steps = Vec::new();
        self.queued = Vec::new();
        assert(steps_view(self.steps@) =~= Seq::empty());
        assert(self@ =~= cancelled(old(self)@).0);
        let mut out = one_effect(ChatEffect::CancelTurn);
        push_effect(&mut out, ChatEffect::ClearProgress);
        push_effect(&mut out, ChatEffect::FinishStream);
        push_effect(&mut out, ChatEffect::Print(copy_text("cancelled current response\n")));
        assert(effects(out@) =~= cancelled(old(self)@).1);
        out
    }
}

/// One list of effects, and another behind it.
fn append(first: Vec<ChatEffect>, second: Vec<ChatEffect>) -> (r: Vec<ChatEffect>)
    ensures
        effects(r@) == effects(first@) + effects(second@),
{
    let mut out = first;
    let mut rest = second;
    out.append(&mut rest);
    assert(effects(out@) =~= effects(first@) + effects(second@));
    out
}

} // verus!
