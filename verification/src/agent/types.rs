//! The settings, requests and results of an agent run.
use vstd::prelude::*;

use crate::agent::approval_text::{patch_summary, patch_summary_text, shell_summary, shell_summary_text};
use crate::agent::decision::{ToolCall, ToolView};
use crate::cancel::CancellationToken;
use crate::input::approval::ApprovalScope;
use crate::json::{string_member, Json, JsonView};
use crate::text::{concat3, copy_text, decimal_text, same_text};
use crate::text::decimal;

verus! {

pub const MAX_TOOL_CHARS: usize = 12_000;

pub const DEFAULT_MAX_STEPS: usize = 1000;

/// Where an agent works and how many steps it may take; one at least.
#[derive(Debug)]
pub struct AgentConfig {
    pub root: String,
    pub max_steps: usize,
}

impl AgentConfig {
    pub fn new(root: String, max_steps: usize) -> (r: AgentConfig)
        ensures
            r.root@ == root@,
            r.max_steps == if max_steps < 1 { 1 } else { max_steps },
    {
        AgentConfig {
            root,
            max_steps: if max_steps < 1 {
                1
            } else {
                max_steps
            },
        }
    }
}

/// How the tools that need approval are treated.
#[derive(Debug, Clone, Copy, PartialEq, Eq, Structural)]
pub enum ApprovalMode {
    Interactive,
    Deny,
    Approved,
    External,
}

#[derive(Debug, Clone, Copy, PartialEq, Eq, Structural)]
pub enum ApprovalDecision {
    Approve,
    ApproveForSession,
    Deny,
}

/// How the model is asked.
#[derive(Debug, Clone, Copy, PartialEq, Eq, Structural)]
pub enum AgentChatRoute {
    Standard,
    Quiet,
    Cancelled,
    QuietCancelled,
}

impl AgentChatRoute {
    pub fn from_options(quiet_cache: bool, has_cancel: bool) -> (r: AgentChatRoute)
        ensures
            r is Standard <==> !quiet_cache && !has_cancel,
            r is Quiet <==> quiet_cache && !has_cancel,
            r is Cancelled <==> !quiet_cache && has_cancel,
            r is QuietCancelled <==> quiet_cache && has_cancel,
    {
        match (quiet_cache, has_cancel) {
            (false, false) => AgentChatRoute::Standard,
            (true, false) => AgentChatRoute::Quiet,
            (false, true) => AgentChatRoute::Cancelled,
            (true, true) => AgentChatRoute::QuietCancelled,
        }
    }
}

/// How an agent is run.
pub struct AgentRunOptions {
    pub config: AgentConfig,
    pub approval: ApprovalMode,
    pub quiet: bool,
    pub token: Option<CancellationToken>,
}

impl AgentRunOptions {
    pub fn new(config: AgentConfig) -> (r: AgentRunOptions)
        ensures
            r.config == config,
            r.approval == ApprovalMode::Interactive,
            !r.quiet,
            r.token is None,
    {
        AgentRunOptions { config, approval: ApprovalMode::Interactive, quiet: false, token: None }
    }

    pub fn approval_mode(self, approval_mode: ApprovalMode) -> (r: AgentRunOptions)
        ensures
            r == (AgentRunOptions { approval: approval_mode, ..self }),
    {
        AgentRunOptions {
            config: self.config,
            approval: approval_mode,
            quiet: self.quiet,
            token: self.token,
        }
    }

    pub fn quiet_cache(self, quiet_cache: bool) -> (r: AgentRunOptions)
        ensures
            r == (AgentRunOptions { quiet: quiet_cache, ..self }),
    {
        AgentRunOptions {
            config: self.config,
            approval: self.approval,
            quiet: quiet_cache,
            token: self.token,
        }
    }

    pub fn cancel(self, cancel: CancellationToken) -> (r: AgentRunOptions)
        ensures
            r == (AgentRunOptions { token: Some(cancel), ..self }),
    {
        AgentRunOptions {
            config: self.config,
            approval: self.approval,
            quiet: self.quiet,
            token: Some(cancel),
        }
    }

    pub fn chat_route(&self) -> (r: AgentChatRoute)
        ensures
            r is Standard <==> !self.quiet && self.token is None,
            r is Quiet <==> self.quiet && self.token is None,
            r is Cancelled <==> !self.quiet && self.token is Some,
            r is QuietCancelled <==> self.quiet && self.token is Some,
    {
        AgentChatRoute::from_options(self.quiet, self.token.is_some())
    }
}

/// What a finished run came to.
#[derive(Debug)]
pub struct AgentOutcome {
    pub answer: String,
    pub steps: usize,
    pub transcript_path: String,
}

/// One tool of one step.
#[derive(Debug, PartialEq)]
pub struct AgentStep {
    pub step: usize,
    pub item: Option<usize>,
    pub total: usize,
    pub tool: String,
}

#[verifier::ext_equal]
pub struct StepView {
    pub step: int,
    pub item: Option<int>,
    pub total: int,
    pub tool: Seq<char>,
}

pub open spec fn opt_usize(o: Option<usize>) -> Option<int> {
    match o {
        Some(n) => Some(n as int),
        None => None,
    }
}

impl StepView {
    /// The number of the step, with that of the item where there are several.
    pub open spec fn label_text(self) -> Seq<char> {
        match self.item {
            Some(item) => decimal(self.step as nat) + "."@ + decimal(item as nat),
            None => decimal(self.step as nat),
        }
    }
}

impl View for AgentStep {
    type V = StepView;

    open spec fn view(&self) -> StepView {
        StepView {
            step: self.step as int,
            item: opt_usize(self.item),
            total: self.total as int,
            tool: self.tool@,
        }
    }
}

impl AgentStep {
    pub fn label(&self) -> (r: String)
        ensures
            r@ == self@.label_text(),
    {
        let step = decimal_text(self.step as u64);
        match self.item {
            Some(item) => concat3(step.as_str(), ".", decimal_text(item as u64).as_str()),
            None => step,
        }
    }
}

/// A request to the user to let a tool run.
#[derive(Debug, PartialEq)]
pub struct ApprovalRequest {
    pub step: usize,
    pub tool: String,
    pub scope: ApprovalScope,
    pub root: String,
    pub summary: String,
}

#[verifier::ext_equal]
pub struct RequestView {
    pub step: int,
    pub tool: Seq<char>,
    pub scope: ApprovalScope,
    pub root: Seq<char>,
    pub summary: Seq<char>,
}

pub open spec fn opt_request(o: Option<ApprovalRequest>) -> Option<RequestView> {
    match o {
        Some(r) => Some(r@),
        None => None,
    }
}

impl View for ApprovalRequest {
    type V = RequestView;

    open spec fn view(&self) -> RequestView {
        RequestView {
            step: self.step as int,
            tool: self.tool@,
            scope: self.scope,
            root: self.root@,
            summary: self.summary@,
        }
    }
}

impl ApprovalRequest {
    pub fn copy(&self) -> (r: ApprovalRequest)
        ensures
            r@ == self@,
    {
        ApprovalRequest {
            step: self.step,
            tool: copy_text(self.tool.as_str()),
            scope: self.scope,
            root: copy_text(self.root.as_str()),
            summary: copy_text(self.summary.as_str()),
        }
    }
}

/// The text of an argument, or what stands for it when it is missing.
pub open spec fn argument_or(
    arguments: JsonView,
    key: Seq<char>,
    otherwise: Seq<char>,
) -> Seq<char> {
    match string_member(arguments, key) {
        Some(s) => s,
        None => otherwise,
    }
}

pub fn argument_text(arguments: &Json, key: &str, otherwise: &str) -> (r: String)
    ensures
        r@ == argument_or(arguments@, key@, otherwise@),
{
    match arguments.get_str(key) {
        Some(s) => copy_text(s.as_str()),
        None => copy_text(otherwise),
    }
}

/// What an approval of the tool covers; only shell commands and patches need
/// one.
pub open spec fn gate_of(tool: Seq<char>) -> Option<ApprovalScope> {
    if tool == "run_shell"@ {
        Some(ApprovalScope::Shell)
    } else if tool == "propose_patch"@ {
        Some(ApprovalScope::Write)
    } else {
        None
    }
}

pub open spec fn request_summary(call: ToolView) -> Seq<char> {
    let a = call.arguments;
    if call.name == "run_shell"@ {
        shell_summary_text(
            argument_or(a, "cwd"@, "."@),
            argument_or(a, "reason"@, "no reason provided"@),
            argument_or(a, "command"@, "<missing command>"@),
        )
    } else {
        patch_summary_text(
            argument_or(a, "path"@, "<missing path>"@),
            argument_or(a, "reason"@, "no reason provided"@),
            argument_or(a, "find"@, "<missing find>"@),
            argument_or(a, "replace"@, "<missing replace>"@),
        )
    }
}

/// The request that a tool needs before it may run.
pub open spec fn request_for(root: Seq<char>, step: int, call: ToolView) -> Option<RequestView> {
    match gate_of(call.name) {
        Some(scope) => Some(
            RequestView { step, tool: call.name, scope, root, summary: request_summary(call) },
        ),
        None => None,
    }
}

pub fn tool_gate(tool: &str) -> (r: Option<ApprovalScope>)
    ensures
        r == gate_of(tool@),
{
    if same_text(tool, "run_shell") {
        Some(ApprovalScope::Shell)
    } else if same_text(tool, "propose_patch") {
        Some(ApprovalScope::Write)
    } else {
        None
    }
}

pub fn approval_summary(call: &ToolCall) -> (r: String)
    ensures
        r@ == request_summary(call@),
{
    let a = &call.arguments;
    if same_text(call.name.as_str(), "run_shell") {
        shell_summary(
            argument_text(a, "cwd", ".").as_str(),
            argument_text(a, "reason", "no reason provided").as_str(),
            argument_text(a, "command", "<missing command>").as_str(),
        )
    } else {
        patch_summary(
            argument_text(a, "path", "<missing path>").as_str(),
            argument_text(a, "reason", "no reason provided").as_str(),
            argument_text(a, "find", "<missing find>").as_str(),
            argument_text(a, "replace", "<missing replace>").as_str(),
        )
    }
}

pub fn approval_request(root: &str, step: usize, call: &ToolCall) -> (r: Option<ApprovalRequest>)
    ensures
        opt_request(r) == request_for(root@, step as int, call@),
{
    match tool_gate(call.name.as_str()) {
        Some(scope) => Some(
            ApprovalRequest {
                step,
                tool: copy_text(call.name.as_str()),
                scope,
                root: copy_text(root),
                summary: approval_summary(call),
            },
        ),
        None => None,
    }
}

} // verus!
