//! A run of the agent, step by step. The model, the user and the tools answer
//! from outside; what follows from each answer is decided here.
use vstd::prelude::*;

use crate::agent::decision::{decision_has_action, has_action, parse_decision_with_metadata, parsed_decision, read_decision, system_prompt, take_tools, tools_to_run, tools_view, DecisionView, ParsedDecision, Repair, ToolCall, ToolView, AgentDecision, INSTRUCTIONS_BODY, INSTRUCTIONS_HEAD};
use crate::agent::types::{approval_request, gate_of, opt_request, request_for, tool_gate, AgentConfig, AgentOutcome, AgentStep, ApprovalDecision, ApprovalMode, ApprovalRequest, StepView, MAX_TOOL_CHARS};
use crate::cancel::CANCELLED;
use crate::provider::{assistant_message, messages_view, plain_message, push_message, system_message, user_message, Message, MessageView};
use crate::safety::{cap_text, capped, redact_text, redacted};
use crate::text::{char_is_control, chars_of, concat2, concat3, copy_text, decimal_text, join, push_item, push_text, starts_with};
use crate::text::{decimal, has_prefix, is_control, joined, lemma_texts_empty, texts};

verus! {

// ---------------------------------------------------------------------------
// The transcript
// ---------------------------------------------------------------------------

/// A line of the record of a run.
#[derive(Debug, PartialEq)]
pub struct TranscriptEntry {
    pub role: String,
    pub content: String,
}

#[verifier::ext_equal]
pub struct EntryView {
    pub role: Seq<char>,
    pub content: Seq<char>,
}

impl View for TranscriptEntry {
    type V = EntryView;

    open spec fn view(&self) -> EntryView {
        EntryView { role: self.role@, content: self.content@ }
    }
}

pub open spec fn entries_view(v: Seq<TranscriptEntry>) -> Seq<EntryView> {
    Seq::new(v.len(), |i: int| v[i]@)
}

pub fn push_entry(out: &mut Vec<TranscriptEntry>, role: &str, content: &str)
    ensures
        entries_view(final(out)@) == entries_view(old(out)@).push(
            EntryView { role: role@, content: content@ },
        ),
        final(out).len() == old(out).len() + 1,
{
    let one = TranscriptEntry { role: copy_text(role), content: copy_text(content) };
    out.push(one);
    assert(entries_view(out@) =~= entries_view(old(out)@).push(one@));
}

/// A tool has left its result in the record.
pub open spec fn has_tool_results(entries: Seq<EntryView>) -> bool {
    exists|i: int| 0 <= i < entries.len() && has_prefix(#[trigger] entries[i].role, "tool:"@)
}

pub fn transcript_has_tool_results(transcript: &Vec<TranscriptEntry>) -> (r: bool)
    ensures
        r == has_tool_results(entries_view(transcript@)),
{
    let ghost all = entries_view(transcript@);
    let mut i: usize = 0;
    while i < transcript.len()
        invariant
            i <= transcript.len(),
            all == entries_view(transcript@),
            forall|j: int| 0 <= j < i ==> !has_prefix(#[trigger] all[j].role, "tool:"@),
        decreases transcript.len() - i,
    {
        assert(all[i as int] == transcript@[i as int]@);
        if starts_with(transcript[i].role.as_str(), "tool:") {
            assert(has_prefix(all[i as int].role, "tool:"@));
            return true;
        }
        i += 1;
    }
    false
}

// ---------------------------------------------------------------------------
// What a tool gave
// ---------------------------------------------------------------------------

pub open spec fn hex_digit(n: int) -> char {
    if n < 10 {
        ((48 + n) as u8) as char
    } else {
        ((55 + n) as u8) as char
    }
}

/// A character as the model sees it: a control character that is no line break
/// and no tab is written by its number.
pub open spec fn shown_char(c: char) -> Seq<char> {
    if is_control(c) && c != '\n' && c != '\r' && c != '\t' {
        let n = c as u32 as int;
        "\\u{00"@.push(hex_digit(n / 16)).push(hex_digit(n % 16)) + "}"@
    } else {
        seq![c]
    }
}

pub open spec fn shown_from(s: Seq<char>, i: int) -> Seq<char>
    decreases s.len() - i,
{
    if i < 0 || i >= s.len() {
        Seq::empty()
    } else {
        shown_char(s[i]) + shown_from(s, i + 1)
    }
}

/// A text without raw control characters.
pub open spec fn sanitized(s: Seq<char>) -> Seq<char> {
    shown_from(s, 0)
}

fn hex_digit_of(n: u8) -> (r: char)
    requires
        n < 16,
    ensures
        r == hex_digit(n as int),
{
    if n < 10 {
        (48 + n) as char
    } else {
        (55 + n) as char
    }
}

pub fn sanitize_tool_observation(text: &str) -> (r: String)
    ensures
        r@ == sanitized(text@),
{
    let v = chars_of(text);
    let ghost want = sanitized(text@);
    let mut out = String::new();
    let mut i: usize = 0;
    assert(out@ + shown_from(v@, 0) =~= want);
    while i < v.len()
        invariant
            i <= v.len(),
            out@ + shown_from(v@, i as int) == want,
        decreases v.len() - i,
    {
        let c = v[i];
        let ghost before = out@;
        if char_is_control(c) && c != '\n' && c != '\r' && c != '\t' {
            let code: u32 = c as u32;
            assert(code <= 0x9f);
            let n: u8 = code as u8;
            assert(n as int == c as u32 as int);
            push_text(&mut out, "\\u{00");
            out.push(hex_digit_of(n / 16));
            out.push(hex_digit_of(n % 16));
            push_text(&mut out, "}");
            assert(out@ =~= before + shown_char(c));
        } else {
            out.push(c);
            assert(out@ =~= before + shown_char(c));
        }
        i += 1;
        assert(before + (shown_char(c) + shown_from(v@, i as int)) =~= out@ + shown_from(
            v@,
            i as int,
        ));
    }
    assert(out@ + Seq::<char>::empty() =~= out@);
    out
}

/// What is recorded and sent of a tool's result.
pub open spec fn shown_result(result: Seq<char>) -> Seq<char> {
    capped(redacted(sanitized(result)), MAX_TOOL_CHARS as int)
}

/// What is recorded and sent of a reply.
pub open spec fn shown_reply(raw: Seq<char>) -> Seq<char> {
    capped(redacted(raw), MAX_TOOL_CHARS as int)
}

// ---------------------------------------------------------------------------
// The state of a run
// ---------------------------------------------------------------------------

/// Which time the model is asked in one step.
#[derive(Debug, Clone, Copy, PartialEq, Eq, Structural)]
pub enum Attempt {
    First,
    AfterInvalid,
    AfterIdle,
}

/// How a run ends: with an answer, with an error that the record explains, or
/// at once.
#[derive(Debug, PartialEq)]
pub enum AgentEnd {
    Answer { answer: String, steps: usize },
    Failed { error: String, snippet: Option<String> },
    Stopped(String),
}

pub enum EndView {
    Answer { answer: Seq<char>, steps: int },
    Failed { error: Seq<char>, snippet: Option<Seq<char>> },
    Stopped(Seq<char>),
}

impl View for AgentEnd {
    type V = EndView;

    open spec fn view(&self) -> EndView {
        match *self {
            AgentEnd::Answer { answer, steps } => EndView::Answer {
                answer: answer@,
                steps: steps as int,
            },
            AgentEnd::Failed { error, snippet } => EndView::Failed {
                error: error@,
                snippet: crate::text::opt_text(snippet),
            },
            AgentEnd::Stopped(e) => EndView::Stopped(e@),
        }
    }
}

/// What a run waits for: the model, leave to announce a tool, the user, the
/// result of a tool; or nothing any more.
#[derive(Debug, PartialEq)]
pub enum Phase {
    Ask(Attempt),
    Announce,
    Approve,
    Ready(ApprovalMode),
    Done(AgentEnd),
}

pub enum PhaseView {
    Ask(Attempt),
    Announce,
    Approve,
    Ready(ApprovalMode),
    Done(EndView),
}

impl View for Phase {
    type V = PhaseView;

    open spec fn view(&self) -> PhaseView {
        match *self {
            Phase::Ask(a) => PhaseView::Ask(a),
            Phase::Announce => PhaseView::Announce,
            Phase::Approve => PhaseView::Approve,
            Phase::Ready(m) => PhaseView::Ready(m),
            Phase::Done(e) => PhaseView::Done(e@),
        }
    }
}

/// A run: its settings, what was said and recorded, and the tools of the step
/// that it is in.
#[derive(Debug)]
pub struct AgentRun {
    pub root: String,
    pub max_steps: usize,
    pub mode: ApprovalMode,
    pub step: usize,
    pub messages: Vec<Message>,
    pub transcript: Vec<TranscriptEntry>,
    pub phase: Phase,
    pub tools: Vec<ToolCall>,
    pub index: usize,
    pub sections: Vec<String>,
    pub reply: String,
}

#[verifier::ext_equal]
pub struct RunView {
    pub root: Seq<char>,
    pub max_steps: int,
    pub mode: ApprovalMode,
    pub step: int,
    pub messages: Seq<MessageView>,
    pub transcript: Seq<EntryView>,
    pub phase: PhaseView,
    pub tools: Seq<ToolView>,
    pub index: int,
    pub sections: Seq<Seq<char>>,
    pub reply: Seq<char>,
}

impl RunView {
    /// The run is within its steps, and while tools are running there is one
    /// that is next.
    pub open spec fn wf(self) -> bool {
        &&& 1 <= self.step <= self.max_steps
        &&& 0 <= self.index
        &&& (self.phase is Announce || self.phase is Approve || self.phase is Ready) ==> self.index
            < self.tools.len()
        &&& self.phase is Ready && self.phase->Ready_0 is External ==> false
        &&& self.phase is Approve ==> gate_of(self.tools[self.index].name) is Some
        &&& match self.phase {
            PhaseView::Done(EndView::Answer { steps, .. }) => 1 <= steps <= self.max_steps,
            _ => true,
        }
    }
}

pub open spec fn noted(v: RunView, role: Seq<char>, content: Seq<char>) -> RunView {
    RunView { transcript: v.transcript.push(EntryView { role, content }), ..v }
}

/// The reply of the model and what it is told next.
pub open spec fn told(v: RunView, reply: Seq<char>, next: Seq<char>) -> RunView {
    RunView {
        messages: v.messages.push(plain_message("assistant"@, reply)).push(
            plain_message("user"@, next),
        ),
        ..v
    }
}

pub open spec fn in_phase(v: RunView, phase: PhaseView) -> RunView {
    RunView { phase, ..v }
}

pub open spec fn answered(v: RunView, answer: Seq<char>) -> RunView {
    in_phase(v, PhaseView::Done(EndView::Answer { answer, steps: v.step }))
}

pub open spec fn stopped(v: RunView, error: Seq<char>) -> RunView {
    in_phase(v, PhaseView::Done(EndView::Stopped(error)))
}

pub const DECISION_RETRY_PROMPT: &'static str = "Your previous response was either invalid JSON or valid JSON without an actionable decision. Return exactly one JSON object with one of these shapes: {\"content\":\"final answer\",\"tool_calls\":null}, {\"content\":null,\"tool_calls\":[{\"id\":\"call_1\",\"type\":\"function\",\"function\":{\"name\":\"inspect_tree\",\"arguments\":\"{\\\"path\\\":\\\".\\\",\\\"depth\\\":2}\"}}]}, or {\"blocked\":\"short reason\"}. No prose outside JSON.";

pub const NO_ACTION_REASON: &'static str = "model returned no actionable decision after retry; see transcript tool observations";

pub const NO_ACTION_ERROR: &'static str = "agent response did not include final_answer, blocked, or tool after retry";

/// The start of a run on a task: the instructions, and the task without its
/// secrets.
pub open spec fn started(
    root: Seq<char>,
    max_steps: int,
    mode: ApprovalMode,
    task: Seq<char>,
) -> RunView {
    RunView {
        root,
        max_steps,
        mode,
        step: 1,
        messages: seq![
            plain_message("system"@, INSTRUCTIONS_HEAD@ + root + INSTRUCTIONS_BODY@),
            plain_message("user"@, "Task: "@ + redacted(task)),
        ],
        transcript: seq![EntryView { role: "task"@, content: redacted(task) }],
        phase: PhaseView::Ask(Attempt::First),
        tools: Seq::empty(),
        index: 0,
        sections: Seq::empty(),
        reply: Seq::empty(),
    }
}

pub open spec fn reply_role(attempt: Attempt) -> Seq<char> {
    match attempt {
        Attempt::First => "assistant"@,
        _ => "assistant_retry"@,
    }
}

pub open spec fn repair_noted(v: RunView, repair: Repair) -> RunView {
    match repair.label_text() {
        Some(label) => noted(v, "parser"@, "repaired decision JSON via "@ + label),
        None => v,
    }
}

/// The end of a run whose model had nothing to do, after tools had answered.
pub open spec fn fell_back(v: RunView) -> RunView {
    let w = noted(v, "parser"@, "used no-action fallback after tool observations"@);
    let x = noted(w, "assistant_retry"@, "{\"blocked\":\""@ + NO_ACTION_REASON@ + "\"}"@);
    answered(x, "blocked: "@ + NO_ACTION_REASON@)
}

/// What a decision leads to: an answer, a reason to stop, the tools of this
/// step, or an end without any of them.
pub open spec fn decided(v: RunView, shown: Seq<char>, d: DecisionView) -> RunView {
    match d.final_answer {
        Some(answer) => answered(v, shown_reply(answer)),
        None => match d.blocked {
            Some(reason) => answered(v, "blocked: "@ + shown_reply(reason)),
            None => if tools_to_run(d).len() > 0 {
                RunView {
                    phase: PhaseView::Announce,
                    tools: tools_to_run(d),
                    index: 0,
                    sections: Seq::empty(),
                    reply: shown,
                    ..v
                }
            } else if has_tool_results(v.transcript) {
                fell_back(v)
            } else {
                in_phase(
                    v,
                    PhaseView::Done(EndView::Failed { error: NO_ACTION_ERROR@, snippet: None }),
                )
            },
        },
    }
}

/// What follows from a reply and the decision that was read from it. A reply
/// that is no decision, and one without an action, is asked for again, once.
pub open spec fn after_decision(
    v: RunView,
    raw: Seq<char>,
    parsed: Result<(DecisionView, Repair), Seq<char>>,
) -> RunView {
    match v.phase {
        PhaseView::Ask(attempt) => {
            let shown = shown_reply(raw);
            let w = noted(v, reply_role(attempt), shown);
            match parsed {
                Err(error) => if attempt is First {
                    let x = noted(
                        w,
                        "parser"@,
                        "retried invalid decision JSON: "@ + capped(redacted(error), 240),
                    );
                    in_phase(
                        told(x, shown, DECISION_RETRY_PROMPT@),
                        PhaseView::Ask(Attempt::AfterInvalid),
                    )
                } else {
                    in_phase(
                        w,
                        PhaseView::Done(
                            EndView::Failed { error, snippet: Some(capped(redacted(raw), 400)) },
                        ),
                    )
                },
                Ok((d, repair)) => {
                    let x = repair_noted(w, repair);
                    if !has_action(d) && !(attempt is AfterIdle) {
                        in_phase(
                            told(
                                noted(x, "parser"@, "retried no-action decision"@),
                                shown,
                                DECISION_RETRY_PROMPT@,
                            ),
                            PhaseView::Ask(Attempt::AfterIdle),
                        )
                    } else {
                        decided(x, shown, d)
                    }
                },
            }
        },
        _ => v,
    }
}

/// What follows from the model's reply: an error and a cancelled run end it.
pub open spec fn after_reply(
    v: RunView,
    reply: Result<Seq<char>, Seq<char>>,
    cancelled: bool,
) -> RunView {
    match v.phase {
        PhaseView::Ask(_) => match reply {
            Err(error) => stopped(v, error),
            Ok(raw) => if cancelled {
                stopped(v, CANCELLED@)
            } else {
                after_decision(v, raw, read_decision(raw))
            },
        },
        _ => v,
    }
}

/// The tool that is next, as it is announced.
pub open spec fn current_step(v: RunView) -> StepView {
    StepView {
        step: v.step,
        item: if v.tools.len() > 1 {
            Some(v.index + 1)
        } else {
            None
        },
        total: v.tools.len() as int,
        tool: v.tools[v.index].name,
    }
}

/// The mode in which the tool that is next runs, or the user's turn. Where
/// approvals come from outside, a tool that needs none gets none.
pub open spec fn after_announcement(v: RunView) -> RunView {
    match v.phase {
        PhaseView::Announce => if v.mode is External {
            if gate_of(v.tools[v.index].name) is Some {
                in_phase(v, PhaseView::Approve)
            } else {
                in_phase(v, PhaseView::Ready(ApprovalMode::Deny))
            }
        } else {
            in_phase(v, PhaseView::Ready(v.mode))
        },
        _ => v,
    }
}

pub open spec fn after_approval(v: RunView, decision: ApprovalDecision) -> RunView {
    match v.phase {
        PhaseView::Approve => in_phase(
            v,
            PhaseView::Ready(
                if decision is Deny {
                    ApprovalMode::Deny
                } else {
                    ApprovalMode::Approved
                },
            ),
        ),
        _ => v,
    }
}

/// How the result of a tool is put to the model.
pub open spec fn result_section(
    step: int,
    index: int,
    tool: Seq<char>,
    shown: Seq<char>,
) -> Seq<char> {
    "Tool result for step "@ + decimal(step as nat) + ", item "@ + decimal((index + 1) as nat)
        + " ("@ + tool + "):\n"@ + shown
}

/// The end of a step: the model is told the results, and the next step begins
/// if there is one.
pub open spec fn step_done(v: RunView, sections: Seq<Seq<char>>) -> RunView {
    let combined = capped(joined(sections, "\n\n"@), MAX_TOOL_CHARS as int);
    let w = told(v, v.reply, combined + "\nContinue with JSON only."@);
    let x = RunView { tools: Seq::empty(), index: 0, sections: Seq::empty(), ..w };
    if v.step < v.max_steps {
        RunView { step: v.step + 1, phase: PhaseView::Ask(Attempt::First), ..x }
    } else {
        answered(x, "blocked: reached max agent steps ("@ + decimal(v.max_steps as nat) + ")"@)
    }
}

/// What follows from the result of a tool.
pub open spec fn after_result(v: RunView, result: Seq<char>, cancelled: bool) -> RunView {
    match v.phase {
        PhaseView::Ready(_) => if cancelled {
            stopped(v, CANCELLED@)
        } else {
            let tool = v.tools[v.index].name;
            let shown = shown_result(result);
            let w = noted(v, "tool:"@ + tool, shown);
            let sections = v.sections.push(result_section(v.step, v.index, tool, shown));
            if v.index + 1 < v.tools.len() {
                RunView { index: v.index + 1, sections, phase: PhaseView::Announce, ..w }
            } else {
                step_done(w, sections)
            }
        },
        _ => v,
    }
}

/// What a check for cancellation leads to, before the model is asked and before
/// a tool runs.
pub open spec fn after_check(v: RunView, cancelled: bool) -> RunView {
    if cancelled && (v.phase is Ask || v.phase is Ready) {
        stopped(v, CANCELLED@)
    } else {
        v
    }
}

pub open spec fn reply_view(r: Result<String, String>) -> Result<Seq<char>, Seq<char>> {
    match r {
        Ok(s) => Ok(s@),
        Err(e) => Err(e@),
    }
}

impl View for AgentRun {
    type V = RunView;

    open spec fn view(&self) -> RunView {
        RunView {
            root: self.root@,
            max_steps: self.max_steps as int,
            mode: self.mode,
            step: self.step as int,
            messages: messages_view(self.messages@),
            transcript: entries_view(self.transcript@),
            phase: self.phase@,
            tools: tools_view(self.tools@),
            index: self.index as int,
            sections: texts(self.sections@),
            reply: self.reply@,
        }
    }
}

impl AgentRun {
    /// A run on a task. The root is the workspace's own.
    pub fn start(config: &AgentConfig, mode: ApprovalMode, task: &str) -> (r: AgentRun)
        requires
            config.max_steps >= 1,
        ensures
            r@ == started(config.root@, config.max_steps as int, mode, task@),
            r@.wf(),
    {
        broadcast use lemma_texts_empty;

        let shown = redact_text(task);
        let mut messages: Vec<Message> = Vec::new();
        assert(messages_view(messages@) =~= Seq::empty());
        push_message(&mut messages, system_message(system_prompt(config.root.as_str()).as_str()));
        push_message(&mut messages, user_message(concat2("Task: ", shown.as_str()).as_str()));
        let mut transcript: Vec<TranscriptEntry> = Vec::new();
        assert(entries_view(transcript@) =~= Seq::empty());
        push_entry(&mut transcript, "task", shown.as_str());
        let tools: Vec<ToolCall> = Vec::new();
        assert(tools_view(tools@) =~= Seq::empty());
        let r = AgentRun {
            root: copy_text(config.root.as_str()),
            max_steps: config.max_steps,
            mode,
            step: 1,
            messages,
            transcript,
            phase: Phase::Ask(Attempt::First),
            tools,
            index: 0,
            sections: Vec::new(),
            reply: String::new(),
        };
        assert(r@ =~= started(config.root@, config.max_steps as int, mode, task@));
        r
    }

    fn note(&mut self, role: &str, content: &str)
        ensures
            final(self)@ == noted(old(self)@, role@, content@),
    {
        push_entry(&mut self.transcript, role, content);
        assert(self@ =~= noted(old(self)@, role@, content@));
    }

    fn tell(&mut self, reply: &str, next: &str)
        ensures
            final(self)@ == told(old(self)@, reply@, next@),
    {
        push_message(&mut self.messages, assistant_message(reply));
        push_message(&mut self.messages, user_message(next));
        assert(self@ =~= told(old(self)@, reply@, next@));
    }

    fn enter(&mut self, phase: Phase)
        ensures
            final(self)@ == in_phase(old(self)@, phase@),
            final(self).phase == phase,
    {
        self.phase = phase;
        assert(self@ =~= in_phase(old(self)@, phase@));
    }

    fn answer(&mut self, answer: String)
        ensures
            final(self)@ == answered(old(self)@, answer@),
    {
        let steps = self.step;
        self.enter(Phase::Done(AgentEnd::Answer { answer, steps }));
    }

    fn stop(&mut self, error: String)
        ensures
            final(self)@ == stopped(old(self)@, error@),
    {
        self.enter(Phase::Done(AgentEnd::Stopped(error)));
    }

    fn fall_back(&mut self)
        ensures
            final(self)@ == fell_back(old(self)@),
    {
        self.note("parser", "used no-action fallback after tool observations");
        self.note(
            "assistant_retry",
            concat3("{\"blocked\":\"", NO_ACTION_REASON, "\"}").as_str(),
        );
        self.answer(concat2("blocked: ", NO_ACTION_REASON));
    }

    fn decide(&mut self, shown: String, decision: AgentDecision)
        requires
            old(self)@.wf(),
        ensures
            final(self)@ == decided(old(self)@, shown@, decision@),
    {
        if let Some(answer) = &decision.final_answer {
            let text = cap_text(redact_text(answer.as_str()).as_str(), MAX_TOOL_CHARS);
            self.answer(text);
            return;
        }
        if let Some(reason) = &decision.blocked {
            let text = cap_text(redact_text(reason.as_str()).as_str(), MAX_TOOL_CHARS);
            self.answer(concat2("blocked: ", text.as_str()));
            return;
        }
        let tools = take_tools(decision);
        assert(tools_view(tools@).len() == tools.len());
        if tools.len() > 0 {
            self.tools = tools;
            self.index = 0;
            self.sections = Vec::new();
            self.reply = shown;
            self.phase = Phase::Announce;
            assert(texts(self.sections@) =~= Seq::empty());
            assert(self@ =~= decided(old(self)@, shown@, decision@));
            return;
        }
        if transcript_has_tool_results(&self.transcript) {
            self.fall_back();
        } else {
            self.enter(
                Phase::Done(AgentEnd::Failed { error: copy_text(NO_ACTION_ERROR), snippet: None }),
            );
        }
    }

    fn note_repair(&mut self, repair: Repair)
        ensures
            final(self)@ == repair_noted(old(self)@, repair),
    {
        if let Some(label) = repair.label() {
            self.note("parser", concat2("repaired decision JSON via ", label).as_str());
        }
    }

    /// What follows from a reply and the decision that was read from it.
    pub fn on_decision(&mut self, raw: &str, parsed: Result<ParsedDecision, String>)
        requires
            old(self)@.wf(),
        ensures
            final(self)@ == after_decision(old(self)@, raw@, parsed_decision(parsed)),
            final(self)@.wf(),
    {
        let attempt = match &self.phase {
            Phase::Ask(attempt) => *attempt,
            _ => return ,
        };
        let shown = cap_text(redact_text(raw).as_str(), MAX_TOOL_CHARS);
        let first = match attempt {
            Attempt::First => true,
            _ => false,
        };
        let idle = match attempt {
            Attempt::AfterIdle => true,
            _ => false,
        };
        self.note(
            if first {
                "assistant"
            } else {
                "assistant_retry"
            },
            shown.as_str(),
        );
        match parsed {
            Err(error) => if first {
                let why = cap_text(redact_text(error.as_str()).as_str(), 240);
                self.note(
                    "parser",
                    concat2("retried invalid decision JSON: ", why.as_str()).as_str(),
                );
                self.tell(shown.as_str(), DECISION_RETRY_PROMPT);
                self.enter(Phase::Ask(Attempt::AfterInvalid));
            } else {
                let snippet = cap_text(redact_text(raw).as_str(), 400);
                self.enter(Phase::Done(AgentEnd::Failed { error, snippet: Some(snippet) }));
            },
            Ok(parsed) => {
                self.note_repair(parsed.repair);
                if !decision_has_action(&parsed.decision) && !idle {
                    self.note("parser", "retried no-action decision");
                    self.tell(shown.as_str(), DECISION_RETRY_PROMPT);
                    self.enter(Phase::Ask(Attempt::AfterIdle));
                } else {
                    self.decide(shown, parsed.decision);
                }
            },
        }
    }

    /// What follows from the model's reply, or from the error of asking it.
    pub fn on_reply(&mut self, reply: Result<String, String>, cancelled: bool)
        requires
            old(self)@.wf(),
        ensures
            final(self)@ == after_reply(old(self)@, reply_view(reply), cancelled),
            final(self)@.wf(),
    {
        let asking = match &self.phase {
            Phase::Ask(_) => true,
            _ => false,
        };
        if !asking {
            return;
        }
        match reply {
            Err(error) => self.stop(error),
            Ok(raw) => if cancelled {
                self.stop(copy_text(CANCELLED));
            } else {
                let parsed = parse_decision_with_metadata(raw.as_str());
                self.on_decision(raw.as_str(), parsed);
            },
        }
    }

    /// Ends the run if it was cancelled, before the model is asked and before a
    /// tool runs.
    pub fn check_cancelled(&mut self, cancelled: bool)
        requires
            old(self)@.wf(),
        ensures
            final(self)@ == after_check(old(self)@, cancelled),
            final(self)@.wf(),
    {
        let open = match &self.phase {
            Phase::Ask(_) => true,
            Phase::Ready(_) => true,
            _ => false,
        };
        if cancelled && open {
            self.stop(copy_text(CANCELLED));
        }
    }

    /// The tool that is next, as it is announced.
    pub fn announced_step(&self) -> (r: Option<AgentStep>)
        requires
            self@.wf(),
        ensures
            match r {
                Some(step) => self@.phase is Announce && step@ == current_step(self@),
                None => !(self@.phase is Announce),
            },
    {
        match &self.phase {
            Phase::Announce => {
                assert(tools_view(self.tools@)[self.index as int] == self.tools@[self.index as int]@);
                Some(
                    AgentStep {
                        step: self.step,
                        item: if self.tools.len() > 1 {
                            Some(self.index + 1)
                        } else {
                            None
                        },
                        total: self.tools.len(),
                        tool: copy_text(self.tools[self.index].name.as_str()),
                    },
                )
            },
            _ => None,
        }
    }

    /// Goes on after the tool that is next was announced.
    pub fn on_announced(&mut self)
        requires
            old(self)@.wf(),
        ensures
            final(self)@ == after_announcement(old(self)@),
            final(self)@.wf(),
    {
        let announcing = match &self.phase {
            Phase::Announce => true,
            _ => false,
        };
        if !announcing {
            return;
        }
        let mode = self.mode;
        match mode {
            ApprovalMode::External => {
                assert(tools_view(self.tools@)[self.index as int] == self.tools@[self.index as int]@);
                let gated = tool_gate(self.tools[self.index].name.as_str()).is_some();
                if gated {
                    self.enter(Phase::Approve);
                } else {
                    self.enter(Phase::Ready(ApprovalMode::Deny));
                }
            },
            _ => self.enter(Phase::Ready(mode)),
        }
    }

    /// The request that the user has to answer, while the run waits for that.
    pub fn pending_request(&self) -> (r: Option<ApprovalRequest>)
        requires
            self@.wf(),
        ensures
            opt_request(r) == if self@.phase is Approve {
                request_for(self@.root, self@.step, self@.tools[self@.index])
            } else {
                None
            },
            self@.phase is Approve ==> r is Some,
    {
        match &self.phase {
            Phase::Approve => {
                assert(tools_view(self.tools@)[self.index as int] == self.tools@[self.index as int]@);
                approval_request(self.root.as_str(), self.step, &self.tools[self.index])
            },
            _ => None,
        }
    }

    pub fn on_approval(&mut self, decision: ApprovalDecision)
        requires
            old(self)@.wf(),
        ensures
            final(self)@ == after_approval(old(self)@, decision),
            final(self)@.wf(),
    {
        let waiting = match &self.phase {
            Phase::Approve => true,
            _ => false,
        };
        if !waiting {
            return;
        }
        match decision {
            ApprovalDecision::Deny => self.enter(Phase::Ready(ApprovalMode::Deny)),
            _ => self.enter(Phase::Ready(ApprovalMode::Approved)),
        }
    }

    /// The tool to run now, and in which mode.
    pub fn ready_tool(&self) -> (r: Option<(ToolCall, ApprovalMode)>)
        requires
            self@.wf(),
        ensures
            match r {
                Some((call, mode)) => {
                    &&& self@.phase == PhaseView::Ready(mode)
                    &&& call@ == self@.tools[self@.index]
                },
                None => !(self@.phase is Ready),
            },
    {
        match &self.phase {
            Phase::Ready(mode) => {
                assert(tools_view(self.tools@)[self.index as int] == self.tools@[self.index as int]@);
                Some((self.tools[self.index].copy(), *mode))
            },
            _ => None,
        }
    }

    fn finish_step(&mut self)
        requires
            old(self)@.wf(),
        ensures
            final(self)@ == step_done(old(self)@, old(self)@.sections),
    {
        let combined = cap_text(join(&self.sections, "\n\n").as_str(), MAX_TOOL_CHARS);
        let reply = copy_text(self.reply.as_str());
        self.tell(reply.as_str(), concat2(combined.as_str(), "\nContinue with JSON only.").as_str());
        self.tools = Vec::new();
        self.index = 0;
        self.sections = Vec::new();
        assert(tools_view(self.tools@) =~= Seq::empty());
        assert(texts(self.sections@) =~= Seq::empty());
        if self.step < self.max_steps {
            self.step += 1;
            self.phase = Phase::Ask(Attempt::First);
            assert(self@ =~= step_done(old(self)@, old(self)@.sections));
        } else {
            let limit = decimal_text(self.max_steps as u64);
            self.answer(concat3("blocked: reached max agent steps (", limit.as_str(), ")"));
            assert(self@ =~= step_done(old(self)@, old(self)@.sections));
        }
    }

    /// What follows from the result of the tool that ran.
    pub fn on_tool_result(&mut self, result: &str, cancelled: bool)
        requires
            old(self)@.wf(),
        ensures
            final(self)@ == after_result(old(self)@, result@, cancelled),
            final(self)@.wf(),
    {
        let running = match &self.phase {
            Phase::Ready(_) => true,
            _ => false,
        };
        if !running {
            return;
        }
        if cancelled {
            self.stop(copy_text(CANCELLED));
            return;
        }
        assert(tools_view(self.tools@)[self.index as int] == self.tools@[self.index as int]@);
        assert(tools_view(self.tools@).len() == self.tools.len());
        let tool = copy_text(self.tools[self.index].name.as_str());
        let clean = redact_text(sanitize_tool_observation(result).as_str());
        let shown = cap_text(clean.as_str(), MAX_TOOL_CHARS);
        self.note(concat2("tool:", tool.as_str()).as_str(), shown.as_str());
        let mut section = concat2("Tool result for step ", decimal_text(self.step as u64).as_str());
        push_text(&mut section, ", item ");
        push_text(&mut section, decimal_text(self.index as u64 + 1).as_str());
        push_text(&mut section, " (");
        push_text(&mut section, tool.as_str());
        push_text(&mut section, "):\n");
        push_text(&mut section, shown.as_str());
        let ghost noted_run = self@;
        push_item(&mut self.sections, section);
        let ghost want = old(self)@.sections.push(
            result_section(old(self)@.step, old(self)@.index, tool@, shown@),
        );
        assert(self@ =~= (RunView { sections: want, ..noted_run }));
        if self.index + 1 < self.tools.len() {
            self.index += 1;
            self.phase = Phase::Announce;
            assert(self@ =~= after_result(old(self)@, result@, cancelled));
        } else {
            self.finish_step();
            assert(self@ =~= step_done(noted_run, want));
        }
    }
}

// ---------------------------------------------------------------------------
// The end of a run
// ---------------------------------------------------------------------------

pub struct OutcomeView {
    pub answer: Seq<char>,
    pub steps: int,
    pub transcript_path: Seq<char>,
}

pub open spec fn outcome_result(r: Result<AgentOutcome, String>) -> Result<
    OutcomeView,
    Seq<char>,
> {
    match r {
        Ok(o) => Ok(
            OutcomeView {
                answer: o.answer@,
                steps: o.steps as int,
                transcript_path: o.transcript_path@,
            },
        ),
        Err(e) => Err(e@),
    }
}

/// An error, and where the record of the run is.
pub open spec fn explained(
    error: Seq<char>,
    snippet: Option<Seq<char>>,
    written: Result<Seq<char>, Seq<char>>,
) -> Seq<char> {
    let head = match snippet {
        Some(s) => error + "\nraw snippet: "@ + s,
        None => error,
    };
    match written {
        Ok(path) => head + "\ntranscript: "@ + path,
        Err(e) => head + "\ntranscript write failed: "@ + e,
    }
}

/// What the caller of a run gets, given where its record was written.
pub open spec fn run_outcome(end: EndView, written: Result<Seq<char>, Seq<char>>) -> Result<
    OutcomeView,
    Seq<char>,
> {
    match end {
        EndView::Answer { answer, steps } => match written {
            Ok(path) => Ok(OutcomeView { answer, steps, transcript_path: path }),
            Err(e) => Err(e),
        },
        EndView::Failed { error, snippet } => Err(explained(error, snippet, written)),
        EndView::Stopped(e) => Err(e),
    }
}

impl AgentEnd {
    /// A run that was stopped leaves no record.
    pub fn wants_transcript(&self) -> (r: bool)
        ensures
            r == !(self@ is Stopped),
    {
        match self {
            AgentEnd::Stopped(_) => false,
            _ => true,
        }
    }

    /// What the caller of the run gets, given where its record was written.
    pub fn outcome(self, written: Result<String, String>) -> (r: Result<AgentOutcome, String>)
        ensures
            outcome_result(r) == run_outcome(self@, reply_view(written)),
    {
        match self {
            AgentEnd::Answer { answer, steps } => match written {
                Ok(path) => Ok(AgentOutcome { answer, steps, transcript_path: path }),
                Err(e) => Err(e),
            },
            AgentEnd::Failed { error, snippet } => {
                let mut out = error;
                if let Some(s) = &snippet {
                    push_text(&mut out, "\nraw snippet: ");
                    push_text(&mut out, s.as_str());
                }
                match written {
                    Ok(path) => {
                        push_text(&mut out, "\ntranscript: ");
                        push_text(&mut out, path.as_str());
                    },
                    Err(e) => {
                        push_text(&mut out, "\ntranscript write failed: ");
                        push_text(&mut out, e.as_str());
                    },
                }
                Err(out)
            },
            AgentEnd::Stopped(e) => Err(e),
        }
    }
}

} // verus!
