//! What holds of every run of the agent.
use vstd::prelude::*;

use crate::agent::run::{after_announcement, after_approval, after_check, after_reply, after_result, shown_result, EndView, EntryView, PhaseView, RunView};
use crate::agent::types::{gate_of, ApprovalDecision, ApprovalMode};
use crate::cancel::CANCELLED;

verus! {

/// What can happen to a run.
pub enum RunEvent {
    Reply { reply: Result<Seq<char>, Seq<char>>, cancelled: bool },
    Announced,
    Approval(ApprovalDecision),
    Result { result: Seq<char>, cancelled: bool },
    Check { cancelled: bool },
}

pub open spec fn after_event(v: RunView, event: RunEvent) -> RunView {
    match event {
        RunEvent::Reply { reply, cancelled } => after_reply(v, reply, cancelled),
        RunEvent::Announced => after_announcement(v),
        RunEvent::Approval(decision) => after_approval(v, decision),
        RunEvent::Result { result, cancelled } => after_result(v, result, cancelled),
        RunEvent::Check { cancelled } => after_check(v, cancelled),
    }
}

/// The run after the first `n` events.
pub open spec fn after_events(v: RunView, events: Seq<RunEvent>, n: int) -> RunView
    decreases n,
{
    if n <= 0 || n > events.len() {
        v
    } else {
        after_event(after_events(v, events, n - 1), events[n - 1])
    }
}

/// One list is the start of another.
pub open spec fn starts_list<T>(first: Seq<T>, all: Seq<T>) -> bool {
    first.len() <= all.len() && all.take(first.len() as int) == first
}

/// A run keeps its settings, stays within its steps, and forgets nothing of
/// what was said and recorded, whatever happens.
pub proof fn law_event_keeps_the_run_in_bounds(v: RunView, event: RunEvent)
    requires
        v.wf(),
    ensures
        after_event(v, event).wf(),
        after_event(v, event).max_steps == v.max_steps,
        after_event(v, event).root == v.root,
        after_event(v, event).mode == v.mode,
        v.step <= after_event(v, event).step <= v.step + 1,
        starts_list(v.messages, after_event(v, event).messages),
        starts_list(v.transcript, after_event(v, event).transcript),
{
    let w = after_event(v, event);
    assert(w.messages.take(v.messages.len() as int) =~= v.messages);
    assert(w.transcript.take(v.transcript.len() as int) =~= v.transcript);
}

/// However many events a run sees, it never takes more steps than it was
/// given.
pub proof fn law_steps_are_bounded(v: RunView, events: Seq<RunEvent>, n: int)
    requires
        v.wf(),
    ensures
        after_events(v, events, n).wf(),
        after_events(v, events, n).step <= v.max_steps,
        after_events(v, events, n).max_steps == v.max_steps,
    decreases n,
{
    if 0 < n <= events.len() {
        law_steps_are_bounded(v, events, n - 1);
        law_event_keeps_the_run_in_bounds(after_events(v, events, n - 1), events[n - 1]);
    }
}

/// A run that is over stays as it is.
pub proof fn law_done_is_final(v: RunView, event: RunEvent)
    requires
        v.phase is Done,
    ensures
        after_event(v, event) == v,
{
}

/// Where approvals come from outside, a tool becomes approved only by an
/// approving answer to the request for that very tool, which needs approval.
pub proof fn law_only_an_approval_approves(v: RunView, event: RunEvent)
    requires
        v.wf(),
        v.mode is External,
        v.phase != PhaseView::Ready(ApprovalMode::Approved),
        after_event(v, event).phase == PhaseView::Ready(ApprovalMode::Approved),
    ensures
        v.phase is Approve,
        event is Approval,
        !(event->Approval_0 is Deny),
        gate_of(v.tools[v.index].name) is Some,
        after_event(v, event).tools == v.tools,
        after_event(v, event).index == v.index,
{
}

/// A tool that was denied stays denied until it has run, and a run that denies
/// approves nothing.
pub proof fn law_denial_lasts(v: RunView, event: RunEvent)
    requires
        v.wf(),
        v.phase == PhaseView::Ready(ApprovalMode::Deny),
        !(event is Result),
    ensures
        after_event(v, event) == v || after_event(v, event).phase is Done,
{
}

/// A cancelled run asks nothing and runs nothing any more.
pub proof fn law_cancelled_run_stops(v: RunView)
    requires
        v.phase is Ask || v.phase is Ready,
    ensures
        after_check(v, true).phase == PhaseView::Done(EndView::Stopped(CANCELLED@)),
{
}

/// The model is asked at most three times in a step: after the second question
/// of either kind the step has a decision, another question of the last kind,
/// or an end.
pub proof fn law_questions_of_a_step(v: RunView, reply: Result<Seq<char>, Seq<char>>, cancelled: bool)
    requires
        v.wf(),
        v.phase is Ask,
    ensures
        v.phase->Ask_0 is AfterIdle ==> !(after_reply(v, reply, cancelled).phase is Ask),
        v.phase->Ask_0 is AfterInvalid && after_reply(v, reply, cancelled).phase is Ask
            ==> after_reply(v, reply, cancelled).phase->Ask_0 is AfterIdle,
        v.phase->Ask_0 is First && after_reply(v, reply, cancelled).phase is Ask ==> !(after_reply(
            v,
            reply,
            cancelled,
        ).phase->Ask_0 is First),
        after_reply(v, reply, cancelled).step == v.step,
{
}

/// The tools of a decision run in the order in which the model named them, and
/// each result is recorded under its tool.
pub proof fn law_tools_run_in_order(v: RunView, result: Seq<char>)
    requires
        v.wf(),
        v.phase is Ready,
    ensures
        after_result(v, result, false).transcript == v.transcript.push(
            EntryView { role: "tool:"@ + v.tools[v.index].name, content: shown_result(result) },
        ),
        v.index + 1 < v.tools.len() ==> {
            &&& after_result(v, result, false).phase is Announce
            &&& after_result(v, result, false).index == v.index + 1
            &&& after_result(v, result, false).tools == v.tools
            &&& after_result(v, result, false).step == v.step
        },
        v.index + 1 == v.tools.len() ==> {
            ||| after_result(v, result, false).phase is Done
            ||| after_result(v, result, false).step == v.step + 1
        },
{
}

} // verus!
