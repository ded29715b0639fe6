//! What holds of every docked chat.
use vstd::prelude::*;

use crate::agent::types::{ApprovalDecision, RequestView};
use crate::input::approval::ApprovalChoice;
use crate::intent::boundary_violation;
use crate::repl::chat::{approval_asked, cancelled, chosen, root_resolved, submitted, turn_over, went_back, ChatView, ContextView, EffectView};
use crate::repl::routing::{docked_turn, law_agent_turns_stay_inside, PlaceView, TurnView};
use crate::repl::turns::{grant, law_grants_are_separate};
use crate::session::{law_kept_history_is_bounded, MAX_MESSAGES};

verus! {

/// A turn that is started works only where it may: it names nothing outside the
/// root that it is given.
pub open spec fn is_safe_effect(effect: EffectView) -> bool {
    match effect {
        EffectView::Spawn(TurnView::Agent { task, root }) => boundary_violation(task, root) is None,
        _ => true,
    }
}

pub open spec fn all_safe(list: Seq<EffectView>) -> bool {
    forall|i: int| 0 <= i < list.len() ==> is_safe_effect(#[trigger] list[i])
}

pub open spec fn spawns(list: Seq<EffectView>) -> bool {
    exists|i: int| 0 <= i < list.len() && #[trigger] list[i] is Spawn
}

/// A prompt that names a path outside the root is never handed to the agent:
/// the user is asked instead.
pub proof fn law_lines_start_only_safe_turns(v: ChatView, line: Seq<char>, context: ContextView)
    requires
        v.wf(),
    ensures
        all_safe(submitted(v, line, context).1),
        submitted(v, line, context).0.wf(),
{
    let p = crate::text::trimmed(line);
    law_agent_turns_stay_inside(p, v.selected_root, context.place, false);
}

/// A prompt that has waited is held to the same rule when its turn comes.
pub proof fn law_waiting_prompts_start_only_safe_turns(
    v: ChatView,
    result: Result<(Seq<char>, Seq<char>), Seq<char>>,
    place: PlaceView,
)
    requires
        v.wf(),
    ensures
        all_safe(turn_over(v, result, place).1),
        turn_over(v, result, place).0.wf(),
{
    if v.queued.len() > 0 {
        law_agent_turns_stay_inside(v.queued[0], v.selected_root, place, v.legacy_routing);
    }
}

/// While a turn is running, a line starts no other one, unless it confirms a
/// task that was already waiting for that.
pub proof fn law_prompts_wait_their_turn(v: ChatView, line: Seq<char>, context: ContextView)
    requires
        v.wf(),
        v.in_flight,
        v.pending_task is None,
    ensures
        !spawns(submitted(v, line, context).1),
        submitted(v, line, context).0.in_flight,
{
}

/// Prompts that wait are answered first come, first served: the end of a turn
/// starts the one that has waited longest and keeps the order of the rest.
pub proof fn law_queue_keeps_its_order(
    v: ChatView,
    result: Result<(Seq<char>, Seq<char>), Seq<char>>,
    place: PlaceView,
)
    ensures
        v.queued.len() > 0 ==> {
            &&& turn_over(v, result, place).1.last() == EffectView::Spawn(
                docked_turn(v.queued[0], v.selected_root, place, v.legacy_routing),
            )
            &&& turn_over(v, result, place).0.queued == v.queued.skip(1)
            &&& turn_over(v, result, place).0.in_flight
        },
        v.queued.len() == 0 ==> !turn_over(v, result, place).0.in_flight && !spawns(
            turn_over(v, result, place).1,
        ),
{
}

/// While a dialog is open, lines do nothing.
pub proof fn law_dialog_blocks_lines(v: ChatView, line: Seq<char>, context: ContextView)
    requires
        v.pending_approval is Some,
    ensures
        submitted(v, line, context) == (v, Seq::<EffectView>::empty()),
{
}

/// Nothing that is typed approves a tool, and moving to another root approves
/// nothing there.
pub proof fn law_lines_approve_nothing(v: ChatView, line: Seq<char>, context: ContextView)
    ensures
        submitted(v, line, context).0.approved == v.approved,
        submitted(v, line, context).0.approved_agent_root == v.approved_agent_root
            || submitted(v, line, context).0.approved_agent_root is None,
        submitted(v, line, context).0.selected_root != v.selected_root ==> submitted(
            v,
            line,
            context,
        ).0.approved_agent_root is None,
{
}

/// The same holds of the root command once its argument was looked up.
pub proof fn law_new_roots_start_unapproved(
    v: ChatView,
    found: Result<Option<Seq<char>>, Seq<char>>,
    place: PlaceView,
)
    requires
        found is Ok,
    ensures
        root_resolved(v, found, place).0.approved == v.approved,
        root_resolved(v, found, place).0.approved_agent_root is None,
        root_resolved(v, found, place).0.selected_root == found->Ok_0,
{
}

/// A request that no lasting approval covers always opens the dialog, and gets
/// no answer until the user has chosen.
pub proof fn law_uncovered_requests_ask(v: ChatView, request: RequestView)
    requires
        !v.approved.contains(grant(request.root, request.scope)),
    ensures
        approval_asked(v, request).0.pending_approval == Some(request),
        forall|i: int|
            0 <= i < approval_asked(v, request).1.len() ==> !(#[trigger] approval_asked(
                v,
                request,
            ).1[i] is Reply),
{
}

/// An approval for the root covers later requests of the same kind in the same
/// root, and no others.
pub proof fn law_root_approval_covers_its_kind(
    v: ChatView,
    request: RequestView,
    later: RequestView,
)
    requires
        v.pending_approval == Some(request),
        !v.approved.contains(grant(later.root, later.scope)),
    ensures
        chosen(v, ApprovalChoice::ApproveForSession).0.approved.contains(
            grant(later.root, later.scope),
        ) <==> later.root == request.root && later.scope == request.scope,
{
    law_grants_are_separate(request.root, request.scope, later.root, later.scope);
}

/// A single approval and a rejection cover nothing later.
pub proof fn law_single_choices_cover_nothing(v: ChatView, choice: ApprovalChoice)
    requires
        !(choice is ApproveForSession),
    ensures
        chosen(v, choice).0.approved == v.approved,
{
}

/// A request is denied exactly where the user rejects it.
pub proof fn law_rejection_denies(v: ChatView, request: RequestView, choice: ApprovalChoice)
    requires
        v.pending_approval == Some(request),
    ensures
        chosen(v, choice).1[1] == EffectView::Reply(ApprovalDecision::Deny) <==> choice is Reject,
{
}

/// Going back twice is no move at all.
pub proof fn law_going_back_twice_returns(v: ChatView)
    requires
        v.previous_root is Some,
        v.selected_root is Some,
    ensures
        went_back(went_back(v).0).0.selected_root == v.selected_root,
        went_back(went_back(v).0).0.previous_root == v.previous_root,
{
}

/// A cancelled turn leaves nothing running and nothing waiting.
pub proof fn law_cancel_clears_the_queue(v: ChatView)
    requires
        v.wf(),
    ensures
        !cancelled(v).0.in_flight,
        cancelled(v).0.queued.len() == 0,
        cancelled(v).0.memory == v.memory,
{
}

/// The memory of a chat never holds more than its limit, and a failed turn
/// leaves no trace in it.
pub proof fn law_memory_is_bounded(
    v: ChatView,
    result: Result<(Seq<char>, Seq<char>), Seq<char>>,
    place: PlaceView,
)
    requires
        v.memory.len() <= MAX_MESSAGES,
    ensures
        turn_over(v, result, place).0.memory.len() <= MAX_MESSAGES,
        result is Err ==> turn_over(v, result, place).0.memory == v.memory,
{
    if let Ok((prompt, response)) = result {
        law_kept_history_is_bounded(
            v.memory.push(crate::provider::plain_message("user"@, prompt)).push(
                crate::provider::plain_message("assistant"@, response),
            ),
        );
    }
}

} // verus!
