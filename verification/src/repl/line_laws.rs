//! What becomes of a line: the commands, prompts and answers that it can be.
use vstd::prelude::*;

use crate::agent::types::{ApprovalDecision, RequestView};
use crate::input::approval::ApprovalChoice;
use crate::intent::{clean_word, clean_words_upto, file_words, intent_of, is_wrapping, unwrapped, unwrapped_end, unwrapped_start, Intent};
use crate::paths::path_join;
use crate::provider::MessageView;
use crate::repl::chat::{approval_asked, chosen, commanded, reported, root_resolved, submitted, ChatView, ContextView, EffectView};
use crate::repl::commands::{chat_command, CommandParse, CommandView};
use crate::cli::InteractiveMode;
use crate::repl::lines::line_step;
use crate::repl::memory::messages_for;
use crate::repl::navigation::{first_found, move_outcome, move_target, moved_words, place_candidates};
use crate::repl::one_off::session_to_save;
use crate::repl::routing::{asks_previous_root, is_no, is_yes, root_in, shell_read, task_root, workspace_root_for, PlaceView, TurnView};
use crate::repl::turns::{drained, grant, DrainOpView, DrainOutcomeView, DrainView, EventView};
use crate::safety_laws::{is_word, law_words_lie_between_white_space};
use crate::session::{total_content, SessionView};
use crate::session_laws::law_turn_follows_the_history;
use crate::text::{after_chars, has_prefix, lower_text, trimmed, words};
use crate::text_laws::{all_space, ends_clean, law_trimming_drops_outer_space};

verus! {

// ---------------------------------------------------------------------------
// Commands
// ---------------------------------------------------------------------------

proof fn lemma_prefix(start: Seq<char>, rest: Seq<char>)
    ensures
        has_prefix(start + rest, start),
        (start + rest).skip(start.len() as int) == rest,
{
    assert((start + rest).subrange(0, start.len() as int) =~= start);
    assert((start + rest).skip(start.len() as int) =~= rest);
}

proof fn lemma_other_prefix(p: Seq<char>, start: Seq<char>, i: int)
    requires
        0 <= i < start.len(),
        i < p.len() ==> p[i] != start[i],
    ensures
        !has_prefix(p, start),
{
    if has_prefix(p, start) {
        assert(p.subrange(0, start.len() as int)[i] == p[i]);
    }
}

/// White space round a line changes nothing.
pub proof fn law_outer_space_of_a_line_is_ignored(
    v: ChatView,
    mode: InteractiveMode,
    front: Seq<char>,
    line: Seq<char>,
    back: Seq<char>,
    context: ContextView,
)
    requires
        all_space(front),
        all_space(back),
        ends_clean(line),
    ensures
        line_step(mode, front + line + back) == line_step(mode, line),
        submitted(v, front + line + back, context) == submitted(v, line, context),
        line_step(mode, front + back) is Skip,
        submitted(v, front + back, context) == (v, Seq::<EffectView>::empty()),
{
    let none = Seq::<char>::empty();
    law_trimming_drops_outer_space(front, line, back);
    law_trimming_drops_outer_space(none, line, none);
    law_trimming_drops_outer_space(front, none, back);
    assert(none + line + none =~= line);
    assert(front + none + back =~= front + back);
}

/// What follows a command is handed on as it was typed, without the white space
/// in front of it.
pub proof fn law_arguments_are_handed_on(gap: Seq<char>, arg: Seq<char>)
    requires
        all_space(gap),
        ends_clean(arg),
        arg.len() > 0,
    ensures
        chat_command("/agent "@ + (gap + arg)) == CommandParse::Valid(
            CommandView::DirectAgentTask(arg),
        ),
        chat_command("/root "@ + (gap + arg)) == CommandParse::Valid(CommandView::Root(Some(arg))),
        chat_command("/model "@ + (gap + arg)) == CommandParse::Valid(
            CommandView::Model(Some(arg)),
        ),
        chat_command("/debug "@ + (gap + arg)) == CommandParse::Valid(
            CommandView::Debug(Some(arg)),
        ),
{
    let none = Seq::<char>::empty();
    let rest = gap + arg;
    law_trimming_drops_outer_space(gap, arg, none);
    assert(gap + arg + none =~= rest);
    lemma_task_command(rest);
    lemma_root_command(rest);
    lemma_model_command(rest);
    lemma_debug_command(rest);
}

/// None of the commands that stand alone.
proof fn lemma_not_alone(p: Seq<char>)
    requires
        p.len() > 6,
        p[1] == 'a' || p[1] == 'r' || p[1] == 'm' || p[1] == 'd',
    ensures
        !crate::repl::commands::is_exit(p),
        !crate::repl::commands::is_end(p),
        p != "?"@ && p != "/help"@ && p != "/chat"@ && p != "/agent"@ && p != "/status"@,
        p != "/features"@ && p != "/root"@ && p != "/debug"@ && p != "/model"@,
        p[1] != 'r' || p[2] != 'u' ==> p != "/runtime"@,
{
    lemma_literals();
}

proof fn lemma_task_command(rest: Seq<char>)
    requires
        trimmed(rest).len() > 0,
    ensures
        chat_command("/agent "@ + rest) == CommandParse::Valid(
            CommandView::DirectAgentTask(trimmed(rest)),
        ),
{
    let p = "/agent "@ + rest;
    lemma_literals();
    assert(p[1] == 'a');
    lemma_not_alone(p);
    lemma_prefix("/agent "@, rest);
}

proof fn lemma_root_command(rest: Seq<char>)
    requires
        trimmed(rest).len() > 0,
        rest.len() > 0,
    ensures
        chat_command("/root "@ + rest) == CommandParse::Valid(
            CommandView::Root(Some(trimmed(rest))),
        ),
{
    let p = "/root "@ + rest;
    lemma_literals();
    assert(p[1] == 'r' && p[2] == 'o');
    lemma_not_alone(p);
    lemma_prefix("/root "@, rest);
    lemma_other_prefix(p, "/agent "@, 1);
    lemma_other_prefix(p, "/features "@, 1);
    assert(crate::workspace::root_command(p) == Some(Some(trimmed(rest))));
}

proof fn lemma_model_command(rest: Seq<char>)
    requires
        trimmed(rest).len() > 0,
    ensures
        chat_command("/model "@ + rest) == CommandParse::Valid(
            CommandView::Model(Some(trimmed(rest))),
        ),
{
    let p = "/model "@ + rest;
    lemma_literals();
    assert(p[1] == 'm');
    lemma_not_alone(p);
    lemma_prefix("/model "@, rest);
    lemma_other_prefix(p, "/agent "@, 1);
    lemma_other_prefix(p, "/features "@, 1);
    lemma_other_prefix(p, "/root "@, 1);
    lemma_other_prefix(p, "/runtime "@, 1);
    lemma_other_prefix(p, "/debug "@, 1);
}

proof fn lemma_debug_command(rest: Seq<char>)
    requires
        trimmed(rest).len() > 0,
    ensures
        chat_command("/debug "@ + rest) == CommandParse::Valid(
            CommandView::Debug(Some(trimmed(rest))),
        ),
{
    let p = "/debug "@ + rest;
    lemma_literals();
    assert(p[1] == 'd');
    lemma_not_alone(p);
    lemma_prefix("/debug "@, rest);
    lemma_other_prefix(p, "/agent "@, 1);
    lemma_other_prefix(p, "/features "@, 1);
    lemma_other_prefix(p, "/root "@, 1);
    lemma_other_prefix(p, "/runtime "@, 1);
}

proof fn lemma_literals()
    ensures
        "exit"@.len() == 4 && "quit"@.len() == 4,
        "/exit"@.len() == 5 && "/exit"@[1] == 'e',
        "/quit"@.len() == 5 && "/quit"@[1] == 'q',
        "/exit quit"@.len() == 10 && "/exit quit"@[1] == 'e',
        "/quit exit"@.len() == 10 && "/quit exit"@[1] == 'q',
        "session end"@.len() == 11 && "session end"@[1] == 'e',
        "/end"@.len() == 4 && "/end session"@.len() == 12 && "/end session"@[1] == 'e',
        "?"@.len() == 1,
        "/help"@.len() == 5 && "/chat"@.len() == 5 && "/agent"@.len() == 6,
        "/status"@.len() == 7 && "/status"@[1] == 's',
        "/features"@.len() == 9 && "/features"@[1] == 'f',
        "/root"@.len() == 5,
        "/runtime"@.len() == 8 && "/runtime"@[1] == 'r' && "/runtime"@[2] == 'u',
        "/debug"@.len() == 6 && "/model"@.len() == 6,
        "/agent "@ == seq!['/', 'a', 'g', 'e', 'n', 't', ' '],
        "/root "@ == seq!['/', 'r', 'o', 'o', 't', ' '],
        "/model "@ == seq!['/', 'm', 'o', 'd', 'e', 'l', ' '],
        "/debug "@ == seq!['/', 'd', 'e', 'b', 'u', 'g', ' '],
        "/features "@.len() == 10 && "/features "@[1] == 'f',
        "/runtime "@.len() == 9 && "/runtime "@[1] == 'r',
{
    reveal_strlit("exit");
    reveal_strlit("quit");
    reveal_strlit("/exit");
    reveal_strlit("/quit");
    reveal_strlit("/exit quit");
    reveal_strlit("/quit exit");
    reveal_strlit("session end");
    reveal_strlit("/end");
    reveal_strlit("/end session");
    reveal_strlit("?");
    reveal_strlit("/help");
    reveal_strlit("/chat");
    reveal_strlit("/agent");
    reveal_strlit("/status");
    reveal_strlit("/features");
    reveal_strlit("/root");
    reveal_strlit("/runtime");
    reveal_strlit("/debug");
    reveal_strlit("/model");
    reveal_strlit("/agent ");
    reveal_strlit("/root ");
    reveal_strlit("/model ");
    reveal_strlit("/debug ");
    reveal_strlit("/features ");
    reveal_strlit("/runtime ");
    assert("/agent "@ =~= seq!['/', 'a', 'g', 'e', 'n', 't', ' ']);
    assert("/root "@ =~= seq!['/', 'r', 'o', 'o', 't', ' ']);
    assert("/model "@ =~= seq!['/', 'm', 'o', 'd', 'e', 'l', ' ']);
    assert("/debug "@ =~= seq!['/', 'd', 'e', 'b', 'u', 'g', ' ']);
}

// ---------------------------------------------------------------------------
// Prompts
// ---------------------------------------------------------------------------

/// A line that is a prompt and nothing else.
pub open spec fn is_plain_prompt(p: Seq<char>, context: ContextView) -> bool {
    &&& p.len() > 0
    &&& trimmed(p) == p
    &&& chat_command(p) is NotACommand
    &&& !asks_previous_root(p)
    &&& context.navigation == Ok::<Option<Seq<char>>, Seq<char>>(None)
    &&& !is_yes(p)
    &&& !is_no(p)
    &&& shell_read(p) is None
}

/// A prompt that speaks of no workspace is asked as it was typed, at once where
/// nothing is running and behind the others that wait where something is.
pub proof fn law_prompts_are_asked_as_typed(v: ChatView, p: Seq<char>, context: ContextView)
    requires
        is_plain_prompt(p, context),
        v.pending_approval is None,
        workspace_root_for(p, v.selected_root, context.place) is None,
    ensures
        v.in_flight ==> submitted(v, p, context).0 == (ChatView { queued: v.queued.push(p), ..v }),
        !v.in_flight && !v.legacy_routing ==> {
            &&& submitted(v, p, context).0 == (ChatView {
                steps: Seq::empty(),
                scanning: true,
                in_flight: true,
                ..v
            })
            &&& submitted(v, p, context).1 == seq![
                EffectView::StartScan,
                EffectView::Spawn(TurnView::Chat { prompt: p }),
            ]
        },
{
    reveal_strlit("/agent ");
    if !v.in_flight && !v.legacy_routing {
        assert(crate::repl::commands::agent_task(p) is None) by {
            if crate::repl::commands::agent_task(p) is Some {
                assert(chat_command(p) is Valid);
            }
        }
    }
}

/// A prompt that asks about the workspace, and names nothing outside of it, is a
/// task for the agent there, worded as it was typed.
pub proof fn law_workspace_prompts_are_tasks(
    v: ChatView,
    p: Seq<char>,
    context: ContextView,
    root: Seq<char>,
)
    requires
        is_plain_prompt(p, context),
        v.pending_approval is None,
        !v.in_flight,
        !v.legacy_routing,
        workspace_root_for(p, v.selected_root, context.place) == Some(root),
    ensures
        crate::intent::boundary_violation(p, root) is None ==> submitted(v, p, context).1 == seq![
            EffectView::StartScan,
            EffectView::Spawn(TurnView::Agent { task: p, root }),
        ],
        crate::intent::boundary_violation(p, root) is Some ==> !submitted(v, p, context).0.in_flight,
{
    assert(crate::repl::commands::agent_task(p) is None) by {
        if crate::repl::commands::agent_task(p) is Some {
            assert(chat_command(p) is Valid);
        }
    }
}

/// A yes runs the task that waits for it, in its root, and a no drops it; either
/// way it waits no longer, and without one nothing starts.
pub proof fn law_waiting_tasks_are_settled(
    v: ChatView,
    line: Seq<char>,
    context: ContextView,
    task: Seq<char>,
    root: Seq<char>,
)
    requires
        v.pending_approval is None,
        context.navigation == Ok::<Option<Seq<char>>, Seq<char>>(None),
        v.pending_task == Some((task, root)),
    ensures
        ({
            let (w, shown) = submitted(v, "yes"@, context);
            &&& w.pending_task is None
            &&& w.in_flight
            &&& shown.last() == EffectView::Spawn(TurnView::Agent { task, root })
            &&& shown[0] == EffectView::ApproveAgentRoot(root)
        }),
        ({
            let (w, shown) = submitted(v, "no"@, context);
            &&& w == (ChatView { pending_task: None, ..v })
            &&& forall|i: int| 0 <= i < shown.len() ==> !(#[trigger] shown[i] is Spawn)
        }),
{
    reveal_strlit("yes");
    reveal_strlit("no");
    lemma_answer("yes"@);
    lemma_answer("no"@);
    crate::repl::routing::law_answers_are_distinct("no"@);
}

proof fn lemma_answer(p: Seq<char>)
    requires
        p == "yes"@ || p == "no"@,
    ensures
        trimmed(p) == p,
        p.len() > 0,
        chat_command(p) is NotACommand,
        !asks_previous_root(p),
{
    let none = Seq::<char>::empty();
    reveal_strlit("yes");
    reveal_strlit("no");
    reveal_strlit("cd -");
    reveal_strlit("cd previous");
    reveal_strlit("cd back");
    law_trimming_drops_outer_space(none, p, none);
    assert(none + p + none =~= p);
    lemma_literals();
    crate::repl::commands::law_plain_lines_are_prompts(p);
    assert(lower_text(trimmed(p)).len() == p.len());
}

// ---------------------------------------------------------------------------
// Approvals
// ---------------------------------------------------------------------------

/// The choice that the user makes is the answer that the agent gets, once, and
/// the dialog is closed. All that was said and all that waits stays.
pub proof fn law_choices_are_the_answer(v: ChatView, request: RequestView)
    requires
        v.pending_approval == Some(request),
    ensures
        chosen(v, ApprovalChoice::ApproveOnce).1[1] == EffectView::Reply(ApprovalDecision::Approve),
        chosen(v, ApprovalChoice::ApproveForSession).1[1] == EffectView::Reply(
            ApprovalDecision::ApproveForSession,
        ),
        chosen(v, ApprovalChoice::Reject).1[1] == EffectView::Reply(ApprovalDecision::Deny),
        forall|choice: ApprovalChoice|
            {
                let (w, shown) = #[trigger] chosen(v, choice);
                &&& w.pending_approval is None
                &&& w.memory == v.memory
                &&& w.queued == v.queued
                &&& w.in_flight == v.in_flight
                &&& w.selected_root == v.selected_root
                &&& shown[0] is ClearApproval
                &&& forall|i: int| 0 <= i < shown.len() && i != 1 ==> !(#[trigger] shown[i] is Reply)
            },
{
}

/// A request that a lasting approval covers is answered with a yes at once and
/// opens no dialog.
pub proof fn law_covered_requests_go_through(v: ChatView, request: RequestView)
    requires
        v.approved.contains(grant(request.root, request.scope)),
    ensures
        approval_asked(v, request).0 == (ChatView { scanning: true, ..v }),
        approval_asked(v, request).1[1] == EffectView::Reply(ApprovalDecision::Approve),
        forall|i: int|
            0 <= i < approval_asked(v, request).1.len() ==> !(#[trigger] approval_asked(
                v,
                request,
            ).1[i] is ShowApproval),
{
}

/// The dialog shows the tool, the kind and the summary of the request that it is
/// about.
pub proof fn law_dialogs_show_their_request(v: ChatView, request: RequestView)
    requires
        !v.approved.contains(grant(request.root, request.scope)),
    ensures
        approval_asked(v, request).1 == seq![
            EffectView::ShowApproval {
                tool: request.tool,
                scope: request.scope,
                summary: request.summary,
            },
        ],
{
}

// ---------------------------------------------------------------------------
// Turns
// ---------------------------------------------------------------------------

/// What the worker reports is passed on: text is put behind the text that waits,
/// a step behind the steps before, and a request, a result and a failure are
/// reported as they came.
pub proof fn law_reports_are_passed_on(
    v: DrainView,
    text: Seq<char>,
    request: RequestView,
    result: Result<(Seq<char>, Seq<char>), Seq<char>>,
    elapsed: Option<nat>,
)
    ensures
        drained(v, EventView::Delta(text), elapsed).0.chunk == v.chunk + text,
        drained(v, EventView::Delta(text), elapsed).2 is More,
        drained(v, EventView::RenderedMarkdown(text), elapsed).1.last()
            == DrainOpView::StreamRendered(text),
        drained(v, EventView::ApprovalRequest(request), elapsed).2 == DrainOutcomeView::Approval(
            request,
        ),
        drained(v, EventView::Complete(result), elapsed).2 == DrainOutcomeView::Complete(result),
        drained(v, EventView::Nothing, elapsed).2 is Idle,
        drained(v, EventView::Disconnected, elapsed).2 is Complete,
        drained(v, EventView::Disconnected, elapsed).2->Complete_0 is Err,
{
}

/// A turn that was answered is remembered: its prompt and its answer are the
/// newest in the memory. A failed one is reported and not remembered.
pub proof fn law_answered_turns_are_remembered(
    v: ChatView,
    prompt: Seq<char>,
    answer: Seq<char>,
    error: Seq<char>,
    streamed: bool,
    place: PlaceView,
)
    requires
        v.memory.len() <= 38,
        total_content(v.memory) + prompt.len() + answer.len() <= 40_000,
    ensures
        ({
            let m = reported(v, DrainOutcomeView::Complete(Ok((prompt, answer))), streamed, place).0.memory;
            &&& m.len() == v.memory.len() + 2
            &&& m.take(v.memory.len() as int) == v.memory
            &&& m[v.memory.len() as int].role == "user"@
            &&& m[v.memory.len() as int].content == prompt
            &&& m[v.memory.len() as int + 1].role == "assistant"@
            &&& m[v.memory.len() as int + 1].content == answer
        }),
        ({
            let (w, shown) = reported(v, DrainOutcomeView::Complete(Err(error)), streamed, place);
            &&& w.memory == v.memory
            &&& shown[2] == EffectView::Print("error: "@ + error + "\n"@)
        }),
{
    law_turn_follows_the_history(v.memory, prompt, answer);
}

/// The model is sent what was said before, then what was found for the prompt,
/// and last the prompt.
pub proof fn law_prompts_come_last(prior: Seq<MessageView>, context: MessageView, prompt: Seq<char>)
    ensures
        messages_for(prior, None, prompt).len() == prior.len() + 1,
        messages_for(prior, None, prompt).drop_last() == prior,
        messages_for(prior, None, prompt).last().role == "user"@,
        messages_for(prior, None, prompt).last().content == prompt,
        messages_for(prior, Some(context), prompt).len() == prior.len() + 2,
        messages_for(prior, Some(context), prompt).take(prior.len() as int) == prior,
        messages_for(prior, Some(context), prompt)[prior.len() as int] == context,
        messages_for(prior, Some(context), prompt).last().role == "user"@,
        messages_for(prior, Some(context), prompt).last().content == prompt,
{
    assert(messages_for(prior, None, prompt).drop_last() =~= prior);
    assert(messages_for(prior, Some(context), prompt).take(prior.len() as int) =~= prior);
}

/// A prompt that was answered in a session is saved behind what the session
/// holds, with the time, and nothing else of the session changes.
pub proof fn law_sessions_grow_by_the_turn(
    state: SessionView,
    prompt: Seq<char>,
    answer: Seq<char>,
    error: Seq<char>,
    now: u64,
)
    requires
        state.messages.len() <= 38,
        total_content(state.messages) + prompt.len() + answer.len() <= 40_000,
    ensures
        session_to_save(Some(state), prompt, Err(error), now) is None,
        ({
            let n = state.messages.len() as int;
            let saved = session_to_save(Some(state), prompt, Ok(answer), now)->Some_0;
            &&& session_to_save(Some(state), prompt, Ok(answer), now) is Some
            &&& saved == (SessionView { messages: saved.messages, updated_at: now, ..state })
            &&& saved.messages.len() == n + 2
            &&& saved.messages.take(n) == state.messages
            &&& saved.messages[n].role == "user"@ && saved.messages[n].content == prompt
            &&& saved.messages[n + 1].role == "assistant"@ && saved.messages[n + 1].content == answer
        }),
{
    law_turn_follows_the_history(state.messages, prompt, answer);
}

// ---------------------------------------------------------------------------
// Roots
// ---------------------------------------------------------------------------

/// A new root is saved and shown, and the one that was left can be gone back to.
/// One that was not found changes nothing.
pub proof fn law_roots_are_saved_and_left(
    v: ChatView,
    root: Seq<char>,
    error: Seq<char>,
    place: PlaceView,
)
    ensures
        ({
            let (w, shown) = root_resolved(v, Ok(Some(root)), place);
            &&& w.selected_root == Some(root)
            &&& v.selected_root != Some(root) ==> w.previous_root == v.selected_root
            &&& v.selected_root == Some(root) ==> w.previous_root == v.previous_root
            &&& w.memory == v.memory
            &&& w.queued == v.queued
            &&& shown.contains(EffectView::SaveRoot(Some(root)))
            &&& shown.last() == EffectView::Print("root: "@ + root + "\nroot-source: "@ + "explicit"@ + "\n"@)
        }),
        root_resolved(v, Err(error), place).0 == v,
{
    let shown = root_resolved(v, Ok(Some(root)), place).1;
    assert(shown[1] == EffectView::SaveRoot(Some(root)));
}

/// A task works in the root that was selected; without one, in the directory
/// where the program runs, unless that is the home directory.
pub proof fn law_tasks_work_in_their_root(selected: Seq<char>, cwd: Seq<char>, place: PlaceView)
    ensures
        root_in(Some(selected), place) == Some(selected),
        place.cwd == Some(cwd) && !place.cwd_is_home ==> root_in(None, place) == Some(cwd),
        place.cwd_is_home ==> root_in(None, place) is None,
{
}

proof fn lemma_first_found_at(found: Seq<Result<Seq<char>, Seq<char>>>, k: int, at: int)
    requires
        0 <= k <= at <= found.len(),
        forall|j: int| 0 <= j < at ==> (#[trigger] found[j]) is Err,
        at < found.len() ==> found[at] is Ok,
    ensures
        first_found(found, k) == if at < found.len() {
            Some(found[at]->Ok_0)
        } else {
            None
        },
    decreases at - k,
{
    if k < at {
        assert(found[k] is Err);
        lemma_first_found_at(found, k + 1, at);
    }
}

/// The first place that was found is where a move goes. Where none was, a move
/// that was clearly asked for fails with the first reason, and any other is no
/// move.
pub proof fn law_moves_go_to_the_first_place_found(
    missed: Seq<Result<Seq<char>, Seq<char>>>,
    root: Seq<char>,
    others: Seq<Result<Seq<char>, Seq<char>>>,
    explicit: bool,
)
    requires
        forall|j: int| 0 <= j < missed.len() ==> (#[trigger] missed[j]) is Err,
    ensures
        move_outcome(explicit, missed.push(Ok(root)) + others) == Ok::<Option<Seq<char>>, Seq<char>>(
            Some(root),
        ),
        move_outcome(false, missed) == Ok::<Option<Seq<char>>, Seq<char>>(None),
        missed.len() > 0 ==> move_outcome(true, missed) == Err::<Option<Seq<char>>, Seq<char>>(
            missed[0]->Err_0,
        ),
        move_outcome(true, Seq::empty()) is Err,
{
    let found = missed.push(Ok(root)) + others;
    let n = missed.len() as int;
    assert(found[n] == Ok::<Seq<char>, Seq<char>>(root));
    assert forall|j: int| 0 <= j < n implies (#[trigger] found[j]) is Err by {
        assert(found[j] == missed[j]);
    }
    lemma_first_found_at(found, 0, n);
    lemma_first_found_at(missed, 0, n);
}

/// Changing the directory asks for the place that is named.
pub proof fn law_named_places_are_asked_for(place: Seq<char>)
    requires
        is_word(place),
    ensures
        move_target("cd "@ + place) == Some((place, true)),
{
    reveal_strlit("cd ");
    reveal_strlit("cd to ");
    reveal_strlit("cd into ");
    let none = Seq::<char>::empty();
    let p = "cd "@ + place;
    let low = lower_text(p);
    law_trimming_drops_outer_space(none, p, none);
    assert(none + p + none =~= p);
    assert forall|i: int| 3 <= i < p.len() implies #[trigger] low[i] != ' ' by {
        assert(p[i] == place[i - 3]);
    }
    lemma_other_prefix_at(low, "cd into "@, 7);
    lemma_other_prefix_at(low, "cd to "@, 5);
    assert(low.subrange(0, 3) =~= "cd "@);
    assert(has_prefix(low, "cd "@));
    assert(after_chars(p, 3) =~= place);
    law_words_lie_between_white_space(place, ' ', none);
    reveal_with_fuel(moved_words, 3);
    assert(moved_words(p, 0) is Some);
}

proof fn lemma_other_prefix_at(p: Seq<char>, start: Seq<char>, i: int)
    requires
        0 <= i < start.len(),
        start[i] == ' ',
        3 <= i,
        forall|j: int| 3 <= j < p.len() ==> #[trigger] p[j] != ' ',
    ensures
        !has_prefix(p, start),
{
    if has_prefix(p, start) {
        assert(p.subrange(0, start.len() as int)[i] == p[i]);
    }
}

// ---------------------------------------------------------------------------
// Words that name files
// ---------------------------------------------------------------------------

pub open spec fn all_wrapping(s: Seq<char>) -> bool {
    forall|i: int| 0 <= i < s.len() ==> is_wrapping(#[trigger] s[i])
}

proof fn lemma_unwrapped_start(front: Seq<char>, rest: Seq<char>, i: int)
    requires
        all_wrapping(front),
        0 <= i <= front.len(),
        rest.len() > 0,
        !is_wrapping(rest[0]),
    ensures
        unwrapped_start(front + rest, i) == front.len(),
    decreases front.len() - i,
{
    let s = front + rest;
    if i < front.len() {
        assert(s[i] == front[i]);
        lemma_unwrapped_start(front, rest, i + 1);
    } else {
        assert(s[i] == rest[0]);
    }
}

proof fn lemma_unwrapped_end(head: Seq<char>, back: Seq<char>, from: int, n: int)
    requires
        all_wrapping(back),
        head.len() <= n <= head.len() + back.len(),
        0 <= from < head.len(),
        !is_wrapping(head.last()),
    ensures
        unwrapped_end(head + back, from, n) == head.len(),
    decreases n,
{
    let s = head + back;
    if n > head.len() {
        assert(s[n - 1] == back[n - 1 - head.len()]);
        lemma_unwrapped_end(head, back, from, n - 1);
    } else {
        assert(s[n - 1] == head.last());
    }
}

/// A word in a prompt is read without the quotes, brackets and marks round it,
/// and without one full stop at its end.
pub proof fn law_words_lose_their_wrapping(front: Seq<char>, w: Seq<char>, back: Seq<char>)
    requires
        all_wrapping(front),
        all_wrapping(back),
        w.len() > 0,
        !is_wrapping(w[0]),
        !is_wrapping(w.last()),
        w.last() != '.',
    ensures
        clean_word(front + w + back) == w,
        clean_word(front + w.push('.') + back) == w,
{
    lemma_unwrapped(front, w, back);
    lemma_unwrapped(front, w.push('.'), back);
    assert(w.push('.').drop_last() =~= w);
}

proof fn lemma_unwrapped(front: Seq<char>, w: Seq<char>, back: Seq<char>)
    requires
        all_wrapping(front),
        all_wrapping(back),
        w.len() > 0,
        !is_wrapping(w[0]),
        !is_wrapping(w.last()),
    ensures
        unwrapped(front + w + back) == w,
{
    let s = front + w + back;
    assert(front + (w + back) =~= s);
    lemma_unwrapped_start(front, w + back, 0);
    let head = front + w;
    lemma_unwrapped_end(head, back, front.len() as int, s.len() as int);
    assert(s.subrange(front.len() as int, head.len() as int) =~= w);
}

proof fn lemma_clean_words(ws: Seq<Seq<char>>, n: int, k: int)
    requires
        0 <= k < n <= ws.len(),
        clean_word(ws[k]).len() > 0,
    ensures
        clean_words_upto(ws, n).contains(clean_word(ws[k])),
    decreases n,
{
    let before = clean_words_upto(ws, n - 1);
    if k < n - 1 {
        lemma_clean_words(ws, n - 1, k);
        let i = choose|i: int| 0 <= i < before.len() && before[i] == clean_word(ws[k]);
        if clean_word(ws[n - 1]).len() > 0 {
            assert(clean_words_upto(ws, n)[i] == clean_word(ws[k]));
        }
    } else {
        assert(clean_words_upto(ws, n)[before.len() as int] == clean_word(ws[k]));
    }
}

/// A prompt that names a path outside the root, anywhere in it, is one that
/// leaves the root.
pub proof fn law_paths_outside_are_noticed(prompt: Seq<char>, root: Seq<char>, k: int)
    requires
        0 <= k < words(prompt).len(),
        clean_word(words(prompt)[k]).contains('/'),
        !crate::paths::is_inside(
            crate::paths::resolved_path(crate::paths::normal_path(root), clean_word(words(prompt)[k])),
            crate::paths::normal_path(root),
        ),
    ensures
        crate::intent::boundary_violation(prompt, root) is Some,
{
    let w = clean_word(words(prompt)[k]);
    let i = choose|i: int| 0 <= i < w.len() && w[i] == '/';
    assert(w.len() > 0);
    lemma_clean_words(words(prompt), words(prompt).len() as int, k);
    let list = file_words(prompt);
    let j = choose|j: int| 0 <= j < list.len() && list[j] == w;
    assert(crate::intent::is_path_like(list[j]));
    crate::intent::law_boundary_is_complete(prompt, root);
}

// ---------------------------------------------------------------------------
// Intents
// ---------------------------------------------------------------------------

/// The words that ask for work when a prompt starts with one of them.
pub open spec fn work_words() -> Seq<Seq<char>> {
    seq![
        "fix"@,
        "add"@,
        "remove"@,
        "update"@,
        "implement"@,
        "run"@,
        "commit"@,
        "push"@,
        "audit"@,
        "refactor"@,
        "create"@,
        "delete"@,
        "rename"@,
        "test"@,
        "build"@,
    ]
}

proof fn lemma_work_words(k: int)
    requires
        0 <= k < 15,
    ensures
        is_word(work_words()[k]),
        work_words()[k].len() >= 3,
        ({
            let c = work_words()[k][0];
            let d = work_words()[k][1];
            &&& c != 'w' && c != 'h' && c != 's' && c != 'e'
            &&& c == 'd' ==> d == 'e'
            &&& c == 'c' ==> d == 'o' || d == 'r'
        }),
{
    reveal_strlit("fix");
    reveal_strlit("add");
    reveal_strlit("remove");
    reveal_strlit("update");
    reveal_strlit("implement");
    reveal_strlit("run");
    reveal_strlit("commit");
    reveal_strlit("push");
    reveal_strlit("audit");
    reveal_strlit("refactor");
    reveal_strlit("create");
    reveal_strlit("delete");
    reveal_strlit("rename");
    reveal_strlit("test");
    reveal_strlit("build");
    let w = work_words()[k];
    assert forall|i: int| 0 <= i < w.len() implies !crate::text::is_space(#[trigger] w[i]) by {
        assert(w[i] >= 'a' && w[i] <= 'z');
    }
}

/// A prompt that starts with a word for work is a task where there is a
/// workspace, whatever follows, and where there is none the user is asked.
pub proof fn law_work_is_a_task(k: int, rest: Seq<char>, recent: bool, file: bool)
    requires
        0 <= k < 15,
    ensures
        intent_of(work_words()[k] + (" "@ + rest), recent, true, file) == Intent::Task,
        intent_of(work_words()[k] + (" "@ + rest), recent, false, file) == Intent::Clarify,
{
    reveal_strlit(" ");
    let w = work_words()[k];
    let p = w + (" "@ + rest);
    lemma_work_words(k);
    assert(" "@ =~= seq![' ']);
    law_words_lie_between_white_space(w, ' ', rest);
    assert(words(p)[0] == w);
    assert(p[0] == w[0] && p[1] == w[1]);
    lemma_no_question(p);
    assert(crate::intent::is_task_verb(w));
}

proof fn lemma_no_question(p: Seq<char>)
    requires
        p.len() >= 2,
        p[0] != 'w' && p[0] != 'h' && p[0] != 's' && p[0] != 'e',
        p[0] == 'd' ==> p[1] == 'e',
        p[0] == 'c' ==> p[1] == 'o' || p[1] == 'r',
    ensures
        !crate::intent::is_open_question(p),
        !crate::intent::is_vague(p),
{
    reveal_strlit("what ");
    reveal_strlit("why ");
    reveal_strlit("how ");
    reveal_strlit("should we ");
    reveal_strlit("does this make sense");
    reveal_strlit("can you explain");
    reveal_strlit("help me understand");
    reveal_strlit("explain ");
    reveal_strlit("can you look at this");
    reveal_strlit("can you look at this please");
    lemma_other_prefix(p, "what "@, 0);
    lemma_other_prefix(p, "why "@, 0);
    lemma_other_prefix(p, "how "@, 0);
    lemma_other_prefix(p, "should we "@, 0);
    lemma_other_prefix(p, "help me understand"@, 0);
    lemma_other_prefix(p, "explain "@, 0);
    if p[0] == 'd' {
        lemma_other_prefix(p, "does this make sense"@, 1);
    } else {
        lemma_other_prefix(p, "does this make sense"@, 0);
    }
    if p[0] == 'c' {
        lemma_other_prefix(p, "can you explain"@, 1);
    } else {
        lemma_other_prefix(p, "can you explain"@, 0);
    }
}

/// A question is talk, whatever it is about and wherever it is asked.
pub proof fn law_questions_are_talk(rest: Seq<char>, recent: bool, workspace: bool, file: bool)
    ensures
        intent_of("what "@ + rest, recent, workspace, file) == Intent::Chat,
        intent_of("why "@ + rest, recent, workspace, file) == Intent::Chat,
        intent_of("how "@ + rest, recent, workspace, file) == Intent::Chat,
        intent_of("explain "@ + rest, recent, workspace, file) == Intent::Chat,
{
    reveal_strlit("what ");
    reveal_strlit("why ");
    reveal_strlit("how ");
    reveal_strlit("explain ");
    reveal_strlit("can you look at this");
    reveal_strlit("can you look at this please");
    lemma_prefix("what "@, rest);
    lemma_prefix("why "@, rest);
    lemma_prefix("how "@, rest);
    lemma_prefix("explain "@, rest);
    assert(("what "@ + rest)[0] == 'w');
    assert(("why "@ + rest)[0] == 'w');
    assert(("how "@ + rest)[0] == 'h');
    assert(("explain "@ + rest)[0] == 'e');
}

// ---------------------------------------------------------------------------
// Commands in a docked chat
// ---------------------------------------------------------------------------

/// Every command does its own work and no other: it is handed on with what was
/// named in it, and neither the memory nor what waits changes.
pub proof fn law_commands_are_handed_on(
    v: ChatView,
    p: Seq<char>,
    arg: Seq<char>,
    place: PlaceView,
    command: CommandView,
)
    ensures
        commanded(v, p, CommandView::Exit, place) == (v, seq![EffectView::Leave]),
        commanded(v, p, CommandView::End, place).1.contains(EffectView::DeleteSession),
        commanded(v, p, CommandView::End, place).1.last() is Leave,
        commanded(v, p, CommandView::Help, place) == (v, seq![EffectView::ShowHelp]),
        commanded(v, p, CommandView::Status, place) == (v, seq![EffectView::ShowStatus]),
        commanded(v, p, CommandView::Root(Some(arg)), place) == (
            v,
            seq![EffectView::ResolveRoot(arg)],
        ),
        commanded(v, p, CommandView::Model(Some(arg)), place) == (v, seq![EffectView::SetModel(arg)]),
        commanded(v, p, CommandView::Model(None), place) == (v, seq![EffectView::ShowModels]),
        commanded(v, p, CommandView::Debug(Some(arg)), place) == (
            v,
            seq![EffectView::Debug(Some(arg))],
        ),
        commanded(v, p, CommandView::ChatMode, place).0 == (ChatView { pending_task: None, ..v }),
        commanded(v, p, command, place).0.memory == v.memory,
        !(command is DirectAgentTask) ==> commanded(v, p, command, place).0.queued == v.queued,
{
    let end = commanded(v, p, CommandView::End, place).1;
    assert(end[0] is DeleteSession);
}

/// A task that is given to the agent by command waits where a turn is running,
/// and starts at once, worded as it was given, where none is.
pub proof fn law_commanded_tasks_start(
    v: ChatView,
    p: Seq<char>,
    task: Seq<char>,
    root: Seq<char>,
    place: PlaceView,
)
    ensures
        v.in_flight ==> commanded(v, p, CommandView::DirectAgentTask(task), place).0 == (ChatView {
            queued: v.queued.push(p),
            ..v
        }),
        !v.in_flight && task_root(task, v.selected_root, place) == Some(root)
            && crate::intent::boundary_violation(task, root) is None ==> commanded(
            v,
            p,
            CommandView::DirectAgentTask(task),
            place,
        ).1 == seq![EffectView::StartScan, EffectView::Spawn(TurnView::Agent { task, root })],
        !v.in_flight && task_root(task, v.selected_root, place) is None ==> !commanded(
            v,
            p,
            CommandView::DirectAgentTask(task),
            place,
        ).0.in_flight,
{
}

// ---------------------------------------------------------------------------
// Places
// ---------------------------------------------------------------------------

/// Where a named place is looked for: an absolute path there and nowhere else,
/// a path from the home directory below it, and any other below the selected
/// root first and then below the home directory.
pub proof fn law_places_are_looked_for(
    place: Seq<char>,
    rest: Seq<char>,
    selected: Seq<char>,
    home: Seq<char>,
)
    ensures
        place.len() > 0 && place[0] == '/' ==> place_candidates(place, Some(selected), Some(home))
            == seq![place],
        place_candidates("~"@, Some(selected), Some(home)) == seq![home],
        place_candidates("~/"@ + rest, Some(selected), Some(home)) == seq![path_join(home, rest)],
        place.len() > 0 && place[0] != '/' && place[0] != '~' ==> place_candidates(
            place,
            Some(selected),
            Some(home),
        ) == seq![path_join(selected, place), path_join(home, place)],
{
    reveal_strlit("~");
    reveal_strlit("~/");
    lemma_prefix("~/"@, rest);
    let p = "~/"@ + rest;
    assert(p[0] == '~' && p.len() >= 2);
    assert(p != "~"@);
    if place.len() > 0 && place[0] != '/' && place[0] != '~' {
        lemma_other_prefix(place, "~/"@, 0);
        assert(place != "~"@);
        assert(seq![path_join(selected, place)] + seq![path_join(home, place)] =~= seq![
            path_join(selected, place),
            path_join(home, place),
        ]);
    }
}

} // verus!
