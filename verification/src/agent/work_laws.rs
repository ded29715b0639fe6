//! What the tools of the agent are for, and what a run makes of them.
use vstd::prelude::*;

use crate::agent::decision::{DecisionView, Repair, ToolView};
use crate::agent::run::{after_announcement, after_approval, after_decision, after_reply, after_result, run_outcome, started, EndView, EntryView, OutcomeView, PhaseView, RunView};
use crate::agent::run::{sanitized, shown_from, Attempt};
use crate::agent::tools::{tool_plan, PlanView};
use crate::agent::types::{request_for, ApprovalDecision, ApprovalMode, RequestView};
use crate::input::approval::ApprovalScope;
use crate::json::{holds, lacks, law_members_are_found_by_name, law_text_members_are_read_as_they_are, JsonView};
use crate::provider::MessageView;
use crate::safety::{capped, redacted};
use crate::text::{decimal, has_prefix, joined, trimmed};

verus! {

// ---------------------------------------------------------------------------
// Tools
// ---------------------------------------------------------------------------

/// The argument `key` is the text `text`, which is not empty.
pub open spec fn is_given(call: ToolView, key: Seq<char>, text: Seq<char>) -> bool {
    holds(call.arguments, key, JsonView::Str(text)) && text.len() > 0
}

/// The text of an argument that may be left out.
pub open spec fn is_given_or(call: ToolView, key: Seq<char>, text: Seq<char>, otherwise: Seq<char>) -> bool {
    ||| holds(call.arguments, key, JsonView::Str(text))
    ||| lacks(call.arguments, key) && text == otherwise
}

/// The reading tools look at the path that the call names, in every mode.
pub proof fn law_reading_tools_go_where_they_are_sent(
    call: ToolView,
    mode: ApprovalMode,
    path: Seq<char>,
    query: Seq<char>,
)
    requires
        is_given(call, "path"@, path),
        is_given(call, "query"@, query) || lacks(call.arguments, "query"@),
    ensures
        call.name == "list_files"@ ==> tool_plan(call, mode) == (PlanView::ListFiles { path }),
        call.name == "read_file"@ ==> tool_plan(call, mode) == (PlanView::ReadFile { path }),
        call.name == "search_files"@ && is_given(call, "query"@, query) ==> tool_plan(call, mode)
            == (PlanView::SearchFiles { path, query }),
        call.name == "search_files"@ && lacks(call.arguments, "query"@) ==> tool_plan(call, mode)
            == PlanView::Answer("error: missing non-empty `"@ + "query"@ + "`"@),
        call.name == "inspect_tree"@ ==> tool_plan(call, mode) is InspectTree && tool_plan(
            call,
            mode,
        )->InspectTree_path == path,
{
    lemma_names_differ();
    law_text_members_are_read_as_they_are(call.arguments, "path"@, path);
    law_text_members_are_read_as_they_are(call.arguments, "query"@, query);
}

/// A tree is shown to the depth that the call names, four at most, and two where
/// it names none.
pub proof fn law_trees_have_the_depth_asked_for(
    call: ToolView,
    mode: ApprovalMode,
    path: Seq<char>,
    depth: u64,
)
    requires
        call.name == "inspect_tree"@,
        is_given(call, "path"@, path),
    ensures
        holds(call.arguments, "depth"@, JsonView::Unsigned(depth)) ==> tool_plan(call, mode)
            == (PlanView::InspectTree {
            path,
            depth: if depth <= 4 {
                depth as int
            } else {
                4
            },
        }),
        lacks(call.arguments, "depth"@) ==> tool_plan(call, mode) == (PlanView::InspectTree {
            path,
            depth: 2,
        }),
{
    lemma_names_differ();
    law_text_members_are_read_as_they_are(call.arguments, "path"@, path);
    law_members_are_found_by_name(call.arguments, "depth"@, JsonView::Unsigned(depth));
}

/// A web search is for the words that the call names, without the white space
/// round them, with as many hits as it asks for: one to ten, and five where it
/// does not say.
pub proof fn law_web_searches_ask_for_the_query(
    call: ToolView,
    mode: ApprovalMode,
    query: Seq<char>,
    n: u64,
)
    requires
        call.name == "web_search"@,
        is_given(call, "query"@, query),
        trimmed(query).len() > 0,
    ensures
        lacks(call.arguments, "max_results"@) ==> tool_plan(call, mode) == (PlanView::WebSearch {
            query: trimmed(query),
            max_results: 5,
        }),
        holds(call.arguments, "max_results"@, JsonView::Unsigned(n)) ==> tool_plan(call, mode) == (
        PlanView::WebSearch {
            query: trimmed(query),
            max_results: if n < 1 {
                1
            } else if n > 10 {
                10
            } else {
                n as int
            },
        }),
{
    lemma_names_differ();
    law_text_members_are_read_as_they_are(call.arguments, "query"@, query);
    law_members_are_found_by_name(call.arguments, "max_results"@, JsonView::Unsigned(n));
}

/// A fetch is of the address that the call names, within the limits on bytes and
/// time.
pub proof fn law_fetches_are_of_the_address_named(
    call: ToolView,
    mode: ApprovalMode,
    url: Seq<char>,
    bytes: u64,
    millis: u64,
)
    requires
        call.name == "fetch_url"@,
        is_given(call, "url"@, url),
        trimmed(url).len() > 0,
        lacks(call.arguments, "format"@),
        holds(call.arguments, "max_bytes"@, JsonView::Unsigned(bytes)),
        holds(call.arguments, "timeout_ms"@, JsonView::Unsigned(millis)),
    ensures
        tool_plan(call, mode) is FetchUrl,
        tool_plan(call, mode)->FetchUrl_url == trimmed(url),
        tool_plan(call, mode)->FetchUrl_options.max_bytes == if bytes <= 10_485_760 {
            bytes
        } else {
            10_485_760
        },
        tool_plan(call, mode)->FetchUrl_options.timeout_ms == if millis <= 60_000 {
            millis
        } else {
            60_000
        },
{
    lemma_names_differ();
    law_text_members_are_read_as_they_are(call.arguments, "url"@, url);
    law_text_members_are_read_as_they_are(call.arguments, "format"@, url);
    law_members_are_found_by_name(call.arguments, "max_bytes"@, JsonView::Unsigned(bytes));
    law_members_are_found_by_name(call.arguments, "timeout_ms"@, JsonView::Unsigned(millis));
}

/// A command that was approved is run as the call wrote it, in the directory
/// that the call names, or else in the root. One that was not is not run, and
/// the model is told so.
pub proof fn law_approved_commands_run(
    call: ToolView,
    mode: ApprovalMode,
    command: Seq<char>,
    cwd: Seq<char>,
)
    requires
        call.name == "run_shell"@,
        is_given(call, "command"@, command),
        is_given_or(call, "cwd"@, cwd, "."@),
    ensures
        mode is Approved ==> tool_plan(call, mode) == (PlanView::RunShell { command, cwd }),
        mode is Interactive ==> tool_plan(call, mode) is AskUser,
        mode is Deny || mode is External ==> tool_plan(call, mode) == PlanView::Answer(
            "error: "@ + "run_shell"@ + " denied by user"@,
        ),
{
    lemma_names_differ();
    law_text_members_are_read_as_they_are(call.arguments, "command"@, command);
    law_text_members_are_read_as_they_are(call.arguments, "cwd"@, cwd);
}

/// A patch that was approved is made as the call wrote it; one that was not is
/// not made, and the model is told so.
pub proof fn law_approved_patches_are_made(
    call: ToolView,
    mode: ApprovalMode,
    path: Seq<char>,
    find: Seq<char>,
    replace: Seq<char>,
)
    requires
        call.name == "propose_patch"@,
        is_given(call, "path"@, path),
        is_given(call, "find"@, find),
        is_given_or(call, "replace"@, replace, Seq::empty()),
    ensures
        mode is Approved ==> tool_plan(call, mode) == (PlanView::ProposePatch {
            path,
            find,
            replace,
        }),
        mode is Interactive ==> tool_plan(call, mode) is AskUser,
        mode is Deny || mode is External ==> tool_plan(call, mode) == PlanView::Answer(
            "error: "@ + "propose_patch"@ + " denied by user"@,
        ),
{
    lemma_names_differ();
    law_text_members_are_read_as_they_are(call.arguments, "path"@, path);
    law_text_members_are_read_as_they_are(call.arguments, "find"@, find);
    law_text_members_are_read_as_they_are(call.arguments, "replace"@, replace);
}

/// The names of the tools are eight different ones.
proof fn lemma_names_differ()
    ensures
        "list_files"@.len() == 10,
        "read_file"@.len() == 9,
        "search_files"@.len() == 12,
        "inspect_tree"@.len() == 12,
        "web_search"@.len() == 10,
        "fetch_url"@.len() == 9,
        "run_shell"@.len() == 9,
        "propose_patch"@.len() == 13,
        "list_files"@[0] == 'l',
        "web_search"@[0] == 'w',
        "read_file"@[0] == 'r' && "read_file"@[1] == 'e',
        "fetch_url"@[0] == 'f',
        "run_shell"@[0] == 'r' && "run_shell"@[1] == 'u',
        "search_files"@[0] == 's',
        "inspect_tree"@[0] == 'i',
{
    reveal_strlit("list_files");
    reveal_strlit("read_file");
    reveal_strlit("search_files");
    reveal_strlit("inspect_tree");
    reveal_strlit("web_search");
    reveal_strlit("fetch_url");
    reveal_strlit("run_shell");
    reveal_strlit("propose_patch");
}

// ---------------------------------------------------------------------------
// Approval
// ---------------------------------------------------------------------------

/// The answer of the user is obeyed: approved once or for the session, the tool
/// that was asked about is ready as approved; denied, it is ready as denied.
/// Nothing else changes.
pub proof fn law_approval_is_obeyed(v: RunView, decision: ApprovalDecision)
    requires
        v.phase is Approve,
    ensures
        ({
            let after = after_approval(v, decision);
            &&& decision is Approve || decision is ApproveForSession ==> after.phase
                == PhaseView::Ready(ApprovalMode::Approved)
            &&& decision is Deny ==> after.phase == PhaseView::Ready(ApprovalMode::Deny)
            &&& after == (RunView { phase: after.phase, ..v })
        }),
{
}

/// An approved command runs, and a denied one does not: from the answer of the
/// user to what is done with the tool.
pub proof fn law_user_decides_on_commands(
    v: RunView,
    decision: ApprovalDecision,
    command: Seq<char>,
    cwd: Seq<char>,
)
    requires
        v.wf(),
        v.phase is Approve,
        v.tools[v.index].name == "run_shell"@,
        is_given(v.tools[v.index], "command"@, command),
        is_given_or(v.tools[v.index], "cwd"@, cwd, "."@),
    ensures
        ({
            let after = after_approval(v, decision);
            &&& after.phase is Ready
            &&& after.tools[after.index] == v.tools[v.index]
            &&& tool_plan(after.tools[after.index], after.phase->Ready_0) == if decision is Deny {
                PlanView::Answer("error: "@ + "run_shell"@ + " denied by user"@)
            } else {
                PlanView::RunShell { command, cwd }
            }
        }),
{
    law_approval_is_obeyed(v, decision);
    law_approved_commands_run(v.tools[v.index], ApprovalMode::Approved, command, cwd);
    law_approved_commands_run(v.tools[v.index], ApprovalMode::Deny, command, cwd);
}

/// Who approves: where approvals come from outside, the user is asked about
/// commands and patches and about nothing else; elsewhere the run's own mode
/// decides.
pub proof fn law_user_is_asked_about_commands_and_patches(v: RunView)
    requires
        v.phase is Announce,
    ensures
        ({
            let name = v.tools[v.index].name;
            let after = after_announcement(v);
            &&& after == (RunView { phase: after.phase, ..v })
            &&& v.mode is External && (name == "run_shell"@ || name == "propose_patch"@)
                ==> after.phase is Approve
            &&& v.mode is External && name != "run_shell"@ && name != "propose_patch"@
                ==> after.phase == PhaseView::Ready(ApprovalMode::Deny)
            &&& !(v.mode is External) ==> after.phase == PhaseView::Ready(v.mode)
        }),
{
}

// ---------------------------------------------------------------------------
// Decisions
// ---------------------------------------------------------------------------

/// A text as it is recorded and sent: without secrets, and twelve thousand
/// characters of it at most.
pub open spec fn kept_text(s: Seq<char>) -> Seq<char> {
    capped(redacted(s), 12_000)
}

pub open spec fn entry(role: Seq<char>, content: Seq<char>) -> EntryView {
    EntryView { role, content }
}

pub open spec fn said(role: Seq<char>, content: Seq<char>) -> MessageView {
    MessageView { role, content, reasoning: None, calls: None, call_id: None }
}

/// A run starts with the instructions for its root and the task, which is the
/// first line of its record.
pub proof fn law_run_starts_with_its_task(
    root: Seq<char>,
    max_steps: int,
    mode: ApprovalMode,
    task: Seq<char>,
)
    ensures
        ({
            let v = started(root, max_steps, mode, task);
            &&& v.root == root && v.max_steps == max_steps && v.mode == mode && v.step == 1
            &&& v.phase == PhaseView::Ask(Attempt::First)
            &&& v.messages.len() == 2
            &&& v.messages[0].role == "system"@
            &&& v.messages[1] == said("user"@, "Task: "@ + redacted(task))
            &&& v.transcript == seq![entry("task"@, redacted(task))]
        }),
{
}

/// The final answer of the model is the answer of the run, in the step in which
/// it was given; the reply is recorded.
pub proof fn law_final_answer_ends_the_run(v: RunView, raw: Seq<char>, d: DecisionView, repair: Repair, answer: Seq<char>)
    requires
        v.phase is Ask,
        d.final_answer == Some(answer),
    ensures
        ({
            let after = after_decision(v, raw, Ok((d, repair)));
            &&& after.phase == PhaseView::Done(
                EndView::Answer { answer: kept_text(answer), steps: v.step },
            )
            &&& after.transcript.len() > v.transcript.len()
            &&& after.transcript.take(v.transcript.len() as int) == v.transcript
            &&& after.transcript[v.transcript.len() as int].content == kept_text(raw)
            &&& after.messages == v.messages
        }),
{
    let after = after_decision(v, raw, Ok((d, repair)));
    assert(after.transcript.take(v.transcript.len() as int) =~= v.transcript);
}

/// A model that is blocked ends the run with its reason.
pub proof fn law_blocked_model_ends_the_run(v: RunView, raw: Seq<char>, d: DecisionView, repair: Repair, reason: Seq<char>)
    requires
        v.phase is Ask,
        d.final_answer is None,
        d.blocked == Some(reason),
    ensures
        after_decision(v, raw, Ok((d, repair))).phase == PhaseView::Done(
            EndView::Answer { answer: "blocked: "@ + kept_text(reason), steps: v.step },
        ),
{
}

/// The tools that the model asks for are the tools of the step, all of them and
/// in order, and the first is next.
pub proof fn law_tools_asked_for_are_next(v: RunView, raw: Seq<char>, d: DecisionView, repair: Repair)
    requires
        v.phase is Ask,
        d.final_answer is None,
        d.blocked is None,
        d.tools.len() > 0 || d.tool is Some,
    ensures
        ({
            let after = after_decision(v, raw, Ok((d, repair)));
            &&& after.phase is Announce
            &&& after.index == 0
            &&& after.sections.len() == 0
            &&& after.reply == kept_text(raw)
            &&& after.step == v.step
            &&& d.tools.len() > 0 ==> after.tools == d.tools
            &&& d.tools.len() == 0 ==> after.tools == seq![d.tool->Some_0]
        }),
{
}

/// A reply that is no decision is asked for again, once: the model is shown its
/// reply and told what is wanted. The second time the run fails with the error.
pub proof fn law_unreadable_reply_is_asked_for_again(v: RunView, raw: Seq<char>, error: Seq<char>)
    requires
        v.phase is Ask,
    ensures
        ({
            let after = after_decision(v, raw, Err(error));
            let again = crate::agent::run::DECISION_RETRY_PROMPT@;
            &&& v.phase->Ask_0 is First ==> after.phase == PhaseView::Ask(Attempt::AfterInvalid)
                && after.messages == v.messages.push(said("assistant"@, kept_text(raw))).push(
                said("user"@, again),
            ) && after.step == v.step
            &&& !(v.phase->Ask_0 is First) ==> after.phase == PhaseView::Done(
                EndView::Failed { error, snippet: Some(capped(redacted(raw), 400)) },
            )
        }),
{
}

/// A decision that does nothing is asked for again, once. The second time the
/// run ends: with what the tools have shown, or with an error where none has
/// run.
pub proof fn law_idle_decision_is_asked_for_again(v: RunView, raw: Seq<char>, d: DecisionView, repair: Repair)
    requires
        v.phase is Ask,
        d.final_answer is None,
        d.blocked is None,
        d.tool is None,
        d.tools.len() == 0,
    ensures
        ({
            let after = after_decision(v, raw, Ok((d, repair)));
            let again = crate::agent::run::DECISION_RETRY_PROMPT@;
            &&& !(v.phase->Ask_0 is AfterIdle) ==> after.phase == PhaseView::Ask(
                Attempt::AfterIdle,
            ) && after.messages == v.messages.push(said("assistant"@, kept_text(raw))).push(
                said("user"@, again),
            )
            &&& v.phase->Ask_0 is AfterIdle ==> after.phase is Done && !(after.phase->Done_0
                is Stopped)
            &&& v.phase->Ask_0 is AfterIdle && v.transcript.len() == 0 && repair is Unchanged
                ==> after.phase->Done_0 is Failed
        }),
{
    reveal_strlit("assistant_retry");
    reveal_strlit("tool:");
    let after = after_decision(v, raw, Ok((d, repair)));
    if v.phase->Ask_0 is AfterIdle && v.transcript.len() == 0 && repair is Unchanged {
        let shown = v.transcript.push(entry("assistant_retry"@, kept_text(raw)));
        assert forall|i: int| 0 <= i < shown.len() implies !has_prefix(
            #[trigger] shown[i].role,
            "tool:"@,
        ) by {
            assert("assistant_retry"@[0] == 'a');
            if has_prefix(shown[i].role, "tool:"@) {
                assert(shown[i].role.subrange(0, 5)[0] == "tool:"@[0]);
            }
        }
    }
}

// ---------------------------------------------------------------------------
// Results
// ---------------------------------------------------------------------------

/// What the model is told of the result of the tool that is next.
pub open spec fn section_of(v: RunView, result: Seq<char>) -> Seq<char> {
    "Tool result for step "@ + decimal(v.step as nat) + ", item "@ + decimal((v.index + 1) as nat)
        + " ("@ + v.tools[v.index].name + "):\n"@ + kept_text(sanitized(result))
}

/// Each result waits with those before it until the last tool of the step has
/// run.
pub proof fn law_results_are_gathered(v: RunView, result: Seq<char>)
    requires
        v.wf(),
        v.phase is Ready,
        v.index + 1 < v.tools.len(),
    ensures
        after_result(v, result, false).sections == v.sections.push(section_of(v, result)),
        after_result(v, result, false).messages == v.messages,
        after_result(v, result, false).index == v.index + 1,
        after_result(v, result, false).tools == v.tools,
        after_result(v, result, false).phase is Announce,
{
}

/// Once the last tool of a step has run, the model is shown its own reply and
/// then all results of the step, in order, and is asked for the next step if
/// there is one.
pub proof fn law_results_reach_the_model(v: RunView, result: Seq<char>)
    requires
        v.wf(),
        v.phase is Ready,
        v.index + 1 == v.tools.len(),
    ensures
        ({
            let after = after_result(v, result, false);
            let all = joined(v.sections.push(section_of(v, result)), "\n\n"@);
            &&& after.messages == v.messages.push(said("assistant"@, v.reply)).push(
                said("user"@, capped(all, 12_000) + "\nContinue with JSON only."@),
            )
            &&& v.step < v.max_steps ==> after.step == v.step + 1 && after.phase == PhaseView::Ask(
                Attempt::First,
            )
            &&& v.step == v.max_steps ==> after.step == v.step && after.phase == PhaseView::Done(
                EndView::Answer {
                    answer: "blocked: reached max agent steps ("@ + decimal(v.max_steps as nat)
                        + ")"@,
                    steps: v.step,
                },
            )
            &&& after.tools.len() == 0 && after.sections.len() == 0
        }),
{
}

/// The result of a tool is shown as it is but for control characters: line feeds
/// and tabs stay, and so does all text without any.
pub proof fn law_plain_results_are_shown_as_they_are(s: Seq<char>)
    requires
        forall|i: int|
            0 <= i < s.len() ==> (#[trigger] s[i] == '\n' || s[i] == '\t' || s[i] == '\r' || ' '
                <= s[i] <= '~'),
    ensures
        sanitized(s) == s,
{
    lemma_plain_from(s, 0);
    assert(s.skip(0) =~= s);
}

proof fn lemma_plain_from(s: Seq<char>, i: int)
    requires
        0 <= i <= s.len(),
        forall|k: int|
            0 <= k < s.len() ==> (#[trigger] s[k] == '\n' || s[k] == '\t' || s[k] == '\r' || ' '
                <= s[k] <= '~'),
    ensures
        shown_from(s, i) == s.skip(i),
    decreases s.len() - i,
{
    if i < s.len() {
        lemma_plain_from(s, i + 1);
        assert(seq![s[i]] + s.skip(i + 1) =~= s.skip(i));
    } else {
        assert(s.skip(i) =~= Seq::empty());
    }
}

/// A model that cannot be asked, and a cancelled run, end the run at once; a
/// reply is read as the decision that it holds.
pub proof fn law_replies_are_read(v: RunView, reply: Seq<char>, error: Seq<char>)
    requires
        v.phase is Ask,
    ensures
        after_reply(v, Err(error), false).phase == PhaseView::Done(EndView::Stopped(error)),
        after_reply(v, Ok(reply), true).phase == PhaseView::Done(EndView::Stopped("cancelled"@)),
        after_reply(v, Ok(reply), false) == after_decision(
            v,
            reply,
            crate::agent::decision::read_decision(reply),
        ),
{
}

// ---------------------------------------------------------------------------
// The end
// ---------------------------------------------------------------------------

/// Whoever started the run gets its answer, its steps and the place of its
/// record; an error comes with what explains it.
pub proof fn law_outcome_is_the_answer(
    answer: Seq<char>,
    steps: int,
    path: Seq<char>,
    error: Seq<char>,
    snippet: Seq<char>,
)
    ensures
        run_outcome(EndView::Answer { answer, steps }, Ok(path)) == Ok::<OutcomeView, Seq<char>>(
            OutcomeView { answer, steps, transcript_path: path },
        ),
        run_outcome(EndView::Answer { answer, steps }, Err(error)) == Err::<OutcomeView, Seq<char>>(
            error,
        ),
        run_outcome(EndView::Stopped(error), Ok(path)) == Err::<OutcomeView, Seq<char>>(error),
        run_outcome(EndView::Failed { error, snippet: Some(snippet) }, Ok(path)) == Err::<
            OutcomeView,
            Seq<char>,
        >(error + "\nraw snippet: "@ + snippet + "\ntranscript: "@ + path),
        run_outcome(EndView::Failed { error, snippet: None }, Ok(path)) == Err::<
            OutcomeView,
            Seq<char>,
        >(error + "\ntranscript: "@ + path),
{
}

// ---------------------------------------------------------------------------
// The record
// ---------------------------------------------------------------------------

/// The result of a tool is recorded under the name of the tool, behind all that
/// was recorded before.
pub proof fn law_results_are_recorded(v: RunView, result: Seq<char>)
    requires
        v.wf(),
        v.phase is Ready,
    ensures
        after_result(v, result, false).transcript == v.transcript.push(
            entry("tool:"@ + v.tools[v.index].name, kept_text(sanitized(result))),
        ),
        after_result(v, result, true).phase == PhaseView::Done(EndView::Stopped("cancelled"@)),
        after_result(v, result, true).transcript == v.transcript,
{
}

/// A reply is recorded as the model's, or as its second try, behind all that was
/// recorded before, and a repair is noted behind it.
pub proof fn law_replies_are_recorded(v: RunView, raw: Seq<char>, d: DecisionView)
    requires
        v.phase is Ask,
        d.tools.len() > 0,
        d.final_answer is None,
        d.blocked is None,
    ensures
        v.phase->Ask_0 is First ==> after_decision(v, raw, Ok((d, Repair::Unchanged))).transcript
            == v.transcript.push(entry("assistant"@, kept_text(raw))),
        !(v.phase->Ask_0 is First) ==> after_decision(v, raw, Ok((d, Repair::Unchanged))).transcript
            == v.transcript.push(entry("assistant_retry"@, kept_text(raw))),
        v.phase->Ask_0 is First ==> after_decision(v, raw, Ok((d, Repair::MissingComma))).transcript
            == v.transcript.push(entry("assistant"@, kept_text(raw))).push(
            entry("parser"@, "repaired decision JSON via "@ + "missing comma"@),
        ),
        v.phase->Ask_0 is First ==> after_decision(
            v,
            raw,
            Ok((d, Repair::ArgumentsString)),
        ).transcript == v.transcript.push(entry("assistant"@, kept_text(raw))).push(
            entry("parser"@, "repaired decision JSON via "@ + "malformed arguments string"@),
        ),
{
}

/// Whatever happens in a run, its root, its limit of steps and its mode stay,
/// and nothing that was said or recorded is taken back.
pub proof fn law_runs_take_nothing_back(
    v: RunView,
    raw: Seq<char>,
    parsed: Result<(DecisionView, Repair), Seq<char>>,
    result: Seq<char>,
    cancelled: bool,
)
    ensures
        goes_on(v, after_decision(v, raw, parsed)),
        goes_on(v, after_result(v, result, cancelled)),
        goes_on(v, after_announcement(v)),
{
    lemma_goes_on(v, after_decision(v, raw, parsed));
    lemma_goes_on(v, after_result(v, result, cancelled));
    lemma_goes_on(v, after_announcement(v));
}

/// The one state can come after the other in a run.
pub open spec fn goes_on(v: RunView, w: RunView) -> bool {
    &&& w.root == v.root
    &&& w.max_steps == v.max_steps
    &&& w.mode == v.mode
    &&& v.messages.len() <= w.messages.len()
    &&& w.messages.take(v.messages.len() as int) == v.messages
    &&& v.transcript.len() <= w.transcript.len()
    &&& w.transcript.take(v.transcript.len() as int) == v.transcript
}

proof fn lemma_goes_on(v: RunView, w: RunView)
    requires
        w.root == v.root,
        w.max_steps == v.max_steps,
        w.mode == v.mode,
        v.messages.len() <= w.messages.len(),
        v.transcript.len() <= w.transcript.len(),
        forall|i: int| 0 <= i < v.messages.len() ==> #[trigger] w.messages[i] == v.messages[i],
        forall|i: int| 0 <= i < v.transcript.len() ==> #[trigger] w.transcript[i] == v.transcript[i],
    ensures
        goes_on(v, w),
{
    assert(w.messages.take(v.messages.len() as int) =~= v.messages);
    assert(w.transcript.take(v.transcript.len() as int) =~= v.transcript);
}

/// A model that does nothing twice, once tools have shown something, ends the
/// run as blocked in the step where it was.
pub proof fn law_idle_after_results_ends_blocked(v: RunView, raw: Seq<char>, d: DecisionView, k: int)
    requires
        v.phase == PhaseView::Ask(Attempt::AfterIdle),
        d.final_answer is None,
        d.blocked is None,
        d.tool is None,
        d.tools.len() == 0,
        0 <= k < v.transcript.len(),
        has_prefix(v.transcript[k].role, "tool:"@),
    ensures
        after_decision(v, raw, Ok((d, Repair::Unchanged))).phase == PhaseView::Done(
            EndView::Answer {
                answer: "blocked: "@ + crate::agent::run::NO_ACTION_REASON@,
                steps: v.step,
            },
        ),
{
    let shown = v.transcript.push(entry("assistant_retry"@, kept_text(raw)));
    assert(shown[k] == v.transcript[k]);
    assert(has_prefix(shown[k].role, "tool:"@));
}

// ---------------------------------------------------------------------------
// Steps and requests
// ---------------------------------------------------------------------------

/// The step that is announced is that of the tool that is next; where a step has
/// several tools, it says which one it is.
pub proof fn law_steps_announce_their_tool(v: RunView)
    ensures
        crate::agent::run::current_step(v).step == v.step,
        crate::agent::run::current_step(v).tool == v.tools[v.index].name,
        v.tools.len() > 1 ==> crate::agent::run::current_step(v).item == Some(v.index + 1),
        v.tools.len() == 1 ==> crate::agent::run::current_step(v).item is None,
        crate::agent::run::current_step(v).total == v.tools.len(),
{
}

/// What the user is asked: the tool, its kind, the root and the step, and in the
/// summary the command with its directory and reason, or the file with what is
/// replaced by what.
pub proof fn law_requests_say_what_is_asked(
    root: Seq<char>,
    step: int,
    call: ToolView,
    reason: Seq<char>,
    command: Seq<char>,
    cwd: Seq<char>,
    path: Seq<char>,
    wanted: Seq<char>,
    replace: Seq<char>,
)
    requires
        is_given_or(call, "reason"@, reason, "no reason provided"@),
    ensures
        call.name == "run_shell"@ && is_given(call, "command"@, command) && is_given_or(
            call,
            "cwd"@,
            cwd,
            "."@,
        ) ==> request_for(root, step, call) == Some(
            RequestView {
                step,
                tool: "run_shell"@,
                scope: ApprovalScope::Shell,
                root,
                summary: "approval required: run_shell\ncwd: "@ + cwd + "\nreason: "@ + reason
                    + "\ncommand: "@ + command + "\nType yes run to approve, n to deny.\n"@,
            },
        ),
        call.name == "propose_patch"@ && is_given(call, "path"@, path) && is_given(
            call,
            "find"@,
            wanted,
        ) && is_given(call, "replace"@, replace) ==> request_for(root, step, call) == Some(
            RequestView {
                step,
                tool: "propose_patch"@,
                scope: ApprovalScope::Write,
                root,
                summary: "approval required: propose_patch\npath: "@ + path + "\nreason: "@ + reason
                    + "\n--- find ---\n"@ + wanted + "\n--- replace ---\n"@ + replace
                    + "\nType yes apply to approve, n to deny.\n"@,
            },
        ),
        call.name != "run_shell"@ && call.name != "propose_patch"@ ==> request_for(root, step, call)
            is None,
{
    reveal_strlit("run_shell");
    reveal_strlit("propose_patch");
    assert("run_shell"@.len() != "propose_patch"@.len());
    let a = call.arguments;
    law_text_members_are_read_as_they_are(a, "reason"@, reason);
    law_text_members_are_read_as_they_are(a, "command"@, command);
    law_text_members_are_read_as_they_are(a, "cwd"@, cwd);
    law_text_members_are_read_as_they_are(a, "path"@, path);
    law_text_members_are_read_as_they_are(a, "find"@, wanted);
    law_text_members_are_read_as_they_are(a, "replace"@, replace);
    law_members_are_found_by_name(a, "reason"@, JsonView::Null);
    law_members_are_found_by_name(a, "cwd"@, JsonView::Null);
}

// ---------------------------------------------------------------------------
// Control characters
// ---------------------------------------------------------------------------

/// The value of a digit to the base of sixteen.
pub open spec fn hex_value(c: char) -> int {
    if '0' <= c <= '9' {
        c as u32 - '0' as u32
    } else {
        c as u32 - 'A' as u32 + 10
    }
}

proof fn lemma_shown_on(a: Seq<char>, b: Seq<char>, i: int)
    requires
        0 <= i <= a.len(),
    ensures
        shown_from(a + b, i) == shown_from(a, i) + shown_from(b, 0),
    decreases a.len() - i,
{
    let s = a + b;
    if i < a.len() {
        lemma_shown_on(a, b, i + 1);
        assert(s[i] == a[i]);
        let c = crate::agent::run::shown_char(a[i]);
        assert(c + (shown_from(a, i + 1) + shown_from(b, 0)) =~= c + shown_from(a, i + 1)
            + shown_from(b, 0));
    } else {
        lemma_shown_behind(a, b, 0);
        assert(Seq::<char>::empty() + shown_from(b, 0) =~= shown_from(b, 0));
    }
}

proof fn lemma_shown_behind(a: Seq<char>, b: Seq<char>, i: int)
    requires
        0 <= i <= b.len(),
    ensures
        shown_from(a + b, a.len() + i) == shown_from(b, i),
    decreases b.len() - i,
{
    if i < b.len() {
        lemma_shown_behind(a, b, i + 1);
        assert((a + b)[a.len() + i] == b[i]);
    }
}

/// A text is shown character by character. A control character that is no white
/// space is shown by its number in braces.
pub proof fn law_control_characters_are_spelled_out(a: Seq<char>, b: Seq<char>, c: char)
    ensures
        sanitized(a + b) == sanitized(a) + sanitized(b),
        c < ' ' && c != '\n' && c != '\r' && c != '\t' ==> {
            let r = sanitized(seq![c]);
            &&& r.len() == 8
            &&& r.take(5) == "\\u{00"@
            &&& 16 * hex_value(r[5]) + hex_value(r[6]) == c as u32
            &&& r[7] == '}'
        },
{
    lemma_shown_on(a, b, 0);
    if c < ' ' && c != '\n' && c != '\r' && c != '\t' {
        reveal_strlit("\\u{00");
        reveal_strlit("}");
        reveal_with_fuel(shown_from, 2);
        let n = c as u32 as int;
        let r = crate::agent::run::shown_char(c);
        assert(sanitized(seq![c]) =~= r);
        assert(r.take(5) =~= "\\u{00"@);
        lemma_hex_digit(n / 16);
        lemma_hex_digit(n % 16);
    }
}

proof fn lemma_hex_digit(n: int)
    requires
        0 <= n < 16,
    ensures
        hex_value(crate::agent::run::hex_digit(n)) == n,
{
}

} // verus!
