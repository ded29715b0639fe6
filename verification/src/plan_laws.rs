//! What the program is asked to do, and how it is set up.
use vstd::prelude::*;

use crate::agent::run::EntryView;
use crate::agent::summary::capped_entry;
use crate::cli::{run_plan, transcript_command, AgentTranscriptCommand, Args, Command, InteractiveMode, PlanView};
use crate::features::{internet_word, provider_named, source_word, toggled_provider};
use crate::internet::{fetch_format_of, FetchFormat};
use crate::input::layout::{forced_size, used_size};
use crate::repl::chat::fresh_chat;
use crate::repl::status::status_head;
use crate::runtime::{backend_named, debugged, model_or, runtime_label, toggled, RuntimeBackend, RuntimeView};
use crate::session::{kept_root, SessionView};
use crate::text::{all_digits, decimal, joined, lower_text, opt_text, parsed_number, texts, trimmed};
use crate::text_laws::{all_space, ends_clean, law_decimal_reads_back, law_trimming_drops_outer_space};
use crate::workspace::{accepted_root, requested_root};

verus! {

// ---------------------------------------------------------------------------
// The command line
// ---------------------------------------------------------------------------

/// Without a command, a prompt is asked and answered, and without a prompt the
/// user is, in the mode that was chosen; every option is handed on.
pub proof fn law_prompts_are_planned(args: Args)
    requires
        args.command is None,
        args.model is Some,
    ensures
        args.prompt is Some ==> run_plan(args) == (PlanView::Prompt {
            prompt: args.prompt->Some_0@,
            model: args.model->Some_0@,
            temperature: opt_text(args.temperature),
            no_session: args.no_session,
            stream: args.stream,
        }),
        args.prompt is None ==> run_plan(args) == (PlanView::Interactive {
            mode: if args.agent_mode {
                InteractiveMode::Agent
            } else {
                InteractiveMode::Chat
            },
            model: args.model->Some_0@,
            temperature: opt_text(args.temperature),
            stream: args.stream,
        }),
{
}

/// A task for the agent is the words that were given, with blanks between them,
/// in the root that was named; only the words for a record ask for one.
pub proof fn law_tasks_are_planned(args: Args, task: Vec<String>, root: String, max_steps: usize, final_only: bool)
    requires
        args.command == Some(Command::Agent { task, root, max_steps, final_only }),
        args.model is Some,
    ensures
        transcript_command(texts(task@)) is None ==> run_plan(args) == (PlanView::Agent {
            task: joined(texts(task@), " "@),
            model: args.model->Some_0@,
            temperature: opt_text(args.temperature),
            root: root@,
            max_steps: max_steps as int,
            final_only,
        }),
        texts(task@) == seq!["transcript"@, "latest"@] ==> run_plan(args) == (
        PlanView::Transcript { root: root@, command: AgentTranscriptCommand::LatestRaw }),
        texts(task@) == seq!["transcript"@, "latest"@, "--summary"@] ==> run_plan(args) == (
        PlanView::Transcript { root: root@, command: AgentTranscriptCommand::LatestSummary }),
{
    let two = seq!["transcript"@, "latest"@];
    let three = seq!["transcript"@, "latest"@, "--summary"@];
    assert(two.len() != three.len());
}

/// Only two or three words that start with these can ask for a record.
pub proof fn law_other_tasks_are_no_records(task: Seq<Seq<char>>)
    requires
        task.len() < 2 || task.len() > 3 || task[0] != "transcript"@ || task[1] != "latest"@,
    ensures
        transcript_command(task) is None,
{
}

// ---------------------------------------------------------------------------
// Numbers
// ---------------------------------------------------------------------------

/// A number that was written down is read as itself, unless it is too large.
pub proof fn law_numbers_are_read_back(n: nat, max: nat)
    ensures
        n <= max ==> parsed_number(decimal(n), max) == Some(n),
        n <= max ==> parsed_number(seq!['+'] + decimal(n), max) == Some(n),
        n > max ==> parsed_number(decimal(n), max) is None,
        parsed_number(Seq::empty(), max) is None,
{
    law_decimal_reads_back(n);
    let d = decimal(n);
    assert(d[0] != '+') by {
        assert(all_digits(d));
        assert(crate::text::is_digit(d[0]));
    }
    assert((seq!['+'] + d).skip(1) =~= d);
}

// ---------------------------------------------------------------------------
// Settings
// ---------------------------------------------------------------------------

proof fn lemma_named(front: Seq<char>, name: Seq<char>, back: Seq<char>)
    requires
        all_space(front),
        all_space(back),
        ends_clean(name),
    ensures
        trimmed(front + name + back) == name,
{
    law_trimming_drops_outer_space(front, name, back);
}

/// A search provider is known by its name, in whatever case and with white space
/// round it; without a name it is Brave; any other name is shown as invalid.
pub proof fn law_providers_are_known_by_name(front: Seq<char>, name: Seq<char>, back: Seq<char>)
    requires
        all_space(front),
        all_space(back),
        ends_clean(name),
    ensures
        lower_text(name) == "brave"@ || name.len() == 0 ==> provider_named(
            Some(front + name + back),
        ) == "brave"@,
        lower_text(name) == "tavily"@ ==> provider_named(Some(front + name + back)) == "tavily"@,
        name.len() > 0 && lower_text(name) != "brave"@ && lower_text(name) != "tavily"@
            ==> provider_named(Some(front + name + back)) == "invalid: "@ + name,
        provider_named(None) == "brave"@,
        toggled_provider("brave"@) == "tavily"@,
        toggled_provider("tavily"@) == "brave"@,
{
    reveal_strlit("brave");
    reveal_strlit("tavily");
    assert("brave"@.len() != "tavily"@.len());
    lemma_named(front, name, back);
    assert(lower_text(name).len() == name.len());
}

/// Search works where the key of the chosen provider is set, whatever the other
/// one has.
pub proof fn law_search_needs_the_key_of_its_provider(brave: bool, tavily: bool)
    ensures
        internet_word("brave"@, true, tavily) == "enabled"@,
        internet_word("brave"@, false, tavily) == "partial"@,
        internet_word("tavily"@, brave, true) == "enabled"@,
        internet_word("tavily"@, brave, false) == "partial"@,
{
    reveal_strlit("brave");
    reveal_strlit("tavily");
    reveal_strlit("invalid:");
    assert("brave"@.len() != "tavily"@.len());
    assert(!crate::text::has_prefix("brave"@, "invalid:"@));
    assert(!crate::text::has_prefix("tavily"@, "invalid:"@));
}

/// A setting of the program comes before one of the environment, and that before
/// the default.
pub proof fn law_settings_have_an_order(a: Seq<char>, b: Seq<char>)
    requires
        trimmed(a).len() > 0,
        trimmed(b).len() > 0,
    ensures
        source_word(Some(a), Some(b)) == "runtime"@,
        source_word(Some(a), None) == "runtime"@,
        source_word(None, Some(b)) == "env"@,
        source_word(None, None) == "default"@,
{
}

/// A backend is known by its names, in whatever case and with white space round
/// them.
pub proof fn law_backends_are_known_by_name(front: Seq<char>, name: Seq<char>, back: Seq<char>)
    requires
        all_space(front),
        all_space(back),
        ends_clean(name),
    ensures
        lower_text(name) == "debug"@ || lower_text(name) == "on"@ || lower_text(name) == "manual"@
            ==> backend_named(front + name + back) == Some(RuntimeBackend::Debug),
        lower_text(name) == "provider"@ || lower_text(name) == "off"@ ==> backend_named(
            front + name + back,
        ) == Some(RuntimeBackend::Provider),
{
    reveal_strlit("debug");
    reveal_strlit("on");
    reveal_strlit("manual");
    reveal_strlit("provider");
    reveal_strlit("off");
    reveal_strlit("deepseek-arkey");
    lemma_named(front, name, back);
    let w = lower_text(name);
    assert(crate::provider::PROVIDER_DIR@ == "deepseek-arkey"@);
    assert("debug"@.len() == 5 && "on"@.len() == 2 && "manual"@.len() == 6);
    assert("provider"@.len() == 8 && "off"@.len() == 3 && "deepseek-arkey"@.len() == 14);
}

/// The debug command sets the backend that it names, with the time, and keeps
/// the model and all the rest; a name that is none changes nothing and fails.
pub proof fn law_debug_sets_the_backend(
    state: RuntimeView,
    model: Seq<char>,
    mode: Seq<char>,
    backend: RuntimeBackend,
    json: bool,
    now: u64,
)
    ensures
        backend_named(mode) == Some(backend) ==> {
            let r = debugged(Ok(state), model, Some(mode), json, now);
            &&& r is Ok
            &&& r->Ok_0.changed
            &&& r->Ok_0.state == (RuntimeView { backend, updated_at: now, ..state })
        },
        backend_named(mode) is None ==> debugged(Ok(state), model, Some(mode), json, now) is Err,
{
}

/// The label names the model in use, marked where the local backend answers.
pub proof fn law_labels_name_the_model(state: RuntimeView, model: Seq<char>, fallback: Seq<char>)
    ensures
        model_or(Some(model), fallback) == model,
        model_or(None, fallback) == fallback,
        state.model == Some(model) && state.backend is Provider ==> runtime_label(state, fallback)
            == model,
        state.model == Some(model) && state.backend is Debug ==> runtime_label(state, fallback)
            == "debug:"@ + model,
{
}

/// The form of a page is known by its names, in whatever case; without a name it
/// is markdown, and an unknown one is refused.
pub proof fn law_forms_are_known_by_name(front: Seq<char>, name: Seq<char>, back: Seq<char>)
    requires
        all_space(front),
        all_space(back),
        ends_clean(name),
    ensures
        lower_text(name) == "markdown"@ ==> fetch_format_of(Some(front + name + back)) == Ok::<
            FetchFormat,
            Seq<char>,
        >(FetchFormat::Markdown),
        lower_text(name) == "text"@ ==> fetch_format_of(Some(front + name + back)) == Ok::<
            FetchFormat,
            Seq<char>,
        >(FetchFormat::Text),
        lower_text(name) == "raw"@ ==> fetch_format_of(Some(front + name + back)) == Ok::<
            FetchFormat,
            Seq<char>,
        >(FetchFormat::Raw),
        fetch_format_of(None) == Ok::<FetchFormat, Seq<char>>(FetchFormat::Markdown),
{
    reveal_strlit("markdown");
    reveal_strlit("md");
    reveal_strlit("text");
    reveal_strlit("txt");
    reveal_strlit("plain");
    reveal_strlit("raw");
    reveal_strlit("html");
    lemma_named(front, name, back);
    let w = lower_text(name);
    assert(w.len() == name.len());
    assert("text"@[0] == 't' && "raw"@[0] == 'r' && "txt"@[0] == 't');
    assert("markdown"@.len() == 8 && "md"@.len() == 2 && "text"@.len() == 4 && "raw"@.len() == 3);
}

// ---------------------------------------------------------------------------
// Roots
// ---------------------------------------------------------------------------

/// A root is kept exactly where it is an absolute path to a directory that is
/// there, and then in the form that the system gives.
pub proof fn law_roots_are_directories(path: Seq<char>, root: Seq<char>, error: Seq<char>, is_dir: bool)
    ensures
        kept_root(path, Ok(root), is_dir) == Ok::<Seq<char>, Seq<char>>(root) <==> path.len() > 0
            && path[0] == '/' && is_dir,
        kept_root(path, Err(error), is_dir) is Err,
        accepted_root(path, Ok(root), true) == Ok::<Seq<char>, Seq<char>>(root),
        accepted_root(path, Ok(root), false) is Err,
        accepted_root(path, Err(error), is_dir) is Err,
{
}

/// An absolute root that is asked for is that root; a relative one lies below
/// the directory where the program runs.
pub proof fn law_requested_roots(arg: Seq<char>, cwd: Seq<char>)
    requires
        arg.len() > 0,
        arg != "clear"@ && arg != "reset"@ && arg != "cwd"@,
        cwd.len() > 0,
        cwd.last() != '/',
    ensures
        arg[0] == '/' ==> requested_root(arg, cwd) == Some(arg),
        arg[0] != '/' ==> requested_root(arg, cwd) == Some(cwd + "/"@ + arg),
        requested_root("clear"@, cwd) is None,
        requested_root("reset"@, cwd) is None,
{
}

// ---------------------------------------------------------------------------
// Status
// ---------------------------------------------------------------------------

/// The status of a session names the session and its model and counts two
/// messages as one turn.
pub proof fn law_status_is_of_the_session(
    model: Seq<char>,
    path: Seq<char>,
    runtime: RuntimeView,
    state: SessionView,
    turns: nat,
)
    requires
        state.messages.len() == 2 * turns,
    ensures
        exists|head: Seq<char>| #[trigger]
            (head + ("session: "@ + state.name + "\nmodel: "@ + state.model + "\nturns: "@ + decimal(
                turns,
            ) + "\nhealth: ok\n"@)) == status_head(model, path, runtime, Some(state)),
        exists|head: Seq<char>| #[trigger]
            (head + ("session: none\nmodel: "@ + model + "\nhealth: stateless\n"@)) == status_head(
                model,
                path,
                runtime,
                None,
            ),
{
    let head = "DeepSeek Status\nsession-path: "@ + path + "\nbackend: "@
        + crate::repl::status::backend_word(runtime.backend) + "\nruntime: "@ + runtime.runtime
        + "\n"@;
    let a = "session: "@ + state.name + "\nmodel: "@ + state.model + "\nturns: "@ + decimal(turns)
        + "\nhealth: ok\n"@;
    assert(state.messages.len() / 2 == turns);
    assert(head + a =~= status_head(model, path, runtime, Some(state)));
    let b = "session: none\nmodel: "@ + model + "\nhealth: stateless\n"@;
    assert(head + b =~= status_head(model, path, runtime, None));
}

// ---------------------------------------------------------------------------
// The terminal
// ---------------------------------------------------------------------------

/// A size that is set is the size that is used: columns, an `x` and rows. One
/// that the terminal reports comes next, and then eighty by twenty-four.
pub proof fn law_sizes_are_used_as_set(c: nat, r: nat, reported: Option<(u16, u16)>, a: u16, b: u16)
    requires
        1 <= c <= u16::MAX,
        1 <= r <= u16::MAX,
        1 <= a,
        1 <= b,
    ensures
        forced_size(decimal(c) + "x"@ + decimal(r)) == Some((c as int, r as int)),
        used_size(Some((c as int, r as int)), reported) == (c as int, r as int),
        used_size(None, Some((a, b))) == (a as int, b as int),
        used_size(None, None) == (80int, 24int),
{
    reveal_strlit("x");
    let s = decimal(c) + "x"@ + decimal(r);
    let n = decimal(c).len() as int;
    law_decimal_reads_back(c);
    law_numbers_are_read_back(c, u16::MAX as nat);
    law_numbers_are_read_back(r, u16::MAX as nat);
    crate::text::lemma_next_char(s, 'x', 0);
    assert(s[n] == 'x');
    let x = crate::text::next_char(s, 'x', 0);
    assert(x == n) by {
        if x < n {
            assert(s[x] == decimal(c)[x]);
            assert(crate::text::is_digit(decimal(c)[x]));
        }
    }
    assert(s.take(n) =~= decimal(c));
    assert(s.skip(n + 1) =~= decimal(r));
}

// ---------------------------------------------------------------------------
// Toggling and starting
// ---------------------------------------------------------------------------

/// Toggling changes the backend and the time and nothing else.
pub proof fn law_toggling_keeps_the_rest(state: RuntimeView, model: Seq<char>, now: u64)
    ensures
        ({
            let r = toggled(Ok(state), model, now);
            &&& r is Ok
            &&& r->Ok_0.changed
            &&& state.backend is Provider ==> r->Ok_0.state == (RuntimeView {
                backend: RuntimeBackend::Debug,
                updated_at: now,
                ..state
            })
            &&& state.backend is Debug ==> r->Ok_0.state == (RuntimeView {
                backend: RuntimeBackend::Provider,
                updated_at: now,
                ..state
            })
        }),
{
}

/// A chat starts with nothing said, nothing waiting and nothing approved, in the
/// root that was selected, or else in the one that the agent may use.
pub proof fn law_chats_start_empty(root: Seq<char>, agent_root: Seq<char>, legacy: bool)
    ensures
        ({
            let v = fresh_chat(Some(root), Some(agent_root), legacy);
            &&& v.selected_root == Some(root)
            &&& v.approved_agent_root == Some(agent_root)
            &&& v.legacy_routing == legacy
            &&& v.memory.len() == 0 && v.queued.len() == 0 && !v.in_flight
            &&& v.pending_task is None && v.pending_approval is None
            &&& forall|grant: Seq<char>| !#[trigger] v.approved.contains(grant)
        }),
        fresh_chat(None, Some(agent_root), legacy).selected_root == Some(agent_root),
        fresh_chat(None, None, legacy).selected_root is None,
{
}

/// A record keeps who spoke, and at most twelve thousand characters of what was
/// said.
pub proof fn law_entries_are_kept_short(role: Seq<char>, content: Seq<char>)
    ensures
        capped_entry(EntryView { role, content }).role == role,
        content.len() <= 12_000 ==> capped_entry(EntryView { role, content }).content == content,
        content.len() > 12_000 ==> capped_entry(EntryView { role, content }).content
            == content.take(12_000) + "\n[truncated]"@,
{
    crate::safety_laws::law_cap_bounds_a_text(content, 12_000);
}

} // verus!
