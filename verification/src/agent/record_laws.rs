//! What is read out of replies and records, and what patches and listings do.
use vstd::prelude::*;

use crate::agent::decision::{closes, decision_in, fresh_scan, function_calls, json_object_in, native_calls, normal_decision, object_end, scanned, call_values, char_at_byte, lacks_comma, read_decision, with_comma, DecisionView, Repair, Scan, ToolView};
use crate::agent::commit_audit::{audit_target, commit_word, evidence_text, git_arguments, names_commit, normal_task, prepared_task};
use crate::agent::run::EntryView;
use crate::agent::summary::{assistant_count, notes_from, outcome_before, summary_lines, task_from, tools_from};
use crate::agent::tools::{answered_mode, list_answer, listed, patched, patched_in_place, readable};
use crate::json::{holds, json_parsed, lacks, law_members_are_found_by_name, law_text_members_are_read_as_they_are, JsonView};
use crate::safety::{capped, redacted};
use crate::text::{decimal, has_prefix, joined, lemma_find_from, lemma_next_char, next_char, occurs_at, trimmed, words};
use crate::text_laws::{all_space, is_free_of, law_trimming_drops_outer_space};

verus! {

// ---------------------------------------------------------------------------
// Patches
// ---------------------------------------------------------------------------

/// A text that stands in the content once, and nowhere else, is replaced there;
/// one that stands in no place or in two is refused.
pub proof fn law_only_single_texts_are_replaced(
    content: Seq<char>,
    wanted: Seq<char>,
    replace: Seq<char>,
    i: int,
    j: int,
)
    ensures
        occurs_at(content, wanted, i) && (forall|k: int| #[trigger] occurs_at(content, wanted, k) ==> k == i)
            ==> patched(content, wanted, replace) == Ok::<Seq<char>, Seq<char>>(
            content.take(i) + replace + content.skip(i + wanted.len()),
        ),
        occurs_at(content, wanted, i) && occurs_at(content, wanted, j) && i != j ==> patched(
            content,
            wanted,
            replace,
        ) == Err::<Seq<char>, Seq<char>>("find text is ambiguous"@),
        (forall|k: int| !occurs_at(content, wanted, k)) ==> patched(content, wanted, replace)
            == Err::<Seq<char>, Seq<char>>("find text was not found"@),
{
    lemma_find_from(content, wanted, 0);
    if let Some(k) = crate::text::find_from(content, wanted, 0) {
        lemma_find_from(content, wanted, k + 1);
    }
}

/// A file that changed since it was read keeps what it holds; one that did not
/// gets the patched content.
pub proof fn law_changed_files_are_not_patched(
    content: Seq<char>,
    current: Seq<char>,
    wanted: Seq<char>,
    replace: Seq<char>,
)
    ensures
        content != current ==> patched_in_place(content, current, wanted, replace) is Err,
        patched_in_place(content, content, wanted, replace) == patched(content, wanted, replace),
{
}

/// Only the phrase that is asked for approves, white space round it aside. A
/// line that says anything else, and no line at all, denies.
pub proof fn law_only_the_phrase_approves(tool: Seq<char>, front: Seq<char>, line: Seq<char>, back: Seq<char>)
    requires
        all_space(front),
        all_space(back),
    ensures
        answered_mode("run_shell"@, Some(front + "yes run"@ + back)) is Approved,
        answered_mode("propose_patch"@, Some(front + "yes apply"@ + back)) is Approved,
        trimmed(line) != "yes run"@ ==> answered_mode("run_shell"@, Some(line)) is Deny,
        trimmed(line) != "yes apply"@ ==> answered_mode("propose_patch"@, Some(line)) is Deny,
        answered_mode(tool, None) is Deny,
{
    reveal_strlit("yes run");
    reveal_strlit("yes apply");
    reveal_strlit("run_shell");
    reveal_strlit("propose_patch");
    assert("run_shell"@.len() != "propose_patch"@.len());
    law_trimming_drops_outer_space(front, "yes run"@, back);
    law_trimming_drops_outer_space(front, "yes apply"@, back);
}

// ---------------------------------------------------------------------------
// Listings
// ---------------------------------------------------------------------------

proof fn lemma_readable_front(a: Seq<Option<Seq<char>>>, b: Seq<Option<Seq<char>>>, n: int)
    requires
        0 <= n <= a.len(),
    ensures
        readable(a + b, n) == readable(a, n),
    decreases n,
{
    if n > 0 {
        lemma_readable_front(a, b, n - 1);
        assert((a + b)[n - 1] == a[n - 1]);
    }
}

/// One more entry comes last in a listing, as long as fewer than two hundred
/// came before; one that cannot be read is passed over; what comes later is
/// left out.
pub proof fn law_entries_are_listed_in_order(
    found: Seq<Option<Seq<char>>>,
    path: Seq<char>,
    more: Seq<Option<Seq<char>>>,
)
    ensures
        listed(Seq::empty()) == Seq::<Seq<char>>::empty(),
        found.len() < 200 ==> listed(found.push(Some(path))) == listed(found).push(path),
        found.len() < 200 ==> listed(found.push(None)) == listed(found),
        found.len() >= 200 ==> listed(found + more) == listed(found),
{
    let n = found.len() as int;
    lemma_readable_front(found, seq![Some(path)], n);
    lemma_readable_front(found, seq![None], n);
    assert(found.push(Some(path)) =~= found + seq![Some(path)]);
    assert(found.push(None) =~= found + seq![None]);
    if n >= 200 {
        lemma_readable_front(found, more, 200);
    }
}

/// A list says that it succeeded and shows one line after the other; an empty
/// one says so.
pub proof fn law_lists_show_every_line(lines: Seq<Seq<char>>, line: Seq<char>, nothing: Seq<char>)
    ensures
        list_answer(Seq::empty(), nothing) == "ok: "@ + nothing,
        list_answer(seq![line], nothing) == "ok:\n"@ + line,
        lines.len() > 0 ==> list_answer(lines.push(line), nothing) == list_answer(lines, nothing)
            + "\n"@ + line,
{
    assert(lines.push(line).drop_last() =~= lines);
    if lines.len() > 0 {
        assert("ok:\n"@ + (joined(lines, "\n"@) + "\n"@ + line) =~= "ok:\n"@ + joined(lines, "\n"@)
            + "\n"@ + line);
    }
}

// ---------------------------------------------------------------------------
// Replies
// ---------------------------------------------------------------------------

/// Without quotes and braces.
pub open spec fn is_bare(s: Seq<char>) -> bool {
    is_free_of(s, '"') && is_free_of(s, '{') && is_free_of(s, '}')
}

/// Scanning passes over a bare text, and over a text in quotes.
proof fn lemma_passes(s: Seq<char>, i: int, e: int, at: Scan)
    requires
        0 <= i <= e <= s.len(),
        at.in_string ==> !at.escaped,
        !at.in_string ==> forall|k: int| i <= k < e ==> #[trigger] s[k] != '"' && s[k] != '{' && s[k] != '}',
        at.in_string ==> forall|k: int| i <= k < e ==> #[trigger] s[k] != '"' && s[k] != '\\',
    ensures
        object_end(s, i, at) == object_end(s, e, at),
    decreases e - i,
{
    if i < e {
        assert(scanned(at, s[i]) == at);
        lemma_passes(s, i + 1, e, at);
    }
}

/// The JSON object of a reply is found between whatever comes before and after
/// it. A brace inside of quotes does not end it.
pub proof fn law_objects_are_cut_out(
    prose: Seq<char>,
    a: Seq<char>,
    quoted: Seq<char>,
    b: Seq<char>,
    tail: Seq<char>,
)
    requires
        is_free_of(prose, '{'),
        is_bare(a),
        is_bare(b),
        is_free_of(quoted, '"'),
        is_free_of(quoted, '\\'),
    ensures
        json_object_in(prose + (seq!['{'] + a + seq!['}']) + tail) == Some(
            seq!['{'] + a + seq!['}'],
        ),
        json_object_in(
            prose + (seq!['{'] + a + seq!['"'] + quoted + seq!['"'] + b + seq!['}']) + tail,
        ) == Some(seq!['{'] + a + seq!['"'] + quoted + seq!['"'] + b + seq!['}']),
        json_object_in(prose) is None,
{
    let p = prose.len() as int;
    let open = Scan { depth: 1, in_string: false, escaped: false };
    let within = Scan { depth: 1, in_string: true, escaped: false };
    let none = Seq::<char>::empty();
    lemma_next_char(prose, '{', 0);
    assert(next_char(prose, '{', 0) == p);
    {
        let object = seq!['{'] + a + seq!['}'];
        let s = prose + object + tail;
        lemma_next_char(s, '{', 0);
        assert(s[p] == '{');
        lemma_first(prose, object, tail);
        let e = p + 1 + a.len();
        assert(s[e] == '}');
        assert forall|k: int| p + 1 <= k < e implies #[trigger] s[k] != '"' && s[k] != '{' && s[k]
            != '}' by {
            assert(s[k] == a[k - p - 1]);
        }
        assert(scanned(fresh_scan(), '{') == open);
        assert(!closes(fresh_scan(), s[p]));
        lemma_passes(s, p + 1, e, open);
        assert(closes(open, s[e]));
        assert(object_end(s, p, fresh_scan()) == Some(e));
        assert(s.subrange(p, e + 1) =~= object);
    }
    {
        let object = seq!['{'] + a + seq!['"'] + quoted + seq!['"'] + b + seq!['}'];
        let s = prose + object + tail;
        lemma_next_char(s, '{', 0);
        assert(s[p] == '{');
        lemma_first(prose, object, tail);
        let q = p + 1 + a.len();
        let r = q + 1 + quoted.len();
        let e = r + 1 + b.len();
        assert(s[q] == '"');
        assert(s[r] == '"');
        assert(s[e] == '}');
        assert forall|k: int| p + 1 <= k < q implies #[trigger] s[k] != '"' && s[k] != '{' && s[k]
            != '}' by {
            assert(s[k] == a[k - p - 1]);
        }
        assert forall|k: int| q + 1 <= k < r implies #[trigger] s[k] != '"' && s[k] != '\\' by {
            assert(s[k] == quoted[k - q - 1]);
        }
        assert forall|k: int| r + 1 <= k < e implies #[trigger] s[k] != '"' && s[k] != '{' && s[k]
            != '}' by {
            assert(s[k] == b[k - r - 1]);
        }
        assert(scanned(fresh_scan(), '{') == open);
        assert(scanned(open, '"') == within);
        assert(scanned(within, '"') == open);
        assert(!closes(fresh_scan(), s[p]));
        lemma_passes(s, p + 1, q, open);
        assert(!closes(open, s[q]));
        lemma_passes(s, q + 1, r, within);
        assert(!closes(within, s[r]));
        lemma_passes(s, r + 1, e, open);
        assert(closes(open, s[e]));
        assert(object_end(s, p, fresh_scan()) == Some(e));
        assert(s.subrange(p, e + 1) =~= object);
    }
}

proof fn lemma_first(prose: Seq<char>, object: Seq<char>, tail: Seq<char>)
    requires
        is_free_of(prose, '{'),
        object.len() > 0,
        object[0] == '{',
    ensures
        next_char(prose + object + tail, '{', 0) == prose.len(),
{
    let s = prose + object + tail;
    lemma_next_char(s, '{', 0);
    let k = next_char(s, '{', 0);
    assert(s[prose.len() as int] == '{');
    if k < prose.len() {
        assert(s[k] == prose[k]);
    }
}

/// The items of a list of calls in the form of the model's own tool calls: each
/// has a function with a name and with its arguments as JSON text.
pub open spec fn are_calls(items: Seq<JsonView>, functions: Seq<JsonView>, wanted: Seq<ToolView>, written: Seq<Seq<char>>) -> bool {
    &&& items.len() == functions.len() == wanted.len() == written.len()
    &&& forall|k: int|
        0 <= k < items.len() ==> {
            &&& holds(#[trigger] items[k], "function"@, functions[k])
            &&& holds(functions[k], "name"@, JsonView::Str(wanted[k].name))
            &&& holds(functions[k], "arguments"@, JsonView::Str(written[k]))
            &&& json_parsed(written[k]) == Ok::<JsonView, (Seq<char>, nat)>(wanted[k].arguments)
        }
}

proof fn lemma_function_calls(
    items: Seq<JsonView>,
    functions: Seq<JsonView>,
    wanted: Seq<ToolView>,
    written: Seq<Seq<char>>,
    k: int,
)
    requires
        are_calls(items, functions, wanted, written),
        0 <= k <= items.len(),
    ensures
        function_calls(items, k) == Ok::<Seq<ToolView>, Seq<char>>(wanted.skip(k)),
    decreases items.len() - k,
{
    if k < items.len() {
        lemma_function_calls(items, functions, wanted, written, k + 1);
        let f = functions[k];
        assert(holds(items[k], "function"@, f));
        law_members_are_found_by_name(items[k], "function"@, f);
        law_members_are_found_by_name(f, "name"@, JsonView::Str(wanted[k].name));
        law_text_members_are_read_as_they_are(f, "name"@, wanted[k].name);
        law_members_are_found_by_name(f, "arguments"@, JsonView::Str(written[k]));
        assert(seq![wanted[k]] + wanted.skip(k + 1) =~= wanted.skip(k));
    } else {
        assert(wanted.skip(k) =~= Seq::empty());
    }
}

/// The calls that a model makes of its tools are taken up one for one, in
/// order, each with its name and its arguments.
pub proof fn law_model_calls_are_taken_up(
    value: JsonView,
    items: Seq<JsonView>,
    functions: Seq<JsonView>,
    wanted: Seq<ToolView>,
    written: Seq<Seq<char>>,
)
    requires
        are_calls(items, functions, wanted, written),
        holds(value, "tool_calls"@, JsonView::Array(items)),
    ensures
        native_calls(value) == Ok::<Seq<ToolView>, Seq<char>>(wanted),
        wanted.len() > 0 ==> normal_decision(value) == Ok::<DecisionView, Seq<char>>(
            DecisionView {
                thought: None,
                tool: Some(wanted[0]),
                tools: wanted,
                final_answer: None,
                blocked: None,
            },
        ),
{
    law_members_are_found_by_name(value, "tool_calls"@, JsonView::Array(items));
    lemma_function_calls(items, functions, wanted, written, 0);
    assert(wanted.skip(0) =~= wanted);
}

/// The items of a list of calls in the plain form.
pub open spec fn are_plain_calls(items: Seq<JsonView>, wanted: Seq<ToolView>) -> bool {
    &&& items.len() == wanted.len()
    &&& forall|k: int|
        0 <= k < items.len() ==> {
            &&& holds(#[trigger] items[k], "name"@, JsonView::Str(wanted[k].name))
            &&& holds(items[k], "arguments"@, wanted[k].arguments)
        }
}

proof fn lemma_call_values(items: Seq<JsonView>, wanted: Seq<ToolView>, k: int)
    requires
        are_plain_calls(items, wanted),
        0 <= k <= items.len(),
    ensures
        call_values(items, k) == Ok::<Seq<ToolView>, Seq<char>>(wanted.skip(k)),
    decreases items.len() - k,
{
    if k < items.len() {
        lemma_call_values(items, wanted, k + 1);
        assert(holds(items[k], "name"@, JsonView::Str(wanted[k].name)));
        law_members_are_found_by_name(items[k], "name"@, JsonView::Str(wanted[k].name));
        law_members_are_found_by_name(items[k], "arguments"@, wanted[k].arguments);
        assert(seq![wanted[k]] + wanted.skip(k + 1) =~= wanted.skip(k));
    } else {
        assert(wanted.skip(k) =~= Seq::empty());
    }
}

/// A member is the text, or there is no such member.
pub open spec fn may_hold(value: JsonView, key: Seq<char>, text: Option<Seq<char>>) -> bool {
    match text {
        Some(t) => holds(value, key, JsonView::Str(t)),
        None => lacks(value, key),
    }
}

/// A decision is read field by field: what the reply says under a name is what
/// the decision has there, and the tools are taken up in order.
pub proof fn law_decisions_are_read_field_by_field(
    value: JsonView,
    thought: Option<Seq<char>>,
    final_answer: Option<Seq<char>>,
    blocked: Option<Seq<char>>,
    items: Seq<JsonView>,
    wanted: Seq<ToolView>,
    one: JsonView,
    call: ToolView,
)
    requires
        may_hold(value, "thought"@, thought),
        may_hold(value, "final_answer"@, final_answer),
        may_hold(value, "blocked"@, blocked),
        lacks(value, "content"@),
        lacks(value, "tool_calls"@),
        are_plain_calls(items, wanted),
        are_plain_calls(seq![one], seq![call]),
    ensures
        holds(value, "tools"@, JsonView::Array(items)) && lacks(value, "tool"@) ==> normal_decision(
            value,
        ) == Ok::<DecisionView, Seq<char>>(
            DecisionView { thought, tool: None, tools: wanted, final_answer, blocked },
        ),
        lacks(value, "tools"@) && holds(value, "tool"@, one) ==> normal_decision(value) == Ok::<
            DecisionView,
            Seq<char>,
        >(DecisionView { thought, tool: Some(call), tools: Seq::empty(), final_answer, blocked }),
        lacks(value, "tools"@) && lacks(value, "tool"@) ==> normal_decision(value) == Ok::<
            DecisionView,
            Seq<char>,
        >(DecisionView { thought, tool: None, tools: Seq::empty(), final_answer, blocked }),
{
    let null = JsonView::Null;
    lemma_may_hold(value, "thought"@, thought);
    lemma_may_hold(value, "final_answer"@, final_answer);
    lemma_may_hold(value, "blocked"@, blocked);
    law_members_are_found_by_name(value, "content"@, null);
    law_members_are_found_by_name(value, "tool_calls"@, null);
    law_members_are_found_by_name(value, "tools"@, JsonView::Array(items));
    law_members_are_found_by_name(value, "tool"@, one);
    lemma_call_values(items, wanted, 0);
    assert(wanted.skip(0) =~= wanted);
    assert(holds(seq![one][0], "name"@, JsonView::Str(seq![call][0].name)));
    law_members_are_found_by_name(one, "name"@, JsonView::Str(call.name));
    law_members_are_found_by_name(one, "arguments"@, call.arguments);
    assert(one is Object);
}

proof fn lemma_may_hold(value: JsonView, key: Seq<char>, text: Option<Seq<char>>)
    requires
        may_hold(value, key, text),
    ensures
        crate::agent::decision::text_field(value, key) == Ok::<Option<Seq<char>>, Seq<char>>(text),
{
    match text {
        Some(t) => {
            law_members_are_found_by_name(value, key, JsonView::Str(t));
        },
        None => {
            law_members_are_found_by_name(value, key, JsonView::Null);
        },
    }
}

/// A reply in words of its own, without calls, is the answer, without the white
/// space round it.
pub proof fn law_words_are_the_answer(value: JsonView, front: Seq<char>, answer: Seq<char>, back: Seq<char>)
    requires
        lacks(value, "tool_calls"@),
        holds(value, "content"@, JsonView::Str(front + answer + back)),
        all_space(front),
        all_space(back),
        crate::text_laws::ends_clean(answer),
        answer.len() > 0,
        answer != crate::agent::decision::PLACEHOLDER_FINAL_CONTENT@,
    ensures
        normal_decision(value) == Ok::<DecisionView, Seq<char>>(
            DecisionView {
                thought: None,
                tool: None,
                tools: Seq::empty(),
                final_answer: Some(answer),
                blocked: None,
            },
        ),
{
    law_members_are_found_by_name(value, "tool_calls"@, JsonView::Null);
    law_text_members_are_read_as_they_are(value, "content"@, front + answer + back);
    law_trimming_drops_outer_space(front, answer, back);
}

// ---------------------------------------------------------------------------
// Summaries
// ---------------------------------------------------------------------------

/// A text on one line, cut after `max` characters.
pub open spec fn short(s: Seq<char>, max: int) -> Seq<char> {
    capped(joined(words(s), " "@), max)
}

pub open spec fn parser_entries(entries: Seq<EntryView>) -> Seq<EntryView> {
    entries.filter(|e: EntryView| e.role == "parser"@)
}

pub open spec fn tool_entries(entries: Seq<EntryView>) -> Seq<EntryView> {
    entries.filter(|e: EntryView| has_prefix(e.role, "tool:"@))
}

pub open spec fn assistant_entries(entries: Seq<EntryView>) -> Seq<EntryView> {
    entries.filter(|e: EntryView| e.role == "assistant"@ || e.role == "assistant_retry"@)
}

proof fn lemma_one_by_one(e: EntryView, pred: spec_fn(EntryView) -> bool)
    ensures
        seq![e].filter(pred) == if pred(e) {
            seq![e]
        } else {
            Seq::<EntryView>::empty()
        },
{
    reveal(Seq::filter);
    reveal_with_fuel(Seq::filter, 2);
    assert(seq![e].drop_last() =~= Seq::<EntryView>::empty());
    assert(Seq::<EntryView>::empty().filter(pred) =~= Seq::<EntryView>::empty());
    assert(Seq::<EntryView>::empty().push(e) =~= seq![e]);
}

proof fn lemma_nothing(pred: spec_fn(EntryView) -> bool)
    ensures
        Seq::<EntryView>::empty().filter(pred) == Seq::<EntryView>::empty(),
{
    reveal(Seq::filter);
}

proof fn lemma_notes(entries: Seq<EntryView>, k: int)
    requires
        0 <= k <= entries.len(),
    ensures
        notes_from(entries, k) == Seq::new(
            parser_entries(entries.skip(k)).len(),
            |i: int| "- "@ + short(parser_entries(entries.skip(k))[i].content, 240),
        ),
    decreases entries.len() - k,
{
    let pred = |e: EntryView| e.role == "parser"@;
    if k < entries.len() {
        lemma_notes(entries, k + 1);
        let one = seq![entries[k]];
        let rest = entries.skip(k + 1);
        assert(one + rest =~= entries.skip(k));
        Seq::filter_distributes_over_add(one, rest, pred);
        lemma_one_by_one(entries[k], pred);
        assert(parser_entries(entries.skip(k)) == one.filter(pred) + rest.filter(pred));
        assert(notes_from(entries, k) =~= Seq::new(
            parser_entries(entries.skip(k)).len(),
            |i: int| "- "@ + short(parser_entries(entries.skip(k))[i].content, 240),
        ));
    } else {
        lemma_nothing(pred);
        assert(entries.skip(k) =~= Seq::empty());
    }
}

proof fn lemma_tools(entries: Seq<EntryView>, k: int, number: nat)
    requires
        0 <= k <= entries.len(),
    ensures
        tools_from(entries, k, number) == Seq::new(
            tool_entries(entries.skip(k)).len(),
            |i: int|
                decimal((number + i) as nat) + ". "@ + tool_entries(entries.skip(k))[i].role.skip(5),
        ),
    decreases entries.len() - k,
{
    reveal_strlit("tool:");
    let pred = |e: EntryView| has_prefix(e.role, "tool:"@);
    if k < entries.len() {
        let one = seq![entries[k]];
        let rest = entries.skip(k + 1);
        assert(one + rest =~= entries.skip(k));
        Seq::filter_distributes_over_add(one, rest, pred);
        lemma_one_by_one(entries[k], pred);
        let kept = tool_entries(entries.skip(k));
        assert(kept == one.filter(pred) + rest.filter(pred));
        let want = Seq::new(
            kept.len(),
            |i: int| decimal((number + i) as nat) + ". "@ + kept[i].role.skip(5),
        );
        if pred(entries[k]) {
            lemma_tools(entries, k + 1, number + 1);
            assert forall|i: int| 0 <= i < want.len() implies tools_from(entries, k, number)[i]
                == #[trigger] want[i] by {
                if i > 0 {
                    assert(kept[i] == rest.filter(pred)[i - 1]);
                    assert(tools_from(entries, k, number)[i] == tools_from(
                        entries,
                        k + 1,
                        number + 1,
                    )[i - 1]);
                }
            }
            assert(tools_from(entries, k, number) =~= want);
        } else {
            lemma_tools(entries, k + 1, number);
            assert(kept =~= rest.filter(pred));
            assert(tools_from(entries, k, number) =~= want);
        }
    } else {
        lemma_nothing(pred);
        assert(entries.skip(k) =~= Seq::empty());
    }
}

proof fn lemma_turns(entries: Seq<EntryView>, n: int)
    requires
        0 <= n <= entries.len(),
    ensures
        assistant_count(entries, n) == assistant_entries(entries.take(n)).len(),
    decreases n,
{
    reveal(Seq::filter);
    if n > 0 {
        lemma_turns(entries, n - 1);
        assert(entries.take(n).drop_last() =~= entries.take(n - 1));
    } else {
        assert(entries.take(0) =~= Seq::empty());
    }
}

proof fn lemma_task(entries: Seq<EntryView>, k: int, at: int)
    requires
        0 <= k <= at <= entries.len(),
        forall|j: int| 0 <= j < at ==> (#[trigger] entries[j]).role != "task"@,
        at < entries.len() ==> entries[at].role == "task"@,
    ensures
        task_from(entries, k) == if at < entries.len() {
            short(entries[at].content, 240)
        } else {
            "unavailable"@
        },
    decreases at - k,
{
    if k < at {
        assert(entries[k].role != "task"@);
        lemma_task(entries, k + 1, at);
    }
}

/// A summary names the first task, counts the entries and the turns of the
/// model, and lists the notes of the parser and the tools that ran, each once,
/// numbered from one, in the order of the record.
pub proof fn law_summaries_are_of_the_record(entries: Seq<EntryView>, at: int)
    requires
        0 <= at <= entries.len(),
        forall|j: int| 0 <= j < at ==> (#[trigger] entries[j]).role != "task"@,
        at < entries.len() ==> entries[at].role == "task"@,
    ensures
        ({
            let p = parser_entries(entries);
            let t = tool_entries(entries);
            let lines = summary_lines(entries, false);
            let notes = if p.len() > 0 {
                Seq::new(p.len(), |i: int| "- "@ + short(p[i].content, 240))
            } else {
                seq!["- none"@]
            };
            let tools = if t.len() > 0 {
                Seq::new(
                    t.len(),
                    |i: int| decimal((i + 1) as nat) + ". "@ + t[i].role.skip(5),
                )
            } else {
                seq!["- none"@]
            };
            &&& lines.len() == 3 + 2 + notes.len() + 2 + tools.len() + 2
            &&& lines[0] == "task: "@ + (if at < entries.len() {
                short(entries[at].content, 240)
            } else {
                "unavailable"@
            })
            &&& lines[1] == "entries: "@ + decimal(entries.len())
            &&& lines[2] == "assistant turns: "@ + decimal(assistant_entries(entries).len())
            &&& lines[3].len() == 0
            &&& lines[4] == "parser:"@
            &&& lines.subrange(5, 5 + notes.len() as int) == notes
            &&& lines[5 + notes.len() as int].len() == 0
            &&& lines[6 + notes.len() as int] == "tools:"@
            &&& lines.subrange(7 + notes.len() as int, 7 + notes.len() as int + tools.len()) == tools
            &&& lines[7 + notes.len() as int + tools.len()].len() == 0
        }),
{
    lemma_task(entries, 0, at);
    lemma_notes(entries, 0);
    lemma_tools(entries, 0, 1);
    lemma_turns(entries, entries.len() as int);
    assert(entries.skip(0) =~= entries);
    assert(entries.take(entries.len() as int) =~= entries);
    let p = parser_entries(entries);
    let t = tool_entries(entries);
    let notes = Seq::new(p.len(), |i: int| "- "@ + short(p[i].content, 240));
    let tools = Seq::new(t.len(), |i: int| decimal((i + 1) as nat) + ". "@ + t[i].role.skip(5));
    assert(notes_from(entries, 0) =~= notes);
    assert(tools_from(entries, 0, 1) =~= tools);
}

/// The notice of a damaged record comes behind the counts and changes no other
/// line.
pub proof fn law_damage_is_noted(entries: Seq<EntryView>)
    ensures
        summary_lines(entries, true) == summary_lines(entries, false).insert(
            3,
            crate::agent::summary::PARTIAL_WARNING@,
        ),
{
    assert(summary_lines(entries, true) =~= summary_lines(entries, false).insert(
        3,
        crate::agent::summary::PARTIAL_WARNING@,
    ));
}

proof fn lemma_outcome(entries: Seq<EntryView>, n: int, at: int)
    requires
        0 <= at < n <= entries.len(),
        entries[at].role == "assistant"@ || entries[at].role == "assistant_retry"@,
        decision_in(entries[at].content) is Ok,
        forall|j: int|
            at < j < entries.len() ==> (#[trigger] entries[j]).role != "assistant"@
                && entries[j].role != "assistant_retry"@ || decision_in(entries[j].content) is Err,
    ensures
        outcome_before(entries, n) == outcome_before(entries, at + 1),
    decreases n,
{
    if n > at + 1 {
        let e = entries[n - 1];
        assert(e.role != "assistant"@ && e.role != "assistant_retry"@ || decision_in(e.content) is Err);
        lemma_outcome(entries, n - 1, at);
    }
}

/// A summary ends with how the record ended: with the answer, or the reason to
/// stop, of the last reply in it that reads as a decision.
pub proof fn law_summaries_end_with_the_outcome(entries: Seq<EntryView>, partial: bool, at: int)
    requires
        0 <= at < entries.len(),
        entries[at].role == "assistant"@ || entries[at].role == "assistant_retry"@,
        decision_in(entries[at].content) is Ok,
        forall|j: int|
            at < j < entries.len() ==> (#[trigger] entries[j]).role != "assistant"@
                && entries[j].role != "assistant_retry"@ || decision_in(entries[j].content) is Err,
    ensures
        ({
            let d = decision_in(entries[at].content)->Ok_0;
            let end = summary_lines(entries, partial).last();
            &&& d.final_answer matches Some(answer) ==> end == "final: "@ + ("final_answer: "@
                + short(answer, 500))
            &&& d.final_answer is None && d.blocked is Some ==> end == "final: "@ + ("blocked: "@
                + short(d.blocked->Some_0, 500))
            &&& d.final_answer is None && d.blocked is None ==> end == "final: "@ + "unavailable"@
        }),
{
    lemma_outcome(entries, entries.len() as int, at);
}

// ---------------------------------------------------------------------------
// Mending
// ---------------------------------------------------------------------------

/// A reply is read as the decision of the JSON object in it; where that is JSON
/// as it stands, nothing is mended.
pub proof fn law_sound_replies_are_not_mended(
    text: Seq<char>,
    json: Seq<char>,
    value: JsonView,
    d: DecisionView,
)
    requires
        json_object_in(text) == Some(json),
        json_parsed(json) == Ok::<JsonView, (Seq<char>, nat)>(value),
        normal_decision(value) == Ok::<DecisionView, Seq<char>>(d),
    ensures
        read_decision(text) == Ok::<(DecisionView, Repair), Seq<char>>((d, Repair::Unchanged)),
        decision_in(text) == Ok::<DecisionView, Seq<char>>(d),
{
}

proof fn lemma_char_at_byte(s: Seq<char>, pos: int, i: int)
    requires
        0 <= i <= pos < s.len(),
        forall|k: int| 0 <= k < pos ==> (#[trigger] s[k] as u32) < 0x80,
    ensures
        char_at_byte(s, pos, i, i) == Some(pos),
    decreases pos - i,
{
    if i < pos {
        assert((s[i] as u32) < 0x80);
        lemma_char_at_byte(s, pos, i + 1);
    }
}

proof fn lemma_trimmed_front(a: Seq<char>, gap: Seq<char>)
    requires
        a.len() > 0,
        !crate::text::is_space(a.last()),
        all_space(gap),
    ensures
        crate::text::trimmed_end(a + gap) == a,
{
    let s = a + gap;
    crate::text::lemma_space_end(s, s.len() as int);
    let e = crate::text::space_end(s, s.len() as int);
    if e > a.len() {
        assert(s[e - 1] == gap[e - 1 - a.len()]);
    } else if e < a.len() {
        assert(s[a.len() - 1] == a.last());
    }
    assert(s.take(a.len() as int) =~= a);
}

/// A comma that is missing in front of a key, behind a value that has ended, is
/// put in there, and nothing else changes.
pub proof fn law_missing_commas_are_put_in(
    before: Seq<char>,
    gap: Seq<char>,
    key: Seq<char>,
    space: Seq<char>,
    rest: Seq<char>,
)
    requires
        before.len() > 0,
        before.last() == '"' || before.last() == '}' || before.last() == ']',
        all_space(gap),
        all_space(space),
        is_free_of(key, '"'),
        forall|k: int| 0 <= k < (before + gap).len() ==> (#[trigger] (before + gap)[k] as u32) < 0x80,
    ensures
        with_comma(
            before + gap + (seq!['"'] + key + seq!['"'] + space + seq![':'] + rest),
            (before + gap).len() as int + 1,
        ) == Some(
            before + gap + ","@ + (seq!['"'] + key + seq!['"'] + space + seq![':'] + rest),
        ),
{
    let a = before + gap;
    let b = seq!['"'] + key + seq!['"'] + space + seq![':'] + rest;
    let s = a + b;
    let n = a.len() as int;
    assert forall|k: int| 0 <= k < n implies (#[trigger] s[k] as u32) < 0x80 by {
        assert(s[k] == a[k]);
        assert((a[k] as u32) < 0x80);
    }
    lemma_char_at_byte(s, n, 0);
    assert(s.take(n) =~= a);
    assert(s.skip(n) =~= b);
    lemma_trimmed_front(before, gap);
    assert(s[n] == '"');
    lemma_next_char(s, '"', n + 1);
    let e = n + 1 + key.len();
    assert(s[e] == '"');
    assert(next_char(s, '"', n + 1) == e) by {
        let x = next_char(s, '"', n + 1);
        if x < e {
            assert(s[x] == key[x - n - 1]);
        }
    }
    let behind = s.skip(e + 1);
    assert(behind =~= space + (seq![':'] + rest));
    crate::text::lemma_skip_space(behind, 0);
    let k = crate::text::skip_space(behind, 0);
    assert(behind[space.len() as int] == ':');
    assert(k == space.len()) by {
        if k < space.len() {
            assert(behind[k] == space[k]);
        } else if k > space.len() {
            assert(crate::text::is_space(behind[space.len() as int]));
        }
    }
    assert(lacks_comma(s, n));
}

// ---------------------------------------------------------------------------
// Audits
// ---------------------------------------------------------------------------

proof fn lemma_commit_word_at(ws: Seq<Seq<char>>, k: int, at: int)
    requires
        0 <= k <= at <= ws.len(),
        forall|j: int| 0 <= j < at ==> !names_commit(#[trigger] ws[j]),
        at < ws.len() ==> names_commit(ws[at]),
    ensures
        commit_word(ws, k) == if at < ws.len() {
            Some(ws[at])
        } else {
            None
        },
    decreases at - k,
{
    if k < at {
        assert(!names_commit(ws[k]));
        lemma_commit_word_at(ws, k + 1, at);
    }
}

/// An audit is of the first word of the request that names a commit; the word
/// for the latest one stands for the latest one.
pub proof fn law_first_commit_is_audited(task: Seq<char>, at: int)
    requires
        ({
            let ws = words(normal_task(task));
            &&& 0 <= at < ws.len()
            &&& ws.contains("audit"@)
            &&& ws.contains("commit"@)
            &&& names_commit(ws[at])
            &&& forall|j: int| 0 <= j < at ==> !names_commit(#[trigger] ws[j])
        }),
    ensures
        ({
            let word = words(normal_task(task))[at];
            &&& word == "head"@ ==> audit_target(task) == Some("HEAD"@)
            &&& word != "head"@ ==> audit_target(task) == Some(word)
        }),
{
    lemma_commit_word_at(words(normal_task(task)), 0, at);
}

/// A commit is named by seven to forty digits of its hash.
pub proof fn law_commits_are_named_by_their_hash(word: Seq<char>)
    requires
        forall|i: int|
            0 <= i < word.len() ==> '0' <= #[trigger] word[i] <= '9' || 'a' <= word[i] <= 'f',
    ensures
        names_commit(word) <==> 7 <= word.len() <= 40,
{
    reveal_strlit("head");
    assert(word != "head"@) by {
        if word == "head"@ {
            assert(word[0] == 'h');
        }
    }
    assert(crate::agent::commit_audit::all_hex(word));
}

/// A task is prepared only where it is an audit: the model then gets the request
/// as it was made, what it is about, and all the evidence, in this order.
pub proof fn law_audits_are_prepared(task: Seq<char>, evidence: Seq<char>, target: Seq<char>)
    ensures
        audit_target(task) is None ==> prepared_task(task, evidence) == task,
        audit_target(task) == Some(target) ==> exists|rest: Seq<char>| #[trigger]
            ("Original user request:\n"@ + task + "\n\nResolved commit target: "@ + target
                + "\n\nLocal git evidence collected before model review:\n"@ + evidence + rest)
                == prepared_task(task, evidence),
{
    if audit_target(task) == Some(target) {
        let rest = "\n\nAudit instructions:\n- Audit only from the provided local evidence.\n- Do not ask the user to paste the diff unless evidence collection failed.\n- Lead with findings ordered by severity.\n- Cite concrete files, commit metadata, commands, or evidence snippets when available.\n- State a clear recommendation: ACCEPT, REVISE, or BLOCK."@;
        assert("Original user request:\n"@ + task + "\n\nResolved commit target: "@ + target
            + "\n\nLocal git evidence collected before model review:\n"@ + evidence + rest
            == prepared_task(task, evidence));
    }
}

/// Git is asked for the state, the last commits and the change of the commit
/// that is meant.
pub proof fn law_git_is_asked_about_the_target(target: Seq<char>)
    ensures
        git_arguments(target).len() == 3,
        git_arguments(target)[0][0] == "status"@,
        git_arguments(target)[1][0] == "log"@,
        git_arguments(target)[2][0] == "show"@,
        git_arguments(target)[2].contains(target),
{
    assert(git_arguments(target)[2][4] == target);
}

/// The evidence holds what git said of each, without secrets and cut after
/// sixteen thousand characters.
pub proof fn law_evidence_is_what_git_said(status: Seq<char>, log: Seq<char>, show: Seq<char>)
    ensures
        evidence_text(status, log, show) == "## "@ + "git status --short --branch"@ + "\n\n"@
            + capped(redacted(status), 16_000) + "\n\n"@ + ("## "@ + "git log --oneline -5"@
            + "\n\n"@ + capped(redacted(log), 16_000)) + "\n\n"@ + ("## "@
            + "git show --stat --patch --find-renames <target> --"@ + "\n\n"@ + capped(
            redacted(show),
            16_000,
        )),
{
}

} // verus!
