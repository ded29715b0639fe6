//! Summaries of the records that runs leave behind.
use vstd::prelude::*;

use crate::agent::decision::{closes, decision_in, fresh_scan, parse_decision, scanned, Scan, Scanner};
use crate::agent::run::{entries_view, EntryView, TranscriptEntry};
use crate::paths::{join_path, path_join};
use crate::provider::{OLD_PROVIDER_STATE_DIR, PROVIDER_STATE_DIR};
use crate::safety::{cap_text, capped};
use crate::text::{char_count, chars_of, concat2, concat3, copy_text, decimal_text, ends_with, join, push_item, push_list, same_text, split_whitespace, strip_prefix, text_between};
use crate::text::{decimal, has_suffix, joined, lemma_texts_empty, opt_text, texts, without_prefix, words};
use crate::text_sort::{law_sorting_orders_and_keeps, sort_texts, sorted_texts, text_le};

verus! {

pub const MAX_TRANSCRIPT_ENTRY_CHARS: usize = 12_000;

// ---------------------------------------------------------------------------
// Where records are kept, and how
// ---------------------------------------------------------------------------

/// The directory of the records of a workspace.
pub fn transcript_dir(root: &str) -> (r: String)
    ensures
        r@ == path_join(path_join(root@, PROVIDER_STATE_DIR@), "agent-transcripts"@),
{
    join_path(join_path(root, PROVIDER_STATE_DIR).as_str(), "agent-transcripts")
}

/// Where the records of a workspace used to be.
pub fn old_transcript_dir(root: &str) -> (r: String)
    ensures
        r@ == path_join(path_join(root@, OLD_PROVIDER_STATE_DIR@), "agent-transcripts"@),
{
    join_path(join_path(root, OLD_PROVIDER_STATE_DIR).as_str(), "agent-transcripts")
}

/// The name of a record that is written at a time.
pub fn transcript_name(now: u64) -> (r: String)
    ensures
        r@ == decimal(now as nat) + ".json"@,
{
    concat2(decimal_text(now).as_str(), ".json")
}

pub open spec fn capped_entry(e: EntryView) -> EntryView {
    EntryView { role: e.role, content: capped(e.content, MAX_TRANSCRIPT_ENTRY_CHARS as int) }
}

/// The entries as they are written, each of a bounded length.
pub fn capped_entries(entries: &Vec<TranscriptEntry>) -> (r: Vec<TranscriptEntry>)
    ensures
        entries_view(r@) == Seq::new(
            entries@.len(),
            |i: int| capped_entry(entries_view(entries@)[i]),
        ),
{
    let ghost want = Seq::new(entries@.len(), |i: int| capped_entry(entries_view(entries@)[i]));
    let mut out: Vec<TranscriptEntry> = Vec::new();
    let mut i: usize = 0;
    assert(entries_view(out@) =~= want.take(0));
    while i < entries.len()
        invariant
            i <= entries.len(),
            want == Seq::new(entries@.len(), |i: int| capped_entry(entries_view(entries@)[i])),
            entries_view(out@) == want.take(i as int),
        decreases entries.len() - i,
    {
        let content = cap_text(entries[i].content.as_str(), MAX_TRANSCRIPT_ENTRY_CHARS);
        crate::agent::run::push_entry(&mut out, entries[i].role.as_str(), content.as_str());
        assert(want[i as int] == capped_entry(entries@[i as int]@));
        i += 1;
        assert(entries_view(out@) =~= want.take(i as int));
    }
    assert(want.take(want.len() as int) =~= want);
    out
}

// ---------------------------------------------------------------------------
// Saving what is whole
// ---------------------------------------------------------------------------

/// The outermost objects that are complete, from index `i` on, where the reader
/// stands at `at` and the object it is in began at `start`.
pub open spec fn objects_from(s: Seq<char>, i: int, at: Scan, start: Option<int>) -> Seq<Seq<char>>
    decreases s.len() - i,
{
    if i < 0 || i >= s.len() {
        Seq::empty()
    } else if closes(at, s[i]) {
        (match start {
            Some(k) => seq![s.subrange(k, i + 1)],
            None => Seq::empty(),
        }) + objects_from(s, i + 1, scanned(at, s[i]), None)
    } else if !at.in_string && s[i] == '{' && at.depth == 0 {
        objects_from(s, i + 1, scanned(at, s[i]), Some(i))
    } else {
        objects_from(s, i + 1, scanned(at, s[i]), start)
    }
}

/// The outermost objects that stand complete in a text.
pub open spec fn complete_objects(s: Seq<char>) -> Seq<Seq<char>> {
    objects_from(s, 0, fresh_scan(), None)
}

pub open spec fn opt_int(o: Option<usize>) -> Option<int> {
    match o {
        Some(n) => Some(n as int),
        None => None,
    }
}

/// The outermost objects that stand complete in a text, such as the entries of
/// a record that was cut off.
pub fn salvage_complete_objects(content: &str) -> (r: Vec<String>)
    ensures
        texts(r@) == complete_objects(content@),
{
    broadcast use lemma_texts_empty;

    let v = chars_of(content);
    let ghost want = complete_objects(content@);
    let mut out: Vec<String> = Vec::new();
    let mut at = Scanner::new();
    let mut start: Option<usize> = None;
    let mut i: usize = 0;
    assert(texts(out@) + want =~= want);
    while i < v.len()
        invariant
            i <= v.len(),
            at.depth <= i,
            start is Some ==> start->Some_0 < i,
            texts(out@) + objects_from(v@, i as int, at@, opt_int(start)) == want,
        decreases v.len() - i,
    {
        let c = v[i];
        let ghost before = texts(out@);
        let ghost place = at@;
        let ghost began = opt_int(start);
        if at.closes_at(c) {
            if let Some(k) = start {
                push_item(&mut out, text_between(&v, k, i + 1));
            }
            start = None;
        } else if !at.in_string && c == '{' && at.depth == 0 {
            start = Some(i);
        }
        at.step(c);
        i += 1;
        proof {
            let rest = objects_from(v@, i as int, at@, opt_int(start));
            if closes(place, c) {
                match began {
                    Some(k) => {
                        assert(before + (seq![v@.subrange(k, i as int)] + rest) =~= texts(out@)
                            + rest);
                    },
                    None => {
                        assert(Seq::<Seq<char>>::empty() + rest =~= rest);
                    },
                }
            }
        }
    }
    assert(texts(out@) + Seq::<Seq<char>>::empty() =~= texts(out@));
    out
}

pub open spec fn entries_result(r: Result<(Vec<TranscriptEntry>, bool), String>) -> Result<
    (Seq<EntryView>, bool),
    Seq<char>,
> {
    match r {
        Ok((v, partial)) => Ok((entries_view(v@), partial)),
        Err(e) => Err(e@),
    }
}

/// The entries of a record, and whether some may be missing: those of the whole
/// record, or else those that could be saved; none at all is an error.
pub fn transcript_entries(
    whole: Result<Vec<TranscriptEntry>, String>,
    saved: Vec<TranscriptEntry>,
) -> (r: Result<(Vec<TranscriptEntry>, bool), String>)
    ensures
        entries_result(r) == match whole {
            Ok(all) => Ok((entries_view(all@), false)),
            Err(e) => if saved@.len() == 0 {
                Err("invalid agent transcript JSON: "@ + e@)
            } else {
                Ok((entries_view(saved@), true))
            },
        },
{
    match whole {
        Ok(all) => Ok((all, false)),
        Err(e) => if saved.len() == 0 {
            Err(concat2("invalid agent transcript JSON: ", e.as_str()))
        } else {
            Ok((saved, true))
        },
    }
}

// ---------------------------------------------------------------------------
// The summary
// ---------------------------------------------------------------------------

/// A text on one line, of a bounded length.
pub open spec fn on_one_line(s: Seq<char>, max: int) -> Seq<char> {
    capped(joined(words(s), " "@), max)
}

pub fn one_line(text: &str, max_chars: usize) -> (r: String)
    ensures
        r@ == on_one_line(text@, max_chars as int),
{
    cap_text(join(&split_whitespace(text), " ").as_str(), max_chars)
}

/// The task, from entry `k` on.
pub open spec fn task_from(entries: Seq<EntryView>, k: int) -> Seq<char>
    decreases entries.len() - k,
{
    if k < 0 || k >= entries.len() {
        "unavailable"@
    } else if entries[k].role == "task"@ {
        on_one_line(entries[k].content, 240)
    } else {
        task_from(entries, k + 1)
    }
}

/// The notes of the parser, from entry `k` on.
pub open spec fn notes_from(entries: Seq<EntryView>, k: int) -> Seq<Seq<char>>
    decreases entries.len() - k,
{
    if k < 0 || k >= entries.len() {
        Seq::empty()
    } else if entries[k].role == "parser"@ {
        seq!["- "@ + on_one_line(entries[k].content, 240)] + notes_from(entries, k + 1)
    } else {
        notes_from(entries, k + 1)
    }
}

/// The tools that ran, from entry `k` on, numbered from `number`.
pub open spec fn tools_from(entries: Seq<EntryView>, k: int, number: nat) -> Seq<Seq<char>>
    decreases entries.len() - k,
{
    if k < 0 || k >= entries.len() {
        Seq::empty()
    } else {
        match without_prefix(entries[k].role, "tool:"@) {
            Some(tool) => seq![decimal(number) + ". "@ + tool] + tools_from(
                entries,
                k + 1,
                number + 1,
            ),
            None => tools_from(entries, k + 1, number),
        }
    }
}

pub open spec fn is_assistant_role(role: Seq<char>) -> bool {
    role == "assistant"@ || role == "assistant_retry"@
}

/// The number of replies among the first `n` entries.
pub open spec fn assistant_count(entries: Seq<EntryView>, n: int) -> nat
    decreases n,
{
    if n <= 0 || n > entries.len() {
        0
    } else {
        assistant_count(entries, n - 1) + if is_assistant_role(entries[n - 1].role) {
            1nat
        } else {
            0nat
        }
    }
}

/// What the last reply that is a decision, among the first `n` entries, came to.
pub open spec fn outcome_before(entries: Seq<EntryView>, n: int) -> Seq<char>
    decreases n,
{
    if n <= 0 || n > entries.len() {
        "unavailable"@
    } else if is_assistant_role(entries[n - 1].role) {
        match decision_in(entries[n - 1].content) {
            Ok(d) => match d.final_answer {
                Some(answer) => "final_answer: "@ + on_one_line(answer, 500),
                None => match d.blocked {
                    Some(reason) => "blocked: "@ + on_one_line(reason, 500),
                    None => "unavailable"@,
                },
            },
            Err(_) => outcome_before(entries, n - 1),
        }
    } else {
        outcome_before(entries, n - 1)
    }
}

pub open spec fn or_none(list: Seq<Seq<char>>) -> Seq<Seq<char>> {
    if list.len() == 0 {
        seq!["- none"@]
    } else {
        list
    }
}

pub const PARTIAL_WARNING: &'static str = "warning: transcript JSON is incomplete; summarized complete entries only";

pub open spec fn summary_lines(entries: Seq<EntryView>, partial: bool) -> Seq<Seq<char>> {
    let head = seq![
        "task: "@ + task_from(entries, 0),
        "entries: "@ + decimal(entries.len()),
        "assistant turns: "@ + decimal(assistant_count(entries, entries.len() as int)),
    ];
    let warned = if partial {
        head.push(PARTIAL_WARNING@)
    } else {
        head
    };
    (warned.push(Seq::empty()).push("parser:"@) + or_none(notes_from(entries, 0))).push(
        Seq::empty(),
    ).push("tools:"@) + or_none(tools_from(entries, 0, 1)) + seq![
        Seq::empty(),
        "final: "@ + outcome_before(entries, entries.len() as int),
    ]
}

fn find_task(entries: &Vec<TranscriptEntry>) -> (r: String)
    ensures
        r@ == task_from(entries_view(entries@), 0),
{
    let ghost all = entries_view(entries@);
    let mut k: usize = 0;
    while k < entries.len()
        invariant
            k <= entries.len(),
            all == entries_view(entries@),
            task_from(all, 0) == task_from(all, k as int),
        decreases entries.len() - k,
    {
        assert(all[k as int] == entries@[k as int]@);
        if same_text(entries[k].role.as_str(), "task") {
            return one_line(entries[k].content.as_str(), 240);
        }
        k += 1;
    }
    copy_text("unavailable")
}

fn parser_notes(entries: &Vec<TranscriptEntry>) -> (r: Vec<String>)
    ensures
        texts(r@) == notes_from(entries_view(entries@), 0),
{
    broadcast use lemma_texts_empty;

    let ghost all = entries_view(entries@);
    let ghost want = notes_from(all, 0);
    let mut out: Vec<String> = Vec::new();
    let mut k: usize = 0;
    assert(texts(out@) + want =~= want);
    while k < entries.len()
        invariant
            k <= entries.len(),
            all == entries_view(entries@),
            texts(out@) + notes_from(all, k as int) == want,
        decreases entries.len() - k,
    {
        assert(all[k as int] == entries@[k as int]@);
        let ghost before = texts(out@);
        if same_text(entries[k].role.as_str(), "parser") {
            let note = one_line(entries[k].content.as_str(), 240);
            push_item(&mut out, concat2("- ", note.as_str()));
            assert(before + (seq!["- "@ + note@] + notes_from(all, k + 1)) =~= texts(out@)
                + notes_from(all, k + 1));
        }
        k += 1;
    }
    assert(texts(out@) + Seq::<Seq<char>>::empty() =~= texts(out@));
    out
}

fn numbered_tools(entries: &Vec<TranscriptEntry>) -> (r: Vec<String>)
    ensures
        texts(r@) == tools_from(entries_view(entries@), 0, 1),
{
    broadcast use lemma_texts_empty;

    let ghost all = entries_view(entries@);
    let ghost want = tools_from(all, 0, 1);
    let mut out: Vec<String> = Vec::new();
    let mut count: u64 = 0;
    let mut k: usize = 0;
    assert(texts(out@) + want =~= want);
    while k < entries.len()
        invariant
            k <= entries.len(),
            count <= k,
            all == entries_view(entries@),
            texts(out@) + tools_from(all, k as int, (count + 1) as nat) == want,
        decreases entries.len() - k,
    {
        assert(all[k as int] == entries@[k as int]@);
        let ghost before = texts(out@);
        if let Some(tool) = strip_prefix(entries[k].role.as_str(), "tool:") {
            let line = concat3(decimal_text(count + 1).as_str(), ". ", tool.as_str());
            push_item(&mut out, line);
            assert(before + (seq![line@] + tools_from(all, k + 1, (count + 2) as nat)) =~= texts(
                out@,
            ) + tools_from(all, k + 1, (count + 2) as nat));
            count += 1;
        }
        k += 1;
    }
    assert(texts(out@) + Seq::<Seq<char>>::empty() =~= texts(out@));
    out
}

fn is_assistant(role: &str) -> (r: bool)
    ensures
        r == is_assistant_role(role@),
{
    same_text(role, "assistant") || same_text(role, "assistant_retry")
}

fn count_assistant(entries: &Vec<TranscriptEntry>) -> (r: u64)
    ensures
        r == assistant_count(entries_view(entries@), entries.len() as int),
{
    let ghost all = entries_view(entries@);
    let mut n: u64 = 0;
    let mut k: usize = 0;
    while k < entries.len()
        invariant
            k <= entries.len(),
            n <= k,
            all == entries_view(entries@),
            n == assistant_count(all, k as int),
        decreases entries.len() - k,
    {
        assert(all[k as int] == entries@[k as int]@);
        if is_assistant(entries[k].role.as_str()) {
            n += 1;
        }
        k += 1;
    }
    n
}

fn final_outcome(entries: &Vec<TranscriptEntry>) -> (r: String)
    ensures
        r@ == outcome_before(entries_view(entries@), entries.len() as int),
{
    let ghost all = entries_view(entries@);
    let mut n: usize = entries.len();
    while n > 0
        invariant
            n <= entries.len(),
            all == entries_view(entries@),
            outcome_before(all, entries.len() as int) == outcome_before(all, n as int),
        decreases n,
    {
        assert(all[n - 1] == entries@[n - 1]@);
        let entry = &entries[n - 1];
        if is_assistant(entry.role.as_str()) {
            if let Ok(decision) = parse_decision(entry.content.as_str()) {
                return match &decision.final_answer {
                    Some(answer) => concat2(
                        "final_answer: ",
                        one_line(answer.as_str(), 500).as_str(),
                    ),
                    None => match &decision.blocked {
                        Some(reason) => concat2(
                            "blocked: ",
                            one_line(reason.as_str(), 500).as_str(),
                        ),
                        None => copy_text("unavailable"),
                    },
                };
            }
        }
        n -= 1;
    }
    copy_text("unavailable")
}

fn push_or_none(out: &mut Vec<String>, list: &Vec<String>)
    ensures
        texts(final(out)@) == texts(old(out)@) + or_none(texts(list@)),
{
    assert(texts(list@).len() == list.len());
    if list.len() == 0 {
        push_item(out, copy_text("- none"));
        assert(texts(out@) =~= texts(old(out)@) + or_none(texts(list@)));
    } else {
        push_list(out, list);
    }
}

/// The summary of a record.
pub fn summarize_entries(entries: &Vec<TranscriptEntry>, partial: bool) -> (r: String)
    ensures
        r@ == joined(summary_lines(entries_view(entries@), partial), "\n"@),
{
    broadcast use lemma_texts_empty;

    let ghost all = entries_view(entries@);
    assert(all.len() == entries.len());
    let mut out: Vec<String> = Vec::new();
    push_item(&mut out, concat2("task: ", find_task(entries).as_str()));
    push_item(&mut out, concat2("entries: ", decimal_text(entries.len() as u64).as_str()));
    push_item(
        &mut out,
        concat2("assistant turns: ", decimal_text(count_assistant(entries)).as_str()),
    );
    if partial {
        push_item(&mut out, copy_text(PARTIAL_WARNING));
    }
    push_item(&mut out, String::new());
    push_item(&mut out, copy_text("parser:"));
    push_or_none(&mut out, &parser_notes(entries));
    push_item(&mut out, String::new());
    push_item(&mut out, copy_text("tools:"));
    push_or_none(&mut out, &numbered_tools(entries));
    push_item(&mut out, String::new());
    push_item(&mut out, concat2("final: ", final_outcome(entries).as_str()));
    assert(texts(out@) =~= summary_lines(all, partial));
    join(&out, "\n")
}

// ---------------------------------------------------------------------------
// The latest record
// ---------------------------------------------------------------------------

/// The name of a JSON file; a name that is only the ending is none.
pub open spec fn is_json_name(name: Seq<char>) -> bool {
    has_suffix(name, ".json"@) && name.len() > 5
}

/// The names of JSON files, from name `k` on.
pub open spec fn json_names(names: Seq<Seq<char>>, k: int) -> Seq<Seq<char>>
    decreases names.len() - k,
{
    if k < 0 || k >= names.len() {
        Seq::empty()
    } else if is_json_name(names[k]) {
        seq![names[k]] + json_names(names, k + 1)
    } else {
        json_names(names, k + 1)
    }
}

/// The last of the JSON files by name, which is the latest record.
pub open spec fn latest_name(names: Seq<Seq<char>>) -> Option<Seq<char>> {
    let sorted = sorted_texts(json_names(names, 0));
    if sorted.len() == 0 {
        None
    } else {
        Some(sorted.last())
    }
}

fn keep_json_names(names: &Vec<String>) -> (r: Vec<String>)
    ensures
        texts(r@) == json_names(texts(names@), 0),
{
    broadcast use lemma_texts_empty;

    let ghost all = texts(names@);
    let ghost want = json_names(all, 0);
    let mut out: Vec<String> = Vec::new();
    let mut k: usize = 0;
    assert(texts(out@) + want =~= want);
    while k < names.len()
        invariant
            k <= names.len(),
            all == texts(names@),
            texts(out@) + json_names(all, k as int) == want,
        decreases names.len() - k,
    {
        assert(all[k as int] == names@[k as int]@);
        let ghost before = texts(out@);
        let name = names[k].as_str();
        if ends_with(name, ".json") && char_count(name) > 5 {
            push_item(&mut out, copy_text(name));
            assert(before + (seq![name@] + json_names(all, k + 1)) =~= texts(out@) + json_names(
                all,
                k + 1,
            ));
        }
        k += 1;
    }
    assert(texts(out@) + Seq::<Seq<char>>::empty() =~= texts(out@));
    out
}

/// The path of the latest record, given the names in the directory of records.
pub fn read_latest_transcript(dir: &str, names: &Vec<String>) -> (r: Option<String>)
    ensures
        opt_text(r) == match latest_name(texts(names@)) {
            Some(name) => Some(path_join(dir@, name)),
            None => None,
        },
{
    let kept = keep_json_names(names);
    let sorted = sort_texts(&kept);
    assert(texts(sorted@).len() == sorted.len());
    if sorted.len() == 0 {
        return None;
    }
    assert(texts(sorted@).last() == sorted@[sorted.len() - 1]@);
    Some(join_path(dir, sorted[sorted.len() - 1].as_str()))
}

/// The latest record as it was read: its path, its entries or why it has none,
/// and the entries that could be saved from it.
#[derive(Debug)]
pub struct FoundRecord {
    pub path: String,
    pub whole: Result<Vec<TranscriptEntry>, String>,
    pub saved: Vec<TranscriptEntry>,
}

pub struct RecordView {
    pub path: Seq<char>,
    pub whole: Result<Seq<EntryView>, Seq<char>>,
    pub saved: Seq<EntryView>,
}

impl View for FoundRecord {
    type V = RecordView;

    open spec fn view(&self) -> RecordView {
        RecordView {
            path: self.path@,
            whole: match self.whole {
                Ok(all) => Ok(entries_view(all@)),
                Err(e) => Err(e@),
            },
            saved: entries_view(self.saved@),
        }
    }
}

pub open spec fn found_record(r: Result<Option<FoundRecord>, String>) -> Result<
    Option<RecordView>,
    Seq<char>,
> {
    match r {
        Ok(Some(record)) => Ok(Some(record@)),
        Ok(None) => Ok(None),
        Err(e) => Err(e@),
    }
}

/// The summary of a record: of the whole of it, or else of what could be saved.
pub open spec fn record_summary(record: RecordView) -> Result<Seq<char>, Seq<char>> {
    match record.whole {
        Ok(all) => Ok(joined(summary_lines(all, false), "\n"@)),
        Err(e) => if record.saved.len() == 0 {
            Err("invalid agent transcript JSON: "@ + e)
        } else {
            Ok(joined(summary_lines(record.saved, true), "\n"@))
        },
    }
}

/// The path and the summary of the latest record, if there is one.
pub open spec fn latest_summary(found: Result<Option<RecordView>, Seq<char>>) -> Result<
    Option<(Seq<char>, Seq<char>)>,
    Seq<char>,
> {
    match found {
        Err(e) => Err(e),
        Ok(None) => Ok(None),
        Ok(Some(record)) => match record_summary(record) {
            Ok(text) => Ok(Some((record.path, text))),
            Err(e) => Err(e),
        },
    }
}

pub open spec fn summary_result(r: Result<Option<(String, String)>, String>) -> Result<
    Option<(Seq<char>, Seq<char>)>,
    Seq<char>,
> {
    match r {
        Ok(Some(pair)) => Ok(Some((pair.0@, pair.1@))),
        Ok(None) => Ok(None),
        Err(e) => Err(e@),
    }
}

/// The path and the summary of the latest record, given what looking for it came
/// to.
pub fn read_latest_transcript_summary(found: Result<Option<FoundRecord>, String>) -> (r: Result<
    Option<(String, String)>,
    String,
>)
    ensures
        summary_result(r) == latest_summary(found_record(found)),
{
    match found {
        Err(e) => Err(e),
        Ok(None) => Ok(None),
        Ok(Some(record)) => match transcript_entries(record.whole, record.saved) {
            Ok((entries, partial)) => Ok(
                Some((record.path, summarize_entries(&entries, partial))),
            ),
            Err(e) => Err(e),
        },
    }
}

// ---------------------------------------------------------------------------
// Laws
// ---------------------------------------------------------------------------

/// Where there is no record there is no summary, and an error in looking for it
/// is handed on as it is. A record that is whole always has a summary, under its
/// own path, and so has one of which something could be saved.
pub proof fn law_latest_summary_hands_on(
    found: Result<Option<RecordView>, Seq<char>>,
    e: Seq<char>,
    record: RecordView,
)
    ensures
        latest_summary(Ok(None)) == Ok::<Option<(Seq<char>, Seq<char>)>, Seq<char>>(None),
        latest_summary(Err(e)) == Err::<Option<(Seq<char>, Seq<char>)>, Seq<char>>(e),
        latest_summary(found) == Ok::<Option<(Seq<char>, Seq<char>)>, Seq<char>>(None) <==> found
            == Ok::<Option<RecordView>, Seq<char>>(None),
        latest_summary(Ok(Some(record))) is Ok <==> record.whole is Ok || record.saved.len() > 0,
        latest_summary(Ok(Some(record))) matches Ok(shown) ==> shown is Some && shown->Some_0.0
            == record.path,
{
}

/// A text that starts and ends with a brace and lies in another.
pub open spec fn is_braced_part(part: Seq<char>, s: Seq<char>) -> bool {
    &&& part.len() > 0
    &&& part[0] == '{'
    &&& part.last() == '}'
    &&& crate::text::has_text(s, part)
}

pub open spec fn all_braced_parts(list: Seq<Seq<char>>, s: Seq<char>) -> bool {
    forall|i: int| 0 <= i < list.len() ==> is_braced_part(#[trigger] list[i], s)
}

proof fn lemma_objects_are_braced(s: Seq<char>, i: int, at: Scan, start: Option<int>)
    requires
        0 <= i,
        start is Some ==> 0 <= start->Some_0 < i && start->Some_0 < s.len() && s[start->Some_0]
            == '{',
    ensures
        all_braced_parts(objects_from(s, i, at, start), s),
    decreases s.len() - i,
{
    if i < s.len() {
        let next = scanned(at, s[i]);
        if closes(at, s[i]) {
            lemma_objects_are_braced(s, i + 1, next, None);
            let rest = objects_from(s, i + 1, next, None);
            if let Some(k) = start {
                let part = s.subrange(k, i + 1);
                assert(crate::text::occurs_at(s, part, k));
                let list = seq![part] + rest;
                assert forall|j: int| 0 <= j < list.len() implies is_braced_part(
                    #[trigger] list[j],
                    s,
                ) by {
                    if j > 0 {
                        assert(list[j] == rest[j - 1]);
                    }
                }
            } else {
                assert(Seq::<Seq<char>>::empty() + rest =~= rest);
            }
        } else if !at.in_string && s[i] == '{' && at.depth == 0 {
            lemma_objects_are_braced(s, i + 1, next, Some(i));
        } else {
            lemma_objects_are_braced(s, i + 1, next, start);
        }
    }
}

/// What is saved of a record that was cut off stands in it as it is, and each
/// piece runs from an opening to a closing brace.
pub proof fn law_saved_objects_are_whole(s: Seq<char>)
    ensures
        all_braced_parts(complete_objects(s), s),
{
    lemma_objects_are_braced(s, 0, fresh_scan(), None);
}

/// The latest record is one of the files, a JSON file, and no JSON file comes
/// after it by name.
pub proof fn law_latest_is_last(names: Seq<Seq<char>>)
    requires
        latest_name(names) is Some,
    ensures
        is_json_name(latest_name(names)->Some_0),
        names.contains(latest_name(names)->Some_0),
        forall|i: int|
            0 <= i < names.len() && is_json_name(#[trigger] names[i]) ==> names[i]
                == latest_name(names)->Some_0 || text_le(names[i], latest_name(names)->Some_0),
{
    broadcast use vstd::seq_lib::group_to_multiset_ensures;

    let kept = json_names(names, 0);
    let sorted = sorted_texts(kept);
    law_sorting_orders_and_keeps(kept);
    lemma_json_names(names, 0);
    let last = sorted.last();
    assert(sorted.contains(last));
    assert(kept.to_multiset().count(last) > 0);
    assert(kept.contains(last));
    let at = choose|i: int| 0 <= i < kept.len() && kept[i] == last;
    assert(is_json_name(kept[at]) && names.contains(kept[at]));
    assert forall|i: int| 0 <= i < names.len() && is_json_name(#[trigger] names[i]) implies names[i]
        == last || text_le(names[i], last) by {
        assert(kept.contains(names[i]));
        assert(sorted.to_multiset().count(names[i]) > 0);
        assert(sorted.contains(names[i]));
        let j = choose|j: int| 0 <= j < sorted.len() && sorted[j] == names[i];
        if j < sorted.len() - 1 {
            assert(text_le(sorted[j], sorted[sorted.len() - 1]));
        }
    }
}

proof fn lemma_json_names(names: Seq<Seq<char>>, k: int)
    requires
        0 <= k <= names.len(),
    ensures
        forall|i: int|
            0 <= i < json_names(names, k).len() ==> is_json_name(#[trigger] json_names(names, k)[i])
                && names.contains(json_names(names, k)[i]),
        forall|i: int|
            k <= i < names.len() && is_json_name(#[trigger] names[i]) ==> json_names(
                names,
                k,
            ).contains(names[i]),
    decreases names.len() - k,
{
    if k < names.len() {
        lemma_json_names(names, k + 1);
        let rest = json_names(names, k + 1);
        let all = json_names(names, k);
        if is_json_name(names[k]) {
            assert(all =~= seq![names[k]] + rest);
            assert forall|i: int| 0 <= i < all.len() implies is_json_name(#[trigger] all[i])
                && names.contains(all[i]) by {
                if i > 0 {
                    assert(all[i] == rest[i - 1]);
                }
            }
            assert forall|i: int| k <= i < names.len() && is_json_name(#[trigger] names[i]) implies all.contains(
                names[i],
            ) by {
                if i == k {
                    assert(all[0] == names[k]);
                } else {
                    let j = choose|j: int| 0 <= j < rest.len() && rest[j] == names[i];
                    assert(all[j + 1] == names[i]);
                }
            }
        }
    }
}

} // verus!
