//! The tools of the agent: what each call asks for, what it may do, and how its
//! result reads.
use vstd::prelude::*;

use crate::agent::decision::{ToolCall, ToolView};
use crate::agent::types::{approval_summary, argument_or, argument_text, gate_of, request_summary, ApprovalMode, MAX_TOOL_CHARS};
use crate::internet::{clamped_results, fetch_options, fetch_url_request, web_search_request, FetchOptions};
use crate::internet::{fetch_format_of, filled_member, or_default, unsigned_member, DEFAULT_FETCH_MAX_BYTES, DEFAULT_MAX_RESULTS, DEFAULT_TIMEOUT_MS};
use crate::json::{member, string_member, unsigned_of, Json, JsonView};
use crate::safety::{cap_text, capped};
use crate::text::{char_count, concat2, concat3, copy_text, find, find_in, join, chars_of, push_item, push_text, same_text, text_between, trim};
use crate::text::{find_from, joined, lemma_find_from, lemma_texts_empty, opt_text, texts, trimmed};
use crate::text_sort::{sort_texts, sorted_texts};
use crate::workspace::{opt_str_text, result_texts};

verus! {

pub const MAX_READ_BYTES: u64 = 65_536;

pub const MAX_LIST_ENTRIES: usize = 200;

pub const MAX_TREE_DEPTH: usize = 4;

/// What a call comes down to: work to do, leave to ask for, or an answer.
#[derive(Debug, PartialEq)]
pub enum ToolPlan {
    ListFiles { path: String },
    ReadFile { path: String },
    SearchFiles { path: String, query: String },
    InspectTree { path: String, depth: usize },
    WebSearch { query: String, max_results: usize },
    FetchUrl { url: String, options: FetchOptions },
    RunShell { command: String, cwd: String },
    ProposePatch { path: String, find: String, replace: String },
    AskUser { summary: String },
    Answer(String),
}

pub enum PlanView {
    ListFiles { path: Seq<char> },
    ReadFile { path: Seq<char> },
    SearchFiles { path: Seq<char>, query: Seq<char> },
    InspectTree { path: Seq<char>, depth: int },
    WebSearch { query: Seq<char>, max_results: int },
    FetchUrl { url: Seq<char>, options: FetchOptions },
    RunShell { command: Seq<char>, cwd: Seq<char> },
    ProposePatch { path: Seq<char>, find: Seq<char>, replace: Seq<char> },
    AskUser { summary: Seq<char> },
    Answer(Seq<char>),
}

impl View for ToolPlan {
    type V = PlanView;

    open spec fn view(&self) -> PlanView {
        match *self {
            ToolPlan::ListFiles { path } => PlanView::ListFiles { path: path@ },
            ToolPlan::ReadFile { path } => PlanView::ReadFile { path: path@ },
            ToolPlan::SearchFiles { path, query } => PlanView::SearchFiles {
                path: path@,
                query: query@,
            },
            ToolPlan::InspectTree { path, depth } => PlanView::InspectTree {
                path: path@,
                depth: depth as int,
            },
            ToolPlan::WebSearch { query, max_results } => PlanView::WebSearch {
                query: query@,
                max_results: max_results as int,
            },
            ToolPlan::FetchUrl { url, options } => PlanView::FetchUrl { url: url@, options },
            ToolPlan::RunShell { command, cwd } => PlanView::RunShell {
                command: command@,
                cwd: cwd@,
            },
            ToolPlan::ProposePatch { path, find, replace } => PlanView::ProposePatch {
                path: path@,
                find: find@,
                replace: replace@,
            },
            ToolPlan::AskUser { summary } => PlanView::AskUser { summary: summary@ },
            ToolPlan::Answer(text) => PlanView::Answer(text@),
        }
    }
}

/// An argument that must be a text and not empty.
pub open spec fn needed(arguments: JsonView, key: Seq<char>) -> Option<Seq<char>> {
    match string_member(arguments, key) {
        Some(s) => if s.len() > 0 {
            Some(s)
        } else {
            None
        },
        None => None,
    }
}

pub open spec fn missing(key: Seq<char>) -> PlanView {
    PlanView::Answer("error: missing non-empty `"@ + key + "`"@)
}

fn needed_argument(arguments: &Json, key: &str) -> (r: Option<String>)
    ensures
        opt_text(r) == needed(arguments@, key@),
{
    match arguments.get_str(key) {
        Some(s) => if char_count(s.as_str()) > 0 {
            Some(copy_text(s.as_str()))
        } else {
            None
        },
        None => None,
    }
}

fn missing_answer(key: &str) -> (r: ToolPlan)
    ensures
        r@ == missing(key@),
{
    ToolPlan::Answer(concat3("error: missing non-empty `", key, "`"))
}

/// How deep a tree is shown: two levels unless a depth is given, and four at
/// most.
pub open spec fn tree_depth(arguments: JsonView) -> int {
    let wanted: int = match member(arguments, "depth"@) {
        Some(value) => match unsigned_of(value) {
            Some(n) => n as int,
            None => 2,
        },
        None => 2,
    };
    if wanted < MAX_TREE_DEPTH {
        wanted
    } else {
        MAX_TREE_DEPTH as int
    }
}

fn depth_argument(arguments: &Json) -> (r: usize)
    ensures
        r == tree_depth(arguments@),
{
    let wanted: u64 = match arguments.get("depth") {
        Some(value) => match value.as_u64() {
            Some(n) => n,
            None => 2,
        },
        None => 2,
    };
    if wanted < MAX_TREE_DEPTH as u64 {
        wanted as usize
    } else {
        MAX_TREE_DEPTH
    }
}

/// What a gated call comes down to in each mode: only an approved one is done.
pub open spec fn gated(call: ToolView, mode: ApprovalMode, work: PlanView) -> PlanView {
    match mode {
        ApprovalMode::Approved => work,
        ApprovalMode::Interactive => PlanView::AskUser { summary: request_summary(call) },
        _ => PlanView::Answer("error: "@ + call.name + " denied by user"@),
    }
}

fn gated_plan(call: &ToolCall, mode: ApprovalMode, work: ToolPlan) -> (r: ToolPlan)
    ensures
        r@ == gated(call@, mode, work@),
{
    match mode {
        ApprovalMode::Approved => work,
        ApprovalMode::Interactive => ToolPlan::AskUser { summary: approval_summary(call) },
        _ => ToolPlan::Answer(concat3("error: ", call.name.as_str(), " denied by user")),
    }
}

pub open spec fn shell_plan(call: ToolView, mode: ApprovalMode) -> PlanView {
    match needed(call.arguments, "command"@) {
        None => missing("command"@),
        Some(command) => gated(
            call,
            mode,
            PlanView::RunShell { command, cwd: argument_or(call.arguments, "cwd"@, "."@) },
        ),
    }
}

pub open spec fn patch_plan(call: ToolView, mode: ApprovalMode) -> PlanView {
    let a = call.arguments;
    match needed(a, "path"@) {
        None => missing("path"@),
        Some(path) => match needed(a, "find"@) {
            None => missing("find"@),
            Some(find) => gated(
                call,
                mode,
                PlanView::ProposePatch {
                    path,
                    find,
                    replace: argument_or(a, "replace"@, Seq::empty()),
                },
            ),
        },
    }
}

pub open spec fn search_plan(arguments: JsonView) -> PlanView {
    match needed(arguments, "path"@) {
        None => missing("path"@),
        Some(path) => match needed(arguments, "query"@) {
            None => missing("query"@),
            Some(query) => PlanView::SearchFiles { path, query },
        },
    }
}

pub open spec fn web_search_plan(arguments: JsonView) -> PlanView {
    match filled_member(arguments, "query"@) {
        Some(query) => PlanView::WebSearch {
            query,
            max_results: match unsigned_member(arguments, "max_results"@) {
                Some(n) => clamped_results(n),
                None => DEFAULT_MAX_RESULTS as int,
            },
        },
        None => PlanView::Answer("error: missing non-empty `query`"@),
    }
}

pub open spec fn fetch_url_plan(arguments: JsonView) -> PlanView {
    match filled_member(arguments, "url"@) {
        None => PlanView::Answer("error: missing non-empty `url`"@),
        Some(url) => match fetch_format_of(string_member(arguments, "format"@)) {
            Err(e) => PlanView::Answer("error: "@ + e),
            Ok(format) => PlanView::FetchUrl {
                url,
                options: fetch_options(
                    format,
                    or_default(unsigned_member(arguments, "max_bytes"@), DEFAULT_FETCH_MAX_BYTES),
                    or_default(unsigned_member(arguments, "timeout_ms"@), DEFAULT_TIMEOUT_MS),
                ),
            },
        },
    }
}

/// What a call of a tool comes down to.
pub open spec fn tool_plan(call: ToolView, mode: ApprovalMode) -> PlanView {
    let a = call.arguments;
    if call.name == "list_files"@ {
        match needed(a, "path"@) {
            Some(path) => PlanView::ListFiles { path },
            None => missing("path"@),
        }
    } else if call.name == "read_file"@ {
        match needed(a, "path"@) {
            Some(path) => PlanView::ReadFile { path },
            None => missing("path"@),
        }
    } else if call.name == "search_files"@ {
        search_plan(a)
    } else if call.name == "inspect_tree"@ {
        match needed(a, "path"@) {
            Some(path) => PlanView::InspectTree { path, depth: tree_depth(a) },
            None => missing("path"@),
        }
    } else if call.name == "web_search"@ {
        web_search_plan(a)
    } else if call.name == "fetch_url"@ {
        fetch_url_plan(a)
    } else if call.name == "run_shell"@ {
        shell_plan(call, mode)
    } else if call.name == "propose_patch"@ {
        patch_plan(call, mode)
    } else {
        PlanView::Answer("error: unknown agent tool `"@ + call.name + "`"@)
    }
}

fn plan_shell(call: &ToolCall, mode: ApprovalMode) -> (r: ToolPlan)
    ensures
        r@ == shell_plan(call@, mode),
{
    match needed_argument(&call.arguments, "command") {
        None => missing_answer("command"),
        Some(command) => {
            let cwd = argument_text(&call.arguments, "cwd", ".");
            gated_plan(call, mode, ToolPlan::RunShell { command, cwd })
        },
    }
}

fn plan_patch(call: &ToolCall, mode: ApprovalMode) -> (r: ToolPlan)
    ensures
        r@ == patch_plan(call@, mode),
{
    let a = &call.arguments;
    match needed_argument(a, "path") {
        None => missing_answer("path"),
        Some(path) => match needed_argument(a, "find") {
            None => missing_answer("find"),
            Some(wanted) => {
                let replace = match a.get_str("replace") {
                    Some(s) => copy_text(s.as_str()),
                    None => String::new(),
                };
                assert(replace@ =~= argument_or(a@, "replace"@, Seq::empty()));
                gated_plan(call, mode, ToolPlan::ProposePatch { path, find: wanted, replace })
            },
        },
    }
}

fn plan_search(arguments: &Json) -> (r: ToolPlan)
    ensures
        r@ == search_plan(arguments@),
{
    match needed_argument(arguments, "path") {
        None => missing_answer("path"),
        Some(path) => match needed_argument(arguments, "query") {
            None => missing_answer("query"),
            Some(query) => ToolPlan::SearchFiles { path, query },
        },
    }
}

/// What a call of a tool comes down to.
pub fn plan_tool(call: &ToolCall, mode: ApprovalMode) -> (r: ToolPlan)
    ensures
        r@ == tool_plan(call@, mode),
{
    let name = call.name.as_str();
    let a = &call.arguments;
    if same_text(name, "list_files") {
        match needed_argument(a, "path") {
            Some(path) => ToolPlan::ListFiles { path },
            None => missing_answer("path"),
        }
    } else if same_text(name, "read_file") {
        match needed_argument(a, "path") {
            Some(path) => ToolPlan::ReadFile { path },
            None => missing_answer("path"),
        }
    } else if same_text(name, "search_files") {
        plan_search(a)
    } else if same_text(name, "inspect_tree") {
        match needed_argument(a, "path") {
            Some(path) => ToolPlan::InspectTree { path, depth: depth_argument(a) },
            None => missing_answer("path"),
        }
    } else if same_text(name, "web_search") {
        match web_search_request(a) {
            Ok(request) => ToolPlan::WebSearch {
                query: request.query,
                max_results: request.max_results,
            },
            Err(text) => ToolPlan::Answer(text),
        }
    } else if same_text(name, "fetch_url") {
        match fetch_url_request(a) {
            Ok(request) => ToolPlan::FetchUrl { url: request.url, options: request.options },
            Err(text) => ToolPlan::Answer(text),
        }
    } else if same_text(name, "run_shell") {
        plan_shell(call, mode)
    } else if same_text(name, "propose_patch") {
        plan_patch(call, mode)
    } else {
        ToolPlan::Answer(concat3("error: unknown agent tool `", name, "`"))
    }
}

/// The words that approve a tool at the terminal.
pub open spec fn approval_phrase(tool: Seq<char>) -> Seq<char> {
    if tool == "run_shell"@ {
        "yes run"@
    } else {
        "yes apply"@
    }
}

/// The mode after the user was asked at the terminal: only the exact words
/// approve, and where there is nobody to ask nothing is approved.
pub open spec fn answered_mode(tool: Seq<char>, line: Option<Seq<char>>) -> ApprovalMode {
    match line {
        Some(text) => if trimmed(text) == approval_phrase(tool) {
            ApprovalMode::Approved
        } else {
            ApprovalMode::Deny
        },
        None => ApprovalMode::Deny,
    }
}

pub fn typed_approval(tool: &str, line: Option<&str>) -> (r: ApprovalMode)
    ensures
        r == answered_mode(tool@, opt_str_text(line)),
{
    let line = match line {
        Some(text) => text,
        None => return ApprovalMode::Deny,
    };
    let phrase = if same_text(tool, "run_shell") {
        "yes run"
    } else {
        "yes apply"
    };
    if same_text(trim(line).as_str(), phrase) {
        ApprovalMode::Approved
    } else {
        ApprovalMode::Deny
    }
}

// ---------------------------------------------------------------------------
// Results
// ---------------------------------------------------------------------------

#[derive(Debug, Clone, Copy, PartialEq, Eq, Structural)]
pub enum FileKind {
    Directory,
    File,
    Other,
    Unknown,
}

impl FileKind {
    pub open spec fn word(self) -> Seq<char> {
        match self {
            FileKind::Directory => "dir"@,
            FileKind::File => "file"@,
            FileKind::Other => "other"@,
            FileKind::Unknown => "unknown"@,
        }
    }
}

/// An entry of a directory as it is listed.
pub fn format_entry(kind: FileKind, shown: &str) -> (r: String)
    ensures
        r@ == kind.word() + "\t"@ + shown@,
{
    let word = match kind {
        FileKind::Directory => "dir",
        FileKind::File => "file",
        FileKind::Other => "other",
        FileKind::Unknown => "unknown",
    };
    concat3(word, "\t", shown)
}

/// A list as a tool answers with it, and what it says when there is nothing.
pub open spec fn list_answer(lines: Seq<Seq<char>>, nothing: Seq<char>) -> Seq<char> {
    if lines.len() == 0 {
        "ok: "@ + nothing
    } else {
        "ok:\n"@ + joined(lines, "\n"@)
    }
}

pub fn format_list(lines: &Vec<String>, nothing: &str) -> (r: String)
    ensures
        r@ == list_answer(texts(lines@), nothing@),
{
    assert(texts(lines@).len() == lines.len());
    if lines.len() == 0 {
        concat2("ok: ", nothing)
    } else {
        concat2("ok:\n", join(lines, "\n").as_str())
    }
}

/// Those of the first `n` entries that could be read.
pub open spec fn readable(found: Seq<Option<Seq<char>>>, n: int) -> Seq<Seq<char>>
    decreases n,
{
    if n <= 0 {
        Seq::empty()
    } else {
        match found[n - 1] {
            Some(path) => readable(found, n - 1).push(path),
            None => readable(found, n - 1),
        }
    }
}

pub open spec fn opt_texts(v: Seq<Option<String>>) -> Seq<Option<Seq<char>>> {
    Seq::new(v.len(), |i: int| opt_text(v[i]))
}

/// The entries of a directory that are listed: of the first two hundred, those
/// that could be read.
pub open spec fn listed(found: Seq<Option<Seq<char>>>) -> Seq<Seq<char>> {
    readable(
        found,
        if found.len() < MAX_LIST_ENTRIES {
            found.len() as int
        } else {
            MAX_LIST_ENTRIES as int
        },
    )
}

pub fn listed_entries(found: &Vec<Option<String>>) -> (r: Vec<String>)
    ensures
        texts(r@) == listed(opt_texts(found@)),
{
    broadcast use lemma_texts_empty;

    let n: usize = if found.len() < MAX_LIST_ENTRIES {
        found.len()
    } else {
        MAX_LIST_ENTRIES
    };
    let mut out: Vec<String> = Vec::new();
    let mut i: usize = 0;
    while i < n
        invariant
            i <= n <= found.len(),
            texts(out@) == readable(opt_texts(found@), i as int),
        decreases n - i,
    {
        assert(opt_texts(found@)[i as int] == opt_text(found@[i as int]));
        if let Some(path) = &found[i] {
            push_item(&mut out, copy_text(path.as_str()));
        }
        i += 1;
    }
    out
}

proof fn lemma_readable(found: Seq<Option<Seq<char>>>, n: int)
    requires
        0 <= n <= found.len(),
    ensures
        readable(found, n).len() <= n,
        forall|i: int|
            0 <= i < readable(found, n).len() ==> found.contains(
                Some(#[trigger] readable(found, n)[i]),
            ),
        (forall|i: int| 0 <= i < n ==> (#[trigger] found[i]) is Some) ==> {
            &&& readable(found, n).len() == n
            &&& forall|i: int| 0 <= i < n ==> #[trigger] readable(found, n)[i] == found[i]->Some_0
        },
    decreases n,
{
    if n > 0 {
        lemma_readable(found, n - 1);
        if let Some(path) = found[n - 1] {
            assert(found.contains(Some(path)));
        }
    }
}

/// No more than two hundred entries are listed, and only such as are there; of a
/// smaller directory that can be read, all are.
pub proof fn law_listing_is_capped(found: Seq<Option<Seq<char>>>)
    ensures
        listed(found).len() <= MAX_LIST_ENTRIES,
        forall|i: int|
            0 <= i < listed(found).len() ==> found.contains(Some(#[trigger] listed(found)[i])),
        found.len() <= MAX_LIST_ENTRIES && (forall|i: int|
            0 <= i < found.len() ==> (#[trigger] found[i]) is Some) ==> listed(found) == Seq::new(
            found.len(),
            |i: int| found[i]->Some_0,
        ),
{
    lemma_readable(
        found,
        if found.len() < MAX_LIST_ENTRIES {
            found.len() as int
        } else {
            MAX_LIST_ENTRIES as int
        },
    );
}

/// The answer to `list_files`: the entries in order.
pub fn list_files_answer(entries: &Vec<String>) -> (r: String)
    ensures
        r@ == list_answer(sorted_texts(texts(entries@)), "no entries"@),
{
    format_list(&sort_texts(entries), "no entries")
}

/// Why a file is not read, if it is not.
pub fn read_refusal(is_file: bool, size: u64) -> (r: Option<String>)
    ensures
        opt_text(r) == if !is_file {
            Some("error: path is not a file"@)
        } else if size > MAX_READ_BYTES {
            Some("error: file exceeds read cap of 65536 bytes"@)
        } else {
            None
        },
{
    if !is_file {
        Some(copy_text("error: path is not a file"))
    } else if size > MAX_READ_BYTES {
        Some(copy_text("error: file exceeds read cap of 65536 bytes"))
    } else {
        None
    }
}

/// The answer to `read_file`, given what reading came to.
pub fn read_file_answer(content: Result<String, String>) -> (r: String)
    ensures
        r@ == match result_texts(content) {
            Ok(text) => "ok:\n"@ + capped(text, MAX_TOOL_CHARS as int),
            Err(e) => "error: "@ + e,
        },
{
    match content {
        Ok(text) => concat2("ok:\n", cap_text(text.as_str(), MAX_TOOL_CHARS).as_str()),
        Err(e) => concat2("error: ", e.as_str()),
    }
}

// ---------------------------------------------------------------------------
// Patches
// ---------------------------------------------------------------------------

/// The content with the one occurrence of `find` replaced. None, and more than
/// one, is an error.
pub open spec fn patched(content: Seq<char>, find: Seq<char>, replace: Seq<char>) -> Result<
    Seq<char>,
    Seq<char>,
> {
    match find_from(content, find, 0) {
        None => Err("find text was not found"@),
        Some(i) => if find_from(content, find, i + 1) is Some {
            Err("find text is ambiguous"@)
        } else {
            Ok(content.take(i) + replace + content.skip(i + find.len()))
        },
    }
}

pub fn apply_patch(content: &str, wanted: &str, replace: &str) -> (r: Result<String, String>)
    ensures
        result_texts(r) == patched(content@, wanted@, replace@),
{
    let v = chars_of(content);
    let p = chars_of(wanted);
    match find_in(&v, &p, 0) {
        None => Err(copy_text("find text was not found")),
        Some(i) => {
            proof {
                lemma_find_from(content@, wanted@, 0);
            }
            let again = if i < v.len() {
                find_in(&v, &p, i + 1).is_some()
            } else {
                false
            };
            if again {
                return Err(copy_text("find text is ambiguous"));
            }
            let mut out = text_between(&v, 0, i);
            push_text(&mut out, replace);
            let rest = text_between(&v, i + p.len(), v.len());
            push_text(&mut out, rest.as_str());
            assert(content@.subrange(0, i as int) =~= content@.take(i as int));
            assert(content@.subrange(i + wanted@.len(), content@.len() as int) =~= content@.skip(
                i + wanted@.len(),
            ));
            Ok(out)
        },
    }
}

/// The new content of a file that read as `content` when the patch was made and
/// reads as `current` now.
pub open spec fn patched_in_place(
    content: Seq<char>,
    current: Seq<char>,
    find: Seq<char>,
    replace: Seq<char>,
) -> Result<Seq<char>, Seq<char>> {
    match patched(content, find, replace) {
        Err(e) => Err(e),
        Ok(next) => if current == content {
            Ok(next)
        } else {
            Err("file changed while the patch was prepared"@)
        },
    }
}

/// The new content of a file; one that changed meanwhile is left alone.
pub fn patch_unchanged(content: &str, current: &str, wanted: &str, replace: &str) -> (r: Result<
    String,
    String,
>)
    ensures
        result_texts(r) == patched_in_place(content@, current@, wanted@, replace@),
{
    match apply_patch(content, wanted, replace) {
        Err(e) => Err(e),
        Ok(next) => if same_text(current, content) {
            Ok(next)
        } else {
            Err(copy_text("file changed while the patch was prepared"))
        },
    }
}

/// What a patch answers, given how the file is shown.
pub fn patch_answer(shown: &str) -> (r: String)
    ensures
        r@ == "ok: patched "@ + shown@,
{
    concat2("ok: patched ", shown)
}

/// What a command answers that ran.
pub fn shell_answer(status: &str, stdout: &str, stderr: &str) -> (r: String)
    ensures
        r@ == "status: "@ + status@ + "\nstdout:\n"@ + stdout@ + "\nstderr:\n"@ + stderr@,
{
    let mut out = concat3("status: ", status, "\nstdout:\n");
    push_text(&mut out, stdout);
    push_text(&mut out, "\nstderr:\n");
    push_text(&mut out, stderr);
    out
}

// ---------------------------------------------------------------------------
// Laws
// ---------------------------------------------------------------------------

/// A command is run and a file changed only in an approved call.
pub proof fn law_gated_work_needs_approval(call: ToolView, mode: ApprovalMode)
    requires
        tool_plan(call, mode) is RunShell || tool_plan(call, mode) is ProposePatch,
    ensures
        mode is Approved,
        gate_of(call.name) is Some,
{
}

/// The tools that need no approval do the same in every mode.
pub proof fn law_open_tools_ignore_the_mode(call: ToolView, a: ApprovalMode, b: ApprovalMode)
    requires
        gate_of(call.name) is None,
    ensures
        tool_plan(call, a) == tool_plan(call, b),
{
}

/// A patch changes nothing outside the text that it replaces.
pub proof fn law_patch_is_local(content: Seq<char>, find: Seq<char>, replace: Seq<char>)
    requires
        patched(content, find, replace) is Ok,
    ensures
        exists|i: int| #![trigger content.take(i)]
            0 <= i && i + find.len() <= content.len() && content.subrange(i, i + find.len()) == find
                && patched(content, find, replace)->Ok_0 == content.take(i) + replace
                + content.skip(i + find.len()),
{
    lemma_find_from(content, find, 0);
    let i = find_from(content, find, 0)->Some_0;
    assert(content.take(i) == content.take(i));
}

} // verus!
