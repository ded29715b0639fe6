//! Requests to audit a commit, and the evidence that goes with them.
use vstd::prelude::*;

use crate::safety::{cap_text, capped, redact_text, redacted};
use crate::text::{char_is_alnum, char_lower, chars_of, copy_text, push_item, push_text, same_text, split_whitespace};
use crate::text::{is_alnum, is_digit, lemma_texts_empty, lower_char, opt_text, texts, words};

verus! {

pub const MAX_GIT_OUTPUT_CHARS: usize = 16_000;

pub open spec fn normal_char(c: char) -> char {
    if is_alnum(c) || c == '_' || c == '-' {
        lower_char(c)
    } else {
        ' '
    }
}

/// A request in lower case, with all but words blanked out.
pub open spec fn normal_task(s: Seq<char>) -> Seq<char> {
    Seq::new(s.len(), |i: int| normal_char(s[i]))
}

pub fn normalize_task(task: &str) -> (r: String)
    ensures
        r@ == normal_task(task@),
{
    let v = chars_of(task);
    let mut out = String::new();
    let mut i: usize = 0;
    while i < v.len()
        invariant
            i <= v.len(),
            v@ == task@,
            out@.len() == i,
            forall|j: int| 0 <= j < i ==> out@[j] == normal_char(v@[j]),
        decreases v.len() - i,
    {
        let c = v[i];
        out.push(
            if char_is_alnum(c) || c == '_' || c == '-' {
                char_lower(c)
            } else {
                ' '
            },
        );
        i += 1;
    }
    assert(out@ =~= normal_task(task@));
    out
}

pub open spec fn is_hex(c: char) -> bool {
    is_digit(c) || 'a' <= c <= 'f' || 'A' <= c <= 'F'
}

pub open spec fn all_hex(s: Seq<char>) -> bool {
    forall|i: int| 0 <= i < s.len() ==> is_hex(#[trigger] s[i])
}

/// A word that names a commit: `head`, or 7 to 40 hexadecimal digits.
pub open spec fn names_commit(word: Seq<char>) -> bool {
    word == "head"@ || (7 <= word.len() <= 40 && all_hex(word))
}

pub fn is_commit_ref(word: &str) -> (r: bool)
    ensures
        r == names_commit(word@),
{
    if same_text(word, "head") {
        return true;
    }
    let v = chars_of(word);
    if v.len() < 7 || v.len() > 40 {
        return false;
    }
    let mut i: usize = 0;
    while i < v.len()
        invariant
            i <= v.len(),
            v@ == word@,
            7 <= v.len() <= 40,
            word@ != "head"@,
            forall|j: int| 0 <= j < i ==> is_hex(#[trigger] v@[j]),
        decreases v.len() - i,
    {
        let c = v[i];
        if !(('0' <= c && c <= '9') || ('a' <= c && c <= 'f') || ('A' <= c && c <= 'F')) {
            assert(!is_hex(word@[i as int]));
            return false;
        }
        i += 1;
    }
    true
}

/// The first word, from word `k` on, that names a commit.
pub open spec fn commit_word(ws: Seq<Seq<char>>, k: int) -> Option<Seq<char>>
    decreases ws.len() - k,
{
    if k < 0 || k >= ws.len() {
        None
    } else if names_commit(ws[k]) {
        Some(ws[k])
    } else {
        commit_word(ws, k + 1)
    }
}

/// The words `audit this commit` stand in a row at `k`.
pub open spec fn audit_phrase_at(ws: Seq<Seq<char>>, k: int) -> bool {
    0 <= k && k + 3 <= ws.len() && ws[k] == "audit"@ && ws[k + 1] == "this"@ && ws[k + 2]
        == "commit"@
}

/// The words ask for the audit of a commit.
pub open spec fn words_ask_audit(ws: Seq<Seq<char>>) -> bool {
    &&& ws.contains("audit"@)
    &&& ws.contains("commit"@)
    &&& commit_word(ws, 0) is Some || exists|k: int| audit_phrase_at(ws, k)
}

fn has_word(ws: &Vec<String>, word: &str) -> (r: bool)
    ensures
        r == texts(ws@).contains(word@),
{
    let ghost all = texts(ws@);
    let mut i: usize = 0;
    while i < ws.len()
        invariant
            i <= ws.len(),
            all == texts(ws@),
            forall|j: int| 0 <= j < i ==> #[trigger] all[j] != word@,
        decreases ws.len() - i,
    {
        assert(all[i as int] == ws@[i as int]@);
        if same_text(ws[i].as_str(), word) {
            assert(all.contains(word@));
            return true;
        }
        i += 1;
    }
    assert(all.len() == ws.len());
    false
}

fn find_commit_word(ws: &Vec<String>) -> (r: Option<String>)
    ensures
        opt_text(r) == commit_word(texts(ws@), 0),
{
    let ghost all = texts(ws@);
    let mut i: usize = 0;
    while i < ws.len()
        invariant
            i <= ws.len(),
            all == texts(ws@),
            all.len() == ws.len(),
            commit_word(all, 0) == commit_word(all, i as int),
        decreases ws.len() - i,
    {
        assert(all[i as int] == ws@[i as int]@);
        if is_commit_ref(ws[i].as_str()) {
            return Some(copy_text(ws[i].as_str()));
        }
        i += 1;
    }
    None
}

fn has_audit_phrase(ws: &Vec<String>) -> (r: bool)
    ensures
        r == (exists|k: int| audit_phrase_at(texts(ws@), k)),
{
    let ghost all = texts(ws@);
    let mut i: usize = 0;
    while i < ws.len() && ws.len() - i >= 3
        invariant
            i <= ws.len(),
            all == texts(ws@),
            all.len() == ws.len(),
            forall|k: int| 0 <= k < i ==> !audit_phrase_at(all, k),
        decreases ws.len() - i,
    {
        assert(all[i as int] == ws@[i as int]@);
        assert(all[i + 1] == ws@[i + 1]@);
        assert(all[i + 2] == ws@[i + 2]@);
        if same_text(ws[i].as_str(), "audit") && same_text(ws[i + 1].as_str(), "this")
            && same_text(ws[i + 2].as_str(), "commit") {
            assert(audit_phrase_at(all, i as int));
            return true;
        }
        i += 1;
    }
    false
}

/// A request to audit a commit that it names, or the one at hand.
pub fn is_commit_audit_prompt(prompt: &str) -> (r: bool)
    ensures
        r == words_ask_audit(words(normal_task(prompt@))),
{
    let normal = normalize_task(prompt);
    let ws = split_whitespace(normal.as_str());
    has_word(&ws, "audit") && has_word(&ws, "commit") && (find_commit_word(&ws).is_some()
        || has_audit_phrase(&ws))
}

/// The commit that a request asks to audit; the latest where it names none.
pub open spec fn audit_target(task: Seq<char>) -> Option<Seq<char>> {
    let ws = words(normal_task(task));
    if words_ask_audit(ws) {
        match commit_word(ws, 0) {
            Some(word) => if word == "head"@ {
                Some("HEAD"@)
            } else {
                Some(word)
            },
            None => Some("HEAD"@),
        }
    } else {
        None
    }
}

pub fn commit_audit_target(task: &str) -> (r: Option<String>)
    ensures
        opt_text(r) == audit_target(task@),
{
    if !is_commit_audit_prompt(task) {
        return None;
    }
    let normal = normalize_task(task);
    let ws = split_whitespace(normal.as_str());
    match find_commit_word(&ws) {
        Some(word) => if same_text(word.as_str(), "head") {
            Some(copy_text("HEAD"))
        } else {
            Some(word)
        },
        None => Some(copy_text("HEAD")),
    }
}

// ---------------------------------------------------------------------------
// Evidence
// ---------------------------------------------------------------------------

/// What a run of git came to.
#[derive(Debug)]
pub enum GitRun {
    Ran { status: String, stdout: String, stderr: String },
    Failed(String),
}

impl GitRun {
    pub open spec fn text(&self) -> Seq<char> {
        match *self {
            GitRun::Ran { status, stdout, stderr } => "status: "@ + status@ + "\nstdout:\n"@
                + stdout@ + "\nstderr:\n"@ + stderr@,
            GitRun::Failed(error) => "error: failed to run git: "@ + error@,
        }
    }

    pub fn to_text(&self) -> (r: String)
        ensures
            r@ == self.text(),
    {
        match self {
            GitRun::Ran { status, stdout, stderr } => {
                let mut out = copy_text("status: ");
                push_text(&mut out, status.as_str());
                push_text(&mut out, "\nstdout:\n");
                push_text(&mut out, stdout.as_str());
                push_text(&mut out, "\nstderr:\n");
                push_text(&mut out, stderr.as_str());
                out
            },
            GitRun::Failed(error) => {
                let mut out = copy_text("error: failed to run git: ");
                push_text(&mut out, error.as_str());
                out
            },
        }
    }
}

/// The arguments of the three runs of git that give the evidence.
pub open spec fn git_arguments(target: Seq<char>) -> Seq<Seq<Seq<char>>> {
    seq![
        seq!["status"@, "--short"@, "--branch"@],
        seq!["log"@, "--oneline"@, "-5"@],
        seq!["show"@, "--stat"@, "--patch"@, "--find-renames"@, target, "--"@],
    ]
}

/// The arguments of the run of git for one section of the evidence.
pub fn git_args(section: usize, target: &str) -> (r: Vec<String>)
    requires
        section < 3,
    ensures
        texts(r@) == git_arguments(target@)[section as int],
{
    broadcast use lemma_texts_empty;

    let mut out: Vec<String> = Vec::new();
    if section == 0 {
        push_item(&mut out, copy_text("status"));
        push_item(&mut out, copy_text("--short"));
        push_item(&mut out, copy_text("--branch"));
    } else if section == 1 {
        push_item(&mut out, copy_text("log"));
        push_item(&mut out, copy_text("--oneline"));
        push_item(&mut out, copy_text("-5"));
    } else {
        push_item(&mut out, copy_text("show"));
        push_item(&mut out, copy_text("--stat"));
        push_item(&mut out, copy_text("--patch"));
        push_item(&mut out, copy_text("--find-renames"));
        push_item(&mut out, copy_text(target));
        push_item(&mut out, copy_text("--"));
    }
    assert(texts(out@) =~= git_arguments(target@)[section as int]);
    out
}

pub open spec fn evidence_section(label: Seq<char>, output: Seq<char>) -> Seq<char> {
    "## "@ + label + "\n\n"@ + capped(redacted(output), MAX_GIT_OUTPUT_CHARS as int)
}

/// The evidence: what each run of git gave, capped and without secrets.
pub open spec fn evidence_text(status: Seq<char>, log: Seq<char>, show: Seq<char>) -> Seq<char> {
    evidence_section("git status --short --branch"@, status) + "\n\n"@ + evidence_section(
        "git log --oneline -5"@,
        log,
    ) + "\n\n"@ + evidence_section("git show --stat --patch --find-renames <target> --"@, show)
}

fn push_section(out: &mut String, label: &str, run: &GitRun)
    ensures
        final(out)@ == old(out)@ + evidence_section(label@, run.text()),
{
    push_text(out, "## ");
    push_text(out, label);
    push_text(out, "\n\n");
    let shown = cap_text(redact_text(run.to_text().as_str()).as_str(), MAX_GIT_OUTPUT_CHARS);
    push_text(out, shown.as_str());
    assert(out@ =~= old(out)@ + evidence_section(label@, run.text()));
}

pub fn collect_git_evidence(status: &GitRun, log: &GitRun, show: &GitRun) -> (r: String)
    ensures
        r@ == evidence_text(status.text(), log.text(), show.text()),
{
    let mut out = String::new();
    push_section(&mut out, "git status --short --branch", status);
    assert(out@ =~= evidence_section("git status --short --branch"@, status.text()));
    push_text(&mut out, "\n\n");
    push_section(&mut out, "git log --oneline -5", log);
    push_text(&mut out, "\n\n");
    push_section(&mut out, "git show --stat --patch --find-renames <target> --", show);
    out
}

/// The task that the agent gets: a request to audit a commit comes with its
/// evidence, any other as it is.
pub open spec fn prepared_task(task: Seq<char>, evidence: Seq<char>) -> Seq<char> {
    match audit_target(task) {
        Some(target) => "Original user request:\n"@ + task + "\n\nResolved commit target: "@ + target
            + "\n\nLocal git evidence collected before model review:\n"@ + evidence
            + "\n\nAudit instructions:\n- Audit only from the provided local evidence.\n- Do not ask the user to paste the diff unless evidence collection failed.\n- Lead with findings ordered by severity.\n- Cite concrete files, commit metadata, commands, or evidence snippets when available.\n- State a clear recommendation: ACCEPT, REVISE, or BLOCK."@,
        None => task,
    }
}

pub fn prepare_task(task: &str, evidence: &str) -> (r: String)
    ensures
        r@ == prepared_task(task@, evidence@),
{
    match commit_audit_target(task) {
        None => copy_text(task),
        Some(target) => {
            let mut out = copy_text("Original user request:\n");
            push_text(&mut out, task);
            push_text(&mut out, "\n\nResolved commit target: ");
            push_text(&mut out, target.as_str());
            push_text(&mut out, "\n\nLocal git evidence collected before model review:\n");
            push_text(&mut out, evidence);
            push_text(
                &mut out,
                "\n\nAudit instructions:\n- Audit only from the provided local evidence.\n- Do not ask the user to paste the diff unless evidence collection failed.\n- Lead with findings ordered by severity.\n- Cite concrete files, commit metadata, commands, or evidence snippets when available.\n- State a clear recommendation: ACCEPT, REVISE, or BLOCK.",
            );
            out
        },
    }
}

// ---------------------------------------------------------------------------
// Laws
// ---------------------------------------------------------------------------

/// The case of a request and its punctuation do not matter: a request in its
/// normal form asks for the same audit.
pub proof fn law_normal_form_asks_the_same(task: Seq<char>)
    ensures
        normal_task(normal_task(task)) == normal_task(task),
        audit_target(normal_task(task)) == audit_target(task),
{
    assert(normal_task(normal_task(task)) =~= normal_task(task));
}

/// An audit always has a target, and only a word of the request, or the latest
/// commit, can be it.
pub proof fn law_target_is_named(task: Seq<char>)
    requires
        audit_target(task) is Some,
    ensures
        audit_target(task)->Some_0 == "HEAD"@ || (names_commit(audit_target(task)->Some_0)
            && words(normal_task(task)).contains(audit_target(task)->Some_0)),
{
    lemma_commit_word_is_a_word(words(normal_task(task)), 0);
}

proof fn lemma_commit_word_is_a_word(ws: Seq<Seq<char>>, k: int)
    requires
        0 <= k,
    ensures
        match commit_word(ws, k) {
            Some(word) => names_commit(word) && ws.contains(word),
            None => true,
        },
    decreases ws.len() - k,
{
    if k < ws.len() && !names_commit(ws[k]) {
        lemma_commit_word_is_a_word(ws, k + 1);
    }
}

} // verus!
