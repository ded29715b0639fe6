//! What a prompt asks for: talk, work in the workspace, or a question back.
use vstd::prelude::*;

use crate::paths::{is_inside, normal_path, normalize_path, path_text, resolve_path, resolved_path, PathView};
use crate::text::{char_count, chars_of, contains_char, ends_with, join, push_item, same_text, split_whitespace, starts_with, text_between, trim};
use crate::text::{has_prefix, has_suffix, joined, lemma_texts_empty, opt_text, texts, trimmed, words};

verus! {

#[derive(Debug, Clone, Copy, PartialEq, Eq, Structural)]
pub enum Intent {
    Chat,
    Task,
    Clarify,
}

/// The Unicode lower-case form that `str::to_lowercase` gives a text.
pub uninterp spec fn unicode_lower(s: Seq<char>) -> Seq<char>;

/// `str::to_lowercase`: the result is a function of the text alone.
#[verifier::external_body]
pub(crate) fn lowercase(s: &str) -> (r: String)
    ensures
        r@ == unicode_lower(s@),
{
    s.to_lowercase()
}

// ---------------------------------------------------------------------------
// Normalised prompts
// ---------------------------------------------------------------------------

/// ASCII punctuation.
pub open spec fn is_punctuation(c: char) -> bool {
    let n = c as u32;
    33 <= n <= 47 || 58 <= n <= 64 || 91 <= n <= 96 || 123 <= n <= 126
}

pub open spec fn without_punctuation(s: Seq<char>) -> Seq<char> {
    Seq::new(
        s.len(),
        |i: int|
            if is_punctuation(s[i]) {
                ' '
            } else {
                s[i]
            },
    )
}

/// The words of a lower-cased prompt without punctuation, one space apart.
pub open spec fn squeezed(lowered: Seq<char>) -> Seq<char> {
    joined(words(without_punctuation(lowered)), " "@)
}

/// The normal form of a prompt.
pub open spec fn normal_prompt(prompt: Seq<char>) -> Seq<char> {
    squeezed(unicode_lower(trimmed(prompt)))
}

/// The normal form, given the lower-cased prompt.
pub fn squeeze_prompt(lowered: &str) -> (r: String)
    ensures
        r@ == squeezed(lowered@),
{
    let v = chars_of(lowered);
    let mut out = String::new();
    let mut i: usize = 0;
    while i < v.len()
        invariant
            i <= v.len(),
            v@ == lowered@,
            out@.len() == i,
            forall|j: int| 0 <= j < i ==> out@[j] == without_punctuation(v@)[j],
        decreases v.len() - i,
    {
        let n: u32 = v[i] as u32;
        let punctuation = (33 <= n && n <= 47) || (58 <= n && n <= 64) || (91 <= n && n <= 96) || (
        123 <= n && n <= 126);
        out.push(if punctuation { ' ' } else { v[i] });
        i += 1;
    }
    assert(out@ =~= without_punctuation(lowered@));
    join(&split_whitespace(out.as_str()), " ")
}

pub fn normalize_prompt(prompt: &str) -> (r: String)
    ensures
        r@ == normal_prompt(prompt@),
{
    squeeze_prompt(lowercase(trim(prompt).as_str()).as_str())
}

pub open spec fn is_open_question(p: Seq<char>) -> bool {
    ||| has_prefix(p, "what "@)
    ||| has_prefix(p, "why "@)
    ||| has_prefix(p, "how "@)
    ||| has_prefix(p, "should we "@)
    ||| has_prefix(p, "does this make sense"@)
    ||| has_prefix(p, "can you explain"@)
    ||| has_prefix(p, "help me understand"@)
    ||| has_prefix(p, "explain "@)
}

fn is_chat_prompt(prompt: &str) -> (r: bool)
    ensures
        r == is_open_question(prompt@),
{
    starts_with(prompt, "what ") || starts_with(prompt, "why ") || starts_with(prompt, "how ")
        || starts_with(prompt, "should we ") || starts_with(prompt, "does this make sense")
        || starts_with(prompt, "can you explain") || starts_with(prompt, "help me understand")
        || starts_with(prompt, "explain ")
}

pub open spec fn is_vague(p: Seq<char>) -> bool {
    p == "can you look at this"@ || p == "can you look at this please"@
}

fn is_clarify_prompt(prompt: &str) -> (r: bool)
    ensures
        r == is_vague(prompt@),
{
    same_text(prompt, "can you look at this") || same_text(prompt, "can you look at this please")
}

pub open spec fn is_task_verb(w: Seq<char>) -> bool {
    ||| w == "fix"@
    ||| w == "add"@
    ||| w == "remove"@
    ||| w == "update"@
    ||| w == "implement"@
    ||| w == "run"@
    ||| w == "commit"@
    ||| w == "push"@
    ||| w == "audit"@
    ||| w == "refactor"@
    ||| w == "create"@
    ||| w == "delete"@
    ||| w == "rename"@
    ||| w == "test"@
    ||| w == "build"@
}

fn task_verb(w: &str) -> (r: bool)
    ensures
        r == is_task_verb(w@),
{
    same_text(w, "fix") || same_text(w, "add") || same_text(w, "remove") || same_text(w, "update")
        || same_text(w, "implement") || same_text(w, "run") || same_text(w, "commit") || same_text(
        w,
        "push",
    ) || same_text(w, "audit") || same_text(w, "refactor") || same_text(w, "create") || same_text(
        w,
        "delete",
    ) || same_text(w, "rename") || same_text(w, "test") || same_text(w, "build")
}

/// Words that agree to a task that was just talked about.
pub open spec fn is_go_ahead(p: Seq<char>) -> bool {
    ||| has_prefix(p, "lets do it"@)
    ||| has_prefix(p, "let s do it"@)
    ||| has_prefix(p, "go ahead"@)
    ||| has_prefix(p, "make that change"@)
    ||| has_prefix(p, "apply the patch"@)
    ||| has_prefix(p, "ship it"@)
}

/// The first word of a text, or nothing.
pub open spec fn first_word(p: Seq<char>) -> Seq<char> {
    if words(p).len() == 0 {
        Seq::empty()
    } else {
        words(p)[0]
    }
}

pub open spec fn is_task(p: Seq<char>, recent: bool) -> bool {
    is_task_verb(first_word(p)) || (recent && is_go_ahead(p))
}

fn is_task_prompt(prompt: &str, has_recent_task_context: bool) -> (r: bool)
    ensures
        r == is_task(prompt@, has_recent_task_context),
{
    let list = split_whitespace(prompt);
    assert(texts(list@).len() == list.len());
    let verb = if list.len() > 0 {
        assert(list@[0]@ == texts(list@)[0]);
        task_verb(list[0].as_str())
    } else {
        proof {
            reveal_strlit("");
            assert(""@ =~= Seq::<char>::empty());
        }
        task_verb("")
    };
    verb || (has_recent_task_context && (starts_with(prompt, "lets do it") || starts_with(
        prompt,
        "let s do it",
    ) || starts_with(prompt, "go ahead") || starts_with(prompt, "make that change") || starts_with(
        prompt,
        "apply the patch",
    ) || starts_with(prompt, "ship it")))
}

// ---------------------------------------------------------------------------
// Paths in prompts
// ---------------------------------------------------------------------------

/// A mark that may stand round a path in a sentence.
pub open spec fn is_wrapping(c: char) -> bool {
    c == '"' || c == '\'' || c == '`' || c == ',' || c == ':' || c == ';' || c == '?' || c == '!'
        || c == '(' || c == ')' || c == '[' || c == ']' || c == '{' || c == '}'
}

fn wrapping(c: char) -> (r: bool)
    ensures
        r == is_wrapping(c),
{
    c == '"' || c == '\'' || c == '`' || c == ',' || c == ':' || c == ';' || c == '?' || c == '!'
        || c == '(' || c == ')' || c == '[' || c == ']' || c == '{' || c == '}'
}

pub open spec fn unwrapped_start(s: Seq<char>, i: int) -> int
    decreases s.len() - i,
{
    if 0 <= i < s.len() && is_wrapping(s[i]) {
        unwrapped_start(s, i + 1)
    } else {
        i
    }
}

pub open spec fn unwrapped_end(s: Seq<char>, from: int, n: int) -> int
    decreases n,
{
    if 0 < n <= s.len() && from < n && is_wrapping(s[n - 1]) {
        unwrapped_end(s, from, n - 1)
    } else {
        n
    }
}

/// The word without the marks round it.
pub open spec fn unwrapped(s: Seq<char>) -> Seq<char> {
    let a = unwrapped_start(s, 0);
    s.subrange(a, unwrapped_end(s, a, s.len() as int))
}

/// The word without the full stop that ends a sentence.
pub open spec fn without_full_stop(s: Seq<char>) -> Seq<char> {
    if s.len() > 0 && s.last() == '.' && !(s.len() >= 2 && s[s.len() - 2] == '.') {
        s.drop_last()
    } else {
        s
    }
}

/// A word as it may name a file.
pub open spec fn clean_word(s: Seq<char>) -> Seq<char> {
    without_full_stop(unwrapped(s))
}

fn clean_prompt_token(token: &str) -> (r: String)
    ensures
        r@ == clean_word(token@),
{
    let v = chars_of(token);
    let mut a: usize = 0;
    while a < v.len() && wrapping(v[a])
        invariant
            a <= v.len(),
            unwrapped_start(v@, 0) == unwrapped_start(v@, a as int),
        decreases v.len() - a,
    {
        a += 1;
    }
    let mut b: usize = v.len();
    while b > a && wrapping(v[b - 1])
        invariant
            a <= b <= v.len(),
            unwrapped_end(v@, a as int, v.len() as int) == unwrapped_end(v@, a as int, b as int),
        decreases b,
    {
        b -= 1;
    }
    let ghost inner = v@.subrange(a as int, b as int);
    if b > a && v[b - 1] == '.' && !(b - a >= 2 && v[b - 2] == '.') {
        assert(v@.subrange(a as int, b - 1) =~= inner.drop_last());
        text_between(&v, a, b - 1)
    } else {
        text_between(&v, a, b)
    }
}

/// A word that looks like a path.
pub open spec fn is_path_like(s: Seq<char>) -> bool {
    ||| s.contains('/')
    ||| s == "README.md"@
    ||| s == "Cargo.toml"@
    ||| s == "Cargo.lock"@
    ||| s == "package.json"@
    ||| s == "tsconfig.json"@
    ||| has_suffix(s, ".rs"@)
    ||| has_suffix(s, ".py"@)
    ||| has_suffix(s, ".md"@)
    ||| has_suffix(s, ".toml"@)
    ||| has_suffix(s, ".json"@)
}

fn is_path_like_token(token: &str) -> (r: bool)
    ensures
        r == is_path_like(token@),
{
    contains_char(token, '/') || same_text(token, "README.md") || same_text(token, "Cargo.toml")
        || same_text(token, "Cargo.lock") || same_text(token, "package.json") || same_text(
        token,
        "tsconfig.json",
    ) || ends_with(token, ".rs") || ends_with(token, ".py") || ends_with(token, ".md")
        || ends_with(token, ".toml") || ends_with(token, ".json")
}

/// The clean words of a text, without empty ones, among the first `n` words.
pub open spec fn clean_words_upto(ws: Seq<Seq<char>>, n: int) -> Seq<Seq<char>>
    decreases n,
{
    if n <= 0 || n > ws.len() {
        Seq::empty()
    } else if clean_word(ws[n - 1]).len() == 0 {
        clean_words_upto(ws, n - 1)
    } else {
        clean_words_upto(ws, n - 1).push(clean_word(ws[n - 1]))
    }
}

/// The words of a prompt that may name files.
pub open spec fn file_words(prompt: Seq<char>) -> Seq<Seq<char>> {
    clean_words_upto(words(prompt), words(prompt).len() as int)
}

/// The words of a prompt that may name files of the workspace.
pub fn file_candidates(prompt: &str) -> (r: Vec<String>)
    ensures
        texts(r@) == file_words(prompt@),
{
    broadcast use lemma_texts_empty;

    let list = split_whitespace(prompt);
    let ghost ws = words(prompt@);
    let mut out: Vec<String> = Vec::new();
    let mut i: usize = 0;
    while i < list.len()
        invariant
            i <= list.len(),
            ws == texts(list@),
            ws.len() == list.len(),
            texts(out@) == clean_words_upto(ws, i as int),
        decreases list.len() - i,
    {
        assert(list@[i as int]@ == ws[i as int]);
        let token = clean_prompt_token(list[i].as_str());
        if char_count(token.as_str()) > 0 {
            push_item(&mut out, token);
        }
        i += 1;
    }
    out
}

/// Some word looks like a path.
pub open spec fn names_path(ws: Seq<Seq<char>>) -> bool {
    exists|i: int| 0 <= i < ws.len() && is_path_like(#[trigger] ws[i])
}

fn any_path_like(list: &Vec<String>) -> (r: bool)
    ensures
        r == names_path(texts(list@)),
{
    let ghost ws = texts(list@);
    let mut i: usize = 0;
    while i < list.len()
        invariant
            i <= list.len(),
            ws == texts(list@),
            ws.len() == list.len(),
            forall|j: int| 0 <= j < i ==> !is_path_like(#[trigger] ws[j]),
        decreases list.len() - i,
    {
        assert(list@[i as int]@ == ws[i as int]);
        if is_path_like_token(list[i].as_str()) {
            return true;
        }
        i += 1;
    }
    false
}

/// What a prompt asks for, given its normal form `p`, whether a task was talked
/// about, whether there is a workspace, and whether a file is named.
pub open spec fn intent_of(p: Seq<char>, recent: bool, workspace: bool, file: bool) -> Intent {
    if p.len() == 0 {
        Intent::Chat
    } else if is_vague(p) {
        Intent::Clarify
    } else if is_open_question(p) {
        Intent::Chat
    } else if is_task(p, recent) || file {
        if workspace {
            Intent::Task
        } else {
            Intent::Clarify
        }
    } else {
        Intent::Chat
    }
}

/// What a prompt asks for, given its normal form.
pub fn classify_normalized(
    normalized: &str,
    prompt: &str,
    has_recent_task_context: bool,
    has_workspace: bool,
    names_existing_file: bool,
) -> (r: Intent)
    ensures
        r == intent_of(
            normalized@,
            has_recent_task_context,
            has_workspace,
            names_path(file_words(prompt@)) || names_existing_file,
        ),
{
    if char_count(normalized) == 0 {
        return Intent::Chat;
    }
    if is_clarify_prompt(normalized) {
        return Intent::Clarify;
    }
    if is_chat_prompt(normalized) {
        return Intent::Chat;
    }
    if is_task_prompt(normalized, has_recent_task_context) || any_path_like(
        &file_candidates(prompt),
    ) || names_existing_file {
        if !has_workspace {
            return Intent::Clarify;
        }
        return Intent::Task;
    }
    Intent::Chat
}

/// What a prompt asks for. `names_existing_file` says whether one of its
/// [`file_candidates`] is a file of the workspace.
pub fn classify_intent(
    prompt: &str,
    has_recent_task_context: bool,
    workspace_root: Option<&str>,
    names_existing_file: bool,
) -> (r: Intent)
    ensures
        r == intent_of(
            normal_prompt(prompt@),
            has_recent_task_context,
            workspace_root is Some,
            names_path(file_words(prompt@)) || names_existing_file,
        ),
{
    let normalized = normalize_prompt(prompt);
    classify_normalized(
        normalized.as_str(),
        prompt,
        has_recent_task_context,
        workspace_root.is_some(),
        names_existing_file,
    )
}

/// One of the waiting prompts is a task.
pub fn recent_task_context(queued: &Vec<String>) -> (r: bool)
    ensures
        r == exists|i: int|
            0 <= i < queued.len() && is_task(normal_prompt(#[trigger] queued@[i]@), false),
{
    let mut i: usize = 0;
    while i < queued.len()
        invariant
            i <= queued.len(),
            forall|j: int|
                0 <= j < i ==> !is_task(normal_prompt(#[trigger] queued@[j]@), false),
        decreases queued.len() - i,
    {
        let normalized = normalize_prompt(queued[i].as_str());
        if is_task_prompt(normalized.as_str(), false) {
            assert(is_task(normal_prompt(queued@[i as int]@), false));
            return true;
        }
        i += 1;
    }
    false
}

// ---------------------------------------------------------------------------
// The workspace boundary
// ---------------------------------------------------------------------------

/// The first path, from word `k` on, that leads out of the root.
pub open spec fn violation_from(ws: Seq<Seq<char>>, root: PathView, k: int) -> Option<PathView>
    decreases ws.len() - k,
{
    if k < 0 || k >= ws.len() {
        None
    } else if is_path_like(ws[k]) && !is_inside(resolved_path(root, ws[k]), root) {
        Some(resolved_path(root, ws[k]))
    } else {
        violation_from(ws, root, k + 1)
    }
}

/// The first path in a prompt that leads out of the root.
pub open spec fn boundary_violation(prompt: Seq<char>, root: Seq<char>) -> Option<PathView> {
    violation_from(file_words(prompt), normal_path(root), 0)
}

pub fn path_boundary_violation(prompt: &str, root: &str) -> (r: Option<String>)
    ensures
        opt_text(r) == match boundary_violation(prompt@, root@) {
            Some(p) => Some(path_text(p)),
            None => None,
        },
{
    let home = normalize_path(root);
    let list = file_candidates(prompt);
    let ghost ws = file_words(prompt@);
    let mut i: usize = 0;
    while i < list.len()
        invariant
            i <= list.len(),
            ws == texts(list@),
            ws.len() == list.len(),
            home@ == normal_path(root@),
            boundary_violation(prompt@, root@) == violation_from(ws, home@, i as int),
        decreases list.len() - i,
    {
        assert(list@[i as int]@ == ws[i as int]);
        let token = list[i].as_str();
        if is_path_like_token(token) {
            let resolved = resolve_path(&home, token);
            if !resolved.is_inside_of(&home) {
                return Some(resolved.to_text());
            }
        }
        i += 1;
    }
    None
}

proof fn lemma_violation_from(ws: Seq<Seq<char>>, root: PathView, k: int)
    requires
        0 <= k,
    ensures
        match violation_from(ws, root, k) {
            Some(p) => !is_inside(p, root),
            None => forall|i: int|
                k <= i < ws.len() && is_path_like(#[trigger] ws[i]) ==> is_inside(
                    resolved_path(root, ws[i]),
                    root,
                ),
        },
    decreases ws.len() - k,
{
    if k < ws.len() {
        lemma_violation_from(ws, root, k + 1);
    }
}

/// A prompt passes the boundary exactly when every path that it names lies
/// inside the root; what is reported otherwise lies outside.
pub proof fn law_boundary_is_complete(prompt: Seq<char>, root: Seq<char>)
    ensures
        match boundary_violation(prompt, root) {
            Some(p) => !is_inside(p, normal_path(root)),
            None => forall|i: int|
                0 <= i < file_words(prompt).len() && is_path_like(
                    #[trigger] file_words(prompt)[i],
                ) ==> is_inside(
                    resolved_path(normal_path(root), file_words(prompt)[i]),
                    normal_path(root),
                ),
        },
{
    lemma_violation_from(file_words(prompt), normal_path(root), 0);
}

/// Without a workspace no prompt is taken as a task.
pub proof fn law_no_task_without_workspace(p: Seq<char>, recent: bool, file: bool)
    ensures
        intent_of(p, recent, false, file) != Intent::Task,
{
}

} // verus!
