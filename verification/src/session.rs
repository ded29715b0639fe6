//! The active session: its messages, its model and its workspace roots.
use vstd::prelude::*;

use crate::paths::{is_absolute, is_absolute_path, join_path, path_join};
use crate::provider::{assistant_message, copy_messages, messages_view, plain_message, push_message, user_message, Message, MessageView};
use crate::safety::migrates;
use crate::text::{char_count, concat2, concat3, copy_text, push_item, push_text};
use crate::text::{lemma_texts_empty, opt_text, texts};
use crate::workspace::{opt_str_text, result_texts, unit_result};

verus! {

pub const MAX_MESSAGES: usize = 40;

pub const MAX_CHARS: usize = 40_000;

// ---------------------------------------------------------------------------
// History
// ---------------------------------------------------------------------------

/// The characters of all messages.
pub open spec fn total_content(m: Seq<MessageView>) -> nat
    decreases m.len(),
{
    if m.len() == 0 {
        0
    } else {
        total_content(m.drop_last()) + m.last().content.len()
    }
}

/// The messages, without the oldest turns, until they hold few enough
/// characters or only one turn is left.
pub open spec fn trimmed_history(m: Seq<MessageView>) -> Seq<MessageView>
    decreases m.len(),
{
    if total_content(m) > MAX_CHARS && m.len() > 2 {
        trimmed_history(m.skip(2))
    } else {
        m
    }
}

/// The newest messages, as many as are kept.
pub open spec fn newest(m: Seq<MessageView>) -> Seq<MessageView> {
    if m.len() > MAX_MESSAGES {
        m.skip(m.len() - MAX_MESSAGES)
    } else {
        m
    }
}

/// The history as it is kept.
pub open spec fn capped_history(m: Seq<MessageView>) -> Seq<MessageView> {
    trimmed_history(newest(m))
}

/// The history after one more turn.
pub open spec fn history_with_turn(
    m: Seq<MessageView>,
    user: Seq<char>,
    assistant: Seq<char>,
) -> Seq<MessageView> {
    capped_history(
        m.push(plain_message("user"@, user)).push(plain_message("assistant"@, assistant)),
    )
}

fn total_chars(messages: &Vec<Message>) -> (r: u128)
    requires
        messages.len() <= MAX_MESSAGES,
    ensures
        r == total_content(messages_view(messages@)),
{
    let ghost view = messages_view(messages@);
    let mut total: u128 = 0;
    let mut i: usize = 0;
    while i < messages.len()
        invariant
            i <= messages.len() <= MAX_MESSAGES,
            view == messages_view(messages@),
            total == total_content(view.take(i as int)),
            total <= i * (usize::MAX as int),
        decreases messages.len() - i,
    {
        let n = char_count(messages[i].content.as_str());
        assert(view.take(i + 1).drop_last() =~= view.take(i as int));
        assert(view[i as int] == messages@[i as int]@);
        assert((i + 1) * (usize::MAX as int) == i * (usize::MAX as int) + usize::MAX)
            by (nonlinear_arith);
        assert(i * (usize::MAX as int) <= 40 * (usize::MAX as int)) by (nonlinear_arith)
            requires
                i <= 40,
        ;
        total = total + n as u128;
        i += 1;
    }
    assert(view.take(i as int) =~= view);
    total
}

/// The history as it is kept.
pub fn cap_messages(messages: Vec<Message>) -> (r: Vec<Message>)
    ensures
        messages_view(r@) == capped_history(messages_view(messages@)),
{
    let ghost want = capped_history(messages_view(messages@));
    assert(messages_view(messages@).len() == messages.len());
    let mut kept = if messages.len() > MAX_MESSAGES {
        let from: usize = messages.len() - MAX_MESSAGES;
        let r = copy_messages(&messages, from, messages.len());
        assert(messages_view(r@) =~= newest(messages_view(messages@)));
        r
    } else {
        messages
    };
    while kept.len() > 2 && total_chars(&kept) > MAX_CHARS as u128
        invariant
            kept.len() <= MAX_MESSAGES,
            want == trimmed_history(messages_view(kept@)),
        decreases kept.len(),
    {
        let ghost before = messages_view(kept@);
        assert(before.len() == kept.len());
        let shorter = copy_messages(&kept, 2, kept.len());
        assert(messages_view(shorter@) =~= before.skip(2));
        kept = shorter;
    }
    assert(messages_view(kept@).len() == kept.len());
    kept
}

proof fn lemma_trimmed_is_suffix(m: Seq<MessageView>)
    ensures
        trimmed_history(m).len() <= m.len(),
        trimmed_history(m) == m.skip(m.len() - trimmed_history(m).len()),
        m.len() >= 2 ==> trimmed_history(m).len() >= 1,
        m.len() % 2 == 0 ==> trimmed_history(m).len() % 2 == 0,
        total_content(trimmed_history(m)) <= MAX_CHARS || trimmed_history(m).len() <= 2,
    decreases m.len(),
{
    if total_content(m) > MAX_CHARS && m.len() > 2 {
        lemma_trimmed_is_suffix(m.skip(2));
        let t = trimmed_history(m);
        assert(m.skip(2).skip(m.skip(2).len() - t.len()) =~= m.skip(m.len() - t.len()));
    } else {
        assert(m.skip(0) =~= m);
    }
}

/// What is kept of a history are its newest messages: at most forty, and at
/// most forty thousand characters unless only the last turn is left.
pub proof fn law_kept_history_is_bounded(m: Seq<MessageView>)
    ensures
        capped_history(m).len() <= MAX_MESSAGES,
        total_content(capped_history(m)) <= MAX_CHARS || capped_history(m).len() <= 2,
        capped_history(m).len() <= m.len(),
        capped_history(m) == m.skip(m.len() - capped_history(m).len()),
{
    lemma_trimmed_is_suffix(newest(m));
    let t = capped_history(m);
    assert(newest(m).skip(newest(m).len() - t.len()) =~= m.skip(m.len() - t.len()));
}

/// The newest turn is always kept, in a history of whole turns.
pub proof fn law_newest_turn_is_kept(m: Seq<MessageView>, user: Seq<char>, assistant: Seq<char>)
    requires
        m.len() % 2 == 0,
    ensures
        ({
            let after = history_with_turn(m, user, assistant);
            &&& after.len() >= 2
            &&& after.len() % 2 == 0
            &&& after[after.len() - 2] == plain_message("user"@, user)
            &&& after[after.len() - 1] == plain_message("assistant"@, assistant)
        }),
{
    let full = m.push(plain_message("user"@, user)).push(plain_message("assistant"@, assistant));
    law_kept_history_is_bounded(full);
    lemma_trimmed_is_suffix(newest(full));
}

/// Capping a history that was capped changes nothing.
pub proof fn law_capping_twice_changes_nothing(m: Seq<MessageView>)
    ensures
        capped_history(capped_history(m)) == capped_history(m),
{
    law_kept_history_is_bounded(m);
}

// ---------------------------------------------------------------------------
// Roots
// ---------------------------------------------------------------------------

/// A directory that is kept across sessions.
#[derive(Debug, PartialEq, Eq)]
pub struct PersistedRoot {
    pub root: String,
}

/// The root to keep for a path, given what became of making it canonical and
/// whether that is a directory.
pub open spec fn kept_root(
    path: Seq<char>,
    canonical: Result<Seq<char>, Seq<char>>,
    is_dir: bool,
) -> Result<Seq<char>, Seq<char>> {
    if !is_absolute_path(path) {
        Err("session root is not absolute: "@ + path)
    } else {
        match canonical {
            Err(err) => Err("failed to canonicalize session root "@ + path + ": "@ + err),
            Ok(root) => if is_dir {
                Ok(root)
            } else {
                Err("session root is not a directory: "@ + root)
            },
        }
    }
}

pub open spec fn root_result(r: Result<PersistedRoot, String>) -> Result<Seq<char>, Seq<char>> {
    match r {
        Ok(root) => Ok(root.root@),
        Err(e) => Err(e@),
    }
}

pub open spec fn opt_root(o: Option<PersistedRoot>) -> Option<Seq<char>> {
    match o {
        Some(r) => Some(r.root@),
        None => None,
    }
}

impl PersistedRoot {
    pub fn from_path(path: &str, canonical: Result<String, String>, is_dir: bool) -> (r: Result<
        PersistedRoot,
        String,
    >)
        ensures
            root_result(r) == kept_root(path@, result_texts(canonical), is_dir),
    {
        if !is_absolute(path) {
            return Err(concat2("session root is not absolute: ", path));
        }
        match canonical {
            Err(err) => {
                let mut out = concat3("failed to canonicalize session root ", path, ": ");
                push_text(&mut out, err.as_str());
                Err(out)
            },
            Ok(root) => {
                if is_dir {
                    Ok(PersistedRoot { root })
                } else {
                    Err(concat2("session root is not a directory: ", root.as_str()))
                }
            },
        }
    }

    pub fn path(&self) -> (r: String)
        ensures
            r@ == self.root@,
    {
        copy_text(self.root.as_str())
    }
}

/// The root that a saved session gets back: one that cannot be kept any more is
/// dropped with a warning.
pub fn restore_root(path: Option<String>, canonical: Result<String, String>, is_dir: bool) -> (r: (
    Option<PersistedRoot>,
    Option<String>,
))
    ensures
        (opt_root(r.0), opt_text(r.1)) == match path {
            None => (None::<Seq<char>>, None::<Seq<char>>),
            Some(p) => match kept_root(p@, result_texts(canonical), is_dir) {
                Ok(root) => (Some(root), None),
                Err(err) => (None, Some("warning: dropping invalid persisted root: "@ + err)),
            },
        },
{
    match path {
        None => (None, None),
        Some(p) => match PersistedRoot::from_path(p.as_str(), canonical, is_dir) {
            Ok(root) => (Some(root), None),
            Err(err) => (
                None,
                Some(concat2("warning: dropping invalid persisted root: ", err.as_str())),
            ),
        },
    }
}

// ---------------------------------------------------------------------------
// Sessions
// ---------------------------------------------------------------------------

#[derive(Debug)]
pub struct SessionState {
    pub provider: String,
    pub name: String,
    pub model: String,
    pub updated_at: u64,
    pub messages: Vec<Message>,
    pub selected_root: Option<PersistedRoot>,
    pub agent_root: Option<PersistedRoot>,
}

#[verifier::ext_equal]
pub struct SessionView {
    pub provider: Seq<char>,
    pub name: Seq<char>,
    pub model: Seq<char>,
    pub updated_at: u64,
    pub messages: Seq<MessageView>,
    pub selected_root: Option<Seq<char>>,
    pub agent_root: Option<Seq<char>>,
}

impl View for SessionState {
    type V = SessionView;

    open spec fn view(&self) -> SessionView {
        SessionView {
            provider: self.provider@,
            name: self.name@,
            model: self.model@,
            updated_at: self.updated_at,
            messages: messages_view(self.messages@),
            selected_root: opt_root(self.selected_root),
            agent_root: opt_root(self.agent_root),
        }
    }
}

impl SessionState {
    /// A session without messages; `now` is the time in seconds.
    pub fn new(provider: &str, name: &str, model: &str, now: u64) -> (r: SessionState)
        ensures
            r@ == (SessionView {
                provider: provider@,
                name: name@,
                model: model@,
                updated_at: now,
                messages: Seq::empty(),
                selected_root: None,
                agent_root: None,
            }),
    {
        let r = SessionState {
            provider: copy_text(provider),
            name: copy_text(name),
            model: copy_text(model),
            updated_at: now,
            messages: Vec::new(),
            selected_root: None,
            agent_root: None,
        };
        assert(r@.messages =~= Seq::<MessageView>::empty());
        r
    }

    /// Adds a turn, and drops the oldest ones that are too many.
    pub fn push_turn(&mut self, user: &str, assistant: &str, now: u64)
        ensures
            final(self)@ == (SessionView {
                messages: history_with_turn(old(self)@.messages, user@, assistant@),
                updated_at: now,
                ..old(self)@
            }),
    {
        let mut messages = copy_messages(&self.messages, 0, self.messages.len());
        assert(messages_view(messages@) =~= messages_view(self.messages@));
        push_message(&mut messages, user_message(user));
        push_message(&mut messages, assistant_message(assistant));
        self.messages = cap_messages(messages);
        self.updated_at = now;
    }

    /// Allows agents in a root; fails, and changes nothing, where the root
    /// cannot be kept.
    pub fn approve_agent_root(
        &mut self,
        path: &str,
        canonical: Result<String, String>,
        is_dir: bool,
        now: u64,
    ) -> (r: Result<(), String>)
        ensures
            match kept_root(path@, result_texts(canonical), is_dir) {
                Ok(root) => r is Ok && final(self)@ == (SessionView {
                    agent_root: Some(root),
                    updated_at: now,
                    ..old(self)@
                }),
                Err(err) => unit_result(r) == Err::<(), Seq<char>>(err) && final(self)@ == old(
                    self,
                )@,
            },
    {
        match PersistedRoot::from_path(path, canonical, is_dir) {
            Ok(root) => {
                self.agent_root = Some(root);
                self.updated_at = now;
                Ok(())
            },
            Err(err) => Err(err),
        }
    }

    pub fn clear_agent_root(&mut self, now: u64)
        ensures
            final(self)@ == (SessionView { agent_root: None, updated_at: now, ..old(self)@ }),
    {
        self.agent_root = None;
        self.updated_at = now;
    }

    /// Chooses a root; fails, and changes nothing, where the root cannot be kept.
    pub fn select_root(
        &mut self,
        path: &str,
        canonical: Result<String, String>,
        is_dir: bool,
        now: u64,
    ) -> (r: Result<(), String>)
        ensures
            match kept_root(path@, result_texts(canonical), is_dir) {
                Ok(root) => r is Ok && final(self)@ == (SessionView {
                    selected_root: Some(root),
                    updated_at: now,
                    ..old(self)@
                }),
                Err(err) => unit_result(r) == Err::<(), Seq<char>>(err) && final(self)@ == old(
                    self,
                )@,
            },
    {
        match PersistedRoot::from_path(path, canonical, is_dir) {
            Ok(root) => {
                self.selected_root = Some(root);
                self.updated_at = now;
                Ok(())
            },
            Err(err) => Err(err),
        }
    }

    pub fn clear_selected_root(&mut self, now: u64)
        ensures
            final(self)@ == (SessionView { selected_root: None, updated_at: now, ..old(self)@ }),
    {
        self.selected_root = None;
        self.updated_at = now;
    }

    /// Forgets the messages and keeps the rest.
    pub fn clear_messages(&mut self, now: u64)
        ensures
            final(self)@ == (SessionView {
                messages: Seq::empty(),
                updated_at: now,
                ..old(self)@
            }),
    {
        self.messages = Vec::new();
        self.updated_at = now;
        assert(messages_view(self.messages@) =~= Seq::<MessageView>::empty());
    }

    pub fn selected_root_path(&self) -> (r: Option<String>)
        ensures
            opt_text(r) == self@.selected_root,
    {
        match &self.selected_root {
            Some(root) => Some(root.path()),
            None => None,
        }
    }

    pub fn agent_root_path(&self) -> (r: Option<String>)
        ensures
            opt_text(r) == self@.agent_root,
    {
        match &self.agent_root {
            Some(root) => Some(root.path()),
            None => None,
        }
    }
}

/// Where a state file lives: below the home directory, or in a folder of the
/// current directory where there is none.
pub open spec fn state_path(
    home: Option<Seq<char>>,
    dir: Seq<char>,
    fallback_dir: Seq<char>,
    file: Seq<char>,
) -> Seq<char> {
    match home {
        Some(h) => path_join(path_join(path_join(h, ".local/state/provider-cli"@), dir), file),
        None => path_join(fallback_dir, file),
    }
}

pub fn state_path_for(
    home: Option<&str>,
    provider_dir: &str,
    fallback_dir: &str,
    file: &str,
) -> (r: String)
    ensures
        r@ == state_path(opt_str_text(home), provider_dir@, fallback_dir@, file@),
{
    match home {
        Some(h) => {
            let base = join_path(h, ".local/state/provider-cli");
            let dir = join_path(base.as_str(), provider_dir);
            join_path(dir.as_str(), file)
        },
        None => join_path(fallback_dir, file),
    }
}

/// Where the session is kept.
pub open spec fn session_file(home: Option<Seq<char>>) -> Seq<char> {
    state_path(
        home,
        crate::provider::PROVIDER_DIR@,
        crate::provider::PROVIDER_STATE_DIR@,
        "active-session.json"@,
    )
}

/// Where the session used to be kept.
pub open spec fn old_session_file(home: Option<Seq<char>>) -> Seq<char> {
    state_path(
        home,
        crate::provider::OLD_PROVIDER_DIR@,
        crate::provider::OLD_PROVIDER_STATE_DIR@,
        "active-session.json"@,
    )
}

pub fn session_path(home: Option<&str>) -> (r: String)
    ensures
        r@ == session_file(opt_str_text(home)),
{
    state_path_for(
        home,
        crate::provider::PROVIDER_DIR,
        crate::provider::PROVIDER_STATE_DIR,
        "active-session.json",
    )
}

pub fn old_session_path(home: Option<&str>) -> (r: String)
    ensures
        r@ == old_session_file(opt_str_text(home)),
{
    state_path_for(
        home,
        crate::provider::OLD_PROVIDER_DIR,
        crate::provider::OLD_PROVIDER_STATE_DIR,
        "active-session.json",
    )
}

/// The files that go when a session ends: it is deleted where it is kept, and
/// where it used to be, so that it cannot come back from there.
pub open spec fn ended_files(
    home: Option<Seq<char>>,
    new_exists: bool,
    old_exists: bool,
) -> Seq<Seq<char>> {
    (if new_exists {
        seq![session_file(home)]
    } else {
        Seq::empty()
    }) + (if old_exists {
        seq![old_session_file(home)]
    } else {
        Seq::empty()
    })
}

/// The files to delete when a session ends; there was no session where there
/// are none.
pub fn files_of_ended_session(home: Option<&str>, new_exists: bool, old_exists: bool) -> (r: Vec<
    String,
>)
    ensures
        texts(r@) == ended_files(opt_str_text(home), new_exists, old_exists),
{
    broadcast use lemma_texts_empty;

    let mut out: Vec<String> = Vec::new();
    if new_exists {
        push_item(&mut out, session_path(home));
    }
    if old_exists {
        push_item(&mut out, old_session_path(home));
    }
    assert(texts(out@) =~= ended_files(opt_str_text(home), new_exists, old_exists));
    out
}

/// Ending a session leaves nothing of it: no file is left at either place, so
/// none is taken over from the old one later. Nothing is deleted where there
/// was no session.
pub proof fn law_ended_session_is_gone(
    home: Option<Seq<char>>,
    new_exists: bool,
    old_exists: bool,
)
    ensures
        ({
            let gone = ended_files(home, new_exists, old_exists);
            let new_left = new_exists && !gone.contains(session_file(home));
            let old_left = old_exists && !gone.contains(old_session_file(home));
            &&& !new_left && !old_left
            &&& !migrates(new_left, old_left)
            &&& gone.len() == 0 <==> !new_exists && !old_exists
            &&& forall|i: int|
                0 <= i < gone.len() ==> #[trigger] gone[i] == session_file(home) || gone[i]
                    == old_session_file(home)
        }),
{
    let gone = ended_files(home, new_exists, old_exists);
    if new_exists {
        assert(gone[0] == session_file(home));
    }
    if old_exists {
        assert(gone.last() == old_session_file(home));
    }
}

} // verus!
