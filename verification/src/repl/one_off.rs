//! A single prompt from the command line: what it sends, what it answers and
//! what it leaves behind.
use vstd::prelude::*;

use crate::provider::{messages_view, opt_message, Message, MessageView};
use crate::repl::memory::{messages_for, prompt_messages};
use crate::runtime::{debug_response, debug_text, RuntimeBackend};
use crate::session::{history_with_turn, SessionState, SessionView};
use crate::text::opt_text;
use crate::workspace::result_texts;

verus! {

/// A prompt under way: who answers, and the session that it belongs to.
#[derive(Debug)]
pub struct PromptRun {
    pub backend: RuntimeBackend,
    pub session: Option<SessionState>,
}

#[verifier::ext_equal]
pub struct PromptView {
    pub backend: RuntimeBackend,
    pub session: Option<SessionView>,
}

pub open spec fn opt_session(o: Option<SessionState>) -> Option<SessionView> {
    match o {
        Some(state) => Some(state@),
        None => None,
    }
}

pub open spec fn session_result(r: Result<Option<SessionState>, String>) -> Result<
    Option<SessionView>,
    Seq<char>,
> {
    match r {
        Ok(o) => Ok(opt_session(o)),
        Err(e) => Err(e@),
    }
}

/// The prompt as it starts, given what reading the session came to. A prompt
/// without a session does not look at that.
pub open spec fn prompt_started(
    no_session: bool,
    backend: RuntimeBackend,
    loaded: Result<Option<SessionView>, Seq<char>>,
) -> Result<PromptView, Seq<char>> {
    if no_session {
        Ok(PromptView { backend, session: None })
    } else {
        match loaded {
            Ok(session) => Ok(PromptView { backend, session }),
            Err(e) => Err(e),
        }
    }
}

pub open spec fn prompt_result(r: Result<PromptRun, String>) -> Result<PromptView, Seq<char>> {
    match r {
        Ok(run) => Ok(run@),
        Err(e) => Err(e@),
    }
}

/// What was said before the prompt.
pub open spec fn prior_messages(session: Option<SessionView>) -> Seq<MessageView> {
    match session {
        Some(state) => state.messages,
        None => Seq::empty(),
    }
}

/// The session to save when the prompt was answered, or failed.
pub open spec fn session_to_save(
    session: Option<SessionView>,
    prompt: Seq<char>,
    answer: Result<Seq<char>, Seq<char>>,
    now: u64,
) -> Option<SessionView> {
    match (session, answer) {
        (Some(state), Ok(text)) => Some(
            SessionView {
                messages: history_with_turn(state.messages, prompt, text),
                updated_at: now,
                ..state
            },
        ),
        _ => None,
    }
}

/// Whether the session is read for a prompt.
pub fn uses_session(no_session: bool) -> (r: bool)
    ensures
        r == !no_session,
{
    !no_session
}

impl View for PromptRun {
    type V = PromptView;

    open spec fn view(&self) -> PromptView {
        PromptView { backend: self.backend, session: opt_session(self.session) }
    }
}

impl PromptRun {
    pub fn start(
        no_session: bool,
        backend: RuntimeBackend,
        loaded: Result<Option<SessionState>, String>,
    ) -> (r: Result<PromptRun, String>)
        ensures
            prompt_result(r) == prompt_started(no_session, backend, session_result(loaded)),
    {
        if no_session {
            return Ok(PromptRun { backend, session: None });
        }
        match loaded {
            Ok(session) => Ok(PromptRun { backend, session }),
            Err(e) => Err(e),
        }
    }

    /// The answer of the local backend, where that one answers.
    pub fn local_answer(&self, prompt: &str, model: &str) -> (r: Option<String>)
        ensures
            opt_text(r) == match self@.backend {
                RuntimeBackend::Debug => Some(debug_text(prompt@, model@)),
                RuntimeBackend::Provider => None,
            },
    {
        match self.backend {
            RuntimeBackend::Debug => Some(debug_response(prompt, model)),
            RuntimeBackend::Provider => None,
        }
    }

    /// The messages to send, with context for the prompt where there is some.
    pub fn messages(&self, context: Option<Message>, prompt: &str) -> (r: Vec<Message>)
        ensures
            messages_view(r@) == messages_for(
                prior_messages(self@.session),
                opt_message(context),
                prompt@,
            ),
    {
        match &self.session {
            Some(state) => prompt_messages(&state.messages, context, prompt),
            None => {
                let nothing: Vec<Message> = Vec::new();
                assert(messages_view(nothing@) =~= Seq::<MessageView>::empty());
                prompt_messages(&nothing, context, prompt)
            },
        }
    }

    /// The session to save, if any, now that the prompt was answered or failed.
    pub fn finish(self, prompt: &str, answer: &Result<String, String>, now: u64) -> (r: Option<
        SessionState,
    >)
        ensures
            opt_session(r) == session_to_save(self@.session, prompt@, result_texts(*answer), now),
    {
        match self.session {
            Some(state) => match answer {
                Ok(text) => {
                    let mut state = state;
                    state.push_turn(prompt, text.as_str(), now);
                    Some(state)
                },
                Err(_) => None,
            },
            None => None,
        }
    }
}

// ---------------------------------------------------------------------------
// Laws
// ---------------------------------------------------------------------------

/// A prompt without a session starts whatever the session holds, even where it
/// cannot be read; it sends nothing of it, and saves nothing whether it is
/// answered or fails.
pub proof fn law_stateless_prompt_ignores_the_session(
    backend: RuntimeBackend,
    loaded: Result<Option<SessionView>, Seq<char>>,
    context: Option<MessageView>,
    prompt: Seq<char>,
    answer: Result<Seq<char>, Seq<char>>,
    now: u64,
)
    ensures
        ({
            let started = prompt_started(true, backend, loaded);
            &&& started is Ok
            &&& started->Ok_0.backend == backend
            &&& messages_for(prior_messages(started->Ok_0.session), context, prompt)
                == messages_for(Seq::empty(), context, prompt)
            &&& session_to_save(started->Ok_0.session, prompt, answer, now) is None
        }),
{
}

/// A prompt in a session sends what was said before; only once it is answered
/// is anything saved, and that is the session with this turn.
pub proof fn law_prompt_in_a_session_adds_its_turn(
    backend: RuntimeBackend,
    state: SessionView,
    context: Option<MessageView>,
    prompt: Seq<char>,
    answer: Result<Seq<char>, Seq<char>>,
    now: u64,
)
    ensures
        ({
            let started = prompt_started(false, backend, Ok(Some(state)));
            &&& started is Ok
            &&& state.messages.is_prefix_of(
                messages_for(prior_messages(started->Ok_0.session), context, prompt),
            )
            &&& match session_to_save(started->Ok_0.session, prompt, answer, now) {
                Some(saved) => {
                    &&& answer is Ok
                    &&& saved.messages == history_with_turn(state.messages, prompt, answer->Ok_0)
                    &&& saved.model == state.model
                    &&& saved.selected_root == state.selected_root
                    &&& saved.agent_root == state.agent_root
                },
                None => answer is Err,
            }
        }),
{
}

} // verus!
