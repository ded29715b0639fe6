//! What a conversation remembers, and what is sent along with a prompt.
use vstd::prelude::*;

use crate::provider::{assistant_message, copy_messages, messages_view, opt_message, plain_message, push_message, user_message, Message, MessageView};
use crate::session::{cap_messages, capped_history, history_with_turn};
use crate::text::{concat3, push_text};

verus! {

/// The messages that go with a prompt: what was said before, context for the
/// prompt where there is some, and the prompt.
pub open spec fn messages_for(
    prior: Seq<MessageView>,
    context: Option<MessageView>,
    prompt: Seq<char>,
) -> Seq<MessageView> {
    (match context {
        Some(m) => prior.push(m),
        None => prior,
    }).push(plain_message("user"@, prompt))
}

pub fn prompt_messages(prior: &Vec<Message>, context: Option<Message>, prompt: &str) -> (r: Vec<
    Message,
>)
    ensures
        messages_view(r@) == messages_for(messages_view(prior@), opt_message(context), prompt@),
{
    let mut out = copy_messages(prior, 0, prior.len());
    assert(messages_view(out@) =~= messages_view(prior@));
    if let Some(m) = context {
        push_message(&mut out, m);
    }
    push_message(&mut out, user_message(prompt));
    out
}

pub fn cap_interactive_memory(memory: &mut Vec<Message>)
    ensures
        messages_view(final(memory)@) == capped_history(messages_view(old(memory)@)),
{
    let mut all: Vec<Message> = Vec::new();
    std::mem::swap(&mut all, memory);
    *memory = cap_messages(all);
}

/// Remembers a turn; the oldest turns are forgotten where there are too many.
pub fn push_interactive_turn(memory: &mut Vec<Message>, prompt: &str, response: &str)
    ensures
        messages_view(final(memory)@) == history_with_turn(
            messages_view(old(memory)@),
            prompt@,
            response@,
        ),
{
    push_message(memory, user_message(prompt));
    push_message(memory, assistant_message(response));
    cap_interactive_memory(memory);
}

/// What the local backend answers to a task for the agent.
pub fn debug_agent_response(root: &str, model: &str, prompt: &str) -> (r: String)
    ensures
        r@ == "debug/manual agent backend root: "@ + root@ + "\nmodel: "@ + model@ + "\nprompt: "@
            + prompt@ + "\n"@,
{
    let mut out = concat3("debug/manual agent backend root: ", root, "\nmodel: ");
    push_text(&mut out, model);
    push_text(&mut out, "\nprompt: ");
    push_text(&mut out, prompt);
    push_text(&mut out, "\n");
    out
}

} // verus!
