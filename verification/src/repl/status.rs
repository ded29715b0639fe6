//! What the status command says.
use vstd::prelude::*;

use crate::runtime::{RuntimeBackend, RuntimeState, RuntimeView};
use crate::session::{SessionState, SessionView};
use crate::text::{concat2, concat3, copy_text, decimal_text, push_text};
use crate::text::decimal;
use crate::ui::opt_session;
use crate::workspace::{opt_str_text, root_status, root_status_text};

verus! {

pub open spec fn backend_word(backend: RuntimeBackend) -> Seq<char> {
    match backend {
        RuntimeBackend::Provider => "Provider"@,
        RuntimeBackend::Debug => "Debug"@,
    }
}

/// The part of the status that both modes share.
pub open spec fn status_head(
    model: Seq<char>,
    path: Seq<char>,
    runtime: RuntimeView,
    session: Option<SessionView>,
) -> Seq<char> {
    let head = "DeepSeek Status\nsession-path: "@ + path + "\nbackend: "@ + backend_word(
        runtime.backend,
    ) + "\nruntime: "@ + runtime.runtime + "\n"@;
    match session {
        Some(state) => head + "session: "@ + state.name + "\nmodel: "@ + state.model + "\nturns: "@
            + decimal((state.messages.len() / 2) as nat) + "\nhealth: ok\n"@,
        None => head + "session: none\nmodel: "@ + model + "\nhealth: stateless\n"@,
    }
}

pub fn interactive_status(
    model: &str,
    path: &str,
    runtime: &RuntimeState,
    session: Option<&SessionState>,
) -> (r: String)
    ensures
        r@ == status_head(model@, path@, runtime@, opt_session(session)),
{
    let mut out = concat3("DeepSeek Status\nsession-path: ", path, "\nbackend: ");
    push_text(
        &mut out,
        match runtime.backend {
            RuntimeBackend::Provider => "Provider",
            RuntimeBackend::Debug => "Debug",
        },
    );
    push_text(&mut out, "\nruntime: ");
    push_text(&mut out, runtime.runtime.as_str());
    push_text(&mut out, "\n");
    match session {
        Some(state) => {
            push_text(&mut out, "session: ");
            push_text(&mut out, state.name.as_str());
            push_text(&mut out, "\nmodel: ");
            push_text(&mut out, state.model.as_str());
            push_text(&mut out, "\nturns: ");
            assert(state@.messages.len() == state.messages.len());
            push_text(&mut out, decimal_text((state.messages.len() / 2) as u64).as_str());
            push_text(&mut out, "\nhealth: ok\n");
        },
        None => {
            push_text(&mut out, "session: none\nmodel: ");
            push_text(&mut out, model);
            push_text(&mut out, "\nhealth: stateless\n");
        },
    }
    out
}

/// What the chat adds: its memory, the root, and where agents are allowed.
pub open spec fn chat_status(
    turns: nat,
    root: Option<Seq<char>>,
    explicit: bool,
    agent_root: Option<Seq<char>>,
) -> Seq<char> {
    "mode: chat\nchat-memory: process\nchat-turns: "@ + decimal(turns) + "\n"@ + root_status_text(
        root,
        explicit,
    ) + match agent_root {
        Some(allowed) => "agent-session: allowed\nagent-root: "@ + allowed + "\n"@,
        None => "agent-session: confirm-required\n"@,
    }
}

/// The status of the chat.
pub fn interactive_chat_status(
    head: &str,
    root: Option<&str>,
    explicit_root: bool,
    approved_agent_root: Option<&str>,
    memory_turns: usize,
) -> (r: String)
    ensures
        r@ == head@ + chat_status(
            memory_turns as nat,
            opt_str_text(root),
            explicit_root,
            opt_str_text(approved_agent_root),
        ),
{
    let mut out = concat3(
        "mode: chat\nchat-memory: process\nchat-turns: ",
        decimal_text(memory_turns as u64).as_str(),
        "\n",
    );
    push_text(&mut out, root_status(root, explicit_root).as_str());
    let agents = match approved_agent_root {
        Some(allowed) => concat3("agent-session: allowed\nagent-root: ", allowed, "\n"),
        None => copy_text("agent-session: confirm-required\n"),
    };
    push_text(&mut out, agents.as_str());
    concat2(head, out.as_str())
}

/// The status of agent mode.
pub fn interactive_agent_status(head: &str, root: &str) -> (r: String)
    ensures
        r@ == head@ + "mode: agent\nroot: "@ + root@ + "\n"@,
{
    let mut out = concat3(head, "mode: agent\nroot: ", root);
    push_text(&mut out, "\n");
    out
}

} // verus!
