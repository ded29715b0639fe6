//! The chat-completions provider: messages, requests and what its answers say.
use vstd::prelude::*;

use crate::cancel::CANCELLED;
use crate::json::{json_parsed, json_text, lemma_json_view, member, item, parse_json, parse_result, opt_ref, render_json, string_member, unsigned_of, Json, JsonError, JsonView, Member};
use crate::safety::{cap_text, capped, redact_text, redacted, DEFAULT_TEXT_CAP};
use crate::text::{char_count, chars_of, concat2, concat3, copy_text, decimal_text, ends_with, join, push_item, push_text, same_text, strip_prefix, trim};
use crate::text::{decimal, has_suffix, joined, lemma_texts_empty, opt_text, texts, trimmed, without_prefix};
use crate::workspace::result_texts;

verus! {

pub const PROVIDER: &'static str = "DeepSeek";

pub const APP_COMMAND: &'static str = "deepseek-arkey";

pub const PROVIDER_DIR: &'static str = "deepseek-arkey";

pub const OLD_PROVIDER_DIR: &'static str = "deepseek";

pub const PROVIDER_STATE_DIR: &'static str = ".deepseek-arkey";

pub const OLD_PROVIDER_STATE_DIR: &'static str = ".deepseek";

pub const ENV_KEY: &'static str = "DEEPSEEK_API_KEY";

pub const DEFAULT_MODEL: &'static str = "deepseek-v4-flash";

pub const DEFAULT_SESSION_NAME: &'static str = "default";

pub const SECOND_MODEL: &'static str = "deepseek-v4-pro";

pub const API_URL: &'static str = "https://api.deepseek.com/chat/completions";

pub const LOGIN_MAX_TOKENS: u32 = 128;

pub const API_KEY_SETUP_HELP: &'static str = "DeepSeek API key is not set.\n\nFor troubleshooting, you can share this message with an AI provider or support\nchat, but do not include any real API keys, tokens, or secrets.\n\nSet it for the current shell:\n  export DEEPSEEK_API_KEY=\"your_deepseek_api_key\"\n\nFor zsh persistence on this machine:\n  echo 'export DEEPSEEK_API_KEY=\"your_deepseek_api_key\"' >> ~/.zsh_secrets\n  source ~/.zshrc\n\nThe ~/.zshrc file sources ~/.zsh_secrets, so keep provider keys there instead\nof writing secrets directly into ~/.zshrc.\n\nThen verify:\n  deepseek-arkey login";

// ---------------------------------------------------------------------------
// Messages
// ---------------------------------------------------------------------------

#[derive(Debug)]
pub struct NativeFunctionCall {
    pub name: String,
    pub arguments: String,
}

#[derive(Debug)]
pub struct NativeToolCall {
    pub id: String,
    pub kind: String,
    pub function: NativeFunctionCall,
}

#[derive(Debug)]
pub struct Message {
    pub role: String,
    pub content: String,
    pub reasoning_content: Option<String>,
    pub tool_calls: Option<Vec<NativeToolCall>>,
    pub tool_call_id: Option<String>,
}

#[verifier::ext_equal]
pub struct CallView {
    pub id: Seq<char>,
    pub kind: Seq<char>,
    pub name: Seq<char>,
    pub arguments: Seq<char>,
}

#[verifier::ext_equal]
pub struct MessageView {
    pub role: Seq<char>,
    pub content: Seq<char>,
    pub reasoning: Option<Seq<char>>,
    pub calls: Option<Seq<CallView>>,
    pub call_id: Option<Seq<char>>,
}

impl View for NativeToolCall {
    type V = CallView;

    open spec fn view(&self) -> CallView {
        CallView {
            id: self.id@,
            kind: self.kind@,
            name: self.function.name@,
            arguments: self.function.arguments@,
        }
    }
}

impl NativeToolCall {
    pub fn copy(&self) -> (r: NativeToolCall)
        ensures
            r@ == self@,
    {
        NativeToolCall {
            id: copy_text(self.id.as_str()),
            kind: copy_text(self.kind.as_str()),
            function: NativeFunctionCall {
                name: copy_text(self.function.name.as_str()),
                arguments: copy_text(self.function.arguments.as_str()),
            },
        }
    }
}

pub open spec fn calls_view(v: Seq<NativeToolCall>) -> Seq<CallView> {
    Seq::new(v.len(), |i: int| v[i]@)
}

pub open spec fn opt_message(o: Option<Message>) -> Option<MessageView> {
    match o {
        Some(m) => Some(m@),
        None => None,
    }
}

pub open spec fn messages_view(v: Seq<Message>) -> Seq<MessageView> {
    Seq::new(v.len(), |i: int| v[i]@)
}

pub fn copy_opt_text(o: &Option<String>) -> (r: Option<String>)
    ensures
        opt_text(r) == opt_text(*o),
{
    match o {
        Some(s) => Some(copy_text(s.as_str())),
        None => None,
    }
}

pub fn copy_calls(v: &Vec<NativeToolCall>) -> (r: Vec<NativeToolCall>)
    ensures
        calls_view(r@) == calls_view(v@),
{
    let mut out: Vec<NativeToolCall> = Vec::new();
    let mut i: usize = 0;
    while i < v.len()
        invariant
            i <= v.len(),
            calls_view(out@) == calls_view(v@).take(i as int),
        decreases v.len() - i,
    {
        let one = v[i].copy();
        let ghost before = calls_view(out@);
        out.push(one);
        assert(calls_view(out@) =~= before.push(one@));
        i += 1;
        assert(calls_view(out@) =~= calls_view(v@).take(i as int));
    }
    assert(calls_view(out@) =~= calls_view(v@));
    out
}

impl View for Message {
    type V = MessageView;

    open spec fn view(&self) -> MessageView {
        MessageView {
            role: self.role@,
            content: self.content@,
            reasoning: opt_text(self.reasoning_content),
            calls: match self.tool_calls {
                Some(calls) => Some(calls_view(calls@)),
                None => None,
            },
            call_id: opt_text(self.tool_call_id),
        }
    }
}

impl Message {
    pub fn copy(&self) -> (r: Message)
        ensures
            r@ == self@,
    {
        Message {
            role: copy_text(self.role.as_str()),
            content: copy_text(self.content.as_str()),
            reasoning_content: copy_opt_text(&self.reasoning_content),
            tool_calls: match &self.tool_calls {
                Some(calls) => Some(copy_calls(calls)),
                None => None,
            },
            tool_call_id: copy_opt_text(&self.tool_call_id),
        }
    }
}

/// Copies of the messages from index `from` up to `to`.
pub fn copy_messages(v: &Vec<Message>, from: usize, to: usize) -> (r: Vec<Message>)
    requires
        from <= to <= v.len(),
    ensures
        messages_view(r@) == messages_view(v@).subrange(from as int, to as int),
        r.len() == to - from,
{
    let mut out: Vec<Message> = Vec::new();
    let mut i: usize = from;
    while i < to
        invariant
            from <= i <= to <= v.len(),
            out.len() == i - from,
            messages_view(out@) == messages_view(v@).subrange(from as int, i as int),
        decreases to - i,
    {
        let one = v[i].copy();
        let ghost before = messages_view(out@);
        out.push(one);
        assert(messages_view(out@) =~= before.push(one@));
        assert(one@ == messages_view(v@)[i as int]);
        i += 1;
        assert(messages_view(out@) =~= messages_view(v@).subrange(from as int, i as int));
    }
    out
}

/// Appends a message.
pub fn push_message(out: &mut Vec<Message>, one: Message)
    ensures
        messages_view(final(out)@) == messages_view(old(out)@).push(one@),
        final(out).len() == old(out).len() + 1,
{
    out.push(one);
    assert(messages_view(out@) =~= messages_view(old(out)@).push(one@));
}

/// A message that is only text.
pub open spec fn plain_message(role: Seq<char>, content: Seq<char>) -> MessageView {
    MessageView { role, content, reasoning: None, calls: None, call_id: None }
}

pub fn message(role: &str, content: &str) -> (r: Message)
    ensures
        r@ == plain_message(role@, content@),
{
    Message {
        role: copy_text(role),
        content: copy_text(content),
        reasoning_content: None,
        tool_calls: None,
        tool_call_id: None,
    }
}

pub fn system_message(content: &str) -> (r: Message)
    ensures
        r@ == plain_message("system"@, content@),
{
    message("system", content)
}

pub fn user_message(content: &str) -> (r: Message)
    ensures
        r@ == plain_message("user"@, content@),
{
    message("user", content)
}

pub fn assistant_message(content: &str) -> (r: Message)
    ensures
        r@ == plain_message("assistant"@, content@),
{
    message("assistant", content)
}

pub fn assistant_tool_calls_message(tool_calls: Vec<NativeToolCall>) -> (r: Message)
    ensures
        r@ == (MessageView {
            role: "assistant"@,
            content: Seq::empty(),
            reasoning: None,
            calls: Some(calls_view(tool_calls@)),
            call_id: None,
        }),
{
    assistant_tool_calls_message_with_reasoning(tool_calls, None)
}

pub fn assistant_tool_calls_message_with_reasoning(
    tool_calls: Vec<NativeToolCall>,
    reasoning_content: Option<String>,
) -> (r: Message)
    ensures
        r@ == (MessageView {
            role: "assistant"@,
            content: Seq::empty(),
            reasoning: opt_text(reasoning_content),
            calls: Some(calls_view(tool_calls@)),
            call_id: None,
        }),
{
    Message {
        role: copy_text("assistant"),
        content: String::new(),
        reasoning_content,
        tool_calls: Some(tool_calls),
        tool_call_id: None,
    }
}

pub fn tool_message(tool_call_id: &str, content: &str) -> (r: Message)
    ensures
        r@ == (MessageView {
            role: "tool"@,
            content: content@,
            reasoning: None,
            calls: None,
            call_id: Some(tool_call_id@),
        }),
{
    Message {
        role: copy_text("tool"),
        content: copy_text(content),
        reasoning_content: None,
        tool_calls: None,
        tool_call_id: Some(copy_text(tool_call_id)),
    }
}

// ---------------------------------------------------------------------------
// Requests
// ---------------------------------------------------------------------------

/// A tool that the model may call.
#[derive(Debug)]
pub struct ChatTool {
    pub kind: String,
    pub name: String,
    pub description: String,
    pub parameters: Json,
}

#[verifier::ext_equal]
pub struct ToolView {
    pub kind: Seq<char>,
    pub name: Seq<char>,
    pub description: Seq<char>,
    pub parameters: JsonView,
}

impl View for ChatTool {
    type V = ToolView;

    open spec fn view(&self) -> ToolView {
        ToolView {
            kind: self.kind@,
            name: self.name@,
            description: self.description@,
            parameters: self.parameters@,
        }
    }
}

pub open spec fn tools_view(v: Seq<ChatTool>) -> Seq<ToolView> {
    Seq::new(v.len(), |i: int| v[i]@)
}

/// A string as JSON text.
pub open spec fn json_str(s: Seq<char>) -> Seq<char> {
    json_text(JsonView::Str(s))
}

pub(crate) fn quote_json(s: &str) -> (r: String)
    ensures
        r@ == json_str(s@),
{
    render_json(&Json::Str(copy_text(s)))
}

/// A member of an object as JSON text, behind a comma.
pub open spec fn more_member(key: Seq<char>, value: Option<Seq<char>>) -> Seq<char> {
    match value {
        Some(v) => ",\""@ + key + "\":"@ + v,
        None => Seq::empty(),
    }
}

fn push_member(out: &mut String, key: &str, value: Option<String>)
    ensures
        final(out)@ == old(out)@ + more_member(key@, opt_text(value)),
{
    let ghost before = out@;
    if let Some(v) = value {
        push_text(out, ",\"");
        push_text(out, key);
        push_text(out, "\":");
        push_text(out, v.as_str());
        assert(out@ =~= before + more_member(key@, Some(v@)));
    } else {
        assert(out@ =~= before + Seq::<char>::empty());
    }
}

/// A call as JSON text.
pub open spec fn call_json(c: CallView) -> Seq<char> {
    "{\"id\":"@ + json_str(c.id) + ",\"type\":"@ + json_str(c.kind) + ",\"function\":{\"name\":"@
        + json_str(c.name) + ",\"arguments\":"@ + json_str(c.arguments) + "}}"@
}

fn call_to_json(c: &NativeToolCall) -> (r: String)
    ensures
        r@ == call_json(c@),
{
    let mut out = concat2("{\"id\":", quote_json(c.id.as_str()).as_str());
    push_text(&mut out, ",\"type\":");
    push_text(&mut out, quote_json(c.kind.as_str()).as_str());
    push_text(&mut out, ",\"function\":{\"name\":");
    push_text(&mut out, quote_json(c.function.name.as_str()).as_str());
    push_text(&mut out, ",\"arguments\":");
    push_text(&mut out, quote_json(c.function.arguments.as_str()).as_str());
    push_text(&mut out, "}}");
    out
}

pub open spec fn calls_json(calls: Seq<CallView>) -> Seq<char> {
    "["@ + joined(Seq::new(calls.len(), |i: int| call_json(calls[i])), ","@) + "]"@
}

fn calls_to_json(calls: &Vec<NativeToolCall>) -> (r: String)
    ensures
        r@ == calls_json(calls_view(calls@)),
{
    broadcast use lemma_texts_empty;

    let ghost view = calls_view(calls@);
    let ghost want = Seq::new(view.len(), |i: int| call_json(view[i]));
    let mut parts: Vec<String> = Vec::new();
    let mut i: usize = 0;
    while i < calls.len()
        invariant
            i <= calls.len(),
            view == calls_view(calls@),
            want == Seq::new(view.len(), |i: int| call_json(view[i])),
            texts(parts@) == want.take(i as int),
        decreases calls.len() - i,
    {
        let part = call_to_json(&calls[i]);
        assert(view[i as int] == calls@[i as int]@);
        assert(part@ == want[i as int]);
        push_item(&mut parts, part);
        i += 1;
        assert(texts(parts@) =~= want.take(i as int));
    }
    assert(texts(parts@) =~= want);
    concat3("[", join(&parts, ",").as_str(), "]")
}

/// A message as JSON text: an assistant message that only calls tools has no
/// content, and what is not there is left out.
pub open spec fn message_json(m: MessageView) -> Seq<char> {
    "{\"role\":"@ + json_str(m.role) + ",\"content\":"@ + (if m.role == "assistant"@
        && m.calls is Some && m.content.len() == 0 {
        "null"@
    } else {
        json_str(m.content)
    }) + more_member(
        "reasoning_content"@,
        match m.reasoning {
            Some(t) => Some(json_str(t)),
            None => None,
        },
    ) + more_member(
        "tool_calls"@,
        match m.calls {
            Some(c) => Some(calls_json(c)),
            None => None,
        },
    ) + more_member(
        "tool_call_id"@,
        match m.call_id {
            Some(t) => Some(json_str(t)),
            None => None,
        },
    ) + "}"@
}

fn quote_opt(o: &Option<String>) -> (r: Option<String>)
    ensures
        opt_text(r) == match opt_text(*o) {
            Some(t) => Some(json_str(t)),
            None => None,
        },
{
    match o {
        Some(t) => Some(quote_json(t.as_str())),
        None => None,
    }
}

pub fn message_to_json(m: &Message) -> (r: String)
    ensures
        r@ == message_json(m@),
{
    let mut out = concat3("{\"role\":", quote_json(m.role.as_str()).as_str(), ",\"content\":");
    if same_text(m.role.as_str(), "assistant") && m.tool_calls.is_some() && char_count(
        m.content.as_str(),
    ) == 0 {
        push_text(&mut out, "null");
    } else {
        push_text(&mut out, quote_json(m.content.as_str()).as_str());
    }
    push_member(&mut out, "reasoning_content", quote_opt(&m.reasoning_content));
    let calls = match &m.tool_calls {
        Some(c) => Some(calls_to_json(c)),
        None => None,
    };
    push_member(&mut out, "tool_calls", calls);
    push_member(&mut out, "tool_call_id", quote_opt(&m.tool_call_id));
    push_text(&mut out, "}");
    out
}

pub open spec fn messages_json(messages: Seq<MessageView>) -> Seq<char> {
    "["@ + joined(Seq::new(messages.len(), |i: int| message_json(messages[i])), ","@) + "]"@
}

pub fn messages_to_json(messages: &Vec<Message>) -> (r: String)
    ensures
        r@ == messages_json(messages_view(messages@)),
{
    broadcast use lemma_texts_empty;

    let ghost view = messages_view(messages@);
    let ghost want = Seq::new(view.len(), |i: int| message_json(view[i]));
    let mut parts: Vec<String> = Vec::new();
    let mut i: usize = 0;
    while i < messages.len()
        invariant
            i <= messages.len(),
            view == messages_view(messages@),
            want == Seq::new(view.len(), |i: int| message_json(view[i])),
            texts(parts@) == want.take(i as int),
        decreases messages.len() - i,
    {
        let part = message_to_json(&messages[i]);
        assert(view[i as int] == messages@[i as int]@);
        assert(part@ == want[i as int]);
        push_item(&mut parts, part);
        i += 1;
        assert(texts(parts@) =~= want.take(i as int));
    }
    assert(texts(parts@) =~= want);
    concat3("[", join(&parts, ",").as_str(), "]")
}

pub open spec fn tool_json(t: ToolView) -> Seq<char> {
    "{\"type\":"@ + json_str(t.kind) + ",\"function\":{\"name\":"@ + json_str(t.name)
        + ",\"description\":"@ + json_str(t.description) + ",\"parameters\":"@ + json_text(
        t.parameters,
    ) + "}}"@
}

fn tool_to_json(t: &ChatTool) -> (r: String)
    ensures
        r@ == tool_json(t@),
{
    let mut out = concat2("{\"type\":", quote_json(t.kind.as_str()).as_str());
    push_text(&mut out, ",\"function\":{\"name\":");
    push_text(&mut out, quote_json(t.name.as_str()).as_str());
    push_text(&mut out, ",\"description\":");
    push_text(&mut out, quote_json(t.description.as_str()).as_str());
    push_text(&mut out, ",\"parameters\":");
    push_text(&mut out, render_json(&t.parameters).as_str());
    push_text(&mut out, "}}");
    out
}

pub open spec fn tools_json(tools: Seq<ToolView>) -> Seq<char> {
    "["@ + joined(Seq::new(tools.len(), |i: int| tool_json(tools[i])), ","@) + "]"@
}

fn tools_to_json(tools: &Vec<ChatTool>) -> (r: String)
    ensures
        r@ == tools_json(tools_view(tools@)),
{
    broadcast use lemma_texts_empty;

    let ghost view = tools_view(tools@);
    let ghost want = Seq::new(view.len(), |i: int| tool_json(view[i]));
    let mut parts: Vec<String> = Vec::new();
    let mut i: usize = 0;
    while i < tools.len()
        invariant
            i <= tools.len(),
            view == tools_view(tools@),
            want == Seq::new(view.len(), |i: int| tool_json(view[i])),
            texts(parts@) == want.take(i as int),
        decreases tools.len() - i,
    {
        let part = tool_to_json(&tools[i]);
        assert(view[i as int] == tools@[i as int]@);
        assert(part@ == want[i as int]);
        push_item(&mut parts, part);
        i += 1;
        assert(texts(parts@) =~= want.take(i as int));
    }
    assert(texts(parts@) =~= want);
    concat3("[", join(&parts, ",").as_str(), "]")
}

/// How a request is made and how its answer is read.
#[derive(Clone, Copy, Debug, PartialEq, Eq, Structural)]
pub struct ChatOptions {
    pub max_tokens: Option<u32>,
    pub stream: bool,
    pub print_cache: bool,
    pub print_stream_trailing_newline: bool,
    pub decision_response: bool,
}

impl ChatOptions {
    /// A talk whose answer is printed.
    pub fn chat(max_tokens: Option<u32>, stream: bool) -> (r: ChatOptions)
        ensures
            r == (ChatOptions {
                max_tokens,
                stream,
                print_cache: true,
                print_stream_trailing_newline: true,
                decision_response: false,
            }),
    {
        ChatOptions {
            max_tokens,
            stream,
            print_cache: true,
            print_stream_trailing_newline: true,
            decision_response: false,
        }
    }

    /// A talk whose answer is handed on piece by piece.
    pub fn chat_with_delta(max_tokens: Option<u32>, stream: bool) -> (r: ChatOptions)
        ensures
            r == (ChatOptions {
                max_tokens,
                stream,
                print_cache: true,
                print_stream_trailing_newline: false,
                decision_response: false,
            }),
    {
        ChatOptions {
            max_tokens,
            stream,
            print_cache: true,
            print_stream_trailing_newline: false,
            decision_response: false,
        }
    }

    /// A talk that prints nothing.
    pub fn quiet(max_tokens: Option<u32>) -> (r: ChatOptions)
        ensures
            r == (ChatOptions {
                max_tokens,
                stream: false,
                print_cache: false,
                print_stream_trailing_newline: false,
                decision_response: false,
            }),
    {
        ChatOptions {
            max_tokens,
            stream: false,
            print_cache: false,
            print_stream_trailing_newline: false,
            decision_response: false,
        }
    }

    /// A step of an agent, whose answer is a decision.
    pub fn tools(max_tokens: Option<u32>, quiet: bool) -> (r: ChatOptions)
        ensures
            r == (ChatOptions {
                max_tokens,
                stream: false,
                print_cache: !quiet,
                print_stream_trailing_newline: false,
                decision_response: true,
            }),
    {
        ChatOptions {
            max_tokens,
            stream: false,
            print_cache: !quiet,
            print_stream_trailing_newline: false,
            decision_response: true,
        }
    }
}

pub open spec fn bool_json(b: bool) -> Seq<char> {
    if b {
        "true"@
    } else {
        "false"@
    }
}

/// The body of a request. `temperature` is the JSON text of that number.
pub open spec fn request_json(
    model: Seq<char>,
    messages: Seq<MessageView>,
    temperature: Option<Seq<char>>,
    max_tokens: Option<u32>,
    stream: bool,
    tools: Option<Seq<ToolView>>,
    tool_choice: Option<Seq<char>>,
) -> Seq<char> {
    "{\"model\":"@ + json_str(model) + ",\"messages\":"@ + messages_json(messages) + more_member(
        "temperature"@,
        temperature,
    ) + more_member(
        "max_tokens"@,
        match max_tokens {
            Some(n) => Some(decimal(n as nat)),
            None => None,
        },
    ) + ",\"stream\":"@ + bool_json(stream) + more_member(
        "tools"@,
        match tools {
            Some(t) => Some(tools_json(t)),
            None => None,
        },
    ) + more_member(
        "tool_choice"@,
        match tool_choice {
            Some(c) => Some(json_str(c)),
            None => None,
        },
    ) + "}"@
}

pub open spec fn opt_tools(tools: Option<&Vec<ChatTool>>) -> Option<Seq<ToolView>> {
    match tools {
        Some(t) => Some(tools_view(t@)),
        None => None,
    }
}

pub fn chat_request_body(
    model: &str,
    messages: &Vec<Message>,
    temperature: Option<String>,
    max_tokens: Option<u32>,
    stream: bool,
    tools: Option<&Vec<ChatTool>>,
    tool_choice: Option<&str>,
) -> (r: String)
    ensures
        r@ == request_json(
            model@,
            messages_view(messages@),
            opt_text(temperature),
            max_tokens,
            stream,
            opt_tools(tools),
            match tool_choice { Some(c) => Some(c@), None => None },
        ),
{
    let mut out = concat3("{\"model\":", quote_json(model).as_str(), ",\"messages\":");
    push_text(&mut out, messages_to_json(messages).as_str());
    push_member(&mut out, "temperature", temperature);
    let limit = match max_tokens {
        Some(n) => Some(decimal_text(n as u64)),
        None => None,
    };
    push_member(&mut out, "max_tokens", limit);
    push_text(&mut out, ",\"stream\":");
    push_text(&mut out, if stream { "true" } else { "false" });
    let offered = match tools {
        Some(t) => Some(tools_to_json(t)),
        None => None,
    };
    push_member(&mut out, "tools", offered);
    let choice = match tool_choice {
        Some(c) => Some(quote_json(c)),
        None => None,
    };
    push_member(&mut out, "tool_choice", choice);
    push_text(&mut out, "}");
    out
}

pub const LOGIN_PROMPT: &'static str = "Say exactly: OK";

/// The body of the request by which a key is tried out.
pub fn login_check(model: &str) -> (r: String)
    ensures
        r@ == request_json(
            model@,
            seq![plain_message("user"@, LOGIN_PROMPT@)],
            Some("0.0"@),
            Some(LOGIN_MAX_TOKENS),
            false,
            None,
            None,
        ),
{
    let mut messages: Vec<Message> = Vec::new();
    push_message(&mut messages, user_message(LOGIN_PROMPT));
    assert(messages_view(messages@) =~= seq![plain_message("user"@, LOGIN_PROMPT@)]);
    chat_request_body(
        model,
        &messages,
        Some(copy_text("0.0")),
        Some(LOGIN_MAX_TOKENS),
        false,
        None,
        None,
    )
}

// ---------------------------------------------------------------------------
// The API key and the transport's configuration
// ---------------------------------------------------------------------------

/// The key, if one is set that is not blank.
pub open spec fn usable_key(value: Option<Seq<char>>) -> Option<Seq<char>> {
    match value {
        Some(key) => if trimmed(key).len() == 0 {
            None
        } else {
            Some(trimmed(key))
        },
        None => None,
    }
}

/// The key, if one is set that is not blank.
pub fn usable_key_of(value: Option<String>) -> (r: Option<String>)
    ensures
        opt_text(r) == usable_key(opt_text(value)),
{
    match value {
        Some(key) => {
            let key = trim(key.as_str());
            if char_count(key.as_str()) == 0 {
                None
            } else {
                Some(key)
            }
        },
        None => None,
    }
}

pub fn parse_api_key(value: Option<String>) -> (r: Result<String, String>)
    ensures
        result_texts(r) == match usable_key(opt_text(value)) {
            Some(key) => Ok(key),
            None => Err(API_KEY_SETUP_HELP@),
        },
{
    match usable_key_of(value) {
        Some(key) => Ok(key),
        None => Err(copy_text(API_KEY_SETUP_HELP)),
    }
}

/// A character as it stands in a quoted value of the configuration.
pub open spec fn quoted_char(c: char) -> Seq<char> {
    if c == '\\' {
        seq!['\\', '\\']
    } else if c == '"' {
        seq!['\\', '"']
    } else if c == '\n' {
        seq!['\\', 'n']
    } else if c == '\r' {
        seq!['\\', 'r']
    } else if c == '\t' {
        seq!['\\', 't']
    } else {
        seq![c]
    }
}

/// A text as it stands in a quoted value of the configuration.
pub open spec fn quoted(s: Seq<char>) -> Seq<char>
    decreases s.len(),
{
    if s.len() == 0 {
        Seq::empty()
    } else {
        quoted(s.drop_last()) + quoted_char(s.last())
    }
}

pub fn curl_quote(value: &str) -> (r: String)
    ensures
        r@ == quoted(value@),
{
    let v = chars_of(value);
    let mut out = String::new();
    let mut i: usize = 0;
    while i < v.len()
        invariant
            i <= v.len(),
            v@ == value@,
            out@ == quoted(v@.take(i as int)),
        decreases v.len() - i,
    {
        let c = v[i];
        let ghost before = out@;
        assert(v@.take(i + 1).drop_last() =~= v@.take(i as int));
        if c == '\\' {
            out.push('\\');
            out.push('\\');
        } else if c == '"' {
            out.push('\\');
            out.push('"');
        } else if c == '\n' {
            out.push('\\');
            out.push('n');
        } else if c == '\r' {
            out.push('\\');
            out.push('r');
        } else if c == '\t' {
            out.push('\\');
            out.push('t');
        } else {
            out.push(c);
        }
        assert(out@ =~= before + quoted_char(c));
        i += 1;
    }
    assert(v@.take(i as int) =~= v@);
    out
}

/// The configuration that is fed to the transport on its standard input.
pub open spec fn transport_config(key: Seq<char>, body: Seq<char>, stream: bool) -> Seq<char> {
    "silent\n"@ + "show-error\n"@ + (if stream {
        "no-buffer\n"@
    } else {
        Seq::empty()
    }) + "request = \"POST\"\n"@ + "url = \""@ + quoted(API_URL@) + "\"\n"@ + "header = \""@
        + quoted("Authorization: Bearer "@ + key) + "\"\n"@ + "header = \""@ + quoted(
        "Content-Type: application/json"@,
    ) + "\"\n"@ + "data = \""@ + quoted(body) + "\"\n"@
}

pub fn curl_config(key: &str, body: &str, stream: bool) -> (r: String)
    ensures
        r@ == transport_config(key@, body@, stream),
{
    let mut out = concat2("silent\n", "show-error\n");
    let ghost begun = out@;
    if stream {
        push_text(&mut out, "no-buffer\n");
    } else {
        assert(begun + Seq::<char>::empty() =~= begun);
    }
    push_text(&mut out, "request = \"POST\"\n");
    push_text(&mut out, "url = \"");
    push_text(&mut out, curl_quote(API_URL).as_str());
    push_text(&mut out, "\"\n");
    push_text(&mut out, "header = \"");
    push_text(&mut out, curl_quote(concat2("Authorization: Bearer ", key).as_str()).as_str());
    push_text(&mut out, "\"\n");
    push_text(&mut out, "header = \"");
    push_text(&mut out, curl_quote("Content-Type: application/json").as_str());
    push_text(&mut out, "\"\n");
    push_text(&mut out, "data = \"");
    push_text(&mut out, curl_quote(body).as_str());
    push_text(&mut out, "\"\n");
    out
}

/// The configuration for a request with a body, or why none is sent: the work
/// was cancelled, or there is no key.
pub fn prepare_chat(cancelled: bool, key: Option<String>, body: &str, options: ChatOptions) -> (r:
    Result<String, String>)
    ensures
        result_texts(r) == if cancelled {
            Err(CANCELLED@)
        } else {
            match usable_key(opt_text(key)) {
                None => Err(API_KEY_SETUP_HELP@),
                Some(k) => Ok(transport_config(k, body@, options.stream)),
            }
        },
{
    if cancelled {
        return Err(copy_text(CANCELLED));
    }
    match parse_api_key(key) {
        Ok(k) => Ok(curl_config(k.as_str(), body, options.stream)),
        Err(e) => Err(e),
    }
}

/// The arguments of the transport: the key is not among them.
pub fn curl_args() -> (r: Vec<String>)
    ensures
        texts(r@) == seq!["-q"@, "-K"@, "-"@],
{
    broadcast use lemma_texts_empty;

    let mut out: Vec<String> = Vec::new();
    push_item(&mut out, copy_text("-q"));
    push_item(&mut out, copy_text("-K"));
    push_item(&mut out, copy_text("-"));
    assert(texts(out@) =~= seq!["-q"@, "-K"@, "-"@]);
    out
}

/// What a quoted value stands for.
pub open spec fn unquoted(s: Seq<char>) -> Seq<char>
    decreases s.len(),
{
    if s.len() == 0 {
        Seq::empty()
    } else if s[0] == '\\' && s.len() >= 2 {
        seq![
            if s[1] == 'n' {
                '\n'
            } else if s[1] == 'r' {
                '\r'
            } else if s[1] == 't' {
                '\t'
            } else {
                s[1]
            },
        ] + unquoted(s.skip(2))
    } else {
        seq![s[0]] + unquoted(s.skip(1))
    }
}

proof fn lemma_unquoted_step(c: char, t: Seq<char>)
    ensures
        unquoted(quoted_char(c) + t) == seq![c] + unquoted(t),
{
    let s = quoted_char(c) + t;
    assert(s[0] == quoted_char(c)[0]);
    if quoted_char(c).len() == 2 {
        assert(s[1] == quoted_char(c)[1]);
        assert(s.skip(2) =~= t);
    } else {
        assert(s.skip(1) =~= t);
    }
}

proof fn lemma_quoted_front(s: Seq<char>)
    requires
        s.len() > 0,
    ensures
        quoted(s) == quoted_char(s[0]) + quoted(s.skip(1)),
    decreases s.len(),
{
    if s.len() == 1 {
        assert(s.drop_last() =~= Seq::<char>::empty());
        assert(s.skip(1) =~= Seq::<char>::empty());
        assert(quoted(s) =~= quoted_char(s[0]) + quoted(s.skip(1)));
    } else {
        lemma_quoted_front(s.drop_last());
        assert(s.drop_last().skip(1) =~= s.skip(1).drop_last());
        assert(s.skip(1).last() == s.last());
        assert(quoted(s) =~= quoted_char(s[0]) + quoted(s.skip(1)));
    }
}

/// Whatever is quoted reads back as it was.
pub proof fn law_quoting_loses_nothing(s: Seq<char>)
    ensures
        unquoted(quoted(s)) == s,
    decreases s.len(),
{
    if s.len() > 0 {
        lemma_quoted_front(s);
        lemma_unquoted_step(s[0], quoted(s.skip(1)));
        law_quoting_loses_nothing(s.skip(1));
        assert(seq![s[0]] + s.skip(1) =~= s);
    }
}

/// A quoted value never ends its line: it holds no line feed, carriage return
/// or tab, and each quotation mark in it stands behind a backslash.
pub proof fn law_quoted_value_stays_on_its_line(s: Seq<char>)
    ensures
        forall|i: int|
            0 <= i < quoted(s).len() ==> {
                let c = #[trigger] quoted(s)[i];
                &&& c != '\n' && c != '\r' && c != '\t'
                &&& c == '"' ==> i > 0 && quoted(s)[i - 1] == '\\'
            },
    decreases s.len(),
{
    if s.len() > 0 {
        law_quoted_value_stays_on_its_line(s.drop_last());
        let a = quoted(s.drop_last());
        let b = quoted_char(s.last());
        assert forall|i: int| 0 <= i < quoted(s).len() implies {
            let c = #[trigger] quoted(s)[i];
            &&& c != '\n' && c != '\r' && c != '\t'
            &&& c == '"' ==> i > 0 && quoted(s)[i - 1] == '\\'
        } by {
            if i < a.len() {
                assert(quoted(s)[i] == a[i]);
                if i > 0 {
                    assert(quoted(s)[i - 1] == a[i - 1]);
                }
            } else {
                assert(quoted(s)[i] == b[i - a.len()]);
                if i > a.len() {
                    assert(quoted(s)[i - 1] == b[i - 1 - a.len()]);
                }
            }
        }
    }
}

// ---------------------------------------------------------------------------
// Answers
// ---------------------------------------------------------------------------

pub open spec fn no_text_error(raw: Seq<char>) -> Seq<char> {
    "provider response did not include assistant text: "@ + capped(raw, 1000)
}

fn missing_text_error(raw: &str) -> (r: String)
    ensures
        r@ == no_text_error(raw@),
{
    concat2(
        "provider response did not include assistant text: ",
        cap_text(raw, 1000).as_str(),
    )
}

pub open spec fn provider_error(error: JsonView) -> Seq<char> {
    "provider error: "@ + capped(json_text(error), 1000)
}

fn provider_error_text(error: &Json) -> (r: String)
    ensures
        r@ == provider_error(error@),
{
    concat2("provider error: ", cap_text(render_json(error).as_str(), 1000).as_str())
}

/// The first choice of an answer.
pub open spec fn first_choice(value: JsonView) -> Option<JsonView> {
    match member(value, "choices"@) {
        Some(choices) => item(choices, 0),
        None => None,
    }
}

fn choice_of(value: &Json) -> (r: Option<&Json>)
    ensures
        opt_ref(r) == first_choice(value@),
{
    match value.get("choices") {
        Some(choices) => choices.at(0),
        None => None,
    }
}

/// The assistant's message in an answer, given what its text is as JSON.
pub open spec fn assistant_message_in(
    raw: Seq<char>,
    parsed: Result<JsonView, (Seq<char>, nat)>,
) -> Result<JsonView, Seq<char>> {
    match parsed {
        Err(e) => Err(
            "provider returned invalid JSON: "@ + e.0 + "; body="@ + capped(redacted(raw), 500),
        ),
        Ok(value) => match member(value, "error"@) {
            Some(error) => Err(provider_error(error)),
            None => match first_choice(value) {
                Some(choice) => match member(choice, "message"@) {
                    Some(message) => Ok(message),
                    None => Err(no_text_error(raw)),
                },
                None => Err(no_text_error(raw)),
            },
        },
    }
}

pub open spec fn json_result(r: Result<Json, String>) -> Result<JsonView, Seq<char>> {
    match r {
        Ok(j) => Ok(j@),
        Err(e) => Err(e@),
    }
}

/// The assistant's message in an answer, given what its text is as JSON.
pub fn message_in_answer(raw: &str, parsed: Result<Json, JsonError>) -> (r: Result<Json, String>)
    ensures
        json_result(r) == assistant_message_in(raw@, parse_result(parsed)),
{
    match parsed {
        Err(e) => {
            let mut out = concat3(
                "provider returned invalid JSON: ",
                e.message.as_str(),
                "; body=",
            );
            push_text(&mut out, cap_text(redact_text(raw).as_str(), 500).as_str());
            Err(out)
        },
        Ok(value) => {
            if let Some(error) = value.get("error") {
                return Err(provider_error_text(error));
            }
            match choice_of(&value) {
                Some(choice) => match choice.get("message") {
                    Some(message) => Ok(message.copy()),
                    None => Err(missing_text_error(raw)),
                },
                None => Err(missing_text_error(raw)),
            }
        },
    }
}

/// The text of a message, if it has any.
pub open spec fn message_content(message: JsonView) -> Option<Seq<char>> {
    match string_member(message, "content"@) {
        Some(content) => if trimmed(content).len() == 0 {
            None
        } else {
            Some(trimmed(content))
        },
        None => None,
    }
}

fn content_of(message: &Json) -> (r: Option<String>)
    ensures
        opt_text(r) == message_content(message@),
{
    match message.get_str("content") {
        Some(content) => {
            let text = trim(content.as_str());
            if char_count(text.as_str()) == 0 {
                None
            } else {
                Some(text)
            }
        },
        None => None,
    }
}

pub open spec fn json_or_null(o: Option<Seq<char>>) -> JsonView {
    match o {
        Some(s) => JsonView::Str(s),
        None => JsonView::Null,
    }
}

fn json_of_opt(o: Option<String>) -> (r: Json)
    ensures
        r@ == json_or_null(opt_text(o)),
{
    match o {
        Some(s) => Json::Str(s),
        None => Json::Null,
    }
}

/// A message that calls tools, as a decision.
pub open spec fn tool_decision(message: JsonView) -> Option<JsonView> {
    match member(message, "tool_calls"@) {
        Some(calls) => if calls is Array {
            Some(
                JsonView::Object(
                    seq![
                        ("content"@, json_or_null(message_content(message))),
                        (
                            "reasoning_content"@,
                            json_or_null(string_member(message, "reasoning_content"@)),
                        ),
                        ("tool_calls"@, calls),
                    ],
                ),
            )
        } else {
            None
        },
        None => None,
    }
}

fn openai_tool_decision_text(message: &Json) -> (r: Option<String>)
    ensures
        opt_text(r) == match tool_decision(message@) {
            Some(d) => Some(json_text(d)),
            None => None,
        },
{
    let calls = match message.get("tool_calls") {
        Some(c) => c,
        None => {
            return None;
        },
    };
    if !calls.is_array() {
        return None;
    }
    let reasoning = match message.get_str("reasoning_content") {
        Some(t) => Some(copy_text(t.as_str())),
        None => None,
    };
    let mut members: Vec<Member> = Vec::new();
    members.push(Member { key: copy_text("content"), value: json_of_opt(content_of(message)) });
    members.push(Member { key: copy_text("reasoning_content"), value: json_of_opt(reasoning) });
    members.push(Member { key: copy_text("tool_calls"), value: calls.copy() });
    let decision = Json::Object(members);
    proof {
        lemma_json_view(decision);
        assert(crate::json::json_members(members@) =~= tool_decision(message@)->0->Object_0);
    }
    Some(render_json(&decision))
}

/// What an answer says: a decision to call tools, else its text.
pub open spec fn assistant_text(raw: Seq<char>, message: Result<JsonView, Seq<char>>) -> Result<
    Seq<char>,
    Seq<char>,
> {
    match message {
        Err(e) => Err(e),
        Ok(m) => match tool_decision(m) {
            Some(d) => Ok(json_text(d)),
            None => match message_content(m) {
                Some(content) => Ok(capped(content, DEFAULT_TEXT_CAP as int)),
                None => Err(no_text_error(raw)),
            },
        },
    }
}

/// What an answer says, given its message.
pub fn text_of_message(raw: &str, message: Result<Json, String>) -> (r: Result<String, String>)
    ensures
        result_texts(r) == assistant_text(raw@, json_result(message)),
{
    let message = match message {
        Ok(m) => m,
        Err(e) => {
            return Err(e);
        },
    };
    if let Some(decision) = openai_tool_decision_text(&message) {
        return Ok(decision);
    }
    match content_of(&message) {
        Some(content) => Ok(cap_text(content.as_str(), DEFAULT_TEXT_CAP)),
        None => Err(missing_text_error(raw)),
    }
}

pub fn extract_assistant_text(raw: &str) -> (r: Result<String, String>)
    ensures
        result_texts(r) == assistant_text(raw@, assistant_message_in(raw@, json_parsed(raw@))),
{
    text_of_message(raw, message_in_answer(raw, parse_json(raw)))
}

/// A plain answer as a decision.
pub open spec fn final_decision(content: Seq<char>) -> JsonView {
    JsonView::Object(
        seq![
            ("content"@, JsonView::Str(capped(content, DEFAULT_TEXT_CAP as int))),
            ("tool_calls"@, JsonView::Null),
        ],
    )
}

/// What an answer decides: a decision to call tools, a decision that the model
/// wrote as text, or its text as the final answer.
pub open spec fn decision_text(raw: Seq<char>, message: Result<JsonView, Seq<char>>) -> Result<
    Seq<char>,
    Seq<char>,
> {
    match message {
        Err(e) => Err(e),
        Ok(m) => match tool_decision(m) {
            Some(d) => Ok(json_text(d)),
            None => match message_content(m) {
                Some(content) => if content[0] == '{' {
                    Ok(capped(content, DEFAULT_TEXT_CAP as int))
                } else {
                    Ok(json_text(final_decision(content)))
                },
                None => Err(no_text_error(raw)),
            },
        },
    }
}

/// What an answer decides, given its message.
pub fn decision_of_message(raw: &str, message: Result<Json, String>) -> (r: Result<String, String>)
    ensures
        result_texts(r) == decision_text(raw@, json_result(message)),
{
    let message = match message {
        Ok(m) => m,
        Err(e) => {
            return Err(e);
        },
    };
    if let Some(decision) = openai_tool_decision_text(&message) {
        return Ok(decision);
    }
    let content = match content_of(&message) {
        Some(content) => content,
        None => {
            return Err(missing_text_error(raw));
        },
    };
    let v = chars_of(content.as_str());
    if v[0] == '{' {
        return Ok(cap_text(content.as_str(), DEFAULT_TEXT_CAP));
    }
    let mut members: Vec<Member> = Vec::new();
    members.push(
        Member {
            key: copy_text("content"),
            value: Json::Str(cap_text(content.as_str(), DEFAULT_TEXT_CAP)),
        },
    );
    members.push(Member { key: copy_text("tool_calls"), value: Json::Null });
    let decision = Json::Object(members);
    proof {
        lemma_json_view(decision);
        assert(crate::json::json_members(members@) =~= final_decision(content@)->Object_0);
    }
    Ok(render_json(&decision))
}

pub fn extract_assistant_decision_text(raw: &str) -> (r: Result<String, String>)
    ensures
        result_texts(r) == decision_text(raw@, assistant_message_in(raw@, json_parsed(raw@))),
{
    decision_of_message(raw, message_in_answer(raw, parse_json(raw)))
}

/// Why a request failed, given what the transport wrote to its standard error.
pub open spec fn failure_text(stderr: Seq<char>) -> Seq<char> {
    if trimmed(stderr).len() == 0 {
        "provider request failed"@
    } else {
        redacted(trimmed(stderr))
    }
}

pub fn request_failure(stderr: &str) -> (r: String)
    ensures
        r@ == failure_text(stderr@),
{
    let text = trim(stderr);
    if char_count(text.as_str()) == 0 {
        copy_text("provider request failed")
    } else {
        redact_text(text.as_str())
    }
}

/// What came of a request that was not streamed.
pub fn chat_outcome(success: bool, stderr: &str, raw: &str, options: ChatOptions) -> (r: Result<
    String,
    String,
>)
    ensures
        result_texts(r) == if !success {
            Err(failure_text(stderr@))
        } else if options.decision_response {
            decision_text(raw@, assistant_message_in(raw@, json_parsed(raw@)))
        } else {
            assistant_text(raw@, assistant_message_in(raw@, json_parsed(raw@)))
        },
{
    if !success {
        return Err(request_failure(stderr));
    }
    if options.decision_response {
        extract_assistant_decision_text(raw)
    } else {
        extract_assistant_text(raw)
    }
}

/// The cached tokens that an answer reports.
pub open spec fn cached_tokens(value: JsonView) -> Option<u64> {
    match member(value, "usage"@) {
        Some(usage) => {
            let first = match member(usage, "prompt_tokens_details"@) {
                Some(d) => member(d, "cached_tokens"@),
                None => None,
            };
            let second = match member(usage, "input_tokens_details"@) {
                Some(d) => member(d, "cached_tokens"@),
                None => None,
            };
            match first {
                Some(v) => unsigned_of(v),
                None => match second {
                    Some(v) => unsigned_of(v),
                    None => match member(usage, "cached_tokens"@) {
                        Some(v) => unsigned_of(v),
                        None => None,
                    },
                },
            }
        },
        None => None,
    }
}

pub fn cached_tokens_of(value: &Json) -> (r: Option<u64>)
    ensures
        r == cached_tokens(value@),
{
    let usage = match value.get("usage") {
        Some(u) => u,
        None => {
            return None;
        },
    };
    if let Some(d) = usage.get("prompt_tokens_details") {
        if let Some(v) = d.get("cached_tokens") {
            return v.as_u64();
        }
    }
    if let Some(d) = usage.get("input_tokens_details") {
        if let Some(v) = d.get("cached_tokens") {
            return v.as_u64();
        }
    }
    match usage.get("cached_tokens") {
        Some(v) => v.as_u64(),
        None => None,
    }
}

/// The line on cached tokens for an answer, if it reports any.
pub fn cache_stats(raw: &str) -> (r: Option<String>)
    ensures
        opt_text(r) == match json_parsed(raw@) {
            Ok(value) => match cached_tokens(value) {
                Some(n) => Some("cache: cached_tokens="@ + decimal(n as nat)),
                None => None,
            },
            Err(_) => None,
        },
{
    match parse_json(raw) {
        Ok(value) => match cached_tokens_of(&value) {
            Some(n) => Some(concat2("cache: cached_tokens=", decimal_text(n).as_str())),
            None => None,
        },
        Err(_) => None,
    }
}

// ---------------------------------------------------------------------------
// Streams
// ---------------------------------------------------------------------------

/// The data of a line of an event stream.
pub open spec fn event_data(line: Seq<char>) -> Option<Seq<char>> {
    match without_prefix(line, "data:"@) {
        Some(rest) => Some(trimmed(rest)),
        None => None,
    }
}

/// What a line of an event stream means.
#[derive(Debug)]
pub enum StreamEvent {
    Skip,
    Done,
    Malformed,
    Failed(String),
    Delta(String),
}

pub enum StreamEventView {
    Skip,
    Done,
    Malformed,
    Failed(Seq<char>),
    Delta(Seq<char>),
}

impl View for StreamEvent {
    type V = StreamEventView;

    open spec fn view(&self) -> StreamEventView {
        match *self {
            StreamEvent::Skip => StreamEventView::Skip,
            StreamEvent::Done => StreamEventView::Done,
            StreamEvent::Malformed => StreamEventView::Malformed,
            StreamEvent::Failed(e) => StreamEventView::Failed(e@),
            StreamEvent::Delta(t) => StreamEventView::Delta(t@),
        }
    }
}

/// The piece of text in an event.
pub open spec fn delta_text(value: JsonView) -> Option<Seq<char>> {
    match first_choice(value) {
        Some(choice) => match member(choice, "delta"@) {
            Some(delta) => string_member(delta, "content"@),
            None => None,
        },
        None => None,
    }
}

/// What the data of an event means, given what it is as JSON.
pub open spec fn event_of(parsed: Option<JsonView>) -> StreamEventView {
    match parsed {
        None => StreamEventView::Malformed,
        Some(value) => match member(value, "error"@) {
            Some(error) => StreamEventView::Failed(provider_error(error)),
            None => match delta_text(value) {
                Some(t) => StreamEventView::Delta(t),
                None => StreamEventView::Skip,
            },
        },
    }
}

/// What the data of an event means, given what it is as JSON.
pub fn stream_value_event(parsed: Option<&Json>) -> (r: StreamEvent)
    ensures
        r@ == event_of(opt_ref(parsed)),
{
    let value = match parsed {
        Some(v) => v,
        None => {
            return StreamEvent::Malformed;
        },
    };
    if let Some(error) = value.get("error") {
        return StreamEvent::Failed(provider_error_text(error));
    }
    match choice_of(value) {
        Some(choice) => match choice.get("delta") {
            Some(delta) => match delta.get_str("content") {
                Some(t) => StreamEvent::Delta(copy_text(t.as_str())),
                None => StreamEvent::Skip,
            },
            None => StreamEvent::Skip,
        },
        None => StreamEvent::Skip,
    }
}

/// What a line of an event stream means.
pub open spec fn line_event(line: Seq<char>) -> StreamEventView {
    match event_data(line) {
        None => StreamEventView::Skip,
        Some(data) => if data == "[DONE]"@ {
            StreamEventView::Done
        } else {
            event_of(crate::answer_format::parsed_ok(json_parsed(data)))
        },
    }
}

pub fn stream_event(line: &str) -> (r: StreamEvent)
    ensures
        r@ == line_event(line@),
{
    let data = match strip_prefix(line, "data:") {
        Some(rest) => trim(rest.as_str()),
        None => {
            return StreamEvent::Skip;
        },
    };
    if same_text(data.as_str(), "[DONE]") {
        return StreamEvent::Done;
    }
    match parse_json(data.as_str()) {
        Ok(value) => stream_value_event(Some(&value)),
        Err(_) => stream_value_event(None),
    }
}

/// A stream in the making: the text so far and the events that could not be read.
#[derive(Debug)]
pub struct StreamState {
    pub response: String,
    pub malformed_events: u64,
}

/// What is to be done after a line.
#[derive(Debug)]
pub enum StreamStep {
    /// Read the next line.
    Next,
    /// Hand on this piece of text, and report back with what the cancellation
    /// flag reads then.
    Emit(String),
    /// The stream is over.
    Finish,
    /// Stop the transport and fail.
    Fail(String),
}

pub enum StreamStepView {
    Next,
    Emit(Seq<char>),
    Finish,
    Fail(Seq<char>),
}

impl View for StreamStep {
    type V = StreamStepView;

    open spec fn view(&self) -> StreamStepView {
        match *self {
            StreamStep::Next => StreamStepView::Next,
            StreamStep::Emit(t) => StreamStepView::Emit(t@),
            StreamStep::Finish => StreamStepView::Finish,
            StreamStep::Fail(e) => StreamStepView::Fail(e@),
        }
    }
}

pub open spec fn counted(n: u64) -> int {
    if n == u64::MAX {
        n as int
    } else {
        n + 1
    }
}

/// The text, the count of unreadable events and the next step after a line.
pub open spec fn stream_after(
    response: Seq<char>,
    malformed: u64,
    cancelled: bool,
    event: StreamEventView,
) -> (Seq<char>, int, StreamStepView) {
    if cancelled {
        (response, malformed as int, StreamStepView::Fail(CANCELLED@))
    } else {
        match event {
            StreamEventView::Skip => (response, malformed as int, StreamStepView::Next),
            StreamEventView::Done => (response, malformed as int, StreamStepView::Finish),
            StreamEventView::Malformed => (response, counted(malformed), StreamStepView::Next),
            StreamEventView::Failed(e) => (response, malformed as int, StreamStepView::Fail(e)),
            StreamEventView::Delta(t) => (response + t, malformed as int, StreamStepView::Emit(t)),
        }
    }
}

/// What is to be done once a piece of text was handed on.
pub open spec fn after_piece(cancelled: bool) -> StreamStepView {
    if cancelled {
        StreamStepView::Fail(CANCELLED@)
    } else {
        StreamStepView::Next
    }
}

/// The answer of a finished stream.
pub open spec fn stream_answer(response: Seq<char>) -> Seq<char> {
    capped(trimmed(response), DEFAULT_TEXT_CAP as int)
}

impl StreamState {
    pub fn new() -> (r: StreamState)
        ensures
            r.response@ == Seq::<char>::empty(),
            r.malformed_events == 0,
    {
        StreamState { response: String::new(), malformed_events: 0 }
    }

    /// Takes in an event. `cancelled` is what the cancellation flag read before
    /// the line was looked at.
    pub fn on_event(&mut self, cancelled: bool, event: StreamEvent) -> (r: StreamStep)
        ensures
            (final(self).response@, final(self).malformed_events as int, r@) == stream_after(
                old(self).response@,
                old(self).malformed_events,
                cancelled,
                event@,
            ),
    {
        if cancelled {
            return StreamStep::Fail(copy_text(CANCELLED));
        }
        match event {
            StreamEvent::Skip => StreamStep::Next,
            StreamEvent::Done => StreamStep::Finish,
            StreamEvent::Malformed => {
                if self.malformed_events < u64::MAX {
                    self.malformed_events = self.malformed_events + 1;
                }
                StreamStep::Next
            },
            StreamEvent::Failed(e) => StreamStep::Fail(e),
            StreamEvent::Delta(t) => {
                push_text(&mut self.response, t.as_str());
                StreamStep::Emit(t)
            },
        }
    }

    /// Takes in a line of the stream.
    pub fn on_line(&mut self, cancelled: bool, line: &str) -> (r: StreamStep)
        ensures
            (final(self).response@, final(self).malformed_events as int, r@) == stream_after(
                old(self).response@,
                old(self).malformed_events,
                cancelled,
                line_event(line@),
            ),
    {
        self.on_event(cancelled, stream_event(line))
    }

    /// Goes on after a piece of text was handed on: a stream that was cancelled
    /// meanwhile fails at once.
    pub fn on_emitted(&self, cancelled: bool) -> (r: StreamStep)
        ensures
            r@ == after_piece(cancelled),
    {
        if cancelled {
            StreamStep::Fail(copy_text(CANCELLED))
        } else {
            StreamStep::Next
        }
    }

    /// The warning on unreadable events, if there were any.
    pub fn warning(&self) -> (r: Option<String>)
        ensures
            opt_text(r) == if self.malformed_events > 0 {
                Some(
                    "stream warning: skipped "@ + decimal(self.malformed_events as nat)
                        + " malformed event(s)"@,
                )
            } else {
                None
            },
    {
        if self.malformed_events > 0 {
            Some(
                concat3(
                    "stream warning: skipped ",
                    decimal_text(self.malformed_events).as_str(),
                    " malformed event(s)",
                ),
            )
        } else {
            None
        }
    }

    /// Whether a line feed is to be printed behind the streamed text.
    pub fn owes_newline(&self, print_trailing_newline: bool) -> (r: bool)
        ensures
            r == (print_trailing_newline && !has_suffix(self.response@, "\n"@)),
    {
        print_trailing_newline && !ends_with(self.response.as_str(), "\n")
    }

    /// What came of the stream, given how the transport ended.
    pub fn outcome(&self, success: bool, stderr: &str) -> (r: Result<String, String>)
        ensures
            result_texts(r) == if success {
                Ok(stream_answer(self.response@))
            } else {
                Err(failure_text(stderr@))
            },
    {
        if success {
            Ok(cap_text(trim(self.response.as_str()).as_str(), DEFAULT_TEXT_CAP))
        } else {
            Err(request_failure(stderr))
        }
    }
}

/// The text of a stream after the first `n` events, none of them cancelled.
pub open spec fn text_after(events: Seq<StreamEventView>, n: int) -> Seq<char>
    decreases n,
{
    if n <= 0 || n > events.len() {
        Seq::empty()
    } else {
        stream_after(text_after(events, n - 1), 0, false, events[n - 1]).0
    }
}

/// The pieces of text among the first `n` events, one after the other.
pub open spec fn deltas_upto(events: Seq<StreamEventView>, n: int) -> Seq<char>
    decreases n,
{
    if n <= 0 || n > events.len() {
        Seq::empty()
    } else {
        deltas_upto(events, n - 1) + match events[n - 1] {
            StreamEventView::Delta(t) => t,
            _ => Seq::empty(),
        }
    }
}

/// The text of a stream is its pieces, one after the other: nothing that is
/// handed on is missing in the answer, and nothing else is in it.
pub proof fn law_stream_is_its_pieces(events: Seq<StreamEventView>, n: int)
    ensures
        text_after(events, n) == deltas_upto(events, n),
    decreases n,
{
    if 0 < n <= events.len() {
        law_stream_is_its_pieces(events, n - 1);
        assert(text_after(events, n) =~= deltas_upto(events, n));
    }
}

/// A line of a stream as it is met: what the cancellation flag reads before it,
/// what it says, and what the flag reads once its piece was handed on.
pub struct MetLine {
    pub before: bool,
    pub event: StreamEventView,
    pub after: bool,
}

/// What comes of a stream from line `k` on: its text, or why it failed.
pub open spec fn stream_run(met: Seq<MetLine>, k: int, text: Seq<char>) -> Result<
    Seq<char>,
    Seq<char>,
>
    decreases met.len() - k,
{
    if k < 0 || k >= met.len() {
        Ok(text)
    } else {
        let (grown, _, step) = stream_after(text, 0, met[k].before, met[k].event);
        match step {
            StreamStepView::Fail(e) => Err(e),
            StreamStepView::Finish => Ok(grown),
            StreamStepView::Next => stream_run(met, k + 1, grown),
            StreamStepView::Emit(_) => match after_piece(met[k].after) {
                StreamStepView::Fail(e) => Err(e),
                _ => stream_run(met, k + 1, grown),
            },
        }
    }
}

/// A line after which the stream goes on.
pub open spec fn goes_on(line: MetLine) -> bool {
    !line.before && !(line.event is Done) && !(line.event is Failed) && !(line.event is Delta
        && line.after)
}

/// A flag that is set before a line, or while its piece is handed on, ends the
/// stream as cancelled, and nothing that follows matters.
pub proof fn law_cancelled_stream_fails(met: Seq<MetLine>, n: int, k: int, text: Seq<char>)
    requires
        0 <= k <= n < met.len(),
        forall|j: int| k <= j < n ==> goes_on(#[trigger] met[j]),
        met[n].before || (met[n].event is Delta && met[n].after),
    ensures
        stream_run(met, k, text) == Err::<Seq<char>, Seq<char>>(CANCELLED@),
    decreases n - k,
{
    if k < n {
        assert(goes_on(met[k]));
        let grown = stream_after(text, 0, met[k].before, met[k].event).0;
        law_cancelled_stream_fails(met, n, k + 1, grown);
    }
}

pub open spec fn met_events(met: Seq<MetLine>) -> Seq<StreamEventView> {
    Seq::new(met.len(), |i: int| met[i].event)
}

/// A stream that is neither cancelled nor failed gives its pieces, one after the
/// other, up to its end.
pub proof fn law_whole_stream_is_its_pieces(met: Seq<MetLine>, n: int, k: int)
    requires
        0 <= k <= n <= met.len(),
        forall|j: int| 0 <= j < n ==> goes_on(#[trigger] met[j]),
        n < met.len() ==> !met[n].before && met[n].event is Done,
    ensures
        stream_run(met, k, deltas_upto(met_events(met), k)) == Ok::<Seq<char>, Seq<char>>(
            deltas_upto(met_events(met), n),
        ),
    decreases n - k,
{
    if k < n {
        assert(goes_on(met[k]));
        let so_far = deltas_upto(met_events(met), k);
        let grown = stream_after(so_far, 0, met[k].before, met[k].event).0;
        assert(grown =~= deltas_upto(met_events(met), k + 1));
        law_whole_stream_is_its_pieces(met, n, k + 1);
    }
}

} // verus!
