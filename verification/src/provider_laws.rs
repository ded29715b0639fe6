//! What is said to the model, and what its answers say.
use vstd::prelude::*;

use crate::json::{holds, json_parsed, json_text, lacks, law_members_are_found_by_name, law_text_members_are_read_as_they_are, JsonView};
use crate::provider::{after_piece, assistant_message_in, assistant_text, cached_tokens, decision_text, event_of, failure_text, line_event, message_json, messages_json, plain_message, quoted, request_json, stream_after, stream_answer, text_after, tool_decision, transport_config, usable_key, MessageView, StreamEventView, StreamStepView};
use crate::safety::{capped, redacted};
use crate::text::{decimal, has_prefix, joined};
use crate::text_laws::{all_space, ends_clean, law_trimming_drops_outer_space};

verus! {

// ---------------------------------------------------------------------------
// Requests
// ---------------------------------------------------------------------------

/// A message is sent with its role and its words, nothing more and nothing less.
pub proof fn law_messages_are_sent_as_they_are(role: Seq<char>, content: Seq<char>)
    ensures
        plain_message(role, content) == (MessageView {
            role,
            content,
            reasoning: None,
            calls: None,
            call_id: None,
        }),
        message_json(plain_message(role, content)) == "{\"role\":"@ + json_text(
            JsonView::Str(role),
        ) + ",\"content\":"@ + json_text(JsonView::Str(content)) + "}"@,
{
    let none = Seq::<char>::empty();
    let head = "{\"role\":"@ + json_text(JsonView::Str(role)) + ",\"content\":"@ + json_text(
        JsonView::Str(content),
    );
    assert(head + none + none + none + "}"@ =~= head + "}"@);
}

/// The messages are sent one after the other, in their order.
pub proof fn law_messages_are_sent_in_order(messages: Seq<MessageView>, last: MessageView)
    ensures
        messages_json(Seq::empty()) == "["@ + "]"@,
        messages_json(seq![last]) == "["@ + message_json(last) + "]"@,
        messages.len() > 0 ==> messages_json(messages.push(last)) == messages_json(
            messages,
        ).drop_last() + ","@ + message_json(last) + "]"@,
{
    reveal_strlit("]");
    let none = Seq::<Seq<char>>::empty();
    let empty = Seq::<MessageView>::empty();
    assert(Seq::new(empty.len(), |i: int| message_json(empty[i])) =~= none);
    assert("["@ + Seq::<char>::empty() + "]"@ =~= "["@ + "]"@);
    let one = seq![last];
    assert(Seq::new(one.len(), |i: int| message_json(one[i])) =~= seq![message_json(last)]);
    let all = Seq::new(messages.len(), |i: int| message_json(messages[i]));
    let more = messages.push(last);
    assert(Seq::new(more.len(), |i: int| message_json(more[i])) =~= all.push(message_json(last)));
    assert(all.push(message_json(last)).drop_last() =~= all);
    if messages.len() > 0 {
        assert(messages_json(messages).drop_last() =~= "["@ + joined(all, ","@));
        assert(messages_json(more) =~= "["@ + joined(all, ","@) + ","@ + message_json(last) + "]"@);
    }
}

/// A request names the model, holds the messages and says whether to stream;
/// what was not set is left out.
pub proof fn law_plain_request(
    model: Seq<char>,
    messages: Seq<MessageView>,
    temperature: Seq<char>,
    stream: bool,
)
    ensures
        request_json(model, messages, None, None, stream, None, None) == "{\"model\":"@ + json_text(
            JsonView::Str(model),
        ) + ",\"messages\":"@ + messages_json(messages) + ",\"stream\":"@ + (if stream {
            "true"@
        } else {
            "false"@
        }) + "}"@,
        request_json(model, messages, Some(temperature), None, stream, None, None)
            == "{\"model\":"@ + json_text(JsonView::Str(model)) + ",\"messages\":"@ + messages_json(
            messages,
        ) + ",\""@ + "temperature"@ + "\":"@ + temperature + ",\"stream\":"@ + (if stream {
            "true"@
        } else {
            "false"@
        }) + "}"@,
{
    let none = Seq::<char>::empty();
    let head = "{\"model\":"@ + json_text(JsonView::Str(model)) + ",\"messages\":"@ + messages_json(
        messages,
    );
    let flag = if stream {
        "true"@
    } else {
        "false"@
    };
    assert(head + none + none + ",\"stream\":"@ + flag + none + none + "}"@ =~= head
        + ",\"stream\":"@ + flag + "}"@);
    let warm = ",\""@ + "temperature"@ + "\":"@ + temperature;
    assert(head + warm + none + ",\"stream\":"@ + flag + none + none + "}"@ =~= head + ",\""@
        + "temperature"@ + "\":"@ + temperature + ",\"stream\":"@ + flag + "}"@);
}

/// A key is used as it is set, without the white space round it; a blank one is
/// none.
pub proof fn law_keys_are_used_as_set(front: Seq<char>, key: Seq<char>, back: Seq<char>)
    requires
        all_space(front),
        all_space(back),
        ends_clean(key),
    ensures
        key.len() > 0 ==> usable_key(Some(front + key + back)) == Some(key),
        key.len() == 0 ==> usable_key(Some(front + key + back)) is None,
        usable_key(None) is None,
{
    law_trimming_drops_outer_space(front, key, back);
}

// ---------------------------------------------------------------------------
// Answers
// ---------------------------------------------------------------------------

/// The first choice of an answer is `choice`.
pub open spec fn chooses(value: JsonView, choices: Seq<JsonView>) -> bool {
    choices.len() > 0 && holds(value, "choices"@, JsonView::Array(choices))
}

/// The message of an answer is that of its first choice, unless the provider
/// reports an error, which is then the error.
pub proof fn law_first_message_is_the_answer(
    raw: Seq<char>,
    value: JsonView,
    choices: Seq<JsonView>,
    message: JsonView,
    error: JsonView,
)
    requires
        chooses(value, choices),
        holds(choices[0], "message"@, message),
    ensures
        lacks(value, "error"@) ==> assistant_message_in(raw, Ok(value)) == Ok::<
            JsonView,
            Seq<char>,
        >(message),
        holds(value, "error"@, error) ==> assistant_message_in(raw, Ok(value)) == Err::<
            JsonView,
            Seq<char>,
        >("provider error: "@ + capped(json_text(error), 1000)),
{
    law_members_are_found_by_name(value, "choices"@, JsonView::Array(choices));
    law_members_are_found_by_name(choices[0], "message"@, message);
    law_members_are_found_by_name(value, "error"@, error);
}

/// The words of a message that calls no tools are the answer, without the white
/// space round them and forty thousand characters at most.
pub proof fn law_words_of_a_message_are_the_answer(
    raw: Seq<char>,
    message: JsonView,
    front: Seq<char>,
    text: Seq<char>,
    back: Seq<char>,
)
    requires
        all_space(front),
        all_space(back),
        ends_clean(text),
        text.len() > 0,
        holds(message, "content"@, JsonView::Str(front + text + back)),
        lacks(message, "tool_calls"@) || holds(message, "tool_calls"@, JsonView::Null),
    ensures
        assistant_text(raw, Ok(message)) == Ok::<Seq<char>, Seq<char>>(capped(text, 40_000)),
        text[0] == '{' ==> decision_text(raw, Ok(message)) == Ok::<Seq<char>, Seq<char>>(
            capped(text, 40_000),
        ),
        text[0] != '{' ==> decision_text(raw, Ok(message)) == Ok::<Seq<char>, Seq<char>>(
            json_text(
                JsonView::Object(
                    seq![
                        ("content"@, JsonView::Str(capped(text, 40_000))),
                        ("tool_calls"@, JsonView::Null),
                    ],
                ),
            ),
        ),
{
    law_trimming_drops_outer_space(front, text, back);
    law_text_members_are_read_as_they_are(message, "content"@, front + text + back);
    law_members_are_found_by_name(message, "tool_calls"@, JsonView::Null);
}

/// A message that calls tools is the decision to call just those.
pub proof fn law_called_tools_are_handed_on(
    raw: Seq<char>,
    message: JsonView,
    calls: Seq<JsonView>,
    text: Seq<char>,
)
    requires
        holds(message, "tool_calls"@, JsonView::Array(calls)),
        lacks(message, "content"@) || holds(message, "content"@, JsonView::Null),
        holds(message, "reasoning_content"@, JsonView::Str(text)),
    ensures
        ({
            let decision = JsonView::Object(
                seq![
                    ("content"@, JsonView::Null),
                    ("reasoning_content"@, JsonView::Str(text)),
                    ("tool_calls"@, JsonView::Array(calls)),
                ],
            );
            &&& tool_decision(message) == Some(decision)
            &&& assistant_text(raw, Ok(message)) == Ok::<Seq<char>, Seq<char>>(json_text(decision))
            &&& decision_text(raw, Ok(message)) == Ok::<Seq<char>, Seq<char>>(json_text(decision))
        }),
{
    law_members_are_found_by_name(message, "tool_calls"@, JsonView::Array(calls));
    law_text_members_are_read_as_they_are(message, "content"@, text);
    law_text_members_are_read_as_they_are(message, "reasoning_content"@, text);
}

/// Why a request failed is said by the transport, without secrets.
pub proof fn law_failures_say_why(front: Seq<char>, why: Seq<char>, back: Seq<char>)
    requires
        all_space(front),
        all_space(back),
        ends_clean(why),
    ensures
        why.len() > 0 ==> failure_text(front + why + back) == redacted(why),
        why.len() == 0 ==> failure_text(front + why + back) == "provider request failed"@,
{
    law_trimming_drops_outer_space(front, why, back);
}

/// The cached tokens are those that the answer reports, wherever it does.
pub proof fn law_cached_tokens_are_those_reported(
    value: JsonView,
    usage: JsonView,
    details: JsonView,
    n: u64,
)
    requires
        holds(value, "usage"@, usage),
    ensures
        holds(usage, "prompt_tokens_details"@, details) && holds(
            details,
            "cached_tokens"@,
            JsonView::Unsigned(n),
        ) ==> cached_tokens(value) == Some(n),
        lacks(usage, "prompt_tokens_details"@) && holds(usage, "input_tokens_details"@, details)
            && holds(details, "cached_tokens"@, JsonView::Unsigned(n)) ==> cached_tokens(value)
            == Some(n),
        lacks(usage, "prompt_tokens_details"@) && lacks(usage, "input_tokens_details"@) && holds(
            usage,
            "cached_tokens"@,
            JsonView::Unsigned(n),
        ) ==> cached_tokens(value) == Some(n),
        lacks(usage, "prompt_tokens_details"@) && lacks(usage, "input_tokens_details"@) && lacks(
            usage,
            "cached_tokens"@,
        ) ==> cached_tokens(value) is None,
{
    law_members_are_found_by_name(value, "usage"@, usage);
    law_members_are_found_by_name(usage, "prompt_tokens_details"@, details);
    law_members_are_found_by_name(usage, "input_tokens_details"@, details);
    law_members_are_found_by_name(details, "cached_tokens"@, JsonView::Unsigned(n));
    law_members_are_found_by_name(usage, "cached_tokens"@, JsonView::Unsigned(n));
}

// ---------------------------------------------------------------------------
// Streams
// ---------------------------------------------------------------------------

/// A piece of an answer is handed on character for character, with the white
/// space at its ends.
pub proof fn law_pieces_are_handed_on_verbatim(
    value: JsonView,
    choices: Seq<JsonView>,
    delta: JsonView,
    text: Seq<char>,
)
    requires
        chooses(value, choices),
        holds(choices[0], "delta"@, delta),
        holds(delta, "content"@, JsonView::Str(text)),
        lacks(value, "error"@),
    ensures
        event_of(Some(value)) == StreamEventView::Delta(text),
{
    law_members_are_found_by_name(value, "choices"@, JsonView::Array(choices));
    law_members_are_found_by_name(value, "error"@, JsonView::Null);
    law_members_are_found_by_name(choices[0], "delta"@, delta);
    law_text_members_are_read_as_they_are(delta, "content"@, text);
}

/// An event with an error fails with that error, whatever else it holds; one
/// without a piece of text is passed over, and one that is no JSON is counted as
/// unreadable.
pub proof fn law_events_without_text(
    value: JsonView,
    choices: Seq<JsonView>,
    delta: JsonView,
    error: JsonView,
)
    ensures
        holds(value, "error"@, error) ==> event_of(Some(value)) == StreamEventView::Failed(
            "provider error: "@ + capped(json_text(error), 1000),
        ),
        lacks(value, "error"@) && lacks(value, "choices"@) ==> event_of(Some(value))
            == StreamEventView::Skip,
        lacks(value, "error"@) && chooses(value, choices) && lacks(choices[0], "delta"@)
            ==> event_of(Some(value)) == StreamEventView::Skip,
        lacks(value, "error"@) && chooses(value, choices) && holds(choices[0], "delta"@, delta)
            && (lacks(delta, "content"@) || holds(delta, "content"@, JsonView::Null)) ==> event_of(
            Some(value),
        ) == StreamEventView::Skip,
        event_of(None) == StreamEventView::Malformed,
{
    law_members_are_found_by_name(value, "error"@, error);
    law_members_are_found_by_name(value, "choices"@, JsonView::Array(choices));
    if choices.len() > 0 {
        law_members_are_found_by_name(choices[0], "delta"@, delta);
    }
    law_text_members_are_read_as_they_are(delta, "content"@, Seq::empty());
}

/// A line of data holds one event, whatever white space stands round it; the
/// mark of the end ends the stream, and other lines are passed over.
pub proof fn law_data_lines_hold_events(
    front: Seq<char>,
    data: Seq<char>,
    back: Seq<char>,
    line: Seq<char>,
)
    requires
        all_space(front),
        all_space(back),
        ends_clean(data),
        !has_prefix(line, "data:"@),
    ensures
        data == "[DONE]"@ ==> line_event("data:"@ + (front + data + back)) == StreamEventView::Done,
        data != "[DONE]"@ ==> line_event("data:"@ + (front + data + back)) == event_of(
            match json_parsed(data) {
                Ok(value) => Some(value),
                Err(_) => None,
            },
        ),
        line_event(line) == StreamEventView::Skip,
{
    law_trimming_drops_outer_space(front, data, back);
    let rest = front + data + back;
    let whole = "data:"@ + rest;
    assert(whole.subrange(0, "data:"@.len() as int) =~= "data:"@);
    assert(whole.skip("data:"@.len() as int) =~= rest);
}

/// Each piece is handed on and joins the answer behind those before it; what is
/// no piece changes nothing of the answer.
pub proof fn law_stream_steps(response: Seq<char>, n: u64, text: Seq<char>)
    requires
        n < u64::MAX,
    ensures
        stream_after(response, n, false, StreamEventView::Delta(text)) == (
            response + text,
            n as int,
            StreamStepView::Emit(text),
        ),
        stream_after(response, n, false, StreamEventView::Skip) == (
            response,
            n as int,
            StreamStepView::Next,
        ),
        stream_after(response, n, false, StreamEventView::Malformed) == (
            response,
            n + 1,
            StreamStepView::Next,
        ),
        stream_after(response, n, false, StreamEventView::Done) == (
            response,
            n as int,
            StreamStepView::Finish,
        ),
        stream_after(response, n, false, StreamEventView::Failed(text)) == (
            response,
            n as int,
            StreamStepView::Fail(text),
        ),
        after_piece(false) == StreamStepView::Next,
        after_piece(true) == StreamStepView::Fail("cancelled"@),
{
}

/// An answer that is streamed in pieces is the pieces, one after the other.
pub proof fn law_streamed_answer_is_its_pieces(events: Seq<StreamEventView>, pieces: Seq<Seq<char>>)
    requires
        events.len() == pieces.len(),
        forall|i: int|
            0 <= i < events.len() ==> #[trigger] events[i] == StreamEventView::Delta(pieces[i]),
    ensures
        text_after(events, events.len() as int) == pieces.flatten(),
    decreases events.len(),
{
    lemma_pieces_so_far(events, pieces, events.len() as int);
    assert(pieces.take(pieces.len() as int) =~= pieces);
}

proof fn lemma_pieces_so_far(events: Seq<StreamEventView>, pieces: Seq<Seq<char>>, n: int)
    requires
        events.len() == pieces.len(),
        forall|i: int|
            0 <= i < events.len() ==> #[trigger] events[i] == StreamEventView::Delta(pieces[i]),
        0 <= n <= events.len(),
    ensures
        text_after(events, n) == pieces.take(n).flatten(),
    decreases n,
{
    if n == 0 {
        assert(pieces.take(0) =~= Seq::<Seq<char>>::empty());
    } else {
        lemma_pieces_so_far(events, pieces, n - 1);
        assert(events[n - 1] == StreamEventView::Delta(pieces[n - 1]));
        assert(pieces.take(n) =~= pieces.take(n - 1).push(pieces[n - 1]));
        pieces.take(n - 1).lemma_flatten_push(pieces[n - 1]);
    }
}

/// The answer of a stream is its text, without the white space round it and
/// forty thousand characters at most.
pub proof fn law_streamed_answer_is_trimmed(front: Seq<char>, text: Seq<char>, back: Seq<char>)
    requires
        all_space(front),
        all_space(back),
        ends_clean(text),
    ensures
        stream_answer(front + text + back) == capped(text, 40_000),
{
    law_trimming_drops_outer_space(front, text, back);
}

// ---------------------------------------------------------------------------
// Whole requests
// ---------------------------------------------------------------------------

/// Every option of a request is sent under its name with its value, and one that
/// is not set is not sent.
pub proof fn law_options_are_sent(
    model: Seq<char>,
    messages: Seq<MessageView>,
    temperature: Seq<char>,
    n: u32,
    stream: bool,
    tools: Seq<crate::provider::ToolView>,
    choice: Seq<char>,
)
    ensures
        ({
            let plain = request_json(model, messages, None, None, stream, None, None).drop_last();
            let end = "}"@;
            let flag = ",\"stream\":"@ + (if stream {
                "true"@
            } else {
                "false"@
            });
            let head = "{\"model\":"@ + json_text(JsonView::Str(model)) + ",\"messages\":"@
                + messages_json(messages);
            &&& plain == head + flag
            &&& request_json(model, messages, Some(temperature), None, stream, None, None) == head
                + ",\"temperature\":"@ + temperature + flag + end
            &&& request_json(model, messages, None, Some(n), stream, None, None) == head
                + ",\"max_tokens\":"@ + decimal(n as nat) + flag + end
            &&& request_json(model, messages, None, None, stream, Some(tools), None) == head + flag
                + ",\"tools\":"@ + crate::provider::tools_json(tools) + end
            &&& request_json(model, messages, None, None, stream, None, Some(choice)) == head + flag
                + ",\"tool_choice\":"@ + json_text(JsonView::Str(choice)) + end
        }),
{
    reveal_strlit("}");
    reveal_strlit(",\"");
    reveal_strlit("\":");
    reveal_strlit("temperature");
    reveal_strlit("max_tokens");
    reveal_strlit("tools");
    reveal_strlit("tool_choice");
    reveal_strlit(",\"temperature\":");
    reveal_strlit(",\"max_tokens\":");
    reveal_strlit(",\"tools\":");
    reveal_strlit(",\"tool_choice\":");
    let flag = ",\"stream\":"@ + (if stream {
        "true"@
    } else {
        "false"@
    });
    let head = "{\"model\":"@ + json_text(JsonView::Str(model)) + ",\"messages\":"@
        + messages_json(messages);
    assert(",\""@ + "temperature"@ + "\":"@ =~= ",\"temperature\":"@);
    assert(",\""@ + "max_tokens"@ + "\":"@ =~= ",\"max_tokens\":"@);
    assert(",\""@ + "tools"@ + "\":"@ =~= ",\"tools\":"@);
    assert(",\""@ + "tool_choice"@ + "\":"@ =~= ",\"tool_choice\":"@);
    let plain = request_json(model, messages, None, None, stream, None, None);
    assert(plain =~= head + flag + "}"@);
    assert(plain.drop_last() =~= head + flag);
    assert(request_json(model, messages, Some(temperature), None, stream, None, None) =~= head
        + ",\"temperature\":"@ + temperature + flag + "}"@);
    assert(request_json(model, messages, None, Some(n), stream, None, None) =~= head
        + ",\"max_tokens\":"@ + decimal(n as nat) + flag + "}"@);
    assert(request_json(model, messages, None, None, stream, Some(tools), None) =~= head + flag
        + ",\"tools\":"@ + crate::provider::tools_json(tools) + "}"@);
    assert(request_json(model, messages, None, None, stream, None, Some(choice)) =~= head + flag
        + ",\"tool_choice\":"@ + json_text(JsonView::Str(choice)) + "}"@);
}

/// The transport is told the key and the whole body of the request, quoted, and
/// a stream is not held back.
pub proof fn law_transport_gets_key_and_body(key: Seq<char>, body: Seq<char>, stream: bool)
    ensures
        exists|front: Seq<char>, middle: Seq<char>|
            transport_config(key, body, stream) == #[trigger] (front + ("header = \""@ + quoted(
                "Authorization: Bearer "@ + key,
            ) + "\"\n"@) + middle + ("data = \""@ + quoted(body) + "\"\n"@)),
        has_prefix(transport_config(key, body, true), "silent\n"@ + "show-error\n"@ + "no-buffer\n"@),
{
    let first = "silent\n"@ + "show-error\n"@ + (if stream {
        "no-buffer\n"@
    } else {
        Seq::empty()
    });
    let front = first + "request = \"POST\"\n"@ + "url = \""@ + quoted(
        crate::provider::API_URL@,
    ) + "\"\n"@;
    let middle = "header = \""@ + quoted("Content-Type: application/json"@) + "\"\n"@;
    let whole = front + ("header = \""@ + quoted("Authorization: Bearer "@ + key) + "\"\n"@)
        + middle + ("data = \""@ + quoted(body) + "\"\n"@);
    assert(transport_config(key, body, stream) =~= whole);
    let start = "silent\n"@ + "show-error\n"@ + "no-buffer\n"@;
    let all = transport_config(key, body, true);
    assert(all.subrange(0, start.len() as int) =~= start);
}

} // verus!
