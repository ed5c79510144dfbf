//! Mapping between the library's types and the Chat Completions wire format,
//! plus the streaming chunk assembler.

use vstd::prelude::*;
use vstd::string::StringExecFns;

use crate::codec::{json_parse, json_text, parse, render};
use crate::duplicate::lemma_pushed;
use crate::error::{ModelError, ModelErrorView};
use crate::json::{Json, JsonView};
use crate::message::{
    text_of, uses_of, Content, ContentView, Message, MessageView, Role, UseView,
};
use crate::model::{
    Request, RequestView, Response, ResponseView, StopReason, StopReasonView, StreamEvent,
    StreamEventView, ToolChoice, ToolChoiceView, ToolSpec, ToolSpecView, Usage,
};
use crate::text::{concat, decimal, decimal_text, same, trim, trimmed};

verus! {

/// An object of one entry.
pub open spec fn single(key: Seq<char>, value: JsonView) -> JsonView {
    JsonView::empty_object().with(key, value)
}

/// The wire form of a tool call with these arguments.
pub open spec fn function_wire(
    id: Seq<char>,
    name: Seq<char>,
    arguments: Seq<char>,
) -> JsonView {
    single("id"@, JsonView::String(id)).with("type"@, JsonView::String("function"@)).with(
        "function"@,
        single("name"@, JsonView::String(name)).with("arguments"@, JsonView::String(arguments)),
    )
}

/// The wire form of a tool call.
pub open spec fn call_wire(call: UseView) -> JsonView {
    function_wire(call.0, call.1, json_text(call.2))
}

/// The wire form of a tool call with these arguments.
pub fn function_to_wire(id: &str, name: &str, arguments: &str) -> (r: Json)
    ensures
        r@ == function_wire(id@, name@, arguments@),
{
    let function = Json::object().with("name", Json::text(name)).with(
        "arguments",
        Json::text(arguments),
    );
    Json::object().with("id", Json::text(id)).with("type", Json::text("function")).with(
        "function",
        function,
    )
}

/// The wire form of what the assistant says. The content is null where there
/// is no text, and tool calls go in only where there are some.
pub open spec fn assistant_wire(content: Seq<ContentView>) -> JsonView {
    let text = text_of(content);
    let calls = uses_of(content);
    let wire = single("role"@, JsonView::String("assistant"@)).with(
        "content"@,
        if text.len() == 0 {
            JsonView::Null
        } else {
            JsonView::String(text)
        },
    );
    if calls.len() == 0 {
        wire
    } else {
        wire.with("tool_calls"@, JsonView::Array(calls.map_values(|c: UseView| call_wire(c))))
    }
}

/// The wire message of a tool result.
pub open spec fn result_wire(block: ContentView) -> Option<JsonView> {
    match block {
        ContentView::ToolResult { tool_use_id, content, is_error } => Some(
            single("role"@, JsonView::String("tool"@)).with(
                "tool_call_id"@,
                JsonView::String(tool_use_id),
            ).with(
                "content"@,
                JsonView::String(
                    if is_error {
                        "ERROR: "@ + content
                    } else {
                        content
                    },
                ),
            ),
        ),
        _ => None,
    }
}

/// The wire messages of the tool results, in their order.
pub open spec fn results_wire(content: Seq<ContentView>) -> Seq<JsonView>
    decreases content.len(),
{
    if content.len() == 0 {
        Seq::empty()
    } else {
        match result_wire(content.last()) {
            Some(wire) => results_wire(content.drop_last()).push(wire),
            None => results_wire(content.drop_last()),
        }
    }
}

/// The wire messages of one message. Tool results are separate messages in
/// this dialect; what the user says besides comes after them.
pub open spec fn message_wire(message: MessageView) -> Seq<JsonView> {
    match message.role {
        Role::Assistant => seq![assistant_wire(message.content)],
        Role::User => {
            let results = results_wire(message.content);
            let text = text_of(message.content);
            if text.len() == 0 {
                results
            } else {
                results.push(
                    single("role"@, JsonView::String("user"@)).with(
                        "content"@,
                        JsonView::String(text),
                    ),
                )
            }
        },
    }
}

/// The wire messages of a conversation.
pub open spec fn messages_wire(messages: Seq<MessageView>) -> Seq<JsonView>
    decreases messages.len(),
{
    if messages.len() == 0 {
        Seq::empty()
    } else {
        messages_wire(messages.drop_last()) + message_wire(messages.last())
    }
}

/// The wire form of an advertised tool.
pub open spec fn tool_wire(tool: ToolSpecView) -> JsonView {
    single("type"@, JsonView::String("function"@)).with(
        "function"@,
        single("name"@, JsonView::String(tool.name)).with(
            "description"@,
            JsonView::String(tool.description),
        ).with("parameters"@, tool.input_schema),
    )
}

/// The wire form of a tool choice.
pub open spec fn choice_wire(choice: ToolChoiceView) -> JsonView {
    match choice {
        ToolChoiceView::Auto => JsonView::String("auto"@),
        ToolChoiceView::Any => JsonView::String("required"@),
        ToolChoiceView::Tool(name) => single("type"@, JsonView::String("function"@)).with(
            "function"@,
            single("name"@, JsonView::String(name)),
        ),
    }
}

/// The object with an entry more, where there is a value for it.
pub open spec fn with_some(body: JsonView, key: Seq<char>, value: Option<JsonView>) -> JsonView {
    match value {
        Some(value) => body.with(key, value),
        None => body,
    }
}

/// The body of a call. What the request leaves out is left out here.
pub open spec fn body_wire(request: RequestView, model: Seq<char>, stream: bool) -> JsonView {
    let system = match request.system {
        Some(system) => seq![
            single("role"@, JsonView::String("system"@)).with(
                "content"@,
                JsonView::String(system),
            ),
        ],
        None => Seq::empty(),
    };
    let body = single("model"@, JsonView::String(model)).with(
        "messages"@,
        JsonView::Array(system + messages_wire(request.messages)),
    ).with("stream"@, JsonView::Bool(stream));
    let body = if stream {
        body.with("stream_options"@, single("include_usage"@, JsonView::Bool(true)))
    } else {
        body
    };
    let body = if request.max_tokens > 0 {
        body.with("max_tokens"@, JsonView::Integer(request.max_tokens as int))
    } else {
        body
    };
    let body = with_some(body, "temperature"@, request.temperature);
    let body = with_some(body, "top_p"@, request.top_p);
    let body = if request.stop_sequences.len() == 0 {
        body
    } else {
        body.with(
            "stop"@,
            JsonView::Array(request.stop_sequences.map_values(|s: Seq<char>| JsonView::String(s))),
        )
    };
    let body = if request.tools.len() == 0 {
        body
    } else {
        body.with(
            "tools"@,
            JsonView::Array(request.tools.map_values(|t: ToolSpecView| tool_wire(t))),
        )
    };
    match request.tool_choice {
        Some(choice) => body.with("tool_choice"@, choice_wire(choice)),
        None => body,
    }
}

fn tool_to_wire(tool: &ToolSpec) -> (r: Json)
    ensures
        r@ == tool_wire(tool@),
{
    let function = Json::object().with("name", Json::text(tool.name.as_str())).with(
        "description",
        Json::text(tool.description.as_str()),
    ).with("parameters", tool.input_schema.clone());
    Json::object().with("type", Json::text("function")).with("function", function)
}

fn tools_to_wire(tools: &Vec<ToolSpec>) -> (r: Json)
    ensures
        r@ == JsonView::Array(tools.deep_view().map_values(|t: ToolSpecView| tool_wire(t))),
{
    let mut out: Vec<Json> = Vec::new();
    let mut i: usize = 0;
    let ghost wires = tools.deep_view().map_values(|t: ToolSpecView| tool_wire(t));
    while i < tools.len()
        invariant
            i <= tools@.len(),
            wires == tools.deep_view().map_values(|t: ToolSpecView| tool_wire(t)),
            out.deep_view() == wires.take(i as int),
        decreases tools@.len() - i,
    {
        let wire = tool_to_wire(&tools[i]);
        let ghost before = out;
        out.push(wire);
        i = i + 1;
        proof {
            lemma_pushed(before, out, wire);
        }
        assert(out.deep_view() == wires.take(i as int));
    }
    assert(wires.take(i as int) == wires);
    Json::array(out)
}

fn choice_to_wire(choice: &ToolChoice) -> (r: Json)
    ensures
        r@ == choice_wire(choice@),
{
    match choice {
        ToolChoice::Auto => Json::text("auto"),
        ToolChoice::Any => Json::text("required"),
        ToolChoice::Tool(name) => Json::object().with("type", Json::text("function")).with(
            "function",
            Json::object().with("name", Json::text(name.as_str())),
        ),
    }
}

/// The body of a call.
pub fn to_body(req: &Request, model: &str, stream: bool) -> (r: Json)
    ensures
        r@ == body_wire(req@, model@, stream),
{
    let mut messages: Vec<Json> = Vec::new();
    if let Some(system) = &req.system {
        messages.push(
            Json::object().with("role", Json::text("system")).with(
                "content",
                Json::text(system.as_str()),
            ),
        );
    }
    let ghost head = messages.deep_view();
    let ghost all = req@.messages;
    let mut i: usize = 0;
    assert(head + messages_wire(all.take(0)) == head);
    while i < req.messages.len()
        invariant
            i <= req.messages@.len(),
            all == req.messages.deep_view(),
            messages.deep_view() == head + messages_wire(all.take(i as int)),
        decreases req.messages@.len() - i,
    {
        let wires = message_to_wire(&req.messages[i]);
        let ghost more = wires.deep_view();
        let mut wires = wires;
        let ghost before = messages.deep_view();
        messages.append(&mut wires);
        proof {
            assert(messages.deep_view() == before + more);
            assert(all.take(i + 1).drop_last() == all.take(i as int));
            assert(before + more == head + (messages_wire(all.take(i as int)) + more));
        }
        i = i + 1;
    }
    assert(all.take(i as int) == all);
    assert(head == (match req@.system {
        Some(system) => seq![
            single("role"@, JsonView::String("system"@)).with(
                "content"@,
                JsonView::String(system),
            ),
        ],
        None => Seq::empty(),
    }));
    let mut body = Json::object().with("model", Json::text(model)).with(
        "messages",
        Json::array(messages),
    ).with("stream", Json::Bool(stream));
    if stream {
        // Ask for a final usage chunk; compatible servers that don't support
        // this option generally ignore it.
        body = body.with("stream_options", Json::object().with("include_usage", Json::Bool(true)));
    }
    if req.max_tokens > 0 {
        body = body.with("max_tokens", Json::integer(req.max_tokens as u64));
    }
    if let Some(temperature) = &req.temperature {
        body = body.with("temperature", temperature.clone());
    }
    if let Some(top_p) = &req.top_p {
        body = body.with("top_p", top_p.clone());
    }
    if req.stop_sequences.len() > 0 {
        body = body.with("stop", Json::texts(&req.stop_sequences));
    }
    if req.tools.len() > 0 {
        body = body.with("tools", tools_to_wire(&req.tools));
    }
    if let Some(choice) = &req.tool_choice {
        body = body.with("tool_choice", choice_to_wire(choice));
    }
    body
}

fn calls_to_wire(calls: &Vec<(&str, &str, &Json)>) -> (r: Json)
    ensures
        r@ == JsonView::Array(calls.deep_view().map_values(|c: UseView| call_wire(c))),
{
    let mut out: Vec<Json> = Vec::new();
    let mut i: usize = 0;
    let ghost wires = calls.deep_view().map_values(|c: UseView| call_wire(c));
    while i < calls.len()
        invariant
            i <= calls@.len(),
            wires == calls.deep_view().map_values(|c: UseView| call_wire(c)),
            out.deep_view() == wires.take(i as int),
        decreases calls@.len() - i,
    {
        let (id, name, input) = calls[i];
        let wire = function_to_wire(id, name, render(input).as_str());
        let ghost before = out;
        out.push(wire);
        i = i + 1;
        proof {
            lemma_pushed(before, out, wire);
        }
        assert(out.deep_view() == wires.take(i as int));
    }
    assert(wires.take(i as int) == wires);
    Json::array(out)
}

fn result_to_wire(block: &Content) -> (r: Option<Json>)
    ensures
        r.deep_view() == result_wire(block@),
{
    match block {
        Content::ToolResult { tool_use_id, content, is_error } => {
            let content = if *is_error {
                concat("ERROR: ", content.as_str())
            } else {
                content.clone()
            };
            Some(
                Json::object().with("role", Json::text("tool")).with(
                    "tool_call_id",
                    Json::text(tool_use_id.as_str()),
                ).with("content", Json::text(content.as_str())),
            )
        },
        _ => None,
    }
}

/// One message can become several wire messages: tool results are separate
/// `role: "tool"` messages in this dialect.
pub fn message_to_wire(msg: &Message) -> (r: Vec<Json>)
    ensures
        r.deep_view() == message_wire(msg@),
{
    let text = msg.text();
    let mut out: Vec<Json> = Vec::new();
    match msg.role {
        Role::Assistant => {
            let calls = msg.tool_uses();
            let content = if text.as_str().is_empty() {
                Json::Null
            } else {
                Json::text(text.as_str())
            };
            let mut wire = Json::object().with("role", Json::text("assistant")).with(
                "content",
                content,
            );
            if calls.len() > 0 {
                wire = wire.with("tool_calls", calls_to_wire(&calls));
            }
            out.push(wire);
            assert(out.deep_view() == seq![assistant_wire(msg@.content)]);
        },
        Role::User => {
            let mut i: usize = 0;
            let ghost all = msg@.content;
            assert(out.deep_view() == results_wire(all.take(0)));
            while i < msg.content.len()
                invariant
                    i <= msg.content@.len(),
                    all == msg.content.deep_view(),
                    out.deep_view() == results_wire(all.take(i as int)),
                decreases msg.content@.len() - i,
            {
                assert(all.take(i + 1).drop_last() == all.take(i as int));
                let ghost before = out;
                if let Some(wire) = result_to_wire(&msg.content[i]) {
                    out.push(wire);
                    proof {
                        lemma_pushed(before, out, wire);
                    }
                }
                i = i + 1;
            }
            assert(all.take(i as int) == all);
            if !text.as_str().is_empty() {
                let wire = Json::object().with("role", Json::text("user")).with(
                    "content",
                    Json::text(text.as_str()),
                );
                let ghost before = out;
                out.push(wire);
                proof {
                    lemma_pushed(before, out, wire);
                }
            }
        },
    }
    out
}

/// The stop reason that a wire value stands for.
pub open spec fn stop_reason_of(value: Option<Seq<char>>) -> StopReasonView {
    match value {
        None => StopReasonView::EndTurn,
        Some(name) => if name == "stop"@ {
            StopReasonView::EndTurn
        } else if name == "tool_calls"@ {
            StopReasonView::ToolUse
        } else if name == "length"@ {
            StopReasonView::MaxTokens
        } else {
            StopReasonView::Other(name)
        },
    }
}

/// The stop reason that a wire value stands for.
pub fn parse_stop_reason(value: Option<&str>) -> (r: StopReason)
    ensures
        r@ == stop_reason_of(value.deep_view()),
{
    match value {
        None => StopReason::EndTurn,
        Some(name) => if same(name, "stop") {
            StopReason::EndTurn
        } else if same(name, "tool_calls") {
            StopReason::ToolUse
        } else if same(name, "length") {
            StopReason::MaxTokens
        } else {
            StopReason::Other(name.to_owned())
        },
    }
}

/// The token counts in a wire value: 0 where there is none.
pub open spec fn usage_of(usage: JsonView) -> Usage {
    Usage {
        input_tokens: usage.at("prompt_tokens"@).count(),
        output_tokens: usage.at("completion_tokens"@).count(),
    }
}

/// The token counts in a wire value: 0 where there is none.
pub fn parse_usage(usage: &Json) -> (r: Usage)
    ensures
        r == usage_of(usage@),
{
    Usage {
        input_tokens: usage.at("prompt_tokens").count(),
        output_tokens: usage.at("completion_tokens").count(),
    }
}

/// The input that the arguments of a tool call stand for: the empty object
/// where there is only white space.
pub open spec fn arguments_of(arguments: Seq<char>) -> Result<JsonView, ModelErrorView> {
    if trimmed(arguments).len() == 0 {
        Ok(JsonView::empty_object())
    } else {
        arguments_read(json_parse(arguments))
    }
}

/// The input in a tool call's arguments, of which this is what JSON parsing
/// gave.
pub open spec fn arguments_read(parsed: Result<JsonView, Seq<char>>) -> Result<
    JsonView,
    ModelErrorView,
> {
    match parsed {
        Ok(json) => Ok(json),
        Err(words) => Err(ModelErrorView::Deserialize("unparseable tool arguments: "@ + words)),
    }
}

/// The input in a tool call's arguments, of which this is what JSON parsing
/// gave.
pub fn read_arguments(parsed: Result<Json, String>) -> (r: Result<Json, ModelError>)
    ensures
        ({
            let parsed = match parsed {
                Ok(json) => Ok::<JsonView, Seq<char>>(json@),
                Err(words) => Err::<JsonView, Seq<char>>(words@),
            };
            match r {
                Ok(json) => arguments_read(parsed) == Ok::<JsonView, ModelErrorView>(json@),
                Err(error) => arguments_read(parsed) == Err::<JsonView, ModelErrorView>(error@),
            }
        }),
{
    match parsed {
        Ok(json) => Ok(json),
        Err(words) => Err(
            ModelError::Deserialize(concat("unparseable tool arguments: ", words.as_str())),
        ),
    }
}

/// The input that the arguments of a tool call stand for.
pub fn parse_arguments(arguments: &str) -> (r: Result<Json, ModelError>)
    ensures
        match r {
            Ok(json) => arguments_of(arguments@) == Ok::<JsonView, ModelErrorView>(json@),
            Err(error) => arguments_of(arguments@) == Err::<JsonView, ModelErrorView>(error@),
        },
{
    if trim(arguments).as_str().is_empty() {
        return Ok(Json::object());
    }
    read_arguments(parse(arguments))
}

/// The id of a tool call that came without one.
pub open spec fn default_id(index: int) -> Seq<char> {
    "call_"@ + decimal_text(index as nat)
}

fn make_id(index: usize) -> (r: String)
    ensures
        r@ == default_id(index as int),
{
    concat("call_", decimal(index as u64).as_str())
}

/// The tool call that a wire call at `index` stands for, where its arguments are
/// this input.
pub open spec fn call_with(call: JsonView, index: int, input: JsonView) -> ContentView {
    ContentView::ToolUse {
        id: match call.at("id"@).as_str() {
            Some(id) => id,
            None => default_id(index),
        },
        name: call.at("function"@).at("name"@).text(),
        input,
    }
}

/// The tool call that a wire call at `index` stands for.
pub open spec fn call_of(call: JsonView, index: int) -> Result<ContentView, ModelErrorView> {
    match arguments_of(call.at("function"@).at("arguments"@).text()) {
        Ok(input) => Ok(call_with(call, index, input)),
        Err(error) => Err(error),
    }
}

/// The tool call that a wire call at `index` stands for, where its arguments are
/// this input.
pub fn parse_call(call: &Json, index: usize, input: Json) -> (r: Content)
    ensures
        r@ == call_with(call@, index as int, input@),
{
    let id = match call.at("id").as_str() {
        Some(id) => id.to_owned(),
        None => make_id(index),
    };
    let name = call.at("function").at("name").text_or_empty().to_owned();
    Content::ToolUse { id, name, input }
}

/// The tool calls that the wire calls stand for, in their order; the first
/// failure, if there is one.
pub open spec fn calls_of(calls: Seq<JsonView>) -> Result<Seq<ContentView>, ModelErrorView>
    decreases calls.len(),
{
    if calls.len() == 0 {
        Ok(Seq::empty())
    } else {
        match calls_of(calls.drop_last()) {
            Err(error) => Err(error),
            Ok(before) => match call_of(calls.last(), calls.len() - 1) {
                Ok(call) => Ok(before.push(call)),
                Err(error) => Err(error),
            },
        }
    }
}

/// A block of text, where there is text.
pub open spec fn text_block(text: Seq<char>) -> Seq<ContentView> {
    if text.len() == 0 {
        Seq::empty()
    } else {
        seq![ContentView::Text { text }]
    }
}

/// The response that a complete wire response stands for.
pub open spec fn response_of(value: JsonView) -> Result<ResponseView, ModelErrorView> {
    match value.at("choices"@).head() {
        None => Err(ModelErrorView::Deserialize("response has no choices"@)),
        Some(choice) => {
            let wire = choice.at("message"@);
            let calls = match wire.at("tool_calls"@).as_array() {
                Some(calls) => calls_of(calls),
                None => Ok(Seq::empty()),
            };
            match calls {
                Err(error) => Err(error),
                Ok(calls) => Ok(
                    ResponseView {
                        message: MessageView {
                            role: Role::Assistant,
                            content: text_block(wire.at("content"@).text()) + calls,
                        },
                        stop_reason: stop_reason_of(choice.at("finish_reason"@).as_str()),
                        usage: usage_of(value.at("usage"@)),
                    },
                ),
            }
        },
    }
}

fn parse_calls(calls: &Vec<Json>) -> (r: Result<Vec<Content>, ModelError>)
    ensures
        match r {
            Ok(out) => calls_of(calls.deep_view()) == Ok::<Seq<ContentView>, ModelErrorView>(
                out.deep_view(),
            ),
            Err(error) => calls_of(calls.deep_view()) == Err::<Seq<ContentView>, ModelErrorView>(
                error@,
            ),
        },
{
    let mut out: Vec<Content> = Vec::new();
    let mut i: usize = 0;
    let ghost all = calls.deep_view();
    assert(out.deep_view() == Seq::<ContentView>::empty());
    while i < calls.len()
        invariant
            i <= calls@.len(),
            all == calls.deep_view(),
            calls_of(all.take(i as int)) == Ok::<Seq<ContentView>, ModelErrorView>(out.deep_view()),
        decreases calls@.len() - i,
    {
        assert(all.take(i + 1).drop_last() == all.take(i as int));
        let call = &calls[i];
        let input = match parse_arguments(call.at("function").at("arguments").text_or_empty()) {
            Ok(input) => input,
            Err(error) => {
                proof {
                    lemma_failed_call(all, i as int, error@);
                }
                return Err(error);
            },
        };
        let block = parse_call(call, i, input);
        let ghost before = out;
        out.push(block);
        proof {
            lemma_pushed(before, out, block);
        }
        i = i + 1;
    }
    assert(all.take(i as int) == all);
    Ok(out)
}

proof fn lemma_failed_call(calls: Seq<JsonView>, i: int, error: ModelErrorView)
    requires
        0 <= i < calls.len(),
        calls_of(calls.take(i)) is Ok,
        call_of(calls[i], i) == Err::<ContentView, ModelErrorView>(error),
    ensures
        calls_of(calls) == Err::<Seq<ContentView>, ModelErrorView>(error),
    decreases calls.len(),
{
    if i == calls.len() - 1 {
        assert(calls.drop_last() == calls.take(i));
    } else {
        assert(calls.drop_last().take(i) == calls.take(i));
        lemma_failed_call(calls.drop_last(), i, error);
    }
}

/// Parse a complete (non-streaming) Chat Completions response.
pub fn parse_response(value: &Json) -> (r: Result<Response, ModelError>)
    ensures
        match r {
            Ok(response) => response_of(value@) == Ok::<ResponseView, ModelErrorView>(response@),
            Err(error) => response_of(value@) == Err::<ResponseView, ModelErrorView>(error@),
        },
{
    let choice = match value.at("choices").head() {
        None => {
            return Err(ModelError::Deserialize("response has no choices".to_owned()));
        },
        Some(choice) => choice,
    };
    let wire = choice.at("message");
    let mut content: Vec<Content> = Vec::new();
    let text = wire.at("content").text_or_empty();
    if !text.is_empty() {
        content.push(Content::Text { text: text.to_owned() });
    }
    assert(content.deep_view() == text_block(text@));
    if let Some(calls) = wire.at("tool_calls").as_array() {
        match parse_calls(calls) {
            Ok(calls) => {
                let mut calls = calls;
                let ghost more = calls.deep_view();
                content.append(&mut calls);
                assert(content.deep_view() == text_block(text@) + more);
            },
            Err(error) => {
                return Err(error);
            },
        }
    } else {
        assert(text_block(text@) + Seq::<ContentView>::empty() == text_block(text@));
    }
    Ok(
        Response {
            message: Message { role: Role::Assistant, content },
            stop_reason: parse_stop_reason(choice.at("finish_reason").as_str()),
            usage: parse_usage(value.at("usage")),
        },
    )
}

/// A tool call as far as its pieces have come.
#[verifier::ext_equal]
pub struct CallView {
    /// The id last given, if one was.
    pub id: Option<Seq<char>>,
    pub name: Seq<char>,
    pub arguments: Seq<char>,
    /// Whether its start has been handed on.
    pub started: bool,
}

/// What has been assembled so far.
#[verifier::ext_equal]
pub struct ChunkAssemblerView {
    pub text: Seq<char>,
    pub tool_calls: Seq<CallView>,
    pub finish_reason: Option<Seq<char>>,
    pub usage: Usage,
    pub finished: bool,
}

/// The calls, with blank ones up to `index` where there are none yet.
pub open spec fn grown(calls: Seq<CallView>, index: int) -> Seq<CallView> {
    Seq::new(
        if calls.len() <= index {
            (index + 1) as nat
        } else {
            calls.len()
        },
        |i: int|
            if i < calls.len() {
                calls[i]
            } else {
                CallView::blank()
            },
    )
}

/// The call that a piece is about.
pub open spec fn index_of(piece: JsonView) -> usize {
    piece.at("index"@).count() as usize
}

impl CallView {
    /// A call of which no piece has come.
    pub open spec fn blank() -> CallView {
        CallView {
            id: None,
            name: Seq::empty(),
            arguments: Seq::empty(),
            started: false,
        }
    }

    /// The call with the id and name of a piece. An empty id leaves the id alone
    /// once there is one, or once the start has been handed on.
    pub open spec fn named(self, piece: JsonView) -> CallView {
        CallView {
            id: match piece.at("id"@).as_str() {
                Some(id) if id.len() > 0 || (self.id is None && !self.started) => Some(id),
                _ => self.id,
            },
            name: self.name + piece.at("function"@).at("name"@).text(),
            ..self
        }
    }

    /// Whether the start of the call is due: its name is there, and the start
    /// has not been handed on.
    pub open spec fn starts(self) -> bool {
        !self.started && self.name.len() > 0
    }

    /// The id given, or one made of the index where none was.
    pub open spec fn known_id(self, index: int) -> Seq<char> {
        match self.id {
            Some(id) => id,
            None => default_id(index),
        }
    }

    /// The call after a piece, and what the piece hands on.
    pub open spec fn extended(self, index: int, piece: JsonView) -> (
        CallView,
        Seq<StreamEventView>,
    ) {
        let named = self.named(piece);
        let start = if named.starts() {
            seq![StreamEventView::ToolUseStart { id: named.known_id(index), name: named.name }]
        } else {
            Seq::empty()
        };
        let more = piece.at("function"@).at("arguments"@).text();
        let delta = if more.len() == 0 {
            Seq::empty()
        } else {
            seq![StreamEventView::InputJsonDelta(more)]
        };
        (
            CallView {
                arguments: self.arguments + more,
                started: self.started || named.starts(),
                ..named
            },
            start + delta,
        )
    }

    /// The tool call that this one at `index` stands for.
    pub open spec fn content(self, index: int) -> Result<ContentView, ModelErrorView> {
        match arguments_of(self.arguments) {
            Ok(input) => Ok(
                ContentView::ToolUse { id: self.known_id(index), name: self.name, input },
            ),
            Err(error) => Err(error),
        }
    }
}

/// The tool calls that the assembled calls stand for, in their order; the first
/// failure, if there is one.
pub open spec fn contents(calls: Seq<CallView>) -> Result<Seq<ContentView>, ModelErrorView>
    decreases calls.len(),
{
    if calls.len() == 0 {
        Ok(Seq::empty())
    } else {
        match contents(calls.drop_last()) {
            Err(error) => Err(error),
            Ok(before) => match calls.last().content(calls.len() - 1) {
                Ok(call) => Ok(before.push(call)),
                Err(error) => Err(error),
            },
        }
    }
}

proof fn lemma_failed_content(calls: Seq<CallView>, i: int, error: ModelErrorView)
    requires
        0 <= i < calls.len(),
        contents(calls.take(i)) is Ok,
        calls[i].content(i) == Err::<ContentView, ModelErrorView>(error),
    ensures
        contents(calls) == Err::<Seq<ContentView>, ModelErrorView>(error),
    decreases calls.len(),
{
    if i == calls.len() - 1 {
        assert(calls.drop_last() == calls.take(i));
    } else {
        assert(calls.drop_last().take(i) == calls.take(i));
        lemma_failed_content(calls.drop_last(), i, error);
    }
}

impl ChunkAssemblerView {
    /// Nothing has been assembled yet.
    pub open spec fn fresh() -> ChunkAssemblerView {
        ChunkAssemblerView {
            text: Seq::empty(),
            tool_calls: Seq::empty(),
            finish_reason: None,
            usage: Usage::zero(),
            finished: false,
        }
    }

    /// After one piece of a tool call.
    pub open spec fn called(self, piece: JsonView) -> (ChunkAssemblerView, Seq<StreamEventView>) {
        let index = index_of(piece) as int;
        let calls = grown(self.tool_calls, index);
        let (call, out) = calls[index].extended(index, piece);
        (ChunkAssemblerView { tool_calls: calls.update(index, call), ..self }, out)
    }

    /// After some pieces of tool calls.
    pub open spec fn called_all(self, pieces: Seq<JsonView>) -> (
        ChunkAssemblerView,
        Seq<StreamEventView>,
    )
        decreases pieces.len(),
    {
        if pieces.len() == 0 {
            (self, Seq::empty())
        } else {
            let (before, out) = self.called_all(pieces.drop_last());
            let (after, more) = before.called(pieces.last());
            (after, out + more)
        }
    }

    /// With the usage of a chunk, where it has one.
    pub open spec fn metered(self, chunk: JsonView) -> ChunkAssemblerView {
        let usage = chunk.at("usage"@);
        ChunkAssemblerView {
            usage: if usage is Object {
                usage_of(usage)
            } else {
                self.usage
            },
            ..self
        }
    }

    /// With the finish reason and the text of a choice.
    pub open spec fn told(self, choice: JsonView) -> ChunkAssemblerView {
        let reason = choice.at("finish_reason"@).as_str();
        ChunkAssemblerView {
            finish_reason: if reason is Some {
                reason
            } else {
                self.finish_reason
            },
            text: self.text + choice.at("delta"@).at("content"@).text(),
            ..self
        }
    }

    /// What a chunk makes of the state, and what it hands on.
    pub open spec fn handled(self, chunk: JsonView) -> (
        ChunkAssemblerView,
        Seq<StreamEventView>,
    ) {
        let metered = self.metered(chunk);
        match chunk.at("choices"@).head() {
            None => (metered, Seq::empty()),
            Some(choice) => {
                let told = metered.told(choice);
                let text = choice.at("delta"@).at("content"@).text();
                let out = if text.len() == 0 {
                    Seq::empty()
                } else {
                    seq![StreamEventView::TextDelta(text)]
                };
                let (after, more) = told.called_all(pieces_of(chunk));
                (after, out + more)
            },
        }
    }

    /// The response as it stands, or why there is none: the arguments of a tool
    /// call cannot be read.
    pub open spec fn response(self) -> Result<ResponseView, ModelErrorView> {
        match contents(self.tool_calls) {
            Err(error) => Err(error),
            Ok(calls) => Ok(
                ResponseView {
                    message: MessageView {
                        role: Role::Assistant,
                        content: text_block(self.text) + calls,
                    },
                    stop_reason: stop_reason_of(self.finish_reason),
                    usage: self.usage,
                },
            ),
        }
    }

    /// How the stream ends: with the response, or with why there is none.
    pub open spec fn ended(self) -> Option<Result<StreamEventView, ModelErrorView>> {
        if self.finished {
            None
        } else {
            match self.response() {
                Ok(response) => Some(Ok(StreamEventView::Completed(response))),
                Err(error) => Some(Err(error)),
            }
        }
    }

    /// The state once the stream has ended.
    pub open spec fn closed(self) -> ChunkAssemblerView {
        if self.finished {
            self
        } else {
            ChunkAssemblerView {
                text: Seq::empty(),
                tool_calls: Seq::empty(),
                finished: true,
                ..self
            }
        }
    }
}

/// The pieces of tool calls in a chunk.
pub open spec fn pieces_of(chunk: JsonView) -> Seq<JsonView> {
    match chunk.at("choices"@).head() {
        None => Seq::empty(),
        Some(choice) => match choice.at("delta"@).at("tool_calls"@).as_array() {
            Some(pieces) => pieces,
            None => Seq::empty(),
        },
    }
}

/// Whether a chunk stays within what the machine can hold.
pub open spec fn acceptable(chunk: JsonView) -> bool {
    forall|i: int|
        0 <= i < pieces_of(chunk).len() ==> index_of(#[trigger] pieces_of(chunk)[i]) < usize::MAX
}

struct PartialToolCall {
    id: Option<String>,
    name: String,
    arguments: String,
    started_emitted: bool,
}

impl View for PartialToolCall {
    type V = CallView;

    closed spec fn view(&self) -> CallView {
        CallView {
            id: self.id.deep_view(),
            name: self.name@,
            arguments: self.arguments@,
            started: self.started_emitted,
        }
    }
}

impl DeepView for PartialToolCall {
    type V = CallView;

    closed spec fn deep_view(&self) -> CallView {
        self@
    }
}

impl PartialToolCall {
    fn blank() -> (r: PartialToolCall)
        ensures
            r@ == CallView::blank(),
    {
        PartialToolCall {
            id: None,
            name: String::new(),
            arguments: String::new(),
            started_emitted: false,
        }
    }

    fn known_id(&self, index: usize) -> (r: String)
        ensures
            r@ == self@.known_id(index as int),
    {
        match &self.id {
            Some(id) => id.clone(),
            None => make_id(index),
        }
    }

    fn extend(&mut self, index: usize, piece: &Json, out: &mut Vec<StreamEvent>)
        ensures
            final(self)@ == old(self)@.extended(index as int, piece@).0,
            final(out).deep_view() == old(out).deep_view() + old(self)@.extended(
                index as int,
                piece@,
            ).1,
    {
        let ghost first = out.deep_view();
        if let Some(id) = piece.at("id").as_str() {
            if !id.is_empty() || (self.id.is_none() && !self.started_emitted) {
                self.id = Some(id.to_owned());
            }
        }
        self.name.append(piece.at("function").at("name").text_or_empty());
        assert(self@ == old(self)@.named(piece@));
        let ghost named = self@;
        if !self.started_emitted && !self.name.as_str().is_empty() {
            self.started_emitted = true;
            let id = self.known_id(index);
            let ghost before = *out;
            out.push(StreamEvent::ToolUseStart { id, name: self.name.clone() });
            proof {
                lemma_pushed(before, *out, out@.last());
            }
        }
        let ghost second = out.deep_view();
        assert(second == first + (if named.starts() {
            seq![
                StreamEventView::ToolUseStart {
                    id: named.known_id(index as int),
                    name: named.name,
                },
            ]
        } else {
            Seq::empty()
        }));
        let more = piece.at("function").at("arguments").text_or_empty();
        if !more.is_empty() {
            self.arguments.append(more);
            let ghost before = *out;
            out.push(StreamEvent::InputJsonDelta(more.to_owned()));
            proof {
                lemma_pushed(before, *out, out@.last());
            }
        } else {
            assert(self.arguments@ + more@ == self.arguments@);
        }
        assert(out.deep_view() == second + (if more@.len() == 0 {
            Seq::empty()
        } else {
            seq![StreamEventView::InputJsonDelta(more@)]
        }));
    }
}

/// Folds streaming chunks into typed [`StreamEvent`]s and the final
/// [`Response`]. Chat Completions streams have no explicit terminator event
/// carrying the message, so [`ChunkAssembler::finish`] builds it when the
/// `[DONE]` sentinel (or end of stream) is reached.
pub struct ChunkAssembler {
    text: String,
    tool_calls: Vec<PartialToolCall>,  // indexed by the wire `index`
    finish_reason: Option<String>,
    usage: Usage,
    finished: bool,
}

impl View for ChunkAssembler {
    type V = ChunkAssemblerView;

    closed spec fn view(&self) -> ChunkAssemblerView {
        ChunkAssemblerView {
            text: self.text@,
            tool_calls: self.tool_calls.deep_view(),
            finish_reason: self.finish_reason.deep_view(),
            usage: self.usage,
            finished: self.finished,
        }
    }
}

impl Default for ChunkAssembler {
    fn default() -> (r: ChunkAssembler)
        ensures
            r@ == ChunkAssemblerView::fresh(),
    {
        ChunkAssembler {
            text: String::new(),
            tool_calls: Vec::new(),
            finish_reason: None,
            usage: Usage::default(),
            finished: false,
        }
    }
}

impl ChunkAssembler {
    /// Whether [`ChunkAssembler::handle`] can take a chunk: none of its tool
    /// calls stands at the last index there is.
    pub fn accepts(chunk: &Json) -> (r: bool)
        ensures
            r == acceptable(chunk@),
    {
        if let Some(choice) = chunk.at("choices").head() {
            if let Some(pieces) = choice.at("delta").at("tool_calls").as_array() {
                let ghost all = pieces.deep_view();
                let mut i: usize = 0;
                while i < pieces.len()
                    invariant
                        i <= pieces@.len(),
                        all == pieces.deep_view(),
                        all == pieces_of(chunk@),
                        forall|k: int| 0 <= k < i ==> index_of(#[trigger] all[k]) < usize::MAX,
                    decreases pieces@.len() - i,
                {
                    if pieces[i].at("index").count() as usize == usize::MAX {
                        assert(index_of(all[i as int]) == usize::MAX);
                        return false;
                    }
                    i = i + 1;
                }
            }
        }
        true
    }

    fn call(&mut self, piece: &Json, out: &mut Vec<StreamEvent>)
        requires
            index_of(piece@) < usize::MAX,
        ensures
            final(self)@ == old(self)@.called(piece@).0,
            final(out).deep_view() == old(out).deep_view() + old(self)@.called(piece@).1,
    {
        let index: usize = piece.at("index").count() as usize;
        let ghost calls = self@.tool_calls;
        let ghost rest = self@;
        while self.tool_calls.len() <= index
            invariant
                index < usize::MAX,
                calls.len() <= self.tool_calls@.len(),
                self.tool_calls@.len() <= index + 1 || self.tool_calls@.len() == calls.len(),
                forall|i: int|
                    0 <= i < self.tool_calls@.len() ==> #[trigger] self.tool_calls@[i]@ == (if i
                        < calls.len() {
                        calls[i]
                    } else {
                        CallView::blank()
                    }),
                self.text@ == rest.text,
                self.finish_reason.deep_view() == rest.finish_reason,
                self.usage == rest.usage,
                self.finished == rest.finished,
            decreases index + 1 - self.tool_calls@.len(),
        {
            self.tool_calls.push(PartialToolCall::blank());
        }
        assert(self.tool_calls.deep_view() == grown(calls, index as int));
        let mut call = PartialToolCall::blank();
        std::mem::swap(&mut call, &mut self.tool_calls[index]);
        call.extend(index, piece, out);
        let ghost view = call@;
        self.tool_calls.set(index, call);
        assert(self.tool_calls.deep_view() == grown(calls, index as int).update(
            index as int,
            view,
        ));
    }

    /// What a chunk makes of the state, and what it hands on. No chunk fails.
    pub fn handle(&mut self, chunk: &Json) -> (r: Result<Vec<StreamEvent>, ModelError>)
        requires
            acceptable(chunk@),
        ensures
            final(self)@ == old(self)@.handled(chunk@).0,
            r matches Ok(out) && out.deep_view() == old(self)@.handled(chunk@).1,
    {
        let mut out: Vec<StreamEvent> = Vec::new();
        assert(out.deep_view() == Seq::<StreamEventView>::empty());
        // The final usage-only chunk has an empty `choices` array.
        let usage = chunk.at("usage");
        if usage.is_object() {
            self.usage = parse_usage(usage);
        }
        let choice = match chunk.at("choices").head() {
            None => {
                return Ok(out);
            },
            Some(choice) => choice,
        };
        if let Some(reason) = choice.at("finish_reason").as_str() {
            self.finish_reason = Some(reason.to_owned());
        }
        let delta = choice.at("delta");
        let text = delta.at("content").text_or_empty();
        if !text.is_empty() {
            self.text.append(text);
            out.push(StreamEvent::TextDelta(text.to_owned()));
        } else {
            assert(self.text@ + text@ == self.text@);
        }
        let ghost told = self@;
        let ghost first = out.deep_view();
        assert(told == old(self)@.metered(chunk@).told(choice@));
        assert(first == (if text@.len() == 0 {
            Seq::empty()
        } else {
            seq![StreamEventView::TextDelta(text@)]
        }));
        assert(first + Seq::<StreamEventView>::empty() == first);
        if let Some(pieces) = delta.at("tool_calls").as_array() {
            let ghost all = pieces.deep_view();
            let mut i: usize = 0;
            assert(all.take(0) == Seq::<JsonView>::empty());
            assert(all == pieces_of(chunk@));
            while i < pieces.len()
                invariant
                    i <= pieces@.len(),
                    all == pieces.deep_view(),
                    forall|k: int| 0 <= k < all.len() ==> index_of(#[trigger] all[k]) < usize::MAX,
                    self@ == told.called_all(all.take(i as int)).0,
                    out.deep_view() == first + told.called_all(all.take(i as int)).1,
                decreases pieces@.len() - i,
            {
                let ghost before = told.called_all(all.take(i as int));
                assert(all.take(i + 1).drop_last() == all.take(i as int));
                assert(index_of(all[i as int]) < usize::MAX);
                self.call(&pieces[i], &mut out);
                assert(first + before.1 + before.0.called(all[i as int]).1 == first + (before.1
                    + before.0.called(all[i as int]).1));
                i = i + 1;
            }
            assert(all.take(i as int) == all);
        }
        Ok(out)
    }

    /// How the stream ends: with the final `Completed` event, or with an error
    /// where the arguments of a tool call cannot be read. Returns `None` if
    /// already finished.
    pub fn end(&mut self) -> (r: Option<Result<StreamEvent, ModelError>>)
        ensures
            final(self)@ == old(self)@.closed(),
            match r {
                None => old(self)@.ended() is None,
                Some(Ok(event)) => old(self)@.ended() == Some(
                    Ok::<StreamEventView, ModelErrorView>(event@),
                ),
                Some(Err(error)) => old(self)@.ended() == Some(
                    Err::<StreamEventView, ModelErrorView>(error@),
                ),
            },
    {
        if self.finished {
            return None;
        }
        self.finished = true;
        let mut content: Vec<Content> = Vec::new();
        if !self.text.as_str().is_empty() {
            let mut text = String::new();
            std::mem::swap(&mut text, &mut self.text);
            content.push(Content::Text { text });
        }
        assert(self.text@ == Seq::<char>::empty());
        let ghost head = text_block(old(self)@.text);
        assert(content.deep_view() == head);
        let mut calls: Vec<PartialToolCall> = Vec::new();
        std::mem::swap(&mut calls, &mut self.tool_calls);
        assert(self.tool_calls.deep_view() == Seq::<CallView>::empty());
        let ghost all = calls.deep_view();
        let mut i: usize = 0;
        let ghost mut blocks = Seq::<ContentView>::empty();
        assert(head + blocks == head);
        assert(all.take(0) == Seq::<CallView>::empty());
        while i < calls.len()
            invariant
                i <= calls@.len(),
                all == calls.deep_view(),
                contents(all.take(i as int)) == Ok::<Seq<ContentView>, ModelErrorView>(blocks),
                content.deep_view() == head + blocks,
                self@ == old(self)@.closed(),
                !old(self)@.finished,
                old(self)@.tool_calls == all,
            decreases calls@.len() - i,
        {
            assert(all.take(i + 1).drop_last() == all.take(i as int));
            let call = &calls[i];
            let input = match parse_arguments(call.arguments.as_str()) {
                Ok(input) => input,
                Err(error) => {
                    proof {
                        lemma_failed_content(all, i as int, error@);
                    }
                    return Some(Err(error));
                },
            };
            let block = Content::ToolUse {
                id: call.known_id(i),
                name: call.name.clone(),
                input,
            };
            let ghost before = content;
            content.push(block);
            proof {
                lemma_pushed(before, content, block);
                assert((head + blocks).push(block@) == head + blocks.push(block@));
                blocks = blocks.push(block@);
            }
            i = i + 1;
        }
        assert(all.take(i as int) == all);
        let reason: Option<&str> = match &self.finish_reason {
            Some(reason) => Some(reason.as_str()),
            None => None,
        };
        Some(
            Ok(
                StreamEvent::Completed(
                    Response {
                        message: Message { role: Role::Assistant, content },
                        stop_reason: parse_stop_reason(reason),
                        usage: self.usage,
                    },
                ),
            ),
        )
    }

    /// Build the final `Completed` event. Returns `None` if already finished, or
    /// if there is no response to complete: [`ChunkAssembler::end`] says why.
    pub fn finish(&mut self) -> (r: Option<StreamEvent>)
        ensures
            final(self)@ == old(self)@.closed(),
            r.deep_view() == (match old(self)@.ended() {
                Some(Ok(event)) => Some(event),
                _ => None,
            }),
    {
        match self.end() {
            Some(Ok(event)) => Some(event),
            _ => None,
        }
    }
}

}
