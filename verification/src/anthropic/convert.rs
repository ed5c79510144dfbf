//! Mapping between the library's types and the Messages API wire format.

use vstd::prelude::*;

use crate::duplicate::lemma_pushed;
use crate::error::{ModelError, ModelErrorView};
use crate::json::{Json, JsonView};
use crate::message::{Content, ContentView, Message, MessageView, Role};
use crate::model::{
    Request, RequestView, Response, ResponseView, StopReason, StopReasonView, ToolChoice,
    ToolChoiceView, ToolSpec, ToolSpecView, Usage,
};
use crate::text::same;

verus! {

/// The wire form of a block. Thinking blocks are not sent back.
pub open spec fn block_wire(block: ContentView) -> Option<JsonView> {
    match block {
        ContentView::Text { text } => Some(
            JsonView::empty_object().with("type"@, JsonView::String("text"@)).with(
                "text"@,
                JsonView::String(text),
            ),
        ),
        ContentView::Thinking { .. } => None,
        ContentView::ToolUse { id, name, input } => Some(
            JsonView::empty_object().with("type"@, JsonView::String("tool_use"@)).with(
                "id"@,
                JsonView::String(id),
            ).with("name"@, JsonView::String(name)).with("input"@, input),
        ),
        ContentView::ToolResult { tool_use_id, content, is_error } => Some(
            JsonView::empty_object().with("type"@, JsonView::String("tool_result"@)).with(
                "tool_use_id"@,
                JsonView::String(tool_use_id),
            ).with("content"@, JsonView::String(content)).with("is_error"@, JsonView::Bool(is_error)),
        ),
    }
}

/// The wire forms of the blocks that have one, in their order.
pub open spec fn blocks_wire(blocks: Seq<ContentView>) -> Seq<JsonView>
    decreases blocks.len(),
{
    if blocks.len() == 0 {
        Seq::empty()
    } else {
        match block_wire(blocks.last()) {
            Some(wire) => blocks_wire(blocks.drop_last()).push(wire),
            None => blocks_wire(blocks.drop_last()),
        }
    }
}

/// The name of a role on the wire.
pub open spec fn role_name(role: Role) -> Seq<char> {
    match role {
        Role::User => "user"@,
        Role::Assistant => "assistant"@,
    }
}

/// The wire form of a message.
pub open spec fn message_wire(message: MessageView) -> JsonView {
    JsonView::empty_object().with("role"@, JsonView::String(role_name(message.role))).with(
        "content"@,
        JsonView::Array(blocks_wire(message.content)),
    )
}

/// The wire form of an advertised tool.
pub open spec fn tool_wire(tool: ToolSpecView) -> JsonView {
    JsonView::empty_object().with("name"@, JsonView::String(tool.name)).with(
        "description"@,
        JsonView::String(tool.description),
    ).with("input_schema"@, tool.input_schema)
}

/// The wire form of a tool choice.
pub open spec fn choice_wire(choice: ToolChoiceView) -> JsonView {
    match choice {
        ToolChoiceView::Auto => JsonView::empty_object().with("type"@, JsonView::String("auto"@)),
        ToolChoiceView::Any => JsonView::empty_object().with("type"@, JsonView::String("any"@)),
        ToolChoiceView::Tool(name) => JsonView::empty_object().with(
            "type"@,
            JsonView::String("tool"@),
        ).with("name"@, JsonView::String(name)),
    }
}

/// The body of a call. System prompt, temperature, tools and tool choice go in
/// only where the request has them.
pub open spec fn body_wire(
    request: RequestView,
    model: Seq<char>,
    default_max_tokens: u32,
    stream: bool,
) -> JsonView {
    let max_tokens = if request.max_tokens == 0 {
        default_max_tokens
    } else {
        request.max_tokens
    };
    let body = JsonView::empty_object().with("model"@, JsonView::String(model)).with(
        "max_tokens"@,
        JsonView::Integer(max_tokens as int),
    ).with(
        "messages"@,
        JsonView::Array(request.messages.map_values(|m: MessageView| message_wire(m))),
    ).with("stream"@, JsonView::Bool(stream));
    let body = match request.system {
        Some(system) => body.with("system"@, JsonView::String(system)),
        None => body,
    };
    let body = match request.temperature {
        Some(temperature) => body.with("temperature"@, temperature),
        None => body,
    };
    let body = if request.tools.len() == 0 {
        body
    } else {
        body.with(
            "tools"@,
            JsonView::Array(request.tools.map_values(|t: ToolSpecView| tool_wire(t))),
        )
    };
    match request.tool_choice {
        Some(choice) => body.with("tool_choice"@, choice_wire(choice)),
        None => body,
    }
}

fn tool_to_wire(tool: &ToolSpec) -> (r: Json)
    ensures
        r@ == tool_wire(tool@),
{
    Json::object().with("name", Json::text(tool.name.as_str())).with(
        "description",
        Json::text(tool.description.as_str()),
    ).with("input_schema", tool.input_schema.clone())
}

fn choice_to_wire(choice: &ToolChoice) -> (r: Json)
    ensures
        r@ == choice_wire(choice@),
{
    match choice {
        ToolChoice::Auto => Json::object().with("type", Json::text("auto")),
        ToolChoice::Any => Json::object().with("type", Json::text("any")),
        ToolChoice::Tool(name) => Json::object().with("type", Json::text("tool")).with(
            "name",
            Json::text(name.as_str()),
        ),
    }
}

/// The body of a call.
pub fn to_body(req: &Request, model: &str, default_max_tokens: u32, stream: bool) -> (r: Json)
    ensures
        r@ == body_wire(req@, model@, default_max_tokens, stream),
{
    let mut messages: Vec<Json> = Vec::new();
    let mut i: usize = 0;
    let ghost wires = req@.messages.map_values(|m: MessageView| message_wire(m));
    while i < req.messages.len()
        invariant
            i <= req.messages@.len(),
            wires == req.messages.deep_view().map_values(|m: MessageView| message_wire(m)),
            messages.deep_view() == wires.take(i as int),
        decreases req.messages@.len() - i,
    {
        let wire = message_to_wire(&req.messages[i]);
        let ghost before = messages;
        messages.push(wire);
        i = i + 1;
        proof {
            lemma_pushed(before, messages, wire);
        }
        assert(messages.deep_view() == wires.take(i as int));
    }
    assert(wires.take(i as int) == wires);
    let max_tokens: u32 = if req.max_tokens == 0 { default_max_tokens } else { req.max_tokens };
    let mut body = Json::object().with("model", Json::text(model)).with(
        "max_tokens",
        Json::integer(max_tokens as u64),
    ).with("messages", Json::array(messages)).with("stream", Json::Bool(stream));
    if let Some(system) = &req.system {
        body = body.with("system", Json::text(system.as_str()));
    }
    if let Some(temperature) = &req.temperature {
        body = body.with("temperature", temperature.clone());
    }
    if req.tools.len() > 0 {
        let mut tools: Vec<Json> = Vec::new();
        let mut k: usize = 0;
        let ghost wires = req@.tools.map_values(|t: ToolSpecView| tool_wire(t));
        while k < req.tools.len()
            invariant
                k <= req.tools@.len(),
                wires == req.tools.deep_view().map_values(|t: ToolSpecView| tool_wire(t)),
                tools.deep_view() == wires.take(k as int),
            decreases req.tools@.len() - k,
        {
            let wire = tool_to_wire(&req.tools[k]);
            let ghost before = tools;
            tools.push(wire);
            k = k + 1;
            proof {
                lemma_pushed(before, tools, wire);
            }
            assert(tools.deep_view() == wires.take(k as int));
        }
        assert(wires.take(k as int) == wires);
        body = body.with("tools", Json::array(tools));
    }
    if let Some(choice) = &req.tool_choice {
        body = body.with("tool_choice", choice_to_wire(choice));
    }
    body
}

fn block_to_wire(block: &Content) -> (r: Option<Json>)
    ensures
        r.deep_view() == block_wire(block@),
{
    match block {
        Content::Text { text } => Some(
            Json::object().with("type", Json::text("text")).with("text", Json::text(text.as_str())),
        ),
        Content::Thinking { .. } => None,
        Content::ToolUse { id, name, input } => Some(
            Json::object().with("type", Json::text("tool_use")).with(
                "id",
                Json::text(id.as_str()),
            ).with("name", Json::text(name.as_str())).with("input", input.clone()),
        ),
        Content::ToolResult { tool_use_id, content, is_error } => Some(
            Json::object().with("type", Json::text("tool_result")).with(
                "tool_use_id",
                Json::text(tool_use_id.as_str()),
            ).with("content", Json::text(content.as_str())).with("is_error", Json::Bool(*is_error)),
        ),
    }
}

/// The wire form of a message.
pub fn message_to_wire(msg: &Message) -> (r: Json)
    ensures
        r@ == message_wire(msg@),
{
    let role = match msg.role {
        Role::User => "user",
        Role::Assistant => "assistant",
    };
    let mut content: Vec<Json> = Vec::new();
    let mut i: usize = 0;
    let ghost all = msg@.content;
    assert(content.deep_view() == blocks_wire(all.take(0)));
    while i < msg.content.len()
        invariant
            i <= msg.content@.len(),
            all == msg.content.deep_view(),
            content.deep_view() == blocks_wire(all.take(i as int)),
        decreases msg.content@.len() - i,
    {
        assert(all.take(i + 1).drop_last() == all.take(i as int));
        let ghost before = content;
        if let Some(wire) = block_to_wire(&msg.content[i]) {
            content.push(wire);
            proof {
                lemma_pushed(before, content, wire);
            }
        }
        i = i + 1;
    }
    assert(all.take(i as int) == all);
    Json::object().with("role", Json::text(role)).with("content", Json::array(content))
}

/// The stop reason that a wire value stands for.
pub open spec fn stop_reason_of(value: Option<Seq<char>>) -> StopReasonView {
    match value {
        None => StopReasonView::EndTurn,
        Some(name) => if name == "end_turn"@ {
            StopReasonView::EndTurn
        } else if name == "tool_use"@ {
            StopReasonView::ToolUse
        } else if name == "max_tokens"@ {
            StopReasonView::MaxTokens
        } else if name == "stop_sequence"@ {
            StopReasonView::StopSequence
        } else {
            StopReasonView::Other(name)
        },
    }
}

/// The stop reason that a wire value stands for.
pub fn parse_stop_reason(value: Option<&str>) -> (r: StopReason)
    ensures
        r@ == stop_reason_of(value.deep_view()),
{
    match value {
        None => StopReason::EndTurn,
        Some(name) => if same(name, "end_turn") {
            StopReason::EndTurn
        } else if same(name, "tool_use") {
            StopReason::ToolUse
        } else if same(name, "max_tokens") {
            StopReason::MaxTokens
        } else if same(name, "stop_sequence") {
            StopReason::StopSequence
        } else {
            StopReason::Other(name.to_owned())
        },
    }
}

/// The block that a wire block stands for. Block types that are not known
/// stand for nothing.
pub open spec fn content_of(block: JsonView) -> Option<ContentView> {
    match block.at("type"@).as_str() {
        None => None,
        Some(kind) => if kind == "text"@ {
            Some(ContentView::Text { text: block.at("text"@).text() })
        } else if kind == "thinking"@ {
            Some(ContentView::Thinking { thinking: block.at("thinking"@).text() })
        } else if kind == "tool_use"@ {
            Some(
                ContentView::ToolUse {
                    id: block.at("id"@).text(),
                    name: block.at("name"@).text(),
                    input: block.at("input"@),
                },
            )
        } else {
            None
        },
    }
}

/// The block that a wire block stands for. Block types that are not known
/// (future additions) are skipped rather than failing the whole response.
pub fn parse_content_block(block: &Json) -> (r: Option<Content>)
    ensures
        r.deep_view() == content_of(block@),
{
    match block.at("type").as_str() {
        None => None,
        Some(kind) => if same(kind, "text") {
            Some(Content::Text { text: block.at("text").text_or_empty().to_owned() })
        } else if same(kind, "thinking") {
            Some(Content::Thinking { thinking: block.at("thinking").text_or_empty().to_owned() })
        } else if same(kind, "tool_use") {
            Some(
                Content::ToolUse {
                    id: block.at("id").text_or_empty().to_owned(),
                    name: block.at("name").text_or_empty().to_owned(),
                    input: block.at("input").clone(),
                },
            )
        } else {
            None
        },
    }
}

/// The token counts in a wire value: 0 where there is none.
pub open spec fn usage_of(usage: JsonView) -> Usage {
    Usage {
        input_tokens: usage.at("input_tokens"@).count(),
        output_tokens: usage.at("output_tokens"@).count(),
    }
}

/// The token counts in a wire value: 0 where there is none.
pub fn parse_usage(usage: &Json) -> (r: Usage)
    ensures
        r == usage_of(usage@),
{
    Usage {
        input_tokens: usage.at("input_tokens").count(),
        output_tokens: usage.at("output_tokens").count(),
    }
}

/// The blocks that the wire blocks stand for, in their order.
pub open spec fn contents_of(blocks: Seq<JsonView>) -> Seq<ContentView>
    decreases blocks.len(),
{
    if blocks.len() == 0 {
        Seq::empty()
    } else {
        match content_of(blocks.last()) {
            Some(content) => contents_of(blocks.drop_last()).push(content),
            None => contents_of(blocks.drop_last()),
        }
    }
}

/// The response that a complete wire response stands for.
pub open spec fn response_of(value: JsonView) -> Result<ResponseView, ModelErrorView> {
    match value.at("content"@).as_array() {
        None => Err(ModelErrorView::Deserialize("response missing content array"@)),
        Some(blocks) => Ok(
            ResponseView {
                message: MessageView { role: Role::Assistant, content: contents_of(blocks) },
                stop_reason: stop_reason_of(value.at("stop_reason"@).as_str()),
                usage: usage_of(value.at("usage"@)),
            },
        ),
    }
}

/// Parse a complete (non-streaming) Messages API response.
pub fn parse_response(value: &Json) -> (r: Result<Response, ModelError>)
    ensures
        match r {
            Ok(response) => response_of(value@) == Ok::<ResponseView, ModelErrorView>(response@),
            Err(error) => response_of(value@) == Err::<ResponseView, ModelErrorView>(error@),
        },
{
    let blocks = match value.at("content").as_array() {
        None => {
            return Err(ModelError::Deserialize("response missing content array".to_owned()));
        },
        Some(blocks) => blocks,
    };
    let mut content: Vec<Content> = Vec::new();
    let mut i: usize = 0;
    let ghost all = blocks.deep_view();
    assert(content.deep_view() == contents_of(all.take(0)));
    while i < blocks.len()
        invariant
            i <= blocks@.len(),
            all == blocks.deep_view(),
            content.deep_view() == contents_of(all.take(i as int)),
        decreases blocks@.len() - i,
    {
        assert(all.take(i + 1).drop_last() == all.take(i as int));
        let ghost before = content;
        if let Some(block) = parse_content_block(&blocks[i]) {
            content.push(block);
            proof {
                lemma_pushed(before, content, block);
            }
        }
        i = i + 1;
    }
    assert(all.take(i as int) == all);
    Ok(
        Response {
            message: Message { role: Role::Assistant, content },
            stop_reason: parse_stop_reason(value.at("stop_reason").as_str()),
            usage: parse_usage(value.at("usage")),
        },
    )
}

/// The tool choice of a request is sent with it, so that a tool that must be
/// called is named to the API.
pub proof fn law_tool_choice_is_sent(
    request: RequestView,
    model: Seq<char>,
    default_max_tokens: u32,
    stream: bool,
)
    ensures
        request.tool_choice matches Some(choice) ==> body_wire(
            request,
            model,
            default_max_tokens,
            stream,
        ).at("tool_choice"@) == choice_wire(choice),
        request.tool_choice matches Some(ToolChoiceView::Tool(name)) ==> body_wire(
            request,
            model,
            default_max_tokens,
            stream,
        ).at("tool_choice"@).at("name"@) == JsonView::String(name),
{
}

/// Thinking is never sent: a message goes over the wire as if it had none.
pub proof fn law_thinking_is_never_sent(content: Seq<ContentView>)
    ensures
        blocks_wire(content) == blocks_wire(content.filter(|b: ContentView| b !is Thinking)),
    decreases content.len(),
{
    reveal(Seq::filter);
    if content.len() > 0 {
        let spoken = |b: ContentView| b !is Thinking;
        law_thinking_is_never_sent(content.drop_last());
        let rest = content.drop_last().filter(spoken);
        if spoken(content.last()) {
            assert(content.filter(spoken) == rest.push(content.last()));
            assert(rest.push(content.last()).drop_last() == rest);
        }
    }
}

/// Blocks of text and tool calls come back from the wire as they were sent.
pub proof fn law_sent_blocks_come_back(block: ContentView)
    requires
        block is Text || block is ToolUse,
    ensures
        block_wire(block) is Some,
        content_of(block_wire(block)->0) == Some(block),
{
    reveal_strlit("type");
    reveal_strlit("text");
    reveal_strlit("thinking");
    reveal_strlit("tool_use");
    reveal_strlit("id");
    reveal_strlit("name");
    reveal_strlit("input");
    assert("type"@.len() == 4 && "type"@[0] == 't' && "type"@[1] == 'y');
    assert("text"@.len() == 4 && "text"@[0] == 't' && "text"@[1] == 'e');
    assert("thinking"@.len() == 8 && "thinking"@[1] == 'h');
    assert("tool_use"@.len() == 8 && "tool_use"@[1] == 'o');
    assert("id"@.len() == 2);
    assert("name"@.len() == 4 && "name"@[0] == 'n');
    assert("input"@.len() == 5);
}

}
