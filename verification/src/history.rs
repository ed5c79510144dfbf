//! Conversations as JSON: how a history is written down and read back.

use vstd::prelude::*;

use crate::codec::storable;
use crate::duplicate::lemma_pushed;
use crate::json::{Json, JsonView};
use crate::message::{Content, ContentView, Message, MessageView, Role};
use crate::text::same;

verus! {

/// A block as JSON.
pub open spec fn block_json(block: ContentView) -> JsonView {
    match block {
        ContentView::Text { text } => JsonView::empty_object().with(
            "type"@,
            JsonView::String("text"@),
        ).with("text"@, JsonView::String(text)),
        ContentView::Thinking { thinking } => JsonView::empty_object().with(
            "type"@,
            JsonView::String("thinking"@),
        ).with("thinking"@, JsonView::String(thinking)),
        ContentView::ToolUse { id, name, input } => JsonView::empty_object().with(
            "type"@,
            JsonView::String("tool_use"@),
        ).with("id"@, JsonView::String(id)).with("name"@, JsonView::String(name)).with(
            "input"@,
            input,
        ),
        ContentView::ToolResult { tool_use_id, content, is_error } => JsonView::empty_object().with(
            "type"@,
            JsonView::String("tool_result"@),
        ).with("tool_use_id"@, JsonView::String(tool_use_id)).with(
            "content"@,
            JsonView::String(content),
        ).with("is_error"@, JsonView::Bool(is_error)),
    }
}

/// The name of a role.
pub open spec fn role_json(role: Role) -> JsonView {
    match role {
        Role::User => JsonView::String("user"@),
        Role::Assistant => JsonView::String("assistant"@),
    }
}

/// A message as JSON.
pub open spec fn message_json(message: MessageView) -> JsonView {
    JsonView::empty_object().with("role"@, role_json(message.role)).with(
        "content"@,
        JsonView::Array(message.content.map_values(|b: ContentView| block_json(b))),
    )
}

/// A history as JSON.
pub open spec fn history_json(messages: Seq<MessageView>) -> JsonView {
    JsonView::Array(messages.map_values(|m: MessageView| message_json(m)))
}

/// Whether an object has an entry.
pub open spec fn has(json: JsonView, key: Seq<char>) -> bool {
    json matches JsonView::Object(m) && m.contains_key(key)
}

/// The block that some JSON stands for.
pub open spec fn block_of(json: JsonView) -> Option<ContentView> {
    match json.at("type"@).as_str() {
        None => None,
        Some(kind) => if kind == "text"@ {
            match json.at("text"@).as_str() {
                Some(text) => Some(ContentView::Text { text }),
                None => None,
            }
        } else if kind == "thinking"@ {
            match json.at("thinking"@).as_str() {
                Some(thinking) => Some(ContentView::Thinking { thinking }),
                None => None,
            }
        } else if kind == "tool_use"@ {
            match (json.at("id"@).as_str(), json.at("name"@).as_str(), has(json, "input"@)) {
                (Some(id), Some(name), true) => Some(
                    ContentView::ToolUse { id, name, input: json.at("input"@) },
                ),
                _ => None,
            }
        } else if kind == "tool_result"@ {
            match (
                json.at("tool_use_id"@).as_str(),
                json.at("content"@).as_str(),
                json.at("is_error"@).as_bool(),
            ) {
                (Some(tool_use_id), Some(content), Some(is_error)) => Some(
                    ContentView::ToolResult { tool_use_id, content, is_error },
                ),
                _ => None,
            }
        } else {
            None
        },
    }
}

/// The blocks that some JSON values stand for, if each stands for one.
pub open spec fn blocks_of(items: Seq<JsonView>) -> Option<Seq<ContentView>>
    decreases items.len(),
{
    if items.len() == 0 {
        Some(Seq::empty())
    } else {
        match (blocks_of(items.drop_last()), block_of(items.last())) {
            (Some(blocks), Some(block)) => Some(blocks.push(block)),
            _ => None,
        }
    }
}

/// The role that some JSON stands for.
pub open spec fn role_of(json: JsonView) -> Option<Role> {
    match json.as_str() {
        None => None,
        Some(name) => if name == "user"@ {
            Some(Role::User)
        } else if name == "assistant"@ {
            Some(Role::Assistant)
        } else {
            None
        },
    }
}

/// The message that some JSON stands for.
pub open spec fn message_of(json: JsonView) -> Option<MessageView> {
    match (role_of(json.at("role"@)), json.at("content"@).as_array()) {
        (Some(role), Some(items)) => match blocks_of(items) {
            Some(content) => Some(MessageView { role, content }),
            None => None,
        },
        _ => None,
    }
}

/// The messages that some JSON values stand for, if each stands for one.
pub open spec fn messages_of(items: Seq<JsonView>) -> Option<Seq<MessageView>>
    decreases items.len(),
{
    if items.len() == 0 {
        Some(Seq::empty())
    } else {
        match (messages_of(items.drop_last()), message_of(items.last())) {
            (Some(messages), Some(message)) => Some(messages.push(message)),
            _ => None,
        }
    }
}

/// The history that some JSON stands for.
pub open spec fn history_of(json: JsonView) -> Option<Seq<MessageView>> {
    match json.as_array() {
        Some(items) => messages_of(items),
        None => None,
    }
}

fn encode_block(block: &Content) -> (r: Json)
    ensures
        r@ == block_json(block@),
{
    match block {
        Content::Text { text } => Json::object().with("type", Json::text("text")).with(
            "text",
            Json::text(text.as_str()),
        ),
        Content::Thinking { thinking } => Json::object().with("type", Json::text("thinking")).with(
            "thinking",
            Json::text(thinking.as_str()),
        ),
        Content::ToolUse { id, name, input } => Json::object().with(
            "type",
            Json::text("tool_use"),
        ).with("id", Json::text(id.as_str())).with("name", Json::text(name.as_str())).with(
            "input",
            input.clone(),
        ),
        Content::ToolResult { tool_use_id, content, is_error } => Json::object().with(
            "type",
            Json::text("tool_result"),
        ).with("tool_use_id", Json::text(tool_use_id.as_str())).with(
            "content",
            Json::text(content.as_str()),
        ).with("is_error", Json::Bool(*is_error)),
    }
}

/// A message as JSON.
pub fn encode_message(message: &Message) -> (r: Json)
    ensures
        r@ == message_json(message@),
{
    let role = match message.role {
        Role::User => "user",
        Role::Assistant => "assistant",
    };
    let mut content: Vec<Json> = Vec::new();
    let ghost all = message@.content.map_values(|b: ContentView| block_json(b));
    let mut i: usize = 0;
    while i < message.content.len()
        invariant
            i <= message.content@.len(),
            all == message.content.deep_view().map_values(|b: ContentView| block_json(b)),
            content.deep_view() == all.take(i as int),
        decreases message.content@.len() - i,
    {
        let block = encode_block(&message.content[i]);
        let ghost before = content;
        content.push(block);
        proof {
            lemma_pushed(before, content, block);
        }
        i = i + 1;
        assert(content.deep_view() == all.take(i as int));
    }
    assert(all.take(i as int) == all);
    Json::object().with("role", Json::text(role)).with("content", Json::array(content))
}

/// The messages up to `to` as JSON.
pub fn encode_history(messages: &Vec<Message>, to: usize) -> (r: Json)
    requires
        to <= messages@.len(),
    ensures
        r@ == history_json(messages.deep_view().take(to as int)),
{
    let mut out: Vec<Json> = Vec::new();
    let ghost all = messages.deep_view().take(to as int).map_values(
        |m: MessageView| message_json(m),
    );
    let mut i: usize = 0;
    while i < to
        invariant
            i <= to <= messages@.len(),
            all == messages.deep_view().take(to as int).map_values(
                |m: MessageView| message_json(m),
            ),
            out.deep_view() == all.take(i as int),
        decreases to - i,
    {
        let message = encode_message(&messages[i]);
        let ghost before = out;
        out.push(message);
        proof {
            lemma_pushed(before, out, message);
        }
        i = i + 1;
        assert(out.deep_view() == all.take(i as int));
    }
    assert(all.take(i as int) == all);
    Json::array(out)
}

fn decode_block(json: &Json) -> (r: Option<Content>)
    ensures
        r.deep_view() == block_of(json@),
{
    let kind = json.at("type").as_str()?;
    if same(kind, "text") {
        let text = json.at("text").as_str()?;
        Some(Content::Text { text: text.to_owned() })
    } else if same(kind, "thinking") {
        let thinking = json.at("thinking").as_str()?;
        Some(Content::Thinking { thinking: thinking.to_owned() })
    } else if same(kind, "tool_use") {
        let id = json.at("id").as_str()?;
        let name = json.at("name").as_str()?;
        let input = json.get("input")?;
        Some(Content::ToolUse { id: id.to_owned(), name: name.to_owned(), input: input.clone() })
    } else if same(kind, "tool_result") {
        let tool_use_id = json.at("tool_use_id").as_str()?;
        let content = json.at("content").as_str()?;
        let is_error = json.at("is_error").as_bool()?;
        Some(
            Content::ToolResult {
                tool_use_id: tool_use_id.to_owned(),
                content: content.to_owned(),
                is_error,
            },
        )
    } else {
        None
    }
}

proof fn lemma_bad_block(items: Seq<JsonView>, i: int)
    requires
        0 <= i < items.len(),
        block_of(items[i]) is None,
    ensures
        blocks_of(items) is None,
    decreases items.len(),
{
    if i < items.len() - 1 {
        lemma_bad_block(items.drop_last(), i);
    }
}

proof fn lemma_bad_message(items: Seq<JsonView>, i: int)
    requires
        0 <= i < items.len(),
        message_of(items[i]) is None,
    ensures
        messages_of(items) is None,
    decreases items.len(),
{
    if i < items.len() - 1 {
        lemma_bad_message(items.drop_last(), i);
    }
}

/// The message that some JSON stands for.
pub fn decode_message(json: &Json) -> (r: Option<Message>)
    ensures
        r.deep_view() == message_of(json@),
{
    let name = json.at("role").as_str()?;
    let role = if same(name, "user") {
        Role::User
    } else if same(name, "assistant") {
        Role::Assistant
    } else {
        return None;
    };
    let items = json.at("content").as_array()?;
    let ghost all = items.deep_view();
    let mut content: Vec<Content> = Vec::new();
    let mut i: usize = 0;
    assert(content.deep_view() == Seq::<ContentView>::empty());
    while i < items.len()
        invariant
            i <= items@.len(),
            all == items.deep_view(),
            json@.at("content"@).as_array() == Some(all),
            blocks_of(all.take(i as int)) == Some(content.deep_view()),
        decreases items@.len() - i,
    {
        assert(all.take(i + 1).drop_last() == all.take(i as int));
        match decode_block(&items[i]) {
            Some(block) => {
                let ghost before = content;
                content.push(block);
                proof {
                    lemma_pushed(before, content, block);
                }
            },
            None => {
                proof {
                    lemma_bad_block(all, i as int);
                }
                return None;
            },
        }
        i = i + 1;
    }
    assert(all.take(i as int) == all);
    Some(Message { role, content })
}

/// The history that some JSON stands for.
pub fn decode_history(json: &Json) -> (r: Option<Vec<Message>>)
    ensures
        r.deep_view() == history_of(json@),
{
    let items = json.as_array()?;
    let ghost all = items.deep_view();
    let mut messages: Vec<Message> = Vec::new();
    let mut i: usize = 0;
    assert(messages.deep_view() == Seq::<MessageView>::empty());
    while i < items.len()
        invariant
            i <= items@.len(),
            all == items.deep_view(),
            json@.as_array() == Some(all),
            messages_of(all.take(i as int)) == Some(messages.deep_view()),
        decreases items@.len() - i,
    {
        assert(all.take(i + 1).drop_last() == all.take(i as int));
        match decode_message(&items[i]) {
            Some(message) => {
                let ghost before = messages;
                messages.push(message);
                proof {
                    lemma_pushed(before, messages, message);
                }
            },
            None => {
                proof {
                    lemma_bad_message(all, i as int);
                }
                return None;
            },
        }
        i = i + 1;
    }
    assert(all.take(i as int) == all);
    Some(messages)
}

/// A block comes back from JSON as it was.
pub proof fn law_blocks_come_back(block: ContentView)
    ensures
        block_of(block_json(block)) == Some(block),
{
    reveal_strlit("type");
    reveal_strlit("text");
    reveal_strlit("thinking");
    reveal_strlit("tool_use");
    reveal_strlit("id");
    reveal_strlit("name");
    reveal_strlit("input");
    reveal_strlit("tool_result");
    reveal_strlit("tool_use_id");
    reveal_strlit("content");
    reveal_strlit("is_error");
    reveal_strlit("role");
    reveal_strlit("user");
    reveal_strlit("assistant");
    assert("type"@.len() == 4 && "type"@[0] == 't' && "type"@[1] == 'y');
    assert("text"@.len() == 4 && "text"@[0] == 't' && "text"@[1] == 'e');
    assert("thinking"@.len() == 8 && "thinking"@[0] == 't' && "thinking"@[1] == 'h');
    assert("tool_use"@.len() == 8 && "tool_use"@[0] == 't' && "tool_use"@[1] == 'o');
    assert("id"@.len() == 2);
    assert("name"@.len() == 4 && "name"@[0] == 'n');
    assert("input"@.len() == 5);
    assert("tool_result"@.len() == 11 && "tool_result"@[5] == 'r');
    assert("tool_use_id"@.len() == 11 && "tool_use_id"@[5] == 'u');
    assert("content"@.len() == 7);
    assert("is_error"@.len() == 8 && "is_error"@[0] == 'i');
    assert("role"@.len() == 4 && "role"@[0] == 'r');
    assert("user"@.len() == 4 && "user"@[0] == 'u');
    assert("assistant"@.len() == 9);
}

proof fn lemma_contents_come_back(content: Seq<ContentView>)
    ensures
        blocks_of(content.map_values(|b: ContentView| block_json(b))) == Some(content),
    decreases content.len(),
{
    let items = content.map_values(|b: ContentView| block_json(b));
    if content.len() == 0 {
        assert(content == Seq::<ContentView>::empty());
    } else {
        lemma_contents_come_back(content.drop_last());
        assert(items.drop_last() == content.drop_last().map_values(|b: ContentView| block_json(b)));
        law_blocks_come_back(content.last());
        assert(content.drop_last().push(content.last()) == content);
    }
}

/// A message comes back from JSON as it was.
pub proof fn law_messages_come_back(message: MessageView)
    ensures
        message_of(message_json(message)) == Some(message),
{
    reveal_strlit("role");
    reveal_strlit("content");
    reveal_strlit("user");
    reveal_strlit("assistant");
    assert("role"@.len() == 4 && "role"@[0] == 'r');
    assert("content"@.len() == 7);
    assert("user"@.len() == 4 && "user"@[0] == 'u');
    assert("assistant"@.len() == 9);
    lemma_contents_come_back(message.content);
}

/// A history comes back from JSON as it was.
pub proof fn law_histories_come_back(messages: Seq<MessageView>)
    ensures
        history_of(history_json(messages)) == Some(messages),
    decreases messages.len(),
{
    let items = messages.map_values(|m: MessageView| message_json(m));
    if messages.len() == 0 {
        assert(messages == Seq::<MessageView>::empty());
    } else {
        let init = messages.drop_last();
        law_histories_come_back(init);
        assert(items.drop_last() == init.map_values(|m: MessageView| message_json(m)));
        law_messages_come_back(messages.last());
        assert(init.push(messages.last()) == messages);
    }
}

/// Whether a block can be written down as JSON text within so many levels and
/// read back: this asks something of tool inputs alone.
pub open spec fn block_storable(block: ContentView, levels: int) -> bool {
    block matches ContentView::ToolUse { input, .. } ==> storable(input, levels)
}

/// Whether a history can be written down as JSON text and read back. A tool
/// input stands four levels deep: in its block, in the content, in its message,
/// in the history.
pub open spec fn history_storable(messages: Seq<MessageView>, levels: int) -> bool {
    forall|i: int, k: int|
        0 <= i < messages.len() && 0 <= k < messages[i].content.len() ==> block_storable(
            #[trigger] messages[i].content[k],
            levels - 4,
        )
}

proof fn lemma_block_storable(block: ContentView, levels: int)
    requires
        block_storable(block, levels - 1),
        levels > 0,
    ensures
        storable(block_json(block), levels),
{
    assert(storable(JsonView::empty_object(), levels));
    match block {
        ContentView::Text { text } => {
            lemma_with(JsonView::empty_object(), "type"@, JsonView::String("text"@), levels);
            let one = JsonView::empty_object().with("type"@, JsonView::String("text"@));
            lemma_with(one, "text"@, JsonView::String(text), levels);
        },
        ContentView::Thinking { thinking } => {
            lemma_with(JsonView::empty_object(), "type"@, JsonView::String("thinking"@), levels);
            let one = JsonView::empty_object().with("type"@, JsonView::String("thinking"@));
            lemma_with(one, "thinking"@, JsonView::String(thinking), levels);
        },
        ContentView::ToolUse { id, name, input } => {
            lemma_with(JsonView::empty_object(), "type"@, JsonView::String("tool_use"@), levels);
            let one = JsonView::empty_object().with("type"@, JsonView::String("tool_use"@));
            lemma_with(one, "id"@, JsonView::String(id), levels);
            let two = one.with("id"@, JsonView::String(id));
            lemma_with(two, "name"@, JsonView::String(name), levels);
            let three = two.with("name"@, JsonView::String(name));
            lemma_with(three, "input"@, input, levels);
        },
        ContentView::ToolResult { tool_use_id, content, is_error } => {
            lemma_with(
                JsonView::empty_object(),
                "type"@,
                JsonView::String("tool_result"@),
                levels,
            );
            let one = JsonView::empty_object().with("type"@, JsonView::String("tool_result"@));
            lemma_with(one, "tool_use_id"@, JsonView::String(tool_use_id), levels);
            let two = one.with("tool_use_id"@, JsonView::String(tool_use_id));
            lemma_with(two, "content"@, JsonView::String(content), levels);
            let three = two.with("content"@, JsonView::String(content));
            lemma_with(three, "is_error"@, JsonView::Bool(is_error), levels);
        },
    }
}

proof fn lemma_with(json: JsonView, key: Seq<char>, value: JsonView, levels: int)
    requires
        json is Object,
        storable(json, levels),
        storable(value, levels - 1),
    ensures
        json.with(key, value) is Object,
        storable(json.with(key, value), levels),
{
    let before = json->Object_0;
    let after = before.insert(key, value);
    assert(after.dom() == before.dom().insert(key));
    assert forall|k: Seq<char>| after.dom().contains(k) implies storable(
        #[trigger] after[k],
        levels - 1,
    ) by {
        if k != key {
            assert(after[k] == before[k]);
            assert(before.dom().contains(k));
        }
    }
}

/// A history whose tool inputs can be written down within what is left of the
/// levels can be written down.
pub proof fn law_histories_are_storable(messages: Seq<MessageView>, levels: int)
    requires
        levels >= 4,
        history_storable(messages, levels),
    ensures
        storable(history_json(messages), levels),
{
    let items = messages.map_values(|m: MessageView| message_json(m));
    assert forall|i: int| 0 <= i < items.len() implies storable(
        #[trigger] items[i],
        levels - 1,
    ) by {
        let message = messages[i];
        assert forall|k: int| 0 <= k < message.content.len() implies block_storable(
            #[trigger] message.content[k],
            levels - 4,
        ) by {
            assert(block_storable(messages[i].content[k], levels - 4));
        }
        lemma_message_storable(message, levels - 1);
    }
}

proof fn lemma_message_storable(message: MessageView, levels: int)
    requires
        levels >= 3,
        forall|k: int|
            0 <= k < message.content.len() ==> block_storable(
                #[trigger] message.content[k],
                levels - 3,
            ),
    ensures
        storable(message_json(message), levels),
{
    let blocks = message.content.map_values(|b: ContentView| block_json(b));
    let inner = levels - 1;
    assert forall|k: int| 0 <= k < blocks.len() implies storable(
        #[trigger] blocks[k],
        inner - 1,
    ) by {
        assert(block_storable(message.content[k], levels - 3));
        lemma_block_storable(message.content[k], inner - 1);
    }
    assert(storable(JsonView::Array(blocks), inner));
    assert(storable(JsonView::empty_object(), levels));
    lemma_with(JsonView::empty_object(), "role"@, role_json(message.role), levels);
    let one = JsonView::empty_object().with("role"@, role_json(message.role));
    lemma_with(one, "content"@, JsonView::Array(blocks), levels);
}

/// The keys of a history differ from each other.
proof fn lemma_keys()
    ensures
        "type"@ != "text"@,
        "type"@ != "thinking"@,
        "type"@ != "id"@,
        "type"@ != "name"@,
        "type"@ != "input"@,
        "type"@ != "tool_use_id"@,
        "type"@ != "content"@,
        "type"@ != "is_error"@,
        "type"@ != "role"@,
        "text"@ != "thinking"@,
        "text"@ != "id"@,
        "text"@ != "name"@,
        "text"@ != "input"@,
        "text"@ != "tool_use_id"@,
        "text"@ != "content"@,
        "text"@ != "is_error"@,
        "text"@ != "role"@,
        "thinking"@ != "id"@,
        "thinking"@ != "name"@,
        "thinking"@ != "input"@,
        "thinking"@ != "tool_use_id"@,
        "thinking"@ != "content"@,
        "thinking"@ != "is_error"@,
        "thinking"@ != "role"@,
        "id"@ != "name"@,
        "id"@ != "input"@,
        "id"@ != "tool_use_id"@,
        "id"@ != "content"@,
        "id"@ != "is_error"@,
        "id"@ != "role"@,
        "name"@ != "input"@,
        "name"@ != "tool_use_id"@,
        "name"@ != "content"@,
        "name"@ != "is_error"@,
        "name"@ != "role"@,
        "input"@ != "tool_use_id"@,
        "input"@ != "content"@,
        "input"@ != "is_error"@,
        "input"@ != "role"@,
        "tool_use_id"@ != "content"@,
        "tool_use_id"@ != "is_error"@,
        "tool_use_id"@ != "role"@,
        "content"@ != "is_error"@,
        "content"@ != "role"@,
        "is_error"@ != "role"@,
{
    reveal_strlit("type");
    reveal_strlit("text");
    reveal_strlit("thinking");
    reveal_strlit("id");
    reveal_strlit("name");
    reveal_strlit("input");
    reveal_strlit("tool_use_id");
    reveal_strlit("content");
    reveal_strlit("is_error");
    reveal_strlit("role");
    assert("type"@.len() == 4 && "type"@[0] == 't' && "type"@[1] == 'y');
    assert("text"@.len() == 4 && "text"@[0] == 't' && "text"@[1] == 'e');
    assert("thinking"@.len() == 8 && "thinking"@[0] == 't');
    assert("id"@.len() == 2);
    assert("name"@.len() == 4 && "name"@[0] == 'n');
    assert("input"@.len() == 5);
    assert("tool_use_id"@.len() == 11);
    assert("content"@.len() == 7);
    assert("is_error"@.len() == 8 && "is_error"@[0] == 'i');
    assert("role"@.len() == 4 && "role"@[0] == 'r');
}

/// The types of blocks differ from each other.
proof fn lemma_names()
    ensures
        "text"@ != "thinking"@,
        "text"@ != "tool_use"@,
        "text"@ != "tool_result"@,
        "thinking"@ != "tool_use"@,
        "thinking"@ != "tool_result"@,
        "tool_use"@ != "tool_result"@,
{
    reveal_strlit("text");
    reveal_strlit("thinking");
    reveal_strlit("tool_use");
    reveal_strlit("tool_result");
    assert("text"@.len() == 4);
    assert("thinking"@.len() == 8 && "thinking"@[1] == 'h');
    assert("tool_use"@.len() == 8 && "tool_use"@[1] == 'o');
    assert("tool_result"@.len() == 11);
}

/// Whether some JSON says what a block says.
pub open spec fn says_block(json: JsonView, block: ContentView) -> bool {
    match block {
        ContentView::Text { text } => {
            &&& json.at("type"@) == JsonView::String("text"@)
            &&& json.at("text"@) == JsonView::String(text)
        },
        ContentView::Thinking { thinking } => {
            &&& json.at("type"@) == JsonView::String("thinking"@)
            &&& json.at("thinking"@) == JsonView::String(thinking)
        },
        ContentView::ToolUse { id, name, input } => {
            &&& json.at("type"@) == JsonView::String("tool_use"@)
            &&& json.at("id"@) == JsonView::String(id)
            &&& json.at("name"@) == JsonView::String(name)
            &&& json.at("input"@) == input
        },
        ContentView::ToolResult { tool_use_id, content, is_error } => {
            &&& json.at("type"@) == JsonView::String("tool_result"@)
            &&& json.at("tool_use_id"@) == JsonView::String(tool_use_id)
            &&& json.at("content"@) == JsonView::String(content)
            &&& json.at("is_error"@) == JsonView::Bool(is_error)
        },
    }
}

/// Whether some JSON says what a message says: its role, and each of its blocks
/// in its place.
pub open spec fn says_message(json: JsonView, message: MessageView) -> bool {
    &&& json.at("role"@) == JsonView::String(
        if message.role is User {
            "user"@
        } else {
            "assistant"@
        },
    )
    &&& json.at("content"@) matches JsonView::Array(items) && {
        &&& items.len() == message.content.len()
        &&& forall|k: int|
            0 <= k < items.len() ==> says_block(#[trigger] items[k], message.content[k])
    }
}

/// Whether some JSON says what a history says: each of its messages in its place.
pub open spec fn says_history(json: JsonView, messages: Seq<MessageView>) -> bool {
    json matches JsonView::Array(items) && {
        &&& items.len() == messages.len()
        &&& forall|i: int|
            0 <= i < items.len() ==> says_message(#[trigger] items[i], messages[i])
    }
}

proof fn lemma_block_json_says(block: ContentView)
    ensures
        says_block(block_json(block), block),
{
    lemma_keys();
}

/// What is written down says what the history says.
pub proof fn law_written_histories_say_it_all(messages: Seq<MessageView>)
    ensures
        says_history(history_json(messages), messages),
{
    lemma_keys();
    let items = messages.map_values(|m: MessageView| message_json(m));
    assert forall|i: int| 0 <= i < items.len() implies says_message(
        #[trigger] items[i],
        messages[i],
    ) by {
        let content = messages[i].content;
        let blocks = content.map_values(|b: ContentView| block_json(b));
        assert(items[i].at("content"@) == JsonView::Array(blocks));
        assert forall|k: int| 0 <= k < blocks.len() implies says_block(
            #[trigger] blocks[k],
            content[k],
        ) by {
            lemma_block_json_says(content[k]);
        }
    }
}

proof fn lemma_read_blocks(items: Seq<JsonView>)
    ensures
        blocks_of(items) matches Some(blocks) ==> {
            &&& blocks.len() == items.len()
            &&& forall|k: int|
                0 <= k < items.len() ==> block_of(#[trigger] items[k]) == Some(blocks[k])
        },
    decreases items.len(),
{
    if items.len() > 0 {
        let init = items.drop_last();
        lemma_read_blocks(init);
        if let Some(blocks) = blocks_of(items) {
            assert forall|k: int| 0 <= k < items.len() implies block_of(#[trigger] items[k])
                == Some(blocks[k]) by {
                if k < init.len() {
                    assert(init[k] == items[k]);
                    assert(blocks_of(init)->0[k] == blocks[k]);
                }
            }
        }
    }
}

proof fn lemma_read_messages(items: Seq<JsonView>)
    ensures
        messages_of(items) matches Some(messages) ==> {
            &&& messages.len() == items.len()
            &&& forall|i: int|
                0 <= i < items.len() ==> message_of(#[trigger] items[i]) == Some(messages[i])
        },
    decreases items.len(),
{
    if items.len() > 0 {
        let init = items.drop_last();
        lemma_read_messages(init);
        if let Some(messages) = messages_of(items) {
            assert forall|i: int| 0 <= i < items.len() implies message_of(#[trigger] items[i])
                == Some(messages[i]) by {
                if i < init.len() {
                    assert(init[i] == items[i]);
                    assert(messages_of(init)->0[i] == messages[i]);
                }
            }
        }
    }
}

/// What is read says what the JSON says: no message and no block is made up, left
/// out or changed.
pub proof fn law_read_histories_say_what_stands_there(json: JsonView)
    ensures
        history_of(json) matches Some(messages) ==> says_history(json, messages),
{
    if let Some(messages) = history_of(json) {
        let items = json->Array_0;
        lemma_read_messages(items);
        assert forall|i: int| 0 <= i < items.len() implies says_message(
            #[trigger] items[i],
            messages[i],
        ) by {
            assert(message_of(items[i]) == Some(messages[i]));
            let parts = items[i].at("content"@)->Array_0;
            lemma_read_blocks(parts);
            assert forall|k: int| 0 <= k < parts.len() implies says_block(
                #[trigger] parts[k],
                messages[i].content[k],
            ) by {
                assert(block_of(parts[k]) == Some(messages[i].content[k]));
            }
        }
    }
}

/// JSON that says what some history says is read as that history.
pub proof fn law_what_is_said_is_read(json: JsonView, block: ContentView)
    requires
        says_block(json, block),
        block is ToolUse ==> has(json, "input"@),
    ensures
        block_of(json) == Some(block),
{
    lemma_names();
}

}
