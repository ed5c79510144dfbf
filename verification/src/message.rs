//! Messages: what a conversation is made of.

use vstd::prelude::*;
use vstd::string::StringExecFns;

use crate::duplicate::{copy_all, Duplicate};
use crate::json::{Json, JsonView};

verus! {

/// Who speaks.
#[derive(Debug, Clone, Copy, PartialEq, Eq, Structural)]
pub enum Role {
    User,
    Assistant,
}

/// One block of a message.
#[derive(Debug, PartialEq)]
pub enum Content {
    Text { text: String },
    Thinking { thinking: String },
    /// The model asks for a tool call.
    ToolUse { id: String, name: String, input: Json },
    /// What came of a tool call.
    ToolResult { tool_use_id: String, content: String, is_error: bool },
}

/// What a block says.
#[verifier::ext_equal]
pub enum ContentView {
    Text { text: Seq<char> },
    Thinking { thinking: Seq<char> },
    ToolUse { id: Seq<char>, name: Seq<char>, input: JsonView },
    ToolResult { tool_use_id: Seq<char>, content: Seq<char>, is_error: bool },
}

impl View for Content {
    type V = ContentView;

    open spec fn view(&self) -> ContentView {
        match *self {
            Content::Text { text } => ContentView::Text { text: text@ },
            Content::Thinking { thinking } => ContentView::Thinking { thinking: thinking@ },
            Content::ToolUse { id, name, input } => ContentView::ToolUse {
                id: id@,
                name: name@,
                input: input@,
            },
            Content::ToolResult { tool_use_id, content, is_error } => ContentView::ToolResult {
                tool_use_id: tool_use_id@,
                content: content@,
                is_error,
            },
        }
    }
}

impl DeepView for Content {
    type V = ContentView;

    open spec fn deep_view(&self) -> ContentView {
        self@
    }
}

impl Clone for Content {
    fn clone(&self) -> (r: Content)
        ensures
            r@ == self@,
    {
        match self {
            Content::Text { text } => Content::Text { text: text.clone() },
            Content::Thinking { thinking } => Content::Thinking { thinking: thinking.clone() },
            Content::ToolUse { id, name, input } => Content::ToolUse {
                id: id.clone(),
                name: name.clone(),
                input: input.clone(),
            },
            Content::ToolResult { tool_use_id, content, is_error } => Content::ToolResult {
                tool_use_id: tool_use_id.clone(),
                content: content.clone(),
                is_error: *is_error,
            },
        }
    }
}

/// One turn of a conversation.
#[derive(Debug, PartialEq)]
pub struct Message {
    pub role: Role,
    pub content: Vec<Content>,
}

/// What a message says.
#[verifier::ext_equal]
pub struct MessageView {
    pub role: Role,
    pub content: Seq<ContentView>,
}

impl View for Message {
    type V = MessageView;

    open spec fn view(&self) -> MessageView {
        MessageView { role: self.role, content: self.content.deep_view() }
    }
}

impl DeepView for Message {
    type V = MessageView;

    open spec fn deep_view(&self) -> MessageView {
        self@
    }
}

impl Clone for Message {
    fn clone(&self) -> (r: Message)
        ensures
            r@ == self@,
    {
        Message { role: self.role, content: copy_all(&self.content) }
    }
}

impl Duplicate for Content {
    fn duplicate(&self) -> (r: Content) {
        self.clone()
    }
}

impl Duplicate for Message {
    fn duplicate(&self) -> (r: Message) {
        self.clone()
    }
}

/// The text of a block of text, and the empty text for any other.
pub open spec fn block_text(block: ContentView) -> Seq<char> {
    match block {
        ContentView::Text { text } => text,
        _ => Seq::empty(),
    }
}

/// The texts of the blocks of text, one after another.
pub open spec fn text_of(content: Seq<ContentView>) -> Seq<char>
    decreases content.len(),
{
    if content.len() == 0 {
        Seq::empty()
    } else {
        text_of(content.drop_last()) + block_text(content.last())
    }
}

/// A tool call that a model asks for: its id, the tool's name and the input.
pub type UseView = (Seq<char>, Seq<char>, JsonView);

/// The tool call that a block asks for.
pub open spec fn block_use(block: ContentView) -> Option<UseView> {
    match block {
        ContentView::ToolUse { id, name, input } => Some((id, name, input)),
        _ => None,
    }
}

/// The tool calls that the blocks ask for, in their order.
pub open spec fn uses_of(content: Seq<ContentView>) -> Seq<UseView>
    decreases content.len(),
{
    if content.len() == 0 {
        Seq::empty()
    } else {
        match block_use(content.last()) {
            Some(call) => uses_of(content.drop_last()).push(call),
            None => uses_of(content.drop_last()),
        }
    }
}

impl MessageView {
    /// A message of one block of text.
    pub open spec fn of_text(role: Role, text: Seq<char>) -> MessageView {
        MessageView { role, content: seq![ContentView::Text { text }] }
    }

    /// What the user says.
    pub open spec fn user(text: Seq<char>) -> MessageView {
        MessageView::of_text(Role::User, text)
    }
}

impl Message {
    /// What the user says.
    pub fn user(text: &str) -> (r: Message)
        ensures
            r@ == MessageView::user(text@),
    {
        let mut content: Vec<Content> = Vec::new();
        content.push(Content::Text { text: text.to_owned() });
        assert(content.deep_view() == seq![ContentView::Text { text: text@ }]);
        Message { role: Role::User, content }
    }

    /// What the assistant says.
    pub fn assistant(text: &str) -> (r: Message)
        ensures
            r@ == MessageView::of_text(Role::Assistant, text@),
    {
        let mut content: Vec<Content> = Vec::new();
        content.push(Content::Text { text: text.to_owned() });
        assert(content.deep_view() == seq![ContentView::Text { text: text@ }]);
        Message { role: Role::Assistant, content }
    }

    /// The texts of the blocks of text, one after another.
    pub fn text(&self) -> (r: String)
        ensures
            r@ == text_of(self@.content),
    {
        let mut out = String::new();
        let mut i: usize = 0;
        let ghost all = self@.content;
        while i < self.content.len()
            invariant
                i <= self.content@.len(),
                all == self.content.deep_view(),
                out@ == text_of(all.take(i as int)),
            decreases self.content@.len() - i,
        {
            assert(all.take(i + 1).drop_last() == all.take(i as int));
            if let Content::Text { text } = &self.content[i] {
                out.append(text.as_str());
            }
            i = i + 1;
            assert(out@ == text_of(all.take(i as int)));
        }
        assert(all.take(i as int) == all);
        out
    }

    /// The tool calls that the message asks for, in their order.
    pub fn tool_uses(&self) -> (r: Vec<(&str, &str, &Json)>)
        ensures
            r.deep_view() == uses_of(self@.content),
    {
        let mut out: Vec<(&str, &str, &Json)> = Vec::new();
        let mut i: usize = 0;
        let ghost all = self@.content;
        assert(out.deep_view() == uses_of(all.take(0)));
        while i < self.content.len()
            invariant
                i <= self.content@.len(),
                all == self.content.deep_view(),
                out.deep_view() == uses_of(all.take(i as int)),
            decreases self.content@.len() - i,
        {
            assert(all.take(i + 1).drop_last() == all.take(i as int));
            if let Content::ToolUse { id, name, input } = &self.content[i] {
                out.push((id.as_str(), name.as_str(), input));
            }
            i = i + 1;
            assert(out.deep_view() == uses_of(all.take(i as int)));
        }
        assert(all.take(i as int) == all);
        out
    }
}

/// The texts of two runs of blocks follow each other; of the blocks only those of
/// text have any.
pub proof fn law_texts_follow_each_other(a: Seq<ContentView>, b: Seq<ContentView>)
    ensures
        text_of(a + b) == text_of(a) + text_of(b),
    decreases b.len(),
{
    if b.len() == 0 {
        assert(a + b == a);
        assert(text_of(a) + Seq::<char>::empty() == text_of(a));
    } else {
        assert((a + b).drop_last() == a + b.drop_last());
        law_texts_follow_each_other(a, b.drop_last());
        assert(text_of(a) + text_of(b.drop_last()) + block_text(b.last()) == text_of(a) + (text_of(
            b.drop_last(),
        ) + block_text(b.last())));
    }
}

/// A block of text says its text, and any other block says nothing.
pub proof fn law_blocks_of_text_say_their_text(block: ContentView)
    ensures
        text_of(seq![block]) == (match block {
            ContentView::Text { text } => text,
            _ => Seq::empty(),
        }),
{
    reveal_with_fuel(text_of, 2);
    assert(seq![block].drop_last() == Seq::<ContentView>::empty());
    assert(text_of(seq![block]) == block_text(block));
}

/// The tool calls of two runs of blocks follow each other.
pub proof fn law_uses_follow_each_other(a: Seq<ContentView>, b: Seq<ContentView>)
    ensures
        uses_of(a + b) == uses_of(a) + uses_of(b),
    decreases b.len(),
{
    if b.len() == 0 {
        assert(a + b == a);
    } else {
        assert((a + b).drop_last() == a + b.drop_last());
        law_uses_follow_each_other(a, b.drop_last());
        assert(uses_of(a + b) == uses_of(a) + uses_of(b));
    }
}

/// A block that asks for a tool is one call, with its id, its name and its input
/// as they are, and any other block is none.
pub proof fn law_tool_uses_are_the_calls(block: ContentView)
    ensures
        uses_of(seq![block]) == (match block {
            ContentView::ToolUse { id, name, input } => seq![(id, name, input)],
            _ => Seq::empty(),
        }),
{
    reveal_with_fuel(uses_of, 2);
    assert(seq![block].drop_last() == Seq::<ContentView>::empty());
}

/// What the user says is a message of the user, of that text and nothing else.
pub proof fn law_user_messages_say_the_text(text: Seq<char>)
    ensures
        MessageView::user(text).role is User,
        MessageView::user(text).content.len() == 1,
        MessageView::user(text).content[0] == (ContentView::Text { text }),
        text_of(MessageView::user(text).content) == text,
        MessageView::of_text(Role::Assistant, text).role is Assistant,
        MessageView::of_text(Role::Assistant, text).content == MessageView::user(text).content,
{
    law_blocks_of_text_say_their_text(ContentView::Text { text });
}

}
