//! SSE event parsing and incremental response assembly for the streaming API.

use vstd::prelude::*;
use vstd::string::StringExecFns;

use super::convert;
use super::convert::{content_of, stop_reason_of, usage_of};
use crate::codec::{json_parse, json_text, parse, render};
use crate::duplicate::lemma_pushed;
use crate::error::{ModelError, ModelErrorView};
use crate::http::{payload_read, read_payload};
use crate::json::{Json, JsonView};
use crate::message::{Content, ContentView, Message, MessageView, Role};
use crate::model::{Response, ResponseView, StreamEvent, StreamEventView, Usage};
use crate::text::{concat, same, trim, trimmed};

verus! {

/// What the data of one SSE event stands for: nothing where it is empty, the
/// payload where it is JSON, and an error else.
pub open spec fn payload_of(data: Seq<char>) -> Option<Result<JsonView, ModelErrorView>> {
    if data.len() == 0 {
        None
    } else {
        Some(payload_read(json_parse(data)))
    }
}

/// The payload of one SSE event, where it has one.
pub fn decode(data: &str) -> (r: Option<Result<Json, ModelError>>)
    ensures
        match r {
            None => payload_of(data@) is None,
            Some(Ok(json)) => payload_of(data@) == Some(Ok::<JsonView, ModelErrorView>(json@)),
            Some(Err(error)) => payload_of(data@) == Some(Err::<JsonView, ModelErrorView>(error@)),
        },
{
    if data.is_empty() {
        None
    } else {
        Some(read_payload(parse(data)))
    }
}

/// What has been assembled so far.
#[verifier::ext_equal]
pub struct AssemblerView {
    /// The blocks, by their index on the wire.
    pub blocks: Map<int, ContentView>,
    /// One more than the highest index at which a block was opened.
    pub reach: nat,
    /// The indices at which a block of unknown type was opened.
    pub skipped: Seq<usize>,
    /// The partial JSON of each open tool call, by the index of its block.
    pub tool_json: Seq<(usize, Seq<char>)>,
    pub stop_reason: Option<Seq<char>>,
    pub usage: Usage,
}

/// The place of the first open tool call at block `index`.
pub open spec fn position(open: Seq<(usize, Seq<char>)>, index: usize) -> Option<int>
    decreases open.len(),
{
    if open.len() == 0 {
        None
    } else if open[0].0 == index {
        Some(0)
    } else {
        match position(open.drop_first(), index) {
            Some(place) => Some(place + 1),
            None => None,
        }
    }
}

/// The blocks at indices below `n`, in the order of their indices.
pub open spec fn blocks_below(blocks: Map<int, ContentView>, n: int) -> Seq<ContentView>
    decreases n,
{
    if n <= 0 {
        Seq::empty()
    } else if blocks.contains_key(n - 1) {
        blocks_below(blocks, n - 1).push(blocks[n - 1])
    } else {
        blocks_below(blocks, n - 1)
    }
}

/// The blocks in the order of their indices. Every index there is a block at is
/// below the last index there is.
pub open spec fn in_index_order(blocks: Map<int, ContentView>) -> Seq<ContentView> {
    blocks_below(blocks, usize::MAX as int)
}

/// The blocks with `more` appended to the thinking of block `index`, if that is
/// a block of thinking.
pub open spec fn with_thinking(blocks: Map<int, ContentView>, index: int, more: Seq<char>) -> Map<
    int,
    ContentView,
> {
    if blocks.contains_key(index) {
        match blocks[index] {
            ContentView::Thinking { thinking } => blocks.insert(
                index,
                ContentView::Thinking { thinking: thinking + more },
            ),
            _ => blocks,
        }
    } else {
        blocks
    }
}

/// The blocks with `value` as the input of block `index`, if that is a tool
/// call.
pub open spec fn with_input(blocks: Map<int, ContentView>, index: int, value: JsonView) -> Map<
    int,
    ContentView,
> {
    if blocks.contains_key(index) {
        match blocks[index] {
            ContentView::ToolUse { id, name, .. } => blocks.insert(
                index,
                ContentView::ToolUse { id, name, input: value },
            ),
            _ => blocks,
        }
    } else {
        blocks
    }
}

/// The input that the collected JSON of a tool call stands for: the empty
/// object where there is only white space.
pub open spec fn input_of(json: Seq<char>) -> Result<JsonView, Seq<char>> {
    if trimmed(json).len() == 0 {
        Ok(JsonView::empty_object())
    } else {
        json_parse(json)
    }
}

/// The block that an event is about.
pub open spec fn index_of(event: JsonView) -> usize {
    event.at("index"@).count() as usize
}

impl AssemblerView {
    /// Nothing has been assembled yet.
    pub open spec fn fresh() -> AssemblerView {
        AssemblerView {
            blocks: Map::empty(),
            reach: 0,
            skipped: Seq::empty(),
            tool_json: Seq::empty(),
            stop_reason: None,
            usage: Usage::zero(),
        }
    }

    /// The blocks with `more` appended to the text of block `index`, if that is
    /// a block of text. Below the blocks that were opened, text makes a block of
    /// its own where none was opened.
    pub open spec fn with_text(self, index: usize, more: Seq<char>) -> Map<int, ContentView> {
        if self.blocks.contains_key(index as int) {
            match self.blocks[index as int] {
                ContentView::Text { text } => self.blocks.insert(
                    index as int,
                    ContentView::Text { text: text + more },
                ),
                _ => self.blocks,
            }
        } else if more.len() > 0 && index < self.reach && !self.skipped.contains(index) {
            self.blocks.insert(index as int, ContentView::Text { text: more })
        } else {
            self.blocks
        }
    }

    /// Whether an event stays within what the machine can count and hold.
    pub open spec fn accepts(self, event: JsonView) -> bool {
        let kind = event.at("type"@).text();
        if kind == "message_start"@ {
            self.usage.fits(usage_of(event.at("message"@).at("usage"@)))
        } else if kind == "content_block_start"@ {
            content_of(event.at("content_block"@)) is Some ==> index_of(event) < usize::MAX
        } else if kind == "message_delta"@ {
            self.usage.fits(usage_of(event.at("usage"@)))
        } else {
            true
        }
    }

    /// After the start of a block. A block of a type that is not known is
    /// skipped.
    pub open spec fn started(self, event: JsonView) -> (AssemblerView, Seq<StreamEventView>) {
        match content_of(event.at("content_block"@)) {
            None => (
                AssemblerView { skipped: self.skipped.push(index_of(event)), ..self },
                Seq::empty(),
            ),
            Some(content) => {
                let blocks = self.blocks.insert(index_of(event) as int, content);
                let reach = if self.reach <= index_of(event) {
                    index_of(event) as nat + 1
                } else {
                    self.reach
                };
                match content {
                    ContentView::ToolUse { id, name, .. } => (
                        AssemblerView {
                            blocks,
                            reach,
                            tool_json: self.tool_json.push((index_of(event), Seq::empty())),
                            ..self
                        },
                        seq![StreamEventView::ToolUseStart { id, name }],
                    ),
                    _ => (AssemblerView { blocks, reach, ..self }, Seq::empty()),
                }
            },
        }
    }

    /// After a delta of a block.
    pub open spec fn continued(self, event: JsonView) -> (AssemblerView, Seq<StreamEventView>) {
        let index = index_of(event);
        let delta = event.at("delta"@);
        let kind = delta.at("type"@).text();
        if kind == "text_delta"@ {
            let text = delta.at("text"@).text();
            (
                AssemblerView { blocks: self.with_text(index, text), ..self },
                seq![StreamEventView::TextDelta(text)],
            )
        } else if kind == "thinking_delta"@ {
            let text = delta.at("thinking"@).text();
            (
                AssemblerView { blocks: with_thinking(self.blocks, index as int, text), ..self },
                seq![StreamEventView::ThinkingDelta(text)],
            )
        } else if kind == "input_json_delta"@ {
            let partial = delta.at("partial_json"@).text();
            let tool_json = match position(self.tool_json, index) {
                Some(place) => self.tool_json.update(
                    place,
                    (index, self.tool_json[place].1 + partial),
                ),
                None => self.tool_json,
            };
            (
                AssemblerView { tool_json, ..self },
                seq![StreamEventView::InputJsonDelta(partial)],
            )
        } else {
            (self, Seq::empty())
        }
    }

    /// After the end of block `index`, which is a tool call with this input, or
    /// with collected JSON that says nothing, for this reason.
    pub open spec fn closed(self, index: usize, input: Result<JsonView, Seq<char>>) -> (
        AssemblerView,
        Option<ModelErrorView>,
    ) {
        match position(self.tool_json, index) {
            None => (self, None),
            Some(place) => {
                let tool_json = self.tool_json.remove(place);
                match input {
                    Ok(input) => (
                        AssemblerView {
                            blocks: with_input(self.blocks, index as int, input),
                            tool_json,
                            ..self
                        },
                        None,
                    ),
                    Err(words) => (
                        AssemblerView { tool_json, ..self },
                        Some(ModelErrorView::Stream("unparseable tool input JSON: "@ + words)),
                    ),
                }
            },
        }
    }

    /// After the end of a block. A tool call's input is now complete.
    pub open spec fn stopped(self, event: JsonView) -> (AssemblerView, Option<ModelErrorView>) {
        let index = index_of(event);
        match position(self.tool_json, index) {
            None => (self, None),
            Some(place) => self.closed(index, input_of(self.tool_json[place].1)),
        }
    }

    /// After the closing remarks on the message.
    pub open spec fn remarked(self, event: JsonView) -> AssemblerView {
        let reason = event.at("delta"@).at("stop_reason"@).as_str();
        AssemblerView {
            stop_reason: if reason is Some {
                reason
            } else {
                self.stop_reason
            },
            usage: self.usage.plus(usage_of(event.at("usage"@))),
            ..self
        }
    }

    /// The response as it stands: the known blocks, in the order of their
    /// indices.
    pub open spec fn response(self) -> ResponseView {
        ResponseView {
            message: MessageView {
                role: Role::Assistant,
                content: in_index_order(self.blocks),
            },
            stop_reason: stop_reason_of(self.stop_reason),
            usage: self.usage,
        }
    }

    /// What an event makes of the state, and what it hands on.
    pub open spec fn handled(self, event: JsonView) -> (
        AssemblerView,
        Result<Seq<StreamEventView>, ModelErrorView>,
    ) {
        let kind = event.at("type"@).text();
        if kind == "message_start"@ {
            (
                AssemblerView {
                    usage: self.usage.plus(usage_of(event.at("message"@).at("usage"@))),
                    ..self
                },
                Ok(Seq::empty()),
            )
        } else if kind == "content_block_start"@ {
            (self.started(event).0, Ok(self.started(event).1))
        } else if kind == "content_block_delta"@ {
            (self.continued(event).0, Ok(self.continued(event).1))
        } else if kind == "content_block_stop"@ {
            (
                self.stopped(event).0,
                match self.stopped(event).1 {
                    None => Ok(Seq::empty()),
                    Some(error) => Err(error),
                },
            )
        } else if kind == "message_delta"@ {
            (self.remarked(event), Ok(Seq::empty()))
        } else if kind == "message_stop"@ {
            (
                AssemblerView { blocks: Map::empty(), reach: 0, skipped: Seq::empty(), ..self },
                Ok(seq![StreamEventView::Completed(self.response())]),
            )
        } else if kind == "error"@ {
            (self, Err(ModelErrorView::Api { status: 0, message: json_text(event.at("error"@)) }))
        } else {
            (self, Ok(Seq::empty()))
        }
    }
}

/// The blocks in the slots that hold one.
spec fn slots_view(slots: Seq<Option<Content>>) -> Map<int, ContentView> {
    Map::new(|i: int| 0 <= i < slots.len() && slots[i] is Some, |i: int| slots[i]->0@)
}

/// Above the last slot there is no block.
proof fn lemma_above(slots: Seq<Option<Content>>, n: int)
    requires
        slots.len() <= n,
    ensures
        blocks_below(slots_view(slots), n) == blocks_below(slots_view(slots), slots.len() as int),
    decreases n,
{
    if n > slots.len() {
        lemma_above(slots, n - 1);
    }
}

fn gather(slots: &Vec<Option<Content>>) -> (r: Vec<Content>)
    ensures
        r.deep_view() == in_index_order(slots_view(slots@)),
{
    let mut out: Vec<Content> = Vec::new();
    let mut i: usize = 0;
    assert(out.deep_view() == blocks_below(slots_view(slots@), 0));
    while i < slots.len()
        invariant
            i <= slots@.len(),
            out.deep_view() == blocks_below(slots_view(slots@), i as int),
        decreases slots@.len() - i,
    {
        if let Some(content) = &slots[i] {
            let content = content.clone();
            let ghost before = out;
            out.push(content);
            proof {
                lemma_pushed(before, out, content);
            }
        }
        i = i + 1;
    }
    proof {
        lemma_above(slots@, usize::MAX as int);
    }
    out
}

/// Folds the Messages API streaming event sequence into typed [`StreamEvent`]s
/// and, at `message_stop`, the fully assembled [`Response`].
pub struct Assembler {
    blocks: Vec<Option<Content>>,  // indexed by the wire `index`
    skipped: Vec<usize>,
    tool_json: Vec<(usize, String)>,
    stop_reason: Option<String>,
    usage: Usage,
}

impl View for Assembler {
    type V = AssemblerView;

    closed spec fn view(&self) -> AssemblerView {
        AssemblerView {
            blocks: slots_view(self.blocks@),
            reach: self.blocks@.len(),
            skipped: self.skipped@,
            tool_json: self.tool_json.deep_view(),
            stop_reason: self.stop_reason.deep_view(),
            usage: self.usage,
        }
    }
}

impl Default for Assembler {
    fn default() -> (r: Assembler)
        ensures
            r@ == AssemblerView::fresh(),
    {
        let r = Assembler {
            blocks: Vec::new(),
            skipped: Vec::new(),
            tool_json: Vec::new(),
            stop_reason: None,
            usage: Usage::default(),
        };
        assert(r@.blocks == Map::<int, ContentView>::empty());
        r
    }
}

impl Assembler {
    /// Whether [`Assembler::handle`] can take an event: its token counts do not
    /// overflow, and no block stands at the last index there is.
    pub fn accepts(&self, event: &Json) -> (r: bool)
        ensures
            r == self@.accepts(event@),
    {
        let kind = event.at("type").text_or_empty();
        if same(kind, "message_start") {
            self.usage.can_add(convert::parse_usage(event.at("message").at("usage")))
        } else if same(kind, "content_block_start") {
            convert::parse_content_block(event.at("content_block")).is_none() || (event.at(
                "index",
            ).count() as usize) < usize::MAX
        } else if same(kind, "message_delta") {
            self.usage.can_add(convert::parse_usage(event.at("usage")))
        } else {
            true
        }
    }

    fn find(&self, index: usize) -> (r: Option<usize>)
        ensures
            r is Some <==> position(self@.tool_json, index) is Some,
            r matches Some(place) ==> place < self.tool_json@.len() && position(
                self@.tool_json,
                index,
            ) == Some(place as int) && self.tool_json@[place as int].0 == index,
    {
        let ghost open = self.tool_json.deep_view();
        let mut i: usize = 0;
        assert(open.skip(0) == open);
        while i < self.tool_json.len()
            invariant
                i <= self.tool_json@.len(),
                open == self.tool_json.deep_view(),
                position(open, index) == (match position(open.skip(i as int), index) {
                    Some(place) => Some(place + i),
                    None => None,
                }),
            decreases self.tool_json@.len() - i,
        {
            assert(open.skip(i as int).drop_first() == open.skip(i + 1));
            assert(open.skip(i as int)[0] == open[i as int]);
            if self.tool_json[i].0 == index {
                return Some(i);
            }
            i = i + 1;
        }
        None
    }

    fn is_skipped(&self, index: usize) -> (r: bool)
        ensures
            r == self@.skipped.contains(index),
    {
        let mut i: usize = 0;
        while i < self.skipped.len()
            invariant
                i <= self.skipped@.len(),
                forall|k: int| 0 <= k < i ==> #[trigger] self.skipped@[k] != index,
            decreases self.skipped@.len() - i,
        {
            if self.skipped[i] == index {
                return true;
            }
            i = i + 1;
        }
        false
    }

    fn start(&mut self, event: &Json) -> (r: Vec<StreamEvent>)
        requires
            content_of(event@.at("content_block"@)) is Some ==> index_of(event@) < usize::MAX,
        ensures
            (final(self)@, r.deep_view()) == old(self)@.started(event@),
    {
        let index: usize = event.at("index").count() as usize;
        let mut out: Vec<StreamEvent> = Vec::new();
        assert(out.deep_view() == Seq::<StreamEventView>::empty());
        if let Some(content) = convert::parse_content_block(event.at("content_block")) {
            if let Content::ToolUse { id, name, .. } = &content {
                let ghost before = self.tool_json;
                self.tool_json.push((index, String::new()));
                out.push(StreamEvent::ToolUseStart { id: id.clone(), name: name.clone() });
                proof {
                    lemma_pushed(before, self.tool_json, self.tool_json@.last());
                    assert(out.deep_view() == seq![
                        StreamEventView::ToolUseStart { id: id@, name: name@ },
                    ]);
                }
            }
            let ghost blocks = old(self)@.blocks;
            let ghost rest = self@;
            while self.blocks.len() <= index
                invariant
                    index < usize::MAX,
                    slots_view(self.blocks@) == blocks,
                    rest.reach <= self.blocks@.len(),
                    self.blocks@.len() <= index + 1 || self.blocks@.len() == rest.reach,
                    self.skipped@ == rest.skipped,
                    self.tool_json.deep_view() == rest.tool_json,
                    self.stop_reason.deep_view() == rest.stop_reason,
                    self.usage == rest.usage,
                ensures
                    index < self.blocks@.len(),
                decreases index + 1 - self.blocks@.len(),
            {
                self.blocks.push(None);
                assert(slots_view(self.blocks@) == blocks);
            }
            let ghost view = content@;
            self.blocks.set(index, Some(content));
            assert(slots_view(self.blocks@) == blocks.insert(index as int, view));
        } else {
            self.skipped.push(index);
        }
        out
    }

    fn advance(&mut self, event: &Json) -> (r: Vec<StreamEvent>)
        ensures
            (final(self)@, r.deep_view()) == old(self)@.continued(event@),
    {
        let index: usize = event.at("index").count() as usize;
        let delta = event.at("delta");
        let kind = delta.at("type").text_or_empty();
        let mut out: Vec<StreamEvent> = Vec::new();
        if same(kind, "text_delta") {
            let text = delta.at("text").text_or_empty();
            if index < self.blocks.len() {
                match &self.blocks[index] {
                    Some(Content::Text { text: t }) => {
                        let mut t = t.clone();
                        t.append(text);
                        self.blocks.set(index, Some(Content::Text { text: t }));
                    },
                    Some(_) => {},
                    None => {
                        if !text.is_empty() && !self.is_skipped(index) {
                            self.blocks.set(index, Some(Content::Text { text: text.to_owned() }));
                        }
                    },
                }
            }
            assert(slots_view(self.blocks@) == old(self)@.with_text(index, text@));
            out.push(StreamEvent::TextDelta(text.to_owned()));
            assert(out.deep_view() == seq![StreamEventView::TextDelta(text@)]);
        } else if same(kind, "thinking_delta") {
            let text = delta.at("thinking").text_or_empty();
            if index < self.blocks.len() {
                if let Some(Content::Thinking { thinking }) = &self.blocks[index] {
                    let mut thinking = thinking.clone();
                    thinking.append(text);
                    self.blocks.set(index, Some(Content::Thinking { thinking }));
                }
            }
            assert(slots_view(self.blocks@) == with_thinking(
                old(self)@.blocks,
                index as int,
                text@,
            ));
            out.push(StreamEvent::ThinkingDelta(text.to_owned()));
            assert(out.deep_view() == seq![StreamEventView::ThinkingDelta(text@)]);
        } else if same(kind, "input_json_delta") {
            let partial = delta.at("partial_json").text_or_empty();
            if let Some(place) = self.find(index) {
                let mut buf = self.tool_json[place].1.clone();
                buf.append(partial);
                self.tool_json.set(place, (index, buf));
                assert(self.tool_json.deep_view() == old(self)@.tool_json.update(
                    place as int,
                    (index, old(self)@.tool_json[place as int].1 + partial@),
                ));
            }
            out.push(StreamEvent::InputJsonDelta(partial.to_owned()));
            assert(out.deep_view() == seq![StreamEventView::InputJsonDelta(partial@)]);
        } else {
            assert(out.deep_view() == Seq::<StreamEventView>::empty());
        }
        out
    }

    /// Ends block `index`: a tool call gets this input, or fails for this reason.
    pub fn close_block(&mut self, index: usize, input: Result<Json, String>) -> (r: Option<
        ModelError,
    >)
        ensures
            (final(self)@, r.deep_view()) == old(self)@.closed(
                index,
                match input {
                    Ok(json) => Ok::<JsonView, Seq<char>>(json@),
                    Err(words) => Err::<JsonView, Seq<char>>(words@),
                },
            ),
    {
        if let Some(place) = self.find(index) {
            let _ = self.tool_json.remove(place);
            assert(self.tool_json.deep_view() == old(self)@.tool_json.remove(place as int));
            let input = match input {
                Ok(json) => json,
                Err(words) => {
                    return Some(
                        ModelError::Stream(concat("unparseable tool input JSON: ", words.as_str())),
                    );
                },
            };
            let ghost value = input@;
            if index < self.blocks.len() {
                if let Some(Content::ToolUse { id, name, .. }) = &self.blocks[index] {
                    let block = Content::ToolUse { id: id.clone(), name: name.clone(), input };
                    self.blocks.set(index, Some(block));
                }
            }
            assert(slots_view(self.blocks@) == with_input(old(self)@.blocks, index as int, value));
        }
        None
    }

    fn stop(&mut self, event: &Json) -> (r: Option<ModelError>)
        ensures
            (final(self)@, r.deep_view()) == old(self)@.stopped(event@),
    {
        let index: usize = event.at("index").count() as usize;
        match self.find(index) {
            None => None,
            Some(place) => {
                assert(self@.tool_json[place as int] == self.tool_json@[place as int].deep_view());
                let json = self.tool_json[place].1.clone();
                let input = if trim(json.as_str()).as_str().is_empty() {
                    Ok(Json::object())
                } else {
                    parse(json.as_str())
                };
                self.close_block(index, input)
            },
        }
    }

    /// What an event makes of the state, and what it hands on.
    pub fn handle(&mut self, event: Json) -> (r: Result<Vec<StreamEvent>, ModelError>)
        requires
            old(self)@.accepts(event@),
        ensures
            final(self)@ == old(self)@.handled(event@).0,
            match r {
                Ok(out) => old(self)@.handled(event@).1 == Ok::<
                    Seq<StreamEventView>,
                    ModelErrorView,
                >(out.deep_view()),
                Err(error) => old(self)@.handled(event@).1 == Err::<
                    Seq<StreamEventView>,
                    ModelErrorView,
                >(error@),
            },
    {
        let mut out: Vec<StreamEvent> = Vec::new();
        assert(out.deep_view() == Seq::<StreamEventView>::empty());
        let kind = event.at("type").text_or_empty();
        if same(kind, "message_start") {
            self.usage.add(convert::parse_usage(event.at("message").at("usage")));
            Ok(out)
        } else if same(kind, "content_block_start") {
            Ok(self.start(&event))
        } else if same(kind, "content_block_delta") {
            Ok(self.advance(&event))
        } else if same(kind, "content_block_stop") {
            match self.stop(&event) {
                None => Ok(out),
                Some(error) => Err(error),
            }
        } else if same(kind, "message_delta") {
            if let Some(reason) = event.at("delta").at("stop_reason").as_str() {
                self.stop_reason = Some(reason.to_owned());
            }
            self.usage.add(convert::parse_usage(event.at("usage")));
            Ok(out)
        } else if same(kind, "message_stop") {
            let content = gather(&self.blocks);
            self.blocks = Vec::new();
            self.skipped = Vec::new();
            assert(slots_view(self.blocks@) == Map::<int, ContentView>::empty());
            let reason: Option<&str> = match &self.stop_reason {
                Some(reason) => Some(reason.as_str()),
                None => None,
            };
            let response = Response {
                message: Message { role: Role::Assistant, content },
                stop_reason: convert::parse_stop_reason(reason),
                usage: self.usage,
            };
            let ghost view = response@;
            out.push(StreamEvent::Completed(response));
            assert(out.deep_view() == seq![StreamEventView::Completed(view)]);
            Ok(out)
        } else if same(kind, "error") {
            Err(ModelError::Api { status: 0, message: render(event.at("error")) })
        } else {
            Ok(out)
        }
    }
}

}
