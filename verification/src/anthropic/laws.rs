//! What holds of whole streams of the Messages API.

use vstd::prelude::*;

use super::client::AnthropicView;
use super::convert::{blocks_wire, body_wire, content_of, contents_of, response_of, usage_of};
use super::sse::{
    blocks_below, in_index_order, index_of, input_of, payload_of, position, with_input, with_thinking,
    AssemblerView,
};
use crate::codec::{json_parse, json_text};
use crate::error::ModelErrorView;
use crate::json::JsonView;
use crate::message::{block_text, text_of, ContentView};
use crate::model::{
    deltas_text, lemma_deltas_append, RequestView, ResponseView, StopReasonView, StreamEventView,
    ToolChoiceView, Usage,
};
use crate::text::{is_white_space, law_trimming_takes_off_white_space_alone};

verus! {

/// What an event says it is.
pub open spec fn kind_of(event: JsonView) -> Seq<char> {
    event.at("type"@).text()
}

/// The state after some events, and what they handed on. A failing event hands
/// on nothing.
pub open spec fn followed(state: AssemblerView, events: Seq<JsonView>) -> (
    AssemblerView,
    Seq<StreamEventView>,
)
    decreases events.len(),
{
    if events.len() == 0 {
        (state, Seq::empty())
    } else {
        let (before, out) = followed(state, events.drop_last());
        let (after, more) = before.handled(events.last());
        (
            after,
            out + (match more {
                Ok(more) => more,
                Err(_) => Seq::empty(),
            }),
        )
    }
}

/// The names of the events differ from each other.
proof fn lemma_kinds()
    ensures
        "message_start"@ != "content_block_start"@,
        "message_start"@ != "content_block_delta"@,
        "message_start"@ != "content_block_stop"@,
        "message_start"@ != "message_delta"@,
        "message_start"@ != "message_stop"@,
        "message_start"@ != "error"@,
        "content_block_start"@ != "content_block_delta"@,
        "content_block_start"@ != "content_block_stop"@,
        "content_block_start"@ != "message_delta"@,
        "content_block_start"@ != "message_stop"@,
        "content_block_start"@ != "error"@,
        "content_block_delta"@ != "content_block_stop"@,
        "content_block_delta"@ != "message_delta"@,
        "content_block_delta"@ != "message_stop"@,
        "content_block_delta"@ != "error"@,
        "content_block_stop"@ != "message_delta"@,
        "content_block_stop"@ != "message_stop"@,
        "content_block_stop"@ != "error"@,
        "message_delta"@ != "message_stop"@,
        "message_delta"@ != "error"@,
        "message_stop"@ != "error"@,
        "text_delta"@ != "thinking_delta"@,
        "text_delta"@ != "input_json_delta"@,
        "thinking_delta"@ != "input_json_delta"@,
{
    reveal_strlit("message_start");
    reveal_strlit("content_block_start");
    reveal_strlit("content_block_delta");
    reveal_strlit("content_block_stop");
    reveal_strlit("message_delta");
    reveal_strlit("message_stop");
    reveal_strlit("error");
    assert("message_start"@.len() == 13 && "message_start"@[8] == 's');
    assert("content_block_start"@.len() == 19 && "content_block_start"@[14] == 's');
    assert("content_block_delta"@.len() == 19 && "content_block_delta"@[14] == 'd');
    assert("content_block_stop"@.len() == 18);
    assert("message_delta"@.len() == 13 && "message_delta"@[8] == 'd');
    assert("message_stop"@.len() == 12);
    assert("error"@.len() == 5);
    reveal_strlit("text_delta");
    reveal_strlit("thinking_delta");
    reveal_strlit("input_json_delta");
    assert("text_delta"@.len() == 10);
    assert("thinking_delta"@.len() == 14);
    assert("input_json_delta"@.len() == 16);
}

/// Maps that agree below `n` hold the same blocks there.
proof fn lemma_below_agree(a: Map<int, ContentView>, b: Map<int, ContentView>, n: int)
    requires
        forall|k: int|
            0 <= k < n ==> (#[trigger] a.contains_key(k) <==> b.contains_key(k)) && (
            a.contains_key(k) ==> a[k] == b[k]),
    ensures
        blocks_below(a, n) == blocks_below(b, n),
    decreases n,
{
    if n > 0 {
        lemma_below_agree(a, b, n - 1);
        assert(a.contains_key(n - 1) <==> b.contains_key(n - 1));
    }
}

/// Where there is no block from `i` on, the blocks are those below `i`.
proof fn lemma_nothing_above(blocks: Map<int, ContentView>, i: int, n: int)
    requires
        0 <= i <= n,
        forall|k: int| i <= k < n ==> !#[trigger] blocks.contains_key(k),
    ensures
        blocks_below(blocks, n) == blocks_below(blocks, i),
    decreases n,
{
    if n > i {
        lemma_nothing_above(blocks, i, n - 1);
        assert(!blocks.contains_key(n - 1));
    }
}

/// A block at the highest index is the last one.
proof fn lemma_last_block(blocks: Map<int, ContentView>, i: int, content: ContentView, n: int)
    requires
        0 <= i < n,
        forall|k: int| #[trigger] blocks.contains_key(k) ==> k <= i,
    ensures
        blocks_below(blocks.insert(i, content), n) == blocks_below(blocks, i).push(content),
        blocks_below(blocks, n) == if blocks.contains_key(i) {
            blocks_below(blocks, i).push(blocks[i])
        } else {
            blocks_below(blocks, i)
        },
{
    let after = blocks.insert(i, content);
    lemma_nothing_above(after, i + 1, n);
    lemma_nothing_above(blocks, i + 1, n);
    lemma_below_agree(after, blocks, i);
}

/// Replacing a block by one with the same text keeps the text.
proof fn lemma_text_kept(blocks: Map<int, ContentView>, i: int, block: ContentView, n: int)
    requires
        blocks.contains_key(i),
        block_text(blocks[i]) == block_text(block),
    ensures
        text_of(blocks_below(blocks.insert(i, block), n)) == text_of(blocks_below(blocks, n)),
    decreases n,
{
    if n > 0 {
        let after = blocks.insert(i, block);
        lemma_text_kept(blocks, i, block, n - 1);
        assert(after.contains_key(n - 1) <==> blocks.contains_key(n - 1));
        if blocks.contains_key(n - 1) {
            let before = blocks_below(blocks, n - 1);
            assert(before.push(blocks[n - 1]).drop_last() == before);
            assert(blocks_below(after, n - 1).push(after[n - 1]).drop_last() == blocks_below(
                after,
                n - 1,
            ));
        }
    }
}

/// Whether an event comes in order: a block starts after the blocks so far,
/// with no text yet, and text goes to the last block.
pub open spec fn in_order(state: AssemblerView, event: JsonView) -> bool {
    let index = index_of(event);
    if kind_of(event) == "content_block_start"@ {
        content_of(event.at("content_block"@)) matches Some(content) ==> {
            &&& index < usize::MAX
            &&& forall|k: int| #[trigger] state.blocks.contains_key(k) ==> k < index
            &&& block_text(content).len() == 0
        }
    } else if kind_of(event) == "content_block_delta"@ {
        event.at("delta"@).at("type"@).text() == "text_delta"@ ==> {
            &&& index < usize::MAX
            &&& forall|k: int| #[trigger] state.blocks.contains_key(k) ==> k <= index
            &&& state.blocks.contains_key(index as int)
            &&& state.blocks[index as int] is Text
        }
    } else {
        kind_of(event) != "message_stop"@
    }
}

/// Whether each of the events comes in order.
pub open spec fn all_in_order(state: AssemblerView, events: Seq<JsonView>) -> bool
    decreases events.len(),
{
    events.len() > 0 ==> {
        &&& all_in_order(state, events.drop_last())
        &&& in_order(followed(state, events.drop_last()).0, events.last())
    }
}

/// An event in order adds to the text just what it hands on as text.
pub proof fn law_text_grows_by_what_is_handed_on(state: AssemblerView, event: JsonView)
    requires
        in_order(state, event),
    ensures
        text_of(in_index_order(state.handled(event).0.blocks)) == text_of(
            in_index_order(state.blocks),
        ) + (match state.handled(event).1 {
            Ok(out) => deltas_text(out),
            Err(_) => Seq::empty(),
        }),
{
    lemma_kinds();
    let index = index_of(event) as int;
    let blocks = state.blocks;
    let n = usize::MAX as int;
    let all = blocks_below(blocks, n);
    let below = blocks_below(blocks, index);
    reveal_with_fuel(deltas_text, 2);
    if kind_of(event) == "content_block_start"@ {
        if let Some(content) = content_of(event.at("content_block"@)) {
            lemma_last_block(blocks, index, content, n);
            assert(below.push(content).drop_last() == below);
        }
    } else if kind_of(event) == "content_block_delta"@ {
        let delta = event.at("delta"@);
        let kind = delta.at("type"@).text();
        if kind == "text_delta"@ {
            let text = delta.at("text"@).text();
            let after = state.with_text(index_of(event), text);
            lemma_last_block(blocks, index, after[index], n);
            assert(below.push(after[index]).drop_last() == below);
            assert(below.push(blocks[index]).drop_last() == below);
            assert(text_of(blocks_below(after, n)) == text_of(all) + text);
            assert(seq![StreamEventView::TextDelta(text)].drop_last() == Seq::<
                StreamEventView,
            >::empty());
        } else if kind == "thinking_delta"@ {
            if blocks.contains_key(index) && blocks[index] is Thinking {
                let after = with_thinking(blocks, index, delta.at("thinking"@).text());
                lemma_text_kept(blocks, index, after[index], n);
            }
        }
    } else if kind_of(event) == "content_block_stop"@ {
        if let Some(place) = position(state.tool_json, index_of(event)) {
            if let Ok(input) = input_of(state.tool_json[place].1) {
                if blocks.contains_key(index) && blocks[index] is ToolUse {
                    let after = with_input(blocks, index, input);
                    lemma_text_kept(blocks, index, after[index], n);
                }
            }
        }
    }
    assert(text_of(all) + Seq::<char>::empty() == text_of(all));
}

proof fn lemma_text_follows(state: AssemblerView, events: Seq<JsonView>)
    requires
        all_in_order(state, events),
    ensures
        text_of(in_index_order(followed(state, events).0.blocks)) == text_of(
            in_index_order(state.blocks),
        ) + deltas_text(followed(state, events).1),
    decreases events.len(),
{
    let text = text_of(in_index_order(state.blocks));
    if events.len() == 0 {
        assert(text + Seq::<char>::empty() == text);
    } else {
        lemma_text_follows(state, events.drop_last());
        let (before, out) = followed(state, events.drop_last());
        law_text_grows_by_what_is_handed_on(before, events.last());
        let more = match before.handled(events.last()).1 {
            Ok(more) => more,
            Err(_) => Seq::empty(),
        };
        lemma_deltas_append(out, more);
        assert(text + deltas_text(out) + deltas_text(more) == text + (deltas_text(out)
            + deltas_text(more)));
    }
}

/// The text deltas of a stream whose events come in order add up to the text of
/// the completed response.
pub proof fn law_deltas_add_up_to_the_text(events: Seq<JsonView>, stop: JsonView)
    requires
        all_in_order(AssemblerView::fresh(), events),
        kind_of(stop) == "message_stop"@,
    ensures
        ({
            let (state, out) = followed(AssemblerView::fresh(), events);
            &&& state.handled(stop).1 == Ok::<Seq<StreamEventView>, ModelErrorView>(
                seq![StreamEventView::Completed(state.response())],
            )
            &&& text_of(state.response().message.content) == deltas_text(out)
        }),
{
    lemma_kinds();
    lemma_text_follows(AssemblerView::fresh(), events);
    let fresh = AssemblerView::fresh();
    let out = followed(fresh, events).1;
    lemma_nothing_above(fresh.blocks, 0, usize::MAX as int);
    assert(text_of(Seq::<ContentView>::empty()) + deltas_text(out) == deltas_text(out));
}

/// The block that an event opens at `index`.
pub open spec fn opens(event: JsonView, index: usize) -> Option<ContentView> {
    if kind_of(event) == "content_block_start"@ && index_of(event) == index {
        content_of(event.at("content_block"@))
    } else {
        None
    }
}

/// Whether an event is a delta of this kind for block `index`.
pub open spec fn is_delta(event: JsonView, index: usize, kind: Seq<char>) -> bool {
    &&& kind_of(event) == "content_block_delta"@
    &&& index_of(event) == index
    &&& event.at("delta"@).at("type"@).text() == kind
}

/// Whether an event opens a block of unknown type at `index`.
pub open spec fn skips(event: JsonView, index: usize) -> bool {
    &&& kind_of(event) == "content_block_start"@
    &&& index_of(event) == index
    &&& content_of(event.at("content_block"@)) is None
}

/// Whether an event closes block `index`.
pub open spec fn closes(event: JsonView, index: usize) -> bool {
    kind_of(event) == "content_block_stop"@ && index_of(event) == index
}

/// The block as it was when it was last opened at `index`.
pub open spec fn opened(events: Seq<JsonView>, index: usize) -> Option<ContentView>
    decreases events.len(),
{
    if events.len() == 0 {
        None
    } else if opens(events.last(), index) is Some {
        opens(events.last(), index)
    } else {
        opened(events.drop_last(), index)
    }
}

/// One more than the highest index at which a block was opened.
pub open spec fn reach(events: Seq<JsonView>) -> nat
    decreases events.len(),
{
    if events.len() == 0 {
        0
    } else {
        let before = reach(events.drop_last());
        let index = index_of(events.last());
        if opens(events.last(), index) is Some && before <= index {
            index as nat + 1
        } else {
            before
        }
    }
}

/// Whether a block of unknown type was opened at `index`.
pub open spec fn skipped(events: Seq<JsonView>, index: usize) -> bool
    decreases events.len(),
{
    events.len() > 0 && (skips(events.last(), index) || skipped(events.drop_last(), index))
}

/// The text that came for `index` though no block was opened there: from the
/// first piece on that came when a block of a higher index had been opened, and
/// none of unknown type at this one.
pub open spec fn loose_text(events: Seq<JsonView>, index: usize) -> Option<Seq<char>>
    decreases events.len(),
{
    if events.len() == 0 {
        None
    } else {
        let init = events.drop_last();
        let before = loose_text(init, index);
        let more = events.last().at("delta"@).at("text"@).text();
        if !is_delta(events.last(), index, "text_delta"@) {
            before
        } else {
            match before {
                Some(text) => Some(text + more),
                None => if more.len() > 0 && index < reach(init) && !skipped(init, index) {
                    Some(more)
                } else {
                    None
                },
            }
        }
    }
}

/// The pieces that the deltas of this kind for block `index` carry under `key`,
/// one after another, since the block was opened.
pub open spec fn pieces(
    events: Seq<JsonView>,
    index: usize,
    kind: Seq<char>,
    key: Seq<char>,
) -> Seq<char>
    decreases events.len(),
{
    if events.len() == 0 || opens(events.last(), index) is Some {
        Seq::empty()
    } else {
        let before = pieces(events.drop_last(), index, kind, key);
        if is_delta(events.last(), index, kind) {
            before + events.last().at("delta"@).at(key).text()
        } else {
            before
        }
    }
}

/// The JSON collected for the tool call that is open at `index`, if one is.
pub open spec fn open_json(events: Seq<JsonView>, index: usize) -> Option<Seq<char>>
    decreases events.len(),
{
    if events.len() == 0 || closes(events.last(), index) {
        None
    } else if opens(events.last(), index) is Some && opens(events.last(), index)->0 is ToolUse {
        Some(Seq::empty())
    } else {
        match open_json(events.drop_last(), index) {
            Some(json) if is_delta(events.last(), index, "input_json_delta"@) => Some(
                json + events.last().at("delta"@).at("partial_json"@).text(),
            ),
            before => before,
        }
    }
}

/// The input that the collected JSON gave the tool call at `index` when it was
/// closed, if it did.
pub open spec fn given_input(events: Seq<JsonView>, index: usize) -> Option<JsonView>
    decreases events.len(),
{
    if events.len() == 0 || opens(events.last(), index) is Some {
        None
    } else {
        let before = given_input(events.drop_last(), index);
        if closes(events.last(), index) {
            match open_json(events.drop_last(), index) {
                Some(json) => match input_of(json) {
                    Ok(input) => Some(input),
                    Err(_) => before,
                },
                None => before,
            }
        } else {
            before
        }
    }
}

/// The block that was streamed at `index`: what it was opened with, and its
/// pieces. A tool call has the input that its pieces stand for. Where no block
/// was opened, it is the text that came for it.
pub open spec fn streamed(events: Seq<JsonView>, index: usize) -> Option<ContentView> {
    match opened(events, index) {
        None => match loose_text(events, index) {
            Some(text) => Some(ContentView::Text { text }),
            None => None,
        },
        Some(ContentView::Text { text }) => Some(
            ContentView::Text { text: text + pieces(events, index, "text_delta"@, "text"@) },
        ),
        Some(ContentView::Thinking { thinking }) => Some(
            ContentView::Thinking {
                thinking: thinking + pieces(events, index, "thinking_delta"@, "thinking"@),
            },
        ),
        Some(ContentView::ToolUse { id, name, input }) => Some(
            ContentView::ToolUse {
                id,
                name,
                input: match given_input(events, index) {
                    Some(given) => given,
                    None => input,
                },
            },
        ),
        other => other,
    }
}

/// Whether none of the events ends the message.
pub open spec fn unfinished(events: Seq<JsonView>) -> bool
    decreases events.len(),
{
    events.len() > 0 ==> {
        &&& unfinished(events.drop_last())
        &&& kind_of(events.last()) != "message_stop"@
    }
}

/// Whether an event opens no tool call where one is open.
pub open spec fn opens_apart(events: Seq<JsonView>, event: JsonView) -> bool {
    opens(event, index_of(event)) is Some && opens(event, index_of(event))->0 is ToolUse
        ==> open_json(events, index_of(event)) is None
}

/// Whether the events are those of one message up to its stop: in any order and
/// with any events between, as long as no tool call is opened where one is open.
pub open spec fn one_message(events: Seq<JsonView>) -> bool
    decreases events.len(),
{
    events.len() > 0 ==> {
        &&& one_message(events.drop_last())
        &&& kind_of(events.last()) != "message_stop"@
        &&& opens_apart(events.drop_last(), events.last())
    }
}

/// The last stop reason given.
pub open spec fn last_reason(events: Seq<JsonView>) -> Option<Seq<char>>
    decreases events.len(),
{
    if events.len() == 0 {
        None
    } else {
        let reason = events.last().at("delta"@).at("stop_reason"@).as_str();
        if kind_of(events.last()) == "message_delta"@ && reason is Some {
            reason
        } else {
            last_reason(events.drop_last())
        }
    }
}

/// The token counts that an event carries.
pub open spec fn usage_in(event: JsonView) -> Usage {
    if kind_of(event) == "message_start"@ {
        usage_of(event.at("message"@).at("usage"@))
    } else if kind_of(event) == "message_delta"@ {
        usage_of(event.at("usage"@))
    } else {
        Usage::zero()
    }
}

/// The input tokens over all events.
pub open spec fn input_used(events: Seq<JsonView>) -> int
    decreases events.len(),
{
    if events.len() == 0 {
        0
    } else {
        input_used(events.drop_last()) + usage_in(events.last()).input_tokens
    }
}

/// The output tokens over all events.
pub open spec fn output_used(events: Seq<JsonView>) -> int
    decreases events.len(),
{
    if events.len() == 0 {
        0
    } else {
        output_used(events.drop_last()) + usage_in(events.last()).output_tokens
    }
}

/// Whether no two open tool calls are at the same block.
spec fn apart(open: Seq<(usize, Seq<char>)>) -> bool {
    forall|a: int, b: int|
        0 <= a < b < open.len() ==> (#[trigger] open[a]).0 != (#[trigger] open[b]).0
}

/// The JSON of the open tool call at `index`.
spec fn held(open: Seq<(usize, Seq<char>)>, index: usize) -> Option<Seq<char>> {
    match position(open, index) {
        Some(place) => Some(open[place].1),
        None => None,
    }
}

proof fn lemma_position(open: Seq<(usize, Seq<char>)>, index: usize)
    ensures
        match position(open, index) {
            Some(place) => 0 <= place < open.len() && open[place].0 == index,
            None => forall|k: int| 0 <= k < open.len() ==> (#[trigger] open[k]).0 != index,
        },
    decreases open.len(),
{
    if open.len() > 0 && open[0].0 != index {
        let rest = open.drop_first();
        lemma_position(rest, index);
        if position(rest, index) is None {
            assert forall|k: int| 0 <= k < open.len() implies (#[trigger] open[k]).0 != index by {
                if k > 0 {
                    assert(open[k] == rest[k - 1]);
                }
            }
        }
    }
}

proof fn lemma_held_pushed(open: Seq<(usize, Seq<char>)>, index: usize, i: usize)
    requires
        apart(open),
        held(open, index) is None,
    ensures
        ({
            let after = open.push((index, Seq::empty()));
            &&& apart(after)
            &&& held(after, i) == if i == index {
                Some(Seq::empty())
            } else {
                held(open, i)
            }
        }),
{
    let after = open.push((index, Seq::empty()));
    lemma_position(open, index);
    lemma_position(open, i);
    lemma_position(after, i);
    assert(after[open.len() as int].0 == index);
    if let Some(place) = position(open, i) {
        assert(after[place] == open[place]);
    }
    assert(apart(after)) by {
        assert forall|a: int, b: int| 0 <= a < b < after.len() implies (#[trigger] after[a]).0 != (
        #[trigger] after[b]).0 by {
            assert(after[a] == open[a]);
            if b < open.len() {
                assert(after[b] == open[b]);
            }
        }
    }
}

proof fn lemma_held_updated(open: Seq<(usize, Seq<char>)>, index: usize, more: Seq<char>, i: usize)
    requires
        apart(open),
        position(open, index) is Some,
    ensures
        ({
            let place = position(open, index)->0;
            let after = open.update(place, (index, open[place].1 + more));
            &&& apart(after)
            &&& held(after, i) == if i == index {
                Some(open[place].1 + more)
            } else {
                held(open, i)
            }
        }),
{
    let place = position(open, index)->0;
    let after = open.update(place, (index, open[place].1 + more));
    lemma_position(open, index);
    lemma_position(open, i);
    lemma_position(after, i);
    assert forall|k: int| 0 <= k < open.len() implies (#[trigger] after[k]).0 == open[k].0 by {}
    if let Some(there) = position(open, i) {
        assert(after[there].0 == i);
    }
}

proof fn lemma_held_removed(open: Seq<(usize, Seq<char>)>, index: usize, i: usize)
    requires
        apart(open),
        position(open, index) is Some,
    ensures
        ({
            let after = open.remove(position(open, index)->0);
            &&& apart(after)
            &&& held(after, i) == if i == index {
                None
            } else {
                held(open, i)
            }
        }),
{
    let place = position(open, index)->0;
    let after = open.remove(place);
    lemma_position(open, index);
    lemma_position(open, i);
    lemma_position(after, i);
    assert forall|k: int| 0 <= k < after.len() implies #[trigger] after[k] == open[if k < place {
        k
    } else {
        k + 1
    }] by {}
    if let Some(there) = position(open, i) {
        if there < place {
            assert(after[there] == open[there]);
        } else if there > place {
            assert(after[there - 1] == open[there]);
        }
    }
}

/// Each block is what was streamed at its index, whatever stood between.
pub proof fn law_blocks_are_what_was_streamed(events: Seq<JsonView>, index: usize)
    requires
        one_message(events),
    ensures
        ({
            let blocks = followed(AssemblerView::fresh(), events).0.blocks;
            streamed(events, index) == if blocks.contains_key(index as int) {
                Some(blocks[index as int])
            } else {
                None
            }
        }),
{
    lemma_streamed(events, index);
}

/// A block of text or of thinking is what was streamed at its index, and so is
/// text for which no block was opened, whatever stood between and whatever the
/// tool calls are.
pub proof fn law_spoken_blocks_are_what_was_streamed(events: Seq<JsonView>, index: usize)
    requires
        unfinished(events),
        opened(events, index) is None || opened(events, index)->0 !is ToolUse,
    ensures
        ({
            let blocks = followed(AssemblerView::fresh(), events).0.blocks;
            streamed(events, index) == if blocks.contains_key(index as int) {
                Some(blocks[index as int])
            } else {
                None
            }
        }),
{
    lemma_spoken(events, index);
}

/// What holds of the blocks at `i`, whatever the tool calls are.
proof fn lemma_spoken(events: Seq<JsonView>, i: usize)
    requires
        unfinished(events),
    ensures
        ({
            let state = followed(AssemblerView::fresh(), events).0;
            let block = if state.blocks.contains_key(i as int) {
                Some(state.blocks[i as int])
            } else {
                None
            };
            &&& state.reach == reach(events)
            &&& state.skipped.contains(i) <==> skipped(events, i)
            &&& match opened(events, i) {
                Some(ContentView::ToolUse { .. }) => block is Some && block->0 is ToolUse,
                _ => block == streamed(events, i),
            }
        }),
    decreases events.len(),
{
    lemma_kinds();
    if events.len() > 0 {
        let init = events.drop_last();
        let event = events.last();
        let index = index_of(event);
        let before = followed(AssemblerView::fresh(), init).0;
        lemma_spoken(init, i);
        if kind_of(event) == "content_block_start"@ {
            if content_of(event.at("content_block"@)) is None {
                let after = before.skipped.push(index);
                assert(after[before.skipped.len() as int] == index);
                if before.skipped.contains(i) {
                    let k = choose|k: int|
                        0 <= k < before.skipped.len() && before.skipped[k] == i;
                    assert(after[k] == i);
                }
                if after.contains(i) && i != index {
                    let k = choose|k: int| 0 <= k < after.len() && after[k] == i;
                    assert(before.skipped[k] == i);
                }
            } else {
                assert(opens(event, index) is Some);
            }
        }
    }
}

proof fn lemma_unfinished(events: Seq<JsonView>)
    requires
        one_message(events),
    ensures
        unfinished(events),
    decreases events.len(),
{
    if events.len() > 0 {
        lemma_unfinished(events.drop_last());
    }
}

proof fn lemma_streamed(events: Seq<JsonView>, i: usize)
    requires
        one_message(events),
    ensures
        ({
            let state = followed(AssemblerView::fresh(), events).0;
            &&& apart(state.tool_json)
            &&& held(state.tool_json, i) == open_json(events, i)
            &&& streamed(events, i) == if state.blocks.contains_key(i as int) {
                Some(state.blocks[i as int])
            } else {
                None
            }
        }),
    decreases events.len(),
{
    lemma_unfinished(events);
    lemma_spoken(events, i);
    if events.len() > 0 {
        let init = events.drop_last();
        let event = events.last();
        let index = index_of(event);
        let before = followed(AssemblerView::fresh(), init).0;
        let open = before.tool_json;
        lemma_streamed(init, i);
        lemma_streamed(init, index);
        lemma_kinds();
        if kind_of(event) == "content_block_start"@ {
            if let Some(content) = content_of(event.at("content_block"@)) {
                assert(opens(event, index) == Some(content));
                if content is ToolUse {
                    lemma_held_pushed(open, index, i);
                }
            }
        } else if kind_of(event) == "content_block_delta"@ {
            let delta = event.at("delta"@);
            if delta.at("type"@).text() == "input_json_delta"@ {
                if position(open, index) is Some {
                    lemma_held_updated(open, index, delta.at("partial_json"@).text(), i);
                }
            }
        } else if kind_of(event) == "content_block_stop"@ {
            if position(open, index) is Some {
                lemma_held_removed(open, index, i);
            }
        }
    }
}

proof fn lemma_remarks(events: Seq<JsonView>)
    requires
        one_message(events),
        input_used(events) <= u64::MAX,
        output_used(events) <= u64::MAX,
    ensures
        ({
            let state = followed(AssemblerView::fresh(), events).0;
            &&& state.stop_reason == last_reason(events)
            &&& state.usage.input_tokens == input_used(events)
            &&& state.usage.output_tokens == output_used(events)
        }),
    decreases events.len(),
{
    if events.len() > 0 {
        lemma_remarks(events.drop_last());
        lemma_kinds();
    }
}

/// The block that the item at `index` of a reply stands for.
pub open spec fn block_at(items: Seq<JsonView>, index: usize) -> Option<ContentView> {
    if index < items.len() {
        content_of(items[index as int])
    } else {
        None
    }
}

proof fn lemma_blocks_in_order(blocks: Map<int, ContentView>, items: Seq<JsonView>, n: int)
    requires
        0 <= n <= items.len() <= usize::MAX,
        forall|i: usize|
            i < n ==> #[trigger] block_at(items, i) == if blocks.contains_key(i as int) {
                Some(blocks[i as int])
            } else {
                None
            },
    ensures
        blocks_below(blocks, n) == contents_of(items.take(n)),
    decreases n,
{
    if n > 0 {
        lemma_blocks_in_order(blocks, items, n - 1);
        assert(items.take(n).drop_last() == items.take(n - 1));
        assert(block_at(items, (n - 1) as usize) == content_of(items[n - 1]));
    }
}

/// A streamed response is completed as the very response that the same answer
/// gives without streaming. `value` is that answer: at each index it has the
/// block that was streamed there, and its stop reason is the last one streamed,
/// its usage all that was streamed. The events may come in any order, with
/// pings and unknown events, deltas and blocks between.
pub proof fn law_streaming_gives_the_whole_response(
    value: JsonView,
    events: Seq<JsonView>,
    stop: JsonView,
)
    requires
        response_of(value) is Ok,
        one_message(events),
        kind_of(stop) == "message_stop"@,
        value.at("content"@).as_array()->0.len() <= usize::MAX,
        forall|i: usize|
            i < usize::MAX ==> streamed(events, i) == #[trigger] block_at(
                value.at("content"@).as_array()->0,
                i,
            ),
        last_reason(events) == value.at("stop_reason"@).as_str(),
        input_used(events) == usage_of(value.at("usage"@)).input_tokens,
        output_used(events) == usage_of(value.at("usage"@)).output_tokens,
    ensures
        followed(AssemblerView::fresh(), events).0.handled(stop).1 == Ok::<
            Seq<StreamEventView>,
            ModelErrorView,
        >(seq![StreamEventView::Completed(response_of(value)->Ok_0)]),
{
    lemma_kinds();
    let state = followed(AssemblerView::fresh(), events).0;
    let items = value.at("content"@).as_array()->0;
    let n = items.len() as int;
    assert forall|i: usize| i < usize::MAX implies #[trigger] block_at(items, i)
        == if state.blocks.contains_key(i as int) {
        Some(state.blocks[i as int])
    } else {
        None
    } by {
        lemma_streamed(events, i);
    }
    lemma_blocks_in_order(state.blocks, items, n);
    assert(items.take(n) == items);
    assert forall|k: int| n <= k < usize::MAX implies !#[trigger] state.blocks.contains_key(k) by {
        assert(block_at(items, k as usize) is None);
    }
    lemma_nothing_above(state.blocks, n, usize::MAX as int);
    lemma_remarks(events);
    assert(state.response() == response_of(value)->Ok_0);
}

/// The keys of a body differ from each other.
proof fn lemma_body_keys()
    ensures
        "model"@ != "messages"@,
        "model"@ != "stream"@,
        "model"@ != "max_tokens"@,
        "model"@ != "temperature"@,
        "model"@ != "system"@,
        "model"@ != "tools"@,
        "model"@ != "tool_choice"@,
        "messages"@ != "stream"@,
        "messages"@ != "max_tokens"@,
        "messages"@ != "temperature"@,
        "messages"@ != "system"@,
        "messages"@ != "tools"@,
        "messages"@ != "tool_choice"@,
        "stream"@ != "max_tokens"@,
        "stream"@ != "temperature"@,
        "stream"@ != "system"@,
        "stream"@ != "tools"@,
        "stream"@ != "tool_choice"@,
        "max_tokens"@ != "temperature"@,
        "max_tokens"@ != "system"@,
        "max_tokens"@ != "tools"@,
        "max_tokens"@ != "tool_choice"@,
        "temperature"@ != "system"@,
        "temperature"@ != "tools"@,
        "temperature"@ != "tool_choice"@,
        "system"@ != "tools"@,
        "system"@ != "tool_choice"@,
        "tools"@ != "tool_choice"@,
{
    reveal_strlit("model");
    reveal_strlit("messages");
    reveal_strlit("stream");
    reveal_strlit("max_tokens");
    reveal_strlit("temperature");
    reveal_strlit("system");
    reveal_strlit("tools");
    reveal_strlit("tool_choice");
    assert("model"@.len() == 5 && "model"@[0] == 'm');
    assert("messages"@.len() == 8);
    assert("stream"@.len() == 6 && "stream"@[1] == 't');
    assert("max_tokens"@.len() == 10);
    assert("temperature"@.len() == 11 && "temperature"@[1] == 'e');
    assert("system"@.len() == 6 && "system"@[1] == 'y');
    assert("tools"@.len() == 5 && "tools"@[0] == 't');
    assert("tool_choice"@.len() == 11 && "tool_choice"@[1] == 'o');
}

/// The keys of the parts of a body differ from each other.
proof fn lemma_part_keys()
    ensures
        "type"@ != "name"@,
        "type"@ != "description"@,
        "type"@ != "input_schema"@,
        "type"@ != "role"@,
        "type"@ != "content"@,
        "type"@ != "text"@,
        "type"@ != "id"@,
        "type"@ != "input"@,
        "type"@ != "tool_use_id"@,
        "type"@ != "is_error"@,
        "type"@ != "thinking"@,
        "name"@ != "description"@,
        "name"@ != "input_schema"@,
        "name"@ != "role"@,
        "name"@ != "content"@,
        "name"@ != "text"@,
        "name"@ != "id"@,
        "name"@ != "input"@,
        "name"@ != "tool_use_id"@,
        "name"@ != "is_error"@,
        "name"@ != "thinking"@,
        "description"@ != "input_schema"@,
        "description"@ != "role"@,
        "description"@ != "content"@,
        "description"@ != "text"@,
        "description"@ != "id"@,
        "description"@ != "input"@,
        "description"@ != "tool_use_id"@,
        "description"@ != "is_error"@,
        "description"@ != "thinking"@,
        "input_schema"@ != "role"@,
        "input_schema"@ != "content"@,
        "input_schema"@ != "text"@,
        "input_schema"@ != "id"@,
        "input_schema"@ != "input"@,
        "input_schema"@ != "tool_use_id"@,
        "input_schema"@ != "is_error"@,
        "input_schema"@ != "thinking"@,
        "role"@ != "content"@,
        "role"@ != "text"@,
        "role"@ != "id"@,
        "role"@ != "input"@,
        "role"@ != "tool_use_id"@,
        "role"@ != "is_error"@,
        "role"@ != "thinking"@,
        "content"@ != "text"@,
        "content"@ != "id"@,
        "content"@ != "input"@,
        "content"@ != "tool_use_id"@,
        "content"@ != "is_error"@,
        "content"@ != "thinking"@,
        "text"@ != "id"@,
        "text"@ != "input"@,
        "text"@ != "tool_use_id"@,
        "text"@ != "is_error"@,
        "text"@ != "thinking"@,
        "id"@ != "input"@,
        "id"@ != "tool_use_id"@,
        "id"@ != "is_error"@,
        "id"@ != "thinking"@,
        "input"@ != "tool_use_id"@,
        "input"@ != "is_error"@,
        "input"@ != "thinking"@,
        "tool_use_id"@ != "is_error"@,
        "tool_use_id"@ != "thinking"@,
        "is_error"@ != "thinking"@,
{
    reveal_strlit("type");
    reveal_strlit("name");
    reveal_strlit("description");
    reveal_strlit("input_schema");
    reveal_strlit("role");
    reveal_strlit("content");
    reveal_strlit("text");
    reveal_strlit("id");
    reveal_strlit("input");
    reveal_strlit("tool_use_id");
    reveal_strlit("is_error");
    reveal_strlit("thinking");
    assert("type"@.len() == 4 && "type"@[0] == 't' && "type"@[1] == 'y');
    assert("name"@.len() == 4 && "name"@[0] == 'n');
    assert("description"@.len() == 11 && "description"@[0] == 'd');
    assert("input_schema"@.len() == 12);
    assert("role"@.len() == 4 && "role"@[0] == 'r');
    assert("content"@.len() == 7);
    assert("text"@.len() == 4 && "text"@[0] == 't' && "text"@[1] == 'e');
    assert("id"@.len() == 2);
    assert("input"@.len() == 5);
    assert("tool_use_id"@.len() == 11 && "tool_use_id"@[0] == 't');
    assert("is_error"@.len() == 8 && "is_error"@[0] == 'i');
    assert("thinking"@.len() == 8 && "thinking"@[0] == 't');
}

/// Whether an object has an entry.
pub open spec fn has_entry(json: JsonView, key: Seq<char>) -> bool {
    json matches JsonView::Object(entries) && entries.contains_key(key)
}

/// The body of a call offers the model every tool of the request, in its place
/// and with its name, its description and the schema of its input; without tools
/// it offers none.
pub proof fn law_body_offers_every_tool(
    request: RequestView,
    model: Seq<char>,
    default_max_tokens: u32,
    stream: bool,
)
    ensures
        ({
            let body = body_wire(request, model, default_max_tokens, stream);
            &&& request.tools.len() == 0 <==> !has_entry(body, "tools"@)
            &&& request.tools.len() > 0 ==> (body.at("tools"@) matches JsonView::Array(items) && {
                &&& items.len() == request.tools.len()
                &&& forall|i: int|
                    0 <= i < items.len() ==> {
                        &&& (#[trigger] items[i]).at("name"@) == JsonView::String(
                            request.tools[i].name,
                        )
                        &&& items[i].at("description"@) == JsonView::String(
                            request.tools[i].description,
                        )
                        &&& items[i].at("input_schema"@) == request.tools[i].input_schema
                    }
            })
        }),
{
    lemma_body_keys();
    lemma_part_keys();
}

/// The body says what the request says: the model, the limit or the provider's
/// own, the system prompt, the temperature and how the tools may be used; what
/// the request leaves out is left out, and nothing else is there.
pub proof fn law_body_says_what_the_request_says(
    request: RequestView,
    model: Seq<char>,
    default_max_tokens: u32,
    stream: bool,
)
    ensures
        ({
            let body = body_wire(request, model, default_max_tokens, stream);
            &&& body is Object
            &&& body.at("model"@) == JsonView::String(model)
            &&& body.at("stream"@) == JsonView::Bool(stream)
            &&& request.max_tokens > 0 ==> body.at("max_tokens"@) == JsonView::Integer(
                request.max_tokens as int,
            )
            &&& request.max_tokens == 0 ==> body.at("max_tokens"@) == JsonView::Integer(
                default_max_tokens as int,
            )
            &&& request.system matches Some(prompt) ==> body.at("system"@) == JsonView::String(
                prompt,
            )
            &&& request.system is None ==> !has_entry(body, "system"@)
            &&& request.temperature matches Some(value) ==> body.at("temperature"@) == value
            &&& request.temperature is None ==> !has_entry(body, "temperature"@)
            &&& request.tool_choice is None ==> !has_entry(body, "tool_choice"@)
            &&& request.tool_choice matches Some(ToolChoiceView::Auto) ==> body.at(
                "tool_choice"@,
            ).at("type"@) == JsonView::String("auto"@)
            &&& request.tool_choice matches Some(ToolChoiceView::Any) ==> body.at("tool_choice"@).at(
                "type"@,
            ) == JsonView::String("any"@)
            &&& request.tool_choice matches Some(ToolChoiceView::Tool(name)) ==> {
                &&& body.at("tool_choice"@).at("type"@) == JsonView::String("tool"@)
                &&& body.at("tool_choice"@).at("name"@) == JsonView::String(name)
            }
            &&& forall|key: Seq<char>| #[trigger]
                has_entry(body, key) ==> {
                    ||| key == "model"@
                    ||| key == "messages"@
                    ||| key == "stream"@
                    ||| key == "max_tokens"@
                    ||| key == "system"@
                    ||| key == "temperature"@
                    ||| key == "tools"@
                    ||| key == "tool_choice"@
                }
        }),
{
    lemma_body_keys();
    lemma_part_keys();
}

/// A streaming call differs from a plain one in that it streams, and in nothing
/// else.
pub proof fn law_streaming_changes_nothing_else(
    request: RequestView,
    model: Seq<char>,
    default_max_tokens: u32,
    key: Seq<char>,
)
    requires
        key != "stream"@,
    ensures
        ({
            let plain = body_wire(request, model, default_max_tokens, false);
            let streaming = body_wire(request, model, default_max_tokens, true);
            &&& has_entry(streaming, key) <==> has_entry(plain, key)
            &&& streaming.at(key) == plain.at(key)
        }),
{
    lemma_body_keys();
}

/// The conversation is sent whole: one wire message for each message, in its
/// place, of its role and with the wire forms of its blocks.
pub proof fn law_conversation_is_sent_whole(
    request: RequestView,
    model: Seq<char>,
    default_max_tokens: u32,
    stream: bool,
)
    ensures
        body_wire(request, model, default_max_tokens, stream).at("messages"@) matches
            JsonView::Array(items) && {
            &&& items.len() == request.messages.len()
            &&& forall|i: int|
                0 <= i < items.len() ==> {
                    &&& (#[trigger] items[i]).at("role"@) == JsonView::String(
                        if request.messages[i].role is User {
                            "user"@
                        } else {
                            "assistant"@
                        },
                    )
                    &&& items[i].at("content"@) == JsonView::Array(
                        blocks_wire(request.messages[i].content),
                    )
                }
        },
{
    lemma_body_keys();
    lemma_part_keys();
}

/// The wire forms of two runs of blocks follow each other.
pub proof fn law_wire_blocks_follow_each_other(a: Seq<ContentView>, b: Seq<ContentView>)
    ensures
        blocks_wire(a + b) == blocks_wire(a) + blocks_wire(b),
    decreases b.len(),
{
    if b.len() == 0 {
        assert(a + b == a);
        assert(blocks_wire(a) + blocks_wire(b) == blocks_wire(a));
    } else {
        assert((a + b).drop_last() == a + b.drop_last());
        law_wire_blocks_follow_each_other(a, b.drop_last());
        assert(blocks_wire(a + b) == blocks_wire(a) + blocks_wire(b));
    }
}

/// Each block but thinking is sent as one wire block that says what it says.
pub proof fn law_wire_blocks_say_what_the_blocks_say(block: ContentView)
    ensures
        ({
            let wires = blocks_wire(seq![block]);
            let wire = wires[0];
            match block {
                ContentView::Thinking { .. } => wires.len() == 0,
                ContentView::Text { text } => {
                    &&& wires.len() == 1
                    &&& wire.at("type"@) == JsonView::String("text"@)
                    &&& wire.at("text"@) == JsonView::String(text)
                },
                ContentView::ToolUse { id, name, input } => {
                    &&& wires.len() == 1
                    &&& wire.at("type"@) == JsonView::String("tool_use"@)
                    &&& wire.at("id"@) == JsonView::String(id)
                    &&& wire.at("name"@) == JsonView::String(name)
                    &&& wire.at("input"@) == input
                },
                ContentView::ToolResult { tool_use_id, content, is_error } => {
                    &&& wires.len() == 1
                    &&& wire.at("type"@) == JsonView::String("tool_result"@)
                    &&& wire.at("tool_use_id"@) == JsonView::String(tool_use_id)
                    &&& wire.at("content"@) == JsonView::String(content)
                    &&& wire.at("is_error"@) == JsonView::Bool(is_error)
                },
            }
        }),
{
    lemma_part_keys();
    reveal_with_fuel(blocks_wire, 2);
    assert(seq![block].drop_last() == Seq::<ContentView>::empty());
}

/// A wire block is read as what its type says, with what it carries; blocks of
/// other types are skipped.
pub proof fn law_wire_blocks_are_read_by_their_type(block: JsonView)
    ensures
        block.at("type"@) !is String ==> content_of(block) is None,
        block.at("type"@) matches JsonView::String(kind) ==> {
            &&& kind == "text"@ ==> content_of(block) == Some(
                ContentView::Text { text: block.at("text"@).text() },
            )
            &&& kind == "thinking"@ ==> content_of(block) == Some(
                ContentView::Thinking { thinking: block.at("thinking"@).text() },
            )
            &&& kind == "tool_use"@ ==> content_of(block) == Some(
                ContentView::ToolUse {
                    id: block.at("id"@).text(),
                    name: block.at("name"@).text(),
                    input: block.at("input"@),
                },
            )
            &&& kind != "text"@ && kind != "thinking"@ && kind != "tool_use"@ ==> content_of(block)
                is None
        },
{
    reveal_strlit("text");
    reveal_strlit("thinking");
    reveal_strlit("tool_use");
    assert("text"@.len() == 4);
    assert("thinking"@.len() == 8 && "thinking"@[1] == 'h');
    assert("tool_use"@.len() == 8 && "tool_use"@[1] == 'o');
}

/// The blocks of two runs of wire blocks follow each other.
pub proof fn law_read_blocks_follow_each_other(a: Seq<JsonView>, b: Seq<JsonView>)
    ensures
        contents_of(a + b) == contents_of(a) + contents_of(b),
    decreases b.len(),
{
    if b.len() == 0 {
        assert(a + b == a);
        assert(contents_of(a) + contents_of(b) == contents_of(a));
    } else {
        assert((a + b).drop_last() == a + b.drop_last());
        law_read_blocks_follow_each_other(a, b.drop_last());
        assert(contents_of(a + b) == contents_of(a) + contents_of(b));
    }
}

/// One wire block gives the block that it stands for, if it stands for one.
pub proof fn law_one_wire_block_is_read_as_it_is(block: JsonView)
    ensures
        contents_of(seq![block]) == (match content_of(block) {
            Some(content) => seq![content],
            None => Seq::empty(),
        }),
{
    reveal_with_fuel(contents_of, 2);
    assert(seq![block].drop_last() == Seq::<JsonView>::empty());
}

/// A reply is read whole: its blocks, why it stopped, and what it used; a reply
/// without a list of blocks is output of the wrong shape.
pub proof fn law_replies_are_read_whole(value: JsonView)
    ensures
        value.at("content"@) !is Array ==> response_of(value) == Err::<ResponseView, ModelErrorView>(
            ModelErrorView::Deserialize("response missing content array"@),
        ),
        value.at("content"@) matches JsonView::Array(items) ==> (response_of(value) matches Ok(
            response,
        ) && {
            &&& response.message.role is Assistant
            &&& response.message.content == contents_of(items)
            &&& response.usage.input_tokens == value.at("usage"@).at("input_tokens"@).count()
            &&& response.usage.output_tokens == value.at("usage"@).at("output_tokens"@).count()
            &&& value.at("stop_reason"@) !is String ==> response.stop_reason
                == StopReasonView::EndTurn
            &&& value.at("stop_reason"@) matches JsonView::String(reason) ==> {
                &&& reason == "end_turn"@ <==> response.stop_reason is EndTurn
                &&& reason == "tool_use"@ <==> response.stop_reason is ToolUse
                &&& reason == "max_tokens"@ <==> response.stop_reason is MaxTokens
                &&& reason == "stop_sequence"@ <==> response.stop_reason is StopSequence
                &&& response.stop_reason matches StopReasonView::Other(name) ==> name == reason
            }
        }),
{
    reveal_strlit("end_turn");
    reveal_strlit("tool_use");
    reveal_strlit("max_tokens");
    reveal_strlit("stop_sequence");
    assert("end_turn"@.len() == 8 && "end_turn"@[0] == 'e');
    assert("tool_use"@.len() == 8 && "tool_use"@[0] == 't');
    assert("max_tokens"@.len() == 10);
    assert("stop_sequence"@.len() == 13);
}

/// What comes of an event for a block: the start of a tool call and each piece
/// are handed on as they are, at once and with nothing else.
pub proof fn law_events_hand_on_what_they_bring(state: AssemblerView, event: JsonView)
    ensures
        ({
            let out = state.handled(event).1;
            let delta = event.at("delta"@);
            let kind = delta.at("type"@).text();
            &&& kind_of(event) == "content_block_start"@ ==> out == Ok::<
                Seq<StreamEventView>,
                ModelErrorView,
            >(
                match content_of(event.at("content_block"@)) {
                    Some(ContentView::ToolUse { id, name, .. }) => seq![
                        StreamEventView::ToolUseStart { id, name },
                    ],
                    _ => Seq::empty(),
                },
            )
            &&& kind_of(event) == "content_block_delta"@ ==> {
                &&& kind == "text_delta"@ ==> out == Ok::<Seq<StreamEventView>, ModelErrorView>(
                    seq![StreamEventView::TextDelta(delta.at("text"@).text())],
                )
                &&& kind == "thinking_delta"@ ==> out == Ok::<Seq<StreamEventView>, ModelErrorView>(
                    seq![StreamEventView::ThinkingDelta(delta.at("thinking"@).text())],
                )
                &&& kind == "input_json_delta"@ ==> out == Ok::<
                    Seq<StreamEventView>,
                    ModelErrorView,
                >(seq![StreamEventView::InputJsonDelta(delta.at("partial_json"@).text())])
                &&& kind != "text_delta"@ && kind != "thinking_delta"@ && kind
                    != "input_json_delta"@ ==> state.handled(event) == (
                    state,
                    Ok::<Seq<StreamEventView>, ModelErrorView>(Seq::empty()),
                )
            }
        }),
{
    lemma_kinds();
}

/// Events of other kinds, pings among them, change nothing and hand on nothing;
/// an error event fails with what it says.
pub proof fn law_other_events_change_nothing(state: AssemblerView, event: JsonView)
    ensures
        kind_of(event) != "message_start"@ && kind_of(event) != "content_block_start"@ && kind_of(
            event,
        ) != "content_block_delta"@ && kind_of(event) != "content_block_stop"@ && kind_of(event)
            != "message_delta"@ && kind_of(event) != "message_stop"@ && kind_of(event) != "error"@
            ==> state.handled(event) == (
            state,
            Ok::<Seq<StreamEventView>, ModelErrorView>(Seq::empty()),
        ),
        kind_of(event) == "error"@ ==> state.handled(event) == (
            state,
            Err::<Seq<StreamEventView>, ModelErrorView>(
                ModelErrorView::Api { status: 0, message: json_text(event.at("error"@)) },
            ),
        ),
{
    lemma_kinds();
}

/// The input of a tool call is the JSON that its pieces make up; white space
/// alone is an empty object, and what is no JSON fails the stream with the
/// reason.
pub proof fn law_tool_input_is_read_as_json(state: AssemblerView, event: JsonView)
    requires
        kind_of(event) == "content_block_stop"@,
        position(state.tool_json, index_of(event)) is Some,
    ensures
        ({
            let json = state.tool_json[position(state.tool_json, index_of(event))->0].1;
            let blank = forall|i: int| 0 <= i < json.len() ==> is_white_space(#[trigger] json[i]);
            let (next, out) = state.handled(event);
            let input = if blank {
                Ok(JsonView::Object(Map::empty()))
            } else {
                json_parse(json)
            };
            &&& input matches Err(words) ==> out == Err::<Seq<StreamEventView>, ModelErrorView>(
                ModelErrorView::Stream("unparseable tool input JSON: "@ + words),
            )
            &&& input matches Ok(value) ==> {
                &&& out == Ok::<Seq<StreamEventView>, ModelErrorView>(Seq::empty())
                &&& state.blocks.contains_key(index_of(event) as int) ==> (
                state.blocks[index_of(event) as int] matches ContentView::ToolUse { id, name, .. }
                    ==> {
                    &&& next.blocks.contains_key(index_of(event) as int)
                    &&& next.blocks[index_of(event) as int] == (ContentView::ToolUse {
                        id,
                        name,
                        input: value,
                    })
                })
            }
        }),
{
    lemma_kinds();
    let json = state.tool_json[position(state.tool_json, index_of(event))->0].1;
    law_trimming_takes_off_white_space_alone(json);
}

/// An event is about the block of the index that it gives, and about the first
/// where it gives none. Every event is taken that opens no block at the last
/// index there is and whose counts can be added.
pub proof fn law_ordinary_events_are_taken(state: AssemblerView, event: JsonView)
    ensures
        event.at("index"@) !is Integer ==> index_of(event) == 0,
        event.at("index"@) matches JsonView::Integer(n) ==> (0 <= n <= usize::MAX ==> index_of(event)
            == n),
        index_of(event) < usize::MAX && state.usage.input_tokens + usage_in(event).input_tokens
            <= u64::MAX && state.usage.output_tokens + usage_in(event).output_tokens <= u64::MAX
            ==> state.accepts(event),
{
    lemma_kinds();
}

/// A call goes to the server's path with the key and the version, and with the
/// body of the request for the client's own model.
pub proof fn law_calls_go_to_the_server(client: AnthropicView, request: RequestView, stream: bool)
    ensures
        ({
            let call = client.call(request, stream);
            &&& call.url == client.base_url + "/v1/messages"@
            &&& call.headers == seq![
                ("x-api-key"@, client.api_key),
                ("anthropic-version"@, "2023-06-01"@),
            ]
            &&& call.body == body_wire(request, client.model, 8192, stream)
            &&& call.body.at("model"@) == JsonView::String(client.model)
        }),
{
    law_body_says_what_the_request_says(request, client.model, 8192, stream);
}

/// Data has a payload unless it is empty.
pub proof fn law_data_has_a_payload_unless_it_is_empty(data: Seq<char>)
    ensures
        payload_of(data) is None <==> data.len() == 0,
        payload_of(data) matches Some(Ok(json)) ==> json_parse(data) == Ok::<JsonView, Seq<char>>(
            json,
        ),
        payload_of(data) matches Some(Err(error)) ==> error is Stream && json_parse(data) is Err,
{
}

/// The end of a message tells its whole content, once: what comes after finds
/// nothing of it left, but the tokens it has used.
pub proof fn law_ended_messages_are_told_once(state: AssemblerView, event: JsonView)
    requires
        kind_of(event) == "message_stop"@,
    ensures
        ({
            let (after, out) = state.handled(event);
            &&& out == Ok::<Seq<StreamEventView>, ModelErrorView>(
                seq![StreamEventView::Completed(state.response())],
            )
            &&& after.response().message.content.len() == 0
            &&& after.blocks == Map::<int, ContentView>::empty()
            &&& after.reach == 0
            &&& after.skipped.len() == 0
            &&& after.usage == state.usage
            &&& after.stop_reason == state.stop_reason
        }),
{
    lemma_kinds();
    lemma_none_below(usize::MAX as int);
}

proof fn lemma_none_below(n: int)
    ensures
        blocks_below(Map::empty(), n).len() == 0,
    decreases n,
{
    if n > 0 {
        lemma_none_below(n - 1);
    }
}

}
