//! What holds of whole streams of the Chat Completions API.

use vstd::prelude::*;

use super::convert::{
    acceptable, arguments_of, body_wire, call_of, calls_of, contents, default_id, function_wire,
    grown, index_of, message_wire, messages_wire, pieces_of, response_of, result_wire, results_wire, text_block, usage_of, CallView, ChunkAssemblerView,
};
use super::client::OpenAiView;
use super::sse::payload_of;
use crate::codec::{json_parse, json_text};
use crate::error::ModelErrorView;
use crate::json::JsonView;
use crate::message::{text_of, uses_of, ContentView, MessageView, Role, UseView};
use crate::model::{
    deltas_text, lemma_deltas_append, RequestView, ResponseView, StopReasonView, StreamEventView,
    ToolChoiceView, ToolSpecView, Usage,
};
use crate::text::{
    decimal_text, is_white_space, law_trimming_takes_off_white_space_alone, trimmed,
};

verus! {

/// The state after some chunks, and what they handed on.
pub open spec fn followed(state: ChunkAssemblerView, chunks: Seq<JsonView>) -> (
    ChunkAssemblerView,
    Seq<StreamEventView>,
)
    decreases chunks.len(),
{
    if chunks.len() == 0 {
        (state, Seq::empty())
    } else {
        let (before, out) = followed(state, chunks.drop_last());
        let (after, more) = before.handled(chunks.last());
        (after, out + more)
    }
}

proof fn lemma_single_delta(event: StreamEventView)
    ensures
        deltas_text(seq![event]) == (match event {
            StreamEventView::TextDelta(text) => text,
            _ => Seq::empty(),
        }),
{
    reveal_with_fuel(deltas_text, 2);
    assert(seq![event].drop_last() == Seq::<StreamEventView>::empty());
    assert(deltas_text(seq![event]) == (match event {
        StreamEventView::TextDelta(text) => text,
        _ => Seq::empty(),
    }));
}

/// Pieces of tool calls leave all but the tool calls alone, and hand on no text.
proof fn lemma_pieces_tell_nothing(state: ChunkAssemblerView, pieces: Seq<JsonView>)
    ensures
        state.called_all(pieces).0 == (ChunkAssemblerView {
            tool_calls: state.called_all(pieces).0.tool_calls,
            ..state
        }),
        deltas_text(state.called_all(pieces).1) == Seq::<char>::empty(),
    decreases pieces.len(),
{
    if pieces.len() > 0 {
        lemma_pieces_tell_nothing(state, pieces.drop_last());
        let (before, out) = state.called_all(pieces.drop_last());
        let piece = pieces.last();
        let index = index_of(piece) as int;
        let call = grown(before.tool_calls, index)[index];
        let named = call.named(piece);
        let start = if named.starts() {
            seq![StreamEventView::ToolUseStart { id: named.known_id(index), name: named.name }]
        } else {
            Seq::empty()
        };
        let more = piece.at("function"@).at("arguments"@).text();
        let delta = if more.len() == 0 {
            Seq::empty()
        } else {
            seq![StreamEventView::InputJsonDelta(more)]
        };
        assert(before.called(piece).1 == start + delta);
        lemma_deltas_append(start, delta);
        lemma_deltas_append(out, start + delta);
        if named.starts() {
            lemma_single_delta(start[0]);
        }
        if more.len() > 0 {
            lemma_single_delta(delta[0]);
        }
    }
}

/// A chunk adds to the text just what it hands on as text.
pub proof fn law_text_grows_by_what_is_handed_on(state: ChunkAssemblerView, chunk: JsonView)
    ensures
        state.handled(chunk).0.text == state.text + deltas_text(state.handled(chunk).1),
{
    if let Some(choice) = chunk.at("choices"@).head() {
        let told = state.metered(chunk).told(choice);
        let text = choice.at("delta"@).at("content"@).text();
        let out = if text.len() == 0 {
            Seq::empty()
        } else {
            seq![StreamEventView::TextDelta(text)]
        };
        lemma_pieces_tell_nothing(told, pieces_of(chunk));
        lemma_deltas_append(out, told.called_all(pieces_of(chunk)).1);
        if text.len() > 0 {
            lemma_single_delta(out[0]);
        }
        assert(deltas_text(out) == text);
        assert(text + Seq::<char>::empty() == text);
    } else {
        assert(state.text + Seq::<char>::empty() == state.text);
    }
}

proof fn lemma_text_follows(state: ChunkAssemblerView, chunks: Seq<JsonView>)
    ensures
        followed(state, chunks).0.text == state.text + deltas_text(followed(state, chunks).1),
        followed(state, chunks).0.finished == state.finished,
    decreases chunks.len(),
{
    if chunks.len() == 0 {
        assert(state.text + Seq::<char>::empty() == state.text);
    } else {
        lemma_text_follows(state, chunks.drop_last());
        let (before, out) = followed(state, chunks.drop_last());
        law_text_grows_by_what_is_handed_on(before, chunks.last());
        lemma_deltas_append(out, before.handled(chunks.last()).1);
        if let Some(choice) = chunks.last().at("choices"@).head() {
            lemma_pieces_tell_nothing(
                before.metered(chunks.last()).told(choice),
                pieces_of(chunks.last()),
            );
        }
        assert(followed(state, chunks).0.text == state.text + deltas_text(
            followed(state, chunks).1,
        ));
    }
}

proof fn lemma_calls_have_no_text(head: Seq<ContentView>, calls: Seq<ContentView>)
    requires
        forall|i: int| 0 <= i < calls.len() ==> #[trigger] calls[i] is ToolUse,
    ensures
        text_of(head + calls) == text_of(head),
    decreases calls.len(),
{
    if calls.len() == 0 {
        assert(head + calls == head);
    } else {
        assert((head + calls).drop_last() == head + calls.drop_last());
        assert(calls[calls.len() - 1] is ToolUse);
        lemma_calls_have_no_text(head, calls.drop_last());
        assert(text_of(head) + Seq::<char>::empty() == text_of(head));
    }
}

proof fn lemma_contents_are_calls(calls: Seq<CallView>)
    ensures
        contents(calls) matches Ok(blocks) ==> forall|i: int|
            0 <= i < blocks.len() ==> #[trigger] blocks[i] is ToolUse,
    decreases calls.len(),
{
    if calls.len() > 0 {
        lemma_contents_are_calls(calls.drop_last());
    }
}

/// The text deltas of a stream add up to the text of the completed response,
/// whatever the chunks are.
pub proof fn law_deltas_add_up_to_the_text(chunks: Seq<JsonView>)
    ensures
        ({
            let (state, out) = followed(ChunkAssemblerView::fresh(), chunks);
            &&& !state.finished
            &&& state.response() matches Ok(response) ==> text_of(response.message.content)
                == deltas_text(out)
        }),
{
    lemma_text_follows(ChunkAssemblerView::fresh(), chunks);
    let (state, out) = followed(ChunkAssemblerView::fresh(), chunks);
    assert(Seq::<char>::empty() + deltas_text(out) == deltas_text(out));
    if let Ok(calls) = contents(state.tool_calls) {
        lemma_contents_are_calls(state.tool_calls);
        lemma_calls_have_no_text(text_block(state.text), calls);
    }
    reveal_with_fuel(text_of, 2);
    let block = text_block(state.text);
    if state.text.len() > 0 {
        assert(block.drop_last() == Seq::<ContentView>::empty());
        assert(text_of(block) == state.text);
    } else {
        assert(state.text == Seq::<char>::empty());
    }
}

/// A stream ends once, with a response or with an error: then it stays closed,
/// and nothing is left to hand on.
pub proof fn law_finish_is_idempotent(state: ChunkAssemblerView)
    ensures
        state.closed().ended() is None,
        state.closed().closed() == state.closed(),
{
}

/// The pieces of tool calls in some chunks, one after another.
pub open spec fn all_pieces(chunks: Seq<JsonView>) -> Seq<JsonView>
    decreases chunks.len(),
{
    if chunks.len() == 0 {
        Seq::empty()
    } else {
        all_pieces(chunks.drop_last()) + pieces_of(chunks.last())
    }
}

/// The pieces of text in some chunks, one after another.
pub open spec fn all_text(chunks: Seq<JsonView>) -> Seq<char>
    decreases chunks.len(),
{
    if chunks.len() == 0 {
        Seq::empty()
    } else {
        match chunks.last().at("choices"@).head() {
            Some(choice) => all_text(chunks.drop_last()) + choice.at("delta"@).at(
                "content"@,
            ).text(),
            None => all_text(chunks.drop_last()),
        }
    }
}

/// The last finish reason in some chunks.
pub open spec fn last_reason(chunks: Seq<JsonView>) -> Option<Seq<char>>
    decreases chunks.len(),
{
    if chunks.len() == 0 {
        None
    } else {
        match chunks.last().at("choices"@).head() {
            Some(choice) => if choice.at("finish_reason"@).as_str() is Some {
                choice.at("finish_reason"@).as_str()
            } else {
                last_reason(chunks.drop_last())
            },
            None => last_reason(chunks.drop_last()),
        }
    }
}

/// The last usage in some chunks.
pub open spec fn last_usage(chunks: Seq<JsonView>) -> Usage
    decreases chunks.len(),
{
    if chunks.len() == 0 {
        Usage::zero()
    } else if chunks.last().at("usage"@) is Object {
        usage_of(chunks.last().at("usage"@))
    } else {
        last_usage(chunks.drop_last())
    }
}

/// How many tool calls the pieces are about: one more than the highest index.
pub open spec fn slots(pieces: Seq<JsonView>) -> nat
    decreases pieces.len(),
{
    if pieces.len() == 0 {
        0
    } else {
        let before = slots(pieces.drop_last());
        let index = index_of(pieces.last()) as nat;
        if before <= index {
            index + 1
        } else {
            before
        }
    }
}

/// The pieces of the name of call `i`, one after another.
pub open spec fn name_of(pieces: Seq<JsonView>, i: int) -> Seq<char>
    decreases pieces.len(),
{
    if pieces.len() == 0 {
        Seq::empty()
    } else if index_of(pieces.last()) == i {
        name_of(pieces.drop_last(), i) + pieces.last().at("function"@).at("name"@).text()
    } else {
        name_of(pieces.drop_last(), i)
    }
}

/// The pieces of the arguments of call `i`, one after another.
pub open spec fn arguments_text(pieces: Seq<JsonView>, i: int) -> Seq<char>
    decreases pieces.len(),
{
    if pieces.len() == 0 {
        Seq::empty()
    } else if index_of(pieces.last()) == i {
        arguments_text(pieces.drop_last(), i) + pieces.last().at("function"@).at(
            "arguments"@,
        ).text()
    } else {
        arguments_text(pieces.drop_last(), i)
    }
}

/// The last id that a piece gives call `i`. An empty one counts only where it is
/// the first, and the call has no name yet.
pub open spec fn last_id(pieces: Seq<JsonView>, i: int) -> Option<Seq<char>>
    decreases pieces.len(),
{
    if pieces.len() == 0 {
        None
    } else {
        let before = last_id(pieces.drop_last(), i);
        match pieces.last().at("id"@).as_str() {
            Some(id) if index_of(pieces.last()) == i && (id.len() > 0 || (before is None && name_of(
                pieces.drop_last(),
                i,
            ).len() == 0)) => Some(id),
            _ => before,
        }
    }
}

/// Whether a call is what its pieces say, and has started when it has a name.
pub open spec fn gathered(call: CallView, pieces: Seq<JsonView>, i: int) -> bool {
    &&& call.name == name_of(pieces, i)
    &&& call.arguments == arguments_text(pieces, i)
    &&& call.id == last_id(pieces, i)
    &&& call.started <==> call.name.len() > 0
}

/// The tool calls depend on the pieces alone, and not on how they are spread
/// over the chunks.
proof fn lemma_gathered(state: ChunkAssemblerView, pieces: Seq<JsonView>)
    requires
        state.tool_calls.len() == 0,
    ensures
        state.called_all(pieces).0.tool_calls.len() == slots(pieces),
        forall|i: int|
            0 <= i < slots(pieces) ==> gathered(
                #[trigger] state.called_all(pieces).0.tool_calls[i],
                pieces,
                i,
            ),
        forall|i: int| i >= slots(pieces) ==> #[trigger] name_of(pieces, i) == Seq::<char>::empty(),
        forall|i: int|
            i >= slots(pieces) ==> #[trigger] arguments_text(pieces, i) == Seq::<char>::empty(),
        forall|i: int| i >= slots(pieces) ==> #[trigger] last_id(pieces, i) is None,
    decreases pieces.len(),
{
    if pieces.len() > 0 {
        let init = pieces.drop_last();
        lemma_gathered(state, init);
        let before = state.called_all(init).0;
        let after = before.called(pieces.last()).0;
        let index = index_of(pieces.last()) as int;
        assert(state.called_all(pieces).0 == after);
        assert forall|i: int| 0 <= i < slots(pieces) implies gathered(
            #[trigger] after.tool_calls[i],
            pieces,
            i,
        ) by {
            let call = grown(before.tool_calls, index)[i];
            if i < slots(init) {
                assert(gathered(before.tool_calls[i], init, i));
            } else {
                assert(name_of(init, i) == Seq::<char>::empty());
                assert(arguments_text(init, i) == Seq::<char>::empty());
                assert(last_id(init, i) is None);
            }
            assert(gathered(call, init, i));
        }
        assert forall|i: int| i >= slots(pieces) implies #[trigger] name_of(pieces, i) == Seq::<
            char,
        >::empty() by {
            assert(name_of(init, i) == Seq::<char>::empty());
        }
        assert forall|i: int| i >= slots(pieces) implies #[trigger] arguments_text(pieces, i)
            == Seq::<char>::empty() by {
            assert(arguments_text(init, i) == Seq::<char>::empty());
        }
        assert forall|i: int| i >= slots(pieces) implies #[trigger] last_id(pieces, i) is None by {
            assert(last_id(init, i) is None);
        }
    }
}

proof fn lemma_calls_alone(a: ChunkAssemblerView, b: ChunkAssemblerView, pieces: Seq<JsonView>)
    requires
        a.tool_calls == b.tool_calls,
    ensures
        a.called_all(pieces).0.tool_calls == b.called_all(pieces).0.tool_calls,
    decreases pieces.len(),
{
    if pieces.len() > 0 {
        lemma_calls_alone(a, b, pieces.drop_last());
    }
}

proof fn lemma_called_append(state: ChunkAssemblerView, a: Seq<JsonView>, b: Seq<JsonView>)
    ensures
        state.called_all(a + b).0 == state.called_all(a).0.called_all(b).0,
    decreases b.len(),
{
    if b.len() == 0 {
        assert(a + b == a);
    } else {
        assert((a + b).drop_last() == a + b.drop_last());
        lemma_called_append(state, a, b.drop_last());
    }
}

proof fn lemma_followed_state(chunks: Seq<JsonView>)
    ensures
        ({
            let fresh = ChunkAssemblerView::fresh();
            let state = followed(fresh, chunks).0;
            &&& state.text == all_text(chunks)
            &&& state.finish_reason == last_reason(chunks)
            &&& state.usage == last_usage(chunks)
            &&& state.tool_calls == fresh.called_all(all_pieces(chunks)).0.tool_calls
        }),
    decreases chunks.len(),
{
    let fresh = ChunkAssemblerView::fresh();
    if chunks.len() > 0 {
        let init = chunks.drop_last();
        let chunk = chunks.last();
        lemma_followed_state(init);
        let before = followed(fresh, init).0;
        lemma_called_append(fresh, all_pieces(init), pieces_of(chunk));
        let told = match chunk.at("choices"@).head() {
            Some(choice) => before.metered(chunk).told(choice),
            None => before.metered(chunk),
        };
        lemma_pieces_tell_nothing(told, pieces_of(chunk));
        lemma_calls_alone(told, fresh.called_all(all_pieces(init)).0, pieces_of(chunk));
    }
}

/// Whether the pieces carry this wire call: its id, if it has one, its name and
/// its arguments, cut in any way.
pub open spec fn carries(pieces: Seq<JsonView>, i: int, call: JsonView) -> bool {
    &&& last_id(pieces, i) == call.at("id"@).as_str()
    &&& name_of(pieces, i) == call.at("function"@).at("name"@).text()
    &&& arguments_text(pieces, i) == call.at("function"@).at("arguments"@).text()
}

/// The wire calls of a wire message.
pub open spec fn wire_calls(wire: JsonView) -> Seq<JsonView> {
    match wire.at("tool_calls"@).as_array() {
        Some(calls) => calls,
        None => Seq::empty(),
    }
}

proof fn lemma_same_calls(
    state: ChunkAssemblerView,
    pieces: Seq<JsonView>,
    calls: Seq<JsonView>,
    n: int,
)
    requires
        0 <= n <= calls.len(),
        state.tool_calls.len() == calls.len(),
        forall|i: int|
            0 <= i < calls.len() ==> gathered(#[trigger] state.tool_calls[i], pieces, i),
        forall|i: int| 0 <= i < calls.len() ==> carries(pieces, i, #[trigger] calls[i]),
    ensures
        calls_of(calls.take(n)) == contents(state.tool_calls.take(n)),
    decreases n,
{
    if n > 0 {
        lemma_same_calls(state, pieces, calls, n - 1);
        assert(calls.take(n).drop_last() == calls.take(n - 1));
        assert(state.tool_calls.take(n).drop_last() == state.tool_calls.take(n - 1));
        assert(gathered(state.tool_calls[n - 1], pieces, n - 1));
        assert(carries(pieces, n - 1, calls[n - 1]));
        assert(call_of(calls[n - 1], n - 1) == state.tool_calls[n - 1].content(n - 1));
    }
}

/// A stream ends with the very response that the same answer gives without
/// streaming, or with the very error: `value` is that answer, and the chunks
/// carry its text, its tool calls, its finish reason and its usage, cut in any
/// way.
pub proof fn law_streaming_gives_the_whole_response(value: JsonView, chunks: Seq<JsonView>)
    requires
        value.at("choices"@).head() matches Some(choice) && {
            let wire = choice.at("message"@);
            let pieces = all_pieces(chunks);
            &&& all_text(chunks) == wire.at("content"@).text()
            &&& slots(pieces) == wire_calls(wire).len()
            &&& forall|i: int|
                0 <= i < wire_calls(wire).len() ==> carries(
                    pieces,
                    i,
                    #[trigger] wire_calls(wire)[i],
                )
            &&& last_reason(chunks) == choice.at("finish_reason"@).as_str()
        },
        last_usage(chunks) == usage_of(value.at("usage"@)),
    ensures
        followed(ChunkAssemblerView::fresh(), chunks).0.ended() == Some(
            match response_of(value) {
                Ok(response) => Ok::<StreamEventView, ModelErrorView>(
                    StreamEventView::Completed(response),
                ),
                Err(error) => Err(error),
            },
        ),
{
    let fresh = ChunkAssemblerView::fresh();
    let state = followed(fresh, chunks).0;
    let pieces = all_pieces(chunks);
    let calls = wire_calls((value.at("choices"@).head()->0).at("message"@));
    lemma_followed_state(chunks);
    lemma_gathered(fresh, pieces);
    lemma_same_calls(state, pieces, calls, calls.len() as int);
    assert(calls.take(calls.len() as int) == calls);
    assert(state.tool_calls.take(calls.len() as int) == state.tool_calls);
    lemma_text_follows(fresh, chunks);
}

/// Whether the name of a call begins with this piece: after the earlier pieces
/// it was empty, and now it is not.
pub open spec fn begins(earlier: Seq<JsonView>, piece: JsonView) -> bool {
    let i = index_of(piece) as int;
    name_of(earlier, i).len() == 0 && name_of(earlier.push(piece), i).len() > 0
}

/// What a piece hands on after the earlier pieces: the start of its call where
/// the name begins, with the id last given by then or one made of the index, and
/// the piece of its arguments as it is, where there is one.
pub open spec fn piece_events(earlier: Seq<JsonView>, piece: JsonView) -> Seq<StreamEventView> {
    let i = index_of(piece) as int;
    let more = piece.at("function"@).at("arguments"@).text();
    (if begins(earlier, piece) {
        seq![
            StreamEventView::ToolUseStart {
                id: match last_id(earlier.push(piece), i) {
                    Some(id) => id,
                    None => default_id(i),
                },
                name: name_of(earlier.push(piece), i),
            },
        ]
    } else {
        Seq::empty()
    }) + (if more.len() == 0 {
        Seq::empty()
    } else {
        seq![StreamEventView::InputJsonDelta(more)]
    })
}

/// What some pieces hand on after the earlier ones.
pub open spec fn pieces_events(earlier: Seq<JsonView>, pieces: Seq<JsonView>) -> Seq<
    StreamEventView,
>
    decreases pieces.len(),
{
    if pieces.len() == 0 {
        Seq::empty()
    } else {
        pieces_events(earlier, pieces.drop_last()) + piece_events(
            earlier + pieces.drop_last(),
            pieces.last(),
        )
    }
}

/// What the text of a chunk hands on: it as it is, where there is any.
pub open spec fn text_events(chunk: JsonView) -> Seq<StreamEventView> {
    match chunk.at("choices"@).head() {
        None => Seq::empty(),
        Some(choice) => {
            let text = choice.at("delta"@).at("content"@).text();
            if text.len() == 0 {
                Seq::empty()
            } else {
                seq![StreamEventView::TextDelta(text)]
            }
        },
    }
}

/// What a whole stream hands on: for each chunk its text, and then what its
/// pieces of tool calls hand on.
pub open spec fn stream_events(chunks: Seq<JsonView>) -> Seq<StreamEventView>
    decreases chunks.len(),
{
    if chunks.len() == 0 {
        Seq::empty()
    } else {
        stream_events(chunks.drop_last()) + text_events(chunks.last()) + pieces_events(
            all_pieces(chunks.drop_last()),
            pieces_of(chunks.last()),
        )
    }
}

proof fn lemma_pieces_events(
    state: ChunkAssemblerView,
    earlier: Seq<JsonView>,
    pieces: Seq<JsonView>,
)
    requires
        state.tool_calls == ChunkAssemblerView::fresh().called_all(earlier).0.tool_calls,
    ensures
        state.called_all(pieces).1 == pieces_events(earlier, pieces),
    decreases pieces.len(),
{
    if pieces.len() > 0 {
        let fresh = ChunkAssemblerView::fresh();
        let init = pieces.drop_last();
        let piece = pieces.last();
        let i = index_of(piece) as int;
        let so_far = earlier + init;
        let before = state.called_all(init).0;
        lemma_pieces_events(state, earlier, init);
        lemma_called_append(fresh, earlier, init);
        lemma_calls_alone(state, fresh.called_all(earlier).0, init);
        lemma_gathered(fresh, so_far);
        let call = grown(before.tool_calls, i)[i];
        if i < slots(so_far) {
            assert(gathered(fresh.called_all(so_far).0.tool_calls[i], so_far, i));
        } else {
            assert(name_of(so_far, i) == Seq::<char>::empty());
            assert(arguments_text(so_far, i) == Seq::<char>::empty());
            assert(last_id(so_far, i) is None);
        }
        assert(gathered(call, so_far, i));
        assert(so_far.push(piece).drop_last() == so_far);
        assert(call.named(piece).name == name_of(so_far.push(piece), i));
        assert(call.named(piece).starts() == begins(so_far, piece));
        assert(before.called(piece).1 == piece_events(so_far, piece));
    }
}

/// A stream hands on nothing but its text and the starts and arguments of its
/// tool calls, each where it comes, and each piece as it is.
pub proof fn law_stream_hands_on_what_comes(chunks: Seq<JsonView>)
    ensures
        followed(ChunkAssemblerView::fresh(), chunks).1 == stream_events(chunks),
    decreases chunks.len(),
{
    if chunks.len() > 0 {
        let fresh = ChunkAssemblerView::fresh();
        let init = chunks.drop_last();
        let chunk = chunks.last();
        law_stream_hands_on_what_comes(init);
        lemma_followed_state(init);
        let (before, out) = followed(fresh, init);
        if let Some(choice) = chunk.at("choices"@).head() {
            let told = before.metered(chunk).told(choice);
            lemma_pieces_events(told, all_pieces(init), pieces_of(chunk));
            let more = told.called_all(pieces_of(chunk)).1;
            assert(out + (text_events(chunk) + more) == out + text_events(chunk) + more);
        } else {
            assert(out + Seq::<StreamEventView>::empty() + Seq::<StreamEventView>::empty() == out);
        }
    }
}

proof fn lemma_names_grow(pieces: Seq<JsonView>, n: int, i: int)
    requires
        0 <= n <= pieces.len(),
    ensures
        name_of(pieces.take(n), i).len() <= name_of(pieces, i).len(),
    decreases pieces.len(),
{
    if n == pieces.len() {
        assert(pieces.take(n) == pieces);
    } else {
        assert(pieces.drop_last().take(n) == pieces.take(n));
        lemma_names_grow(pieces.drop_last(), n, i);
    }
}

/// A tool call starts at most once: where the name of a call has begun with one
/// piece, it begins with no later one.
pub proof fn law_each_call_starts_once(pieces: Seq<JsonView>, j: int, k: int)
    requires
        0 <= j < k < pieces.len(),
        index_of(pieces[j]) == index_of(pieces[k]),
        begins(pieces.take(j), pieces[j]),
    ensures
        !begins(pieces.take(k), pieces[k]),
{
    let earlier = pieces.take(k);
    assert(earlier.take(j + 1) == pieces.take(j).push(pieces[j]));
    lemma_names_grow(earlier, j + 1, index_of(pieces[j]) as int);
}

/// A tool call with a name does start.
pub proof fn law_each_named_call_starts(pieces: Seq<JsonView>, i: int)
    requires
        name_of(pieces, i).len() > 0,
    ensures
        exists|k: int|
            0 <= k < pieces.len() && index_of(#[trigger] pieces[k]) == i && begins(
                pieces.take(k),
                pieces[k],
            ),
    decreases pieces.len(),
{
    let init = pieces.drop_last();
    let n = pieces.len() - 1;
    if name_of(init, i).len() > 0 {
        law_each_named_call_starts(init, i);
        let k = choose|k: int|
            0 <= k < init.len() && index_of(#[trigger] init[k]) == i && begins(
                init.take(k),
                init[k],
            );
        assert(init.take(k) == pieces.take(k));
        assert(index_of(pieces[k]) == i);
    } else {
        assert(pieces.take(n) == init);
        assert(init.push(pieces[n]) == pieces);
        assert(index_of(pieces[n]) == i);
    }
}

/// Every tool result goes out as a message of its own with the role of a tool,
/// under the id of its call, and an error is marked as one.
pub proof fn law_tool_results_are_split_out(message: MessageView, i: int)
    requires
        message.role is User,
        0 <= i < message.content.len(),
        message.content[i] is ToolResult,
    ensures
        message_wire(message).contains(result_wire(message.content[i])->0),
{
    lemma_result_is_there(message.content, i);
    let results = results_wire(message.content);
    let wire = result_wire(message.content[i])->0;
    let k = choose|k: int| 0 <= k < results.len() && results[k] == wire;
    assert(message_wire(message)[k] == wire);
}

proof fn lemma_result_is_there(content: Seq<ContentView>, i: int)
    requires
        0 <= i < content.len(),
        content[i] is ToolResult,
    ensures
        results_wire(content).contains(result_wire(content[i])->0),
    decreases content.len(),
{
    let wire = result_wire(content[i])->0;
    if i == content.len() - 1 {
        assert(results_wire(content).last() == wire);
    } else {
        lemma_result_is_there(content.drop_last(), i);
        let before = results_wire(content.drop_last());
        let k = choose|k: int| 0 <= k < before.len() && before[k] == wire;
        assert(results_wire(content)[k] == wire);
    }
}

/// The keys of a body differ from each other.
proof fn lemma_body_keys()
    ensures
        "model"@ != "messages"@,
        "model"@ != "stream"@,
        "model"@ != "stream_options"@,
        "model"@ != "max_tokens"@,
        "model"@ != "temperature"@,
        "model"@ != "top_p"@,
        "model"@ != "stop"@,
        "model"@ != "tools"@,
        "model"@ != "tool_choice"@,
        "messages"@ != "stream"@,
        "messages"@ != "stream_options"@,
        "messages"@ != "max_tokens"@,
        "messages"@ != "temperature"@,
        "messages"@ != "top_p"@,
        "messages"@ != "stop"@,
        "messages"@ != "tools"@,
        "messages"@ != "tool_choice"@,
        "stream"@ != "stream_options"@,
        "stream"@ != "max_tokens"@,
        "stream"@ != "temperature"@,
        "stream"@ != "top_p"@,
        "stream"@ != "stop"@,
        "stream"@ != "tools"@,
        "stream"@ != "tool_choice"@,
        "stream_options"@ != "max_tokens"@,
        "stream_options"@ != "temperature"@,
        "stream_options"@ != "top_p"@,
        "stream_options"@ != "stop"@,
        "stream_options"@ != "tools"@,
        "stream_options"@ != "tool_choice"@,
        "max_tokens"@ != "temperature"@,
        "max_tokens"@ != "top_p"@,
        "max_tokens"@ != "stop"@,
        "max_tokens"@ != "tools"@,
        "max_tokens"@ != "tool_choice"@,
        "temperature"@ != "top_p"@,
        "temperature"@ != "stop"@,
        "temperature"@ != "tools"@,
        "temperature"@ != "tool_choice"@,
        "top_p"@ != "stop"@,
        "top_p"@ != "tools"@,
        "top_p"@ != "tool_choice"@,
        "stop"@ != "tools"@,
        "stop"@ != "tool_choice"@,
        "tools"@ != "tool_choice"@,
{
    reveal_strlit("model");
    reveal_strlit("messages");
    reveal_strlit("stream");
    reveal_strlit("stream_options");
    reveal_strlit("max_tokens");
    reveal_strlit("temperature");
    reveal_strlit("top_p");
    reveal_strlit("stop");
    reveal_strlit("tools");
    reveal_strlit("tool_choice");
    assert("model"@.len() == 5 && "model"@[0] == 'm');
    assert("messages"@.len() == 8);
    assert("stream"@.len() == 6);
    assert("stream_options"@.len() == 14);
    assert("max_tokens"@.len() == 10);
    assert("temperature"@.len() == 11 && "temperature"@[1] == 'e');
    assert("top_p"@.len() == 5 && "top_p"@[0] == 't' && "top_p"@[2] == 'p');
    assert("stop"@.len() == 4);
    assert("tools"@.len() == 5 && "tools"@[0] == 't' && "tools"@[2] == 'o');
    assert("tool_choice"@.len() == 11 && "tool_choice"@[1] == 'o');
}

/// The keys of tools and calls differ from each other.
proof fn lemma_tool_keys()
    ensures
        "type"@ != "function"@,
        "type"@ != "name"@,
        "type"@ != "description"@,
        "type"@ != "parameters"@,
        "type"@ != "id"@,
        "type"@ != "arguments"@,
        "function"@ != "name"@,
        "function"@ != "description"@,
        "function"@ != "parameters"@,
        "function"@ != "id"@,
        "function"@ != "arguments"@,
        "name"@ != "description"@,
        "name"@ != "parameters"@,
        "name"@ != "id"@,
        "name"@ != "arguments"@,
        "description"@ != "parameters"@,
        "description"@ != "id"@,
        "description"@ != "arguments"@,
        "parameters"@ != "id"@,
        "parameters"@ != "arguments"@,
        "id"@ != "arguments"@,
{
    reveal_strlit("type");
    reveal_strlit("function");
    reveal_strlit("name");
    reveal_strlit("description");
    reveal_strlit("parameters");
    reveal_strlit("id");
    reveal_strlit("arguments");
    assert("type"@.len() == 4 && "type"@[0] == 't');
    assert("function"@.len() == 8);
    assert("name"@.len() == 4 && "name"@[0] == 'n');
    assert("description"@.len() == 11);
    assert("parameters"@.len() == 10);
    assert("id"@.len() == 2);
    assert("arguments"@.len() == 9);
}

/// The keys of messages differ from each other.
proof fn lemma_message_keys()
    ensures
        "role"@ != "content"@,
        "role"@ != "tool_calls"@,
        "role"@ != "tool_call_id"@,
        "content"@ != "tool_calls"@,
        "content"@ != "tool_call_id"@,
        "tool_calls"@ != "tool_call_id"@,
{
    reveal_strlit("role");
    reveal_strlit("content");
    reveal_strlit("tool_calls");
    reveal_strlit("tool_call_id");
    assert("role"@.len() == 4);
    assert("content"@.len() == 7);
    assert("tool_calls"@.len() == 10);
    assert("tool_call_id"@.len() == 12);
}

/// Whether an object has an entry.
pub open spec fn has_entry(json: JsonView, key: Seq<char>) -> bool {
    json matches JsonView::Object(entries) && entries.contains_key(key)
}

/// Whether some JSON describes a tool: a function with its name, its description
/// and the schema of its input.
pub open spec fn describes(json: JsonView, tool: ToolSpecView) -> bool {
    &&& json.at("type"@) == JsonView::String("function"@)
    &&& json.at("function"@).at("name"@) == JsonView::String(tool.name)
    &&& json.at("function"@).at("description"@) == JsonView::String(tool.description)
    &&& json.at("function"@).at("parameters"@) == tool.input_schema
}

/// The body of a call offers the model every tool of the request, in its place,
/// whether the call streams or not; without tools it offers none.
pub proof fn law_body_offers_every_tool(request: RequestView, model: Seq<char>, stream: bool)
    ensures
        ({
            let body = body_wire(request, model, stream);
            &&& request.tools.len() == 0 <==> !has_entry(body, "tools"@)
            &&& request.tools.len() > 0 ==> (body.at("tools"@) matches JsonView::Array(items) && {
                &&& items.len() == request.tools.len()
                &&& forall|i: int|
                    0 <= i < items.len() ==> describes(#[trigger] items[i], request.tools[i])
            })
        }),
{
    lemma_body_keys();
    lemma_tool_keys();
}

/// The body says what the request says: the model, the limits, the sampling
/// options, where to stop and how the tools may be used; what the request leaves
/// out is left out, and nothing else is there.
pub proof fn law_body_says_what_the_request_says(
    request: RequestView,
    model: Seq<char>,
    stream: bool,
)
    ensures
        ({
            let body = body_wire(request, model, stream);
            &&& body is Object
            &&& body.at("model"@) == JsonView::String(model)
            &&& body.at("stream"@) == JsonView::Bool(stream)
            &&& request.max_tokens > 0 ==> body.at("max_tokens"@) == JsonView::Integer(
                request.max_tokens as int,
            )
            &&& request.max_tokens == 0 ==> !has_entry(body, "max_tokens"@)
            &&& request.temperature matches Some(value) ==> body.at("temperature"@) == value
            &&& request.temperature is None ==> !has_entry(body, "temperature"@)
            &&& request.top_p matches Some(value) ==> body.at("top_p"@) == value
            &&& request.top_p is None ==> !has_entry(body, "top_p"@)
            &&& request.stop_sequences.len() == 0 ==> !has_entry(body, "stop"@)
            &&& request.stop_sequences.len() > 0 ==> (body.at("stop"@) matches JsonView::Array(items)
                && {
                &&& items.len() == request.stop_sequences.len()
                &&& forall|i: int|
                    0 <= i < items.len() ==> #[trigger] items[i] == JsonView::String(
                        request.stop_sequences[i],
                    )
            })
            &&& request.tool_choice is None ==> !has_entry(body, "tool_choice"@)
            &&& request.tool_choice matches Some(ToolChoiceView::Auto) ==> body.at("tool_choice"@)
                == JsonView::String("auto"@)
            &&& request.tool_choice matches Some(ToolChoiceView::Any) ==> body.at("tool_choice"@)
                == JsonView::String("required"@)
            &&& request.tool_choice matches Some(ToolChoiceView::Tool(name)) ==> {
                &&& body.at("tool_choice"@).at("type"@) == JsonView::String("function"@)
                &&& body.at("tool_choice"@).at("function"@).at("name"@) == JsonView::String(name)
            }
            &&& forall|key: Seq<char>| #[trigger]
                has_entry(body, key) ==> {
                    ||| key == "model"@
                    ||| key == "messages"@
                    ||| key == "stream"@
                    ||| key == "stream_options"@
                    ||| key == "max_tokens"@
                    ||| key == "temperature"@
                    ||| key == "top_p"@
                    ||| key == "stop"@
                    ||| key == "tools"@
                    ||| key == "tool_choice"@
                }
        }),
{
    lemma_body_keys();
    lemma_tool_keys();
}

/// A streaming call differs from a plain one in that it streams and asks for the
/// usage at its end, and in nothing else.
pub proof fn law_streaming_changes_nothing_else(
    request: RequestView,
    model: Seq<char>,
    key: Seq<char>,
)
    ensures
        ({
            let plain = body_wire(request, model, false);
            let streaming = body_wire(request, model, true);
            &&& key != "stream"@ && key != "stream_options"@ ==> {
                &&& has_entry(streaming, key) <==> has_entry(plain, key)
                &&& streaming.at(key) == plain.at(key)
            }
            &&& streaming.at("stream"@) == JsonView::Bool(true)
            &&& plain.at("stream"@) == JsonView::Bool(false)
            &&& streaming.at("stream_options"@).at("include_usage"@) == JsonView::Bool(true)
            &&& !has_entry(plain, "stream_options"@)
        }),
{
    lemma_body_keys();
}

/// The conversation is sent whole: the system prompt first, where there is one,
/// and then the wire messages of each message in turn.
pub proof fn law_conversation_is_sent_whole(request: RequestView, model: Seq<char>, stream: bool)
    ensures
        body_wire(request, model, stream).at("messages"@) matches JsonView::Array(items) && {
            &&& request.system is None ==> items == messages_wire(request.messages)
            &&& request.system matches Some(prompt) ==> {
                &&& items.len() > 0
                &&& items[0].at("role"@) == JsonView::String("system"@)
                &&& items[0].at("content"@) == JsonView::String(prompt)
                &&& items.skip(1) == messages_wire(request.messages)
            }
        },
{
    lemma_body_keys();
    lemma_message_keys();
    let items = body_wire(request, model, stream).at("messages"@)->Array_0;
    if request.system is Some {
        assert(items.skip(1) == messages_wire(request.messages));
    } else {
        assert(items == messages_wire(request.messages));
    }
}

/// The wire messages of two parts of a conversation follow each other.
pub proof fn law_wire_messages_follow_each_other(a: Seq<MessageView>, b: Seq<MessageView>)
    ensures
        messages_wire(a + b) == messages_wire(a) + messages_wire(b),
    decreases b.len(),
{
    if b.len() == 0 {
        assert(a + b == a);
        assert(messages_wire(a) + messages_wire(b) == messages_wire(a));
    } else {
        assert((a + b).drop_last() == a + b.drop_last());
        law_wire_messages_follow_each_other(a, b.drop_last());
        assert(messages_wire(a) + messages_wire(b.drop_last()) + message_wire(b.last())
            == messages_wire(a) + (messages_wire(b.drop_last()) + message_wire(b.last())));
    }
}

/// A conversation of one message is sent as that message is.
pub proof fn law_one_message_is_sent_as_it_is(message: MessageView)
    ensures
        messages_wire(seq![message]) == message_wire(message),
{
    reveal_with_fuel(messages_wire, 2);
    assert(seq![message].drop_last() == Seq::<MessageView>::empty());
    assert(Seq::<JsonView>::empty() + message_wire(message) == message_wire(message));
}

/// Whether some JSON is the wire form of a tool call: its id, its name, and the
/// text of its input.
pub open spec fn calls_for(json: JsonView, used: UseView) -> bool {
    &&& json.at("id"@) == JsonView::String(used.0)
    &&& json.at("type"@) == JsonView::String("function"@)
    &&& json.at("function"@).at("name"@) == JsonView::String(used.1)
    &&& json.at("function"@).at("arguments"@) == JsonView::String(json_text(used.2))
}

/// What the assistant said is sent as one message with all its text and all its
/// tool calls, in their order; without text the content is null, and without
/// calls there is no list of them.
pub proof fn law_assistant_messages_are_sent_whole(content: Seq<ContentView>)
    ensures
        ({
            let wires = message_wire(MessageView { role: Role::Assistant, content });
            let wire = wires[0];
            let uses = uses_of(content);
            &&& wires.len() == 1
            &&& wire.at("role"@) == JsonView::String("assistant"@)
            &&& wire.at("content"@) == (if text_of(content).len() == 0 {
                JsonView::Null
            } else {
                JsonView::String(text_of(content))
            })
            &&& uses.len() == 0 <==> !has_entry(wire, "tool_calls"@)
            &&& uses.len() > 0 ==> (wire.at("tool_calls"@) matches JsonView::Array(items) && {
                &&& items.len() == uses.len()
                &&& forall|i: int|
                    0 <= i < items.len() ==> calls_for(#[trigger] items[i], uses[i])
            })
        }),
{
    lemma_message_keys();
    lemma_tool_keys();
}

/// What the user sends is sent as the results of the tools, each a message of its
/// own, and then the text, where there is any.
pub proof fn law_user_messages_are_sent_whole(content: Seq<ContentView>)
    ensures
        ({
            let wires = message_wire(MessageView { role: Role::User, content });
            let results = results_wire(content);
            &&& wires.take(results.len() as int) == results
            &&& text_of(content).len() == 0 ==> wires.len() == results.len()
            &&& text_of(content).len() > 0 ==> {
                &&& wires.len() == results.len() + 1
                &&& wires.last().at("role"@) == JsonView::String("user"@)
                &&& wires.last().at("content"@) == JsonView::String(text_of(content))
            }
        }),
{
    lemma_message_keys();
    let wires = message_wire(MessageView { role: Role::User, content });
    let results = results_wire(content);
    assert(wires.take(results.len() as int) == results);
}

/// The results in two runs of blocks follow each other.
pub proof fn law_wire_results_follow_each_other(a: Seq<ContentView>, b: Seq<ContentView>)
    ensures
        results_wire(a + b) == results_wire(a) + results_wire(b),
    decreases b.len(),
{
    if b.len() == 0 {
        assert(a + b == a);
        assert(results_wire(a) + results_wire(b) == results_wire(a));
    } else {
        assert((a + b).drop_last() == a + b.drop_last());
        law_wire_results_follow_each_other(a, b.drop_last());
        assert(results_wire(a + b) == results_wire(a) + results_wire(b));
    }
}

/// A tool result is a message of a tool, under the id of its call, with its text,
/// which says that it is an error where it is one; any other block is none.
pub proof fn law_results_are_messages_of_a_tool(block: ContentView)
    ensures
        block !is ToolResult ==> results_wire(seq![block]).len() == 0,
        block matches ContentView::ToolResult { tool_use_id, content, is_error } ==> {
            let wires = results_wire(seq![block]);
            &&& wires.len() == 1
            &&& wires[0].at("role"@) == JsonView::String("tool"@)
            &&& wires[0].at("tool_call_id"@) == JsonView::String(tool_use_id)
            &&& wires[0].at("content"@) == JsonView::String(
                if is_error {
                    "ERROR: "@ + content
                } else {
                    content
                },
            )
        },
{
    lemma_message_keys();
    reveal_with_fuel(results_wire, 2);
    assert(seq![block].drop_last() == Seq::<ContentView>::empty());
}

/// Whether a wire call is this call, made of the index where it has no id.
pub open spec fn is_call(call: JsonView, index: int, block: ContentView) -> bool {
    block matches ContentView::ToolUse { id, name, input } && {
        &&& call.at("id"@) matches JsonView::String(given) ==> id == given
        &&& call.at("id"@) !is String ==> id == "call_"@ + decimal_text(index as nat)
        &&& name == call.at("function"@).at("name"@).text()
        &&& arguments_of(call.at("function"@).at("arguments"@).text()) == Ok::<
            JsonView,
            ModelErrorView,
        >(input)
    }
}

/// The calls of a reply are its wire calls, each in its place and none left out;
/// they fail just where the arguments of one cannot be read.
pub proof fn law_replies_have_all_their_calls(calls: Seq<JsonView>)
    ensures
        match calls_of(calls) {
            Ok(blocks) => {
                &&& blocks.len() == calls.len()
                &&& forall|i: int|
                    0 <= i < calls.len() ==> is_call(calls[i], i, #[trigger] blocks[i])
            },
            Err(error) => exists|i: int|
                0 <= i < calls.len() && arguments_of(
                    (#[trigger] calls[i]).at("function"@).at("arguments"@).text(),
                ) == Err::<JsonView, ModelErrorView>(error),
        },
    decreases calls.len(),
{
    if calls.len() > 0 {
        let init = calls.drop_last();
        let n = calls.len() - 1;
        law_replies_have_all_their_calls(init);
        match calls_of(init) {
            Ok(before) => {
                if let Ok(blocks) = calls_of(calls) {
                    assert forall|i: int| 0 <= i < calls.len() implies is_call(
                        calls[i],
                        i,
                        #[trigger] blocks[i],
                    ) by {
                        if i < n {
                            assert(blocks[i] == before[i]);
                            assert(init[i] == calls[i]);
                        }
                    }
                } else {
                    assert(calls[n] == calls.last());
                }
            },
            Err(error) => {
                let i = choose|i: int|
                    0 <= i < init.len() && arguments_of(
                        (#[trigger] init[i]).at("function"@).at("arguments"@).text(),
                    ) == Err::<JsonView, ModelErrorView>(error);
                assert(calls[i] == init[i]);
            },
        }
    }
}

/// Arguments are the JSON that they are; white space alone is an empty object,
/// and what is no JSON is output of the wrong shape, and the reason is told.
pub proof fn law_arguments_are_read_as_json(arguments: Seq<char>)
    ensures
        (forall|i: int| 0 <= i < arguments.len() ==> is_white_space(#[trigger] arguments[i]))
            ==> arguments_of(arguments) == Ok::<JsonView, ModelErrorView>(
            JsonView::Object(Map::empty()),
        ),
        (exists|i: int| 0 <= i < arguments.len() && !is_white_space(#[trigger] arguments[i]))
            ==> arguments_of(arguments) == (match json_parse(arguments) {
            Ok(json) => Ok::<JsonView, ModelErrorView>(json),
            Err(words) => Err(ModelErrorView::Deserialize("unparseable tool arguments: "@ + words)),
        }),
{
    law_trimming_takes_off_white_space_alone(arguments);
}

/// A reply is read whole: the text first, where there is any, then the calls, why
/// it stopped, and what it used.
pub proof fn law_replies_are_read_whole(value: JsonView)
    ensures
        value.at("choices"@).head() is None ==> response_of(value) == Err::<
            ResponseView,
            ModelErrorView,
        >(ModelErrorView::Deserialize("response has no choices"@)),
        value.at("choices"@).head() matches Some(choice) ==> {
            let wire = choice.at("message"@);
            let text = wire.at("content"@).text();
            let calls = calls_of(wire_calls(wire));
            &&& calls matches Err(error) ==> response_of(value) == Err::<
                ResponseView,
                ModelErrorView,
            >(error)
            &&& calls matches Ok(blocks) ==> (response_of(value) matches Ok(response) && {
                let content = response.message.content;
                &&& response.message.role is Assistant
                &&& text.len() == 0 ==> content == blocks
                &&& text.len() > 0 ==> {
                    &&& content.len() == blocks.len() + 1
                    &&& content[0] == (ContentView::Text { text })
                    &&& content.skip(1) == blocks
                }
                &&& response.usage.input_tokens == value.at("usage"@).at("prompt_tokens"@).count()
                &&& response.usage.output_tokens == value.at("usage"@).at(
                    "completion_tokens"@,
                ).count()
                &&& choice.at("finish_reason"@).as_str() is None ==> response.stop_reason
                    == StopReasonView::EndTurn
                &&& choice.at("finish_reason"@).as_str() matches Some(reason) ==> {
                    &&& reason == "stop"@ <==> response.stop_reason is EndTurn
                    &&& reason == "tool_calls"@ <==> response.stop_reason is ToolUse
                    &&& reason == "length"@ <==> response.stop_reason is MaxTokens
                    &&& response.stop_reason matches StopReasonView::Other(name) ==> name == reason
                    &&& response.stop_reason !is StopSequence
                }
            })
        },
{
    reveal_strlit("stop");
    reveal_strlit("tool_calls");
    reveal_strlit("length");
    assert("stop"@.len() == 4);
    assert("tool_calls"@.len() == 10);
    assert("length"@.len() == 6);
    if let Some(choice) = value.at("choices"@).head() {
        let wire = choice.at("message"@);
        assert(calls_of(Seq::<JsonView>::empty()) == Ok::<Seq<ContentView>, ModelErrorView>(
            Seq::empty(),
        ));
        if let Ok(blocks) = calls_of(wire_calls(wire)) {
            let content = text_block(wire.at("content"@).text()) + blocks;
            if wire.at("content"@).text().len() == 0 {
                assert(content == blocks);
            } else {
                assert(content.skip(1) == blocks);
            }
        }
    }
}

/// A tool call that was sent comes back as it was, where its arguments read as
/// its input.
pub proof fn law_sent_calls_come_back(
    id: Seq<char>,
    name: Seq<char>,
    input: JsonView,
    arguments: Seq<char>,
    index: int,
)
    requires
        arguments_of(arguments) == Ok::<JsonView, ModelErrorView>(input),
    ensures
        call_of(function_wire(id, name, arguments), index) == Ok::<ContentView, ModelErrorView>(
            ContentView::ToolUse { id, name, input },
        ),
{
    lemma_tool_keys();
}

/// A piece belongs to the call of the index that it gives, and to the first where
/// it gives none; every chunk is taken whose pieces have an index below the last.
pub proof fn law_pieces_belong_to_their_index(piece: JsonView, chunk: JsonView)
    ensures
        piece.at("index"@) !is Integer ==> index_of(piece) == 0,
        piece.at("index"@) matches JsonView::Integer(n) ==> (0 <= n <= usize::MAX ==> index_of(piece)
            == n),
        (forall|i: int|
            0 <= i < pieces_of(chunk).len() ==> index_of(#[trigger] pieces_of(chunk)[i])
                < usize::MAX) ==> acceptable(chunk),
        chunk.at("choices"@).head() is None ==> pieces_of(chunk).len() == 0,
        chunk.at("choices"@).head() matches Some(choice) ==> (choice.at("delta"@).at(
            "tool_calls"@,
        ) matches JsonView::Array(items) ==> pieces_of(chunk) == items),
{
}

/// A call goes to the server's path with the key, and with the body of the
/// request for the client's own model.
pub proof fn law_calls_go_to_the_server(client: OpenAiView, request: RequestView, stream: bool)
    ensures
        ({
            let call = client.call(request, stream);
            &&& call.url == client.base_url + "/chat/completions"@
            &&& call.headers == seq![("authorization"@, "Bearer "@ + client.api_key)]
            &&& call.body == body_wire(request, client.model, stream)
            &&& call.body.at("model"@) == JsonView::String(client.model)
        }),
{
    law_body_says_what_the_request_says(request, client.model, stream);
}

/// Data is read without the white space around it; empty data and the closing
/// mark have no payload.
pub proof fn law_data_has_a_payload_unless_it_closes(data: Seq<char>)
    ensures
        payload_of(data) is None <==> trimmed(data).len() == 0 || trimmed(data) == "[DONE]"@,
        payload_of(data) matches Some(Ok(json)) ==> json_parse(trimmed(data)) == Ok::<
            JsonView,
            Seq<char>,
        >(json),
        payload_of(data) matches Some(Err(error)) ==> (error is Stream && json_parse(
            trimmed(data),
        ) is Err),
{
}

}
