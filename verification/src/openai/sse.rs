//! SSE decoding for Chat Completions streams (`data: {...}` / `data: [DONE]`).

use vstd::prelude::*;

use crate::codec::{json_parse, parse};
use crate::error::{ModelError, ModelErrorView};
use crate::http::{payload_read, read_payload};
use crate::json::{Json, JsonView};
use crate::text::{same, trim, trimmed};

verus! {

/// What the data of one SSE event stands for, white space at its ends aside:
/// nothing where it is empty or the closing mark, the payload where it is JSON,
/// and an error else.
pub open spec fn payload_of(data: Seq<char>) -> Option<Result<JsonView, ModelErrorView>> {
    let data = trimmed(data);
    if data.len() == 0 || data == "[DONE]"@ {
        None
    } else {
        Some(payload_read(json_parse(data)))
    }
}

/// The payload of one SSE event, where it has one.
pub fn decode(data: &str) -> (r: Option<Result<Json, ModelError>>)
    ensures
        match r {
            None => payload_of(data@) is None,
            Some(Ok(json)) => payload_of(data@) == Some(Ok::<JsonView, ModelErrorView>(json@)),
            Some(Err(error)) => payload_of(data@) == Some(Err::<JsonView, ModelErrorView>(error@)),
        },
{
    let data = trim(data);
    if data.as_str().is_empty() || same(data.as_str(), "[DONE]") {
        None
    } else {
        Some(read_payload(parse(data.as_str())))
    }
}

}
