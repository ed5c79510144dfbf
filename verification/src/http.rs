//! HTTP calls as plain values.

use vstd::prelude::*;

use crate::error::{ModelError, ModelErrorView};
use crate::json::{Json, JsonView};
use crate::text::concat;

verus! {

/// A call to make: a POST to `url` with these headers and a JSON body.
#[derive(Debug)]
pub struct HttpCall {
    pub url: String,
    pub headers: Vec<(String, String)>,
    pub body: Json,
}

/// What a call says.
#[verifier::ext_equal]
pub struct HttpCallView {
    pub url: Seq<char>,
    pub headers: Seq<(Seq<char>, Seq<char>)>,
    pub body: JsonView,
}

impl View for HttpCall {
    type V = HttpCallView;

    open spec fn view(&self) -> HttpCallView {
        HttpCallView {
            url: self.url@,
            headers: self.headers.deep_view(),
            body: self.body@,
        }
    }
}

/// Whether a status says success.
pub open spec fn is_success(status: u16) -> bool {
    200 <= status < 300
}

/// Whether a status says success.
pub fn success(status: u16) -> (r: bool)
    ensures
        r == is_success(status),
{
    200 <= status && status < 300
}

/// What a response with this status and this body fails with, if it does.
pub open spec fn status_failed(status: u16, body: Seq<char>) -> Option<ModelErrorView> {
    if is_success(status) {
        None
    } else {
        Some(ModelErrorView::Api { status, message: body })
    }
}

/// A response with any other status is an error that carries its body.
pub fn check_status(status: u16, body: String) -> (r: Result<(), ModelError>)
    ensures
        r is Ok <==> is_success(status),
        r matches Err(error) ==> error@ == (ModelErrorView::Api { status, message: body@ }),
        status_failed(status, body@) == (match r {
            Ok(()) => None,
            Err(error) => Some(error@),
        }),
{
    if success(status) {
        Ok(())
    } else {
        Err(ModelError::Api { status, message: body })
    }
}

/// The payload of an SSE event, of whose data this is what JSON parsing gave.
pub open spec fn payload_read(parsed: Result<JsonView, Seq<char>>) -> Result<
    JsonView,
    ModelErrorView,
> {
    match parsed {
        Ok(json) => Ok(json),
        Err(words) => Err(ModelErrorView::Stream("bad SSE payload: "@ + words)),
    }
}

/// The payload of an SSE event, of whose data this is what JSON parsing gave.
pub fn read_payload(parsed: Result<Json, String>) -> (r: Result<Json, ModelError>)
    ensures
        ({
            let parsed = match parsed {
                Ok(json) => Ok::<JsonView, Seq<char>>(json@),
                Err(words) => Err::<JsonView, Seq<char>>(words@),
            };
            match r {
                Ok(json) => payload_read(parsed) == Ok::<JsonView, ModelErrorView>(json@),
                Err(error) => payload_read(parsed) == Err::<JsonView, ModelErrorView>(error@),
            }
        }),
{
    match parsed {
        Ok(json) => Ok(json),
        Err(words) => Err(ModelError::Stream(concat("bad SSE payload: ", words.as_str()))),
    }
}

/// The statuses from 200 up to 299 say success, and no others.
pub proof fn law_success_is_two_hundred_and_something(status: u16)
    ensures
        is_success(status) <==> status / 100 == 2,
{
}

/// Data that is JSON is its payload, as it is; other data breaks the stream, and
/// the reason is told.
pub proof fn law_payloads_are_read_as_they_are(json: JsonView, words: Seq<char>)
    ensures
        payload_read(Ok(json)) == Ok::<JsonView, ModelErrorView>(json),
        payload_read(Err(words)) == Err::<JsonView, ModelErrorView>(
            ModelErrorView::Stream("bad SSE payload: "@ + words),
        ),
{
}

/// A response without success fails with its own status and its whole body, so
/// that rate limits and server errors are told from malformed requests.
pub proof fn law_failed_responses_carry_status_and_body(status: u16, body: Seq<char>)
    ensures
        status / 100 == 2 ==> status_failed(status, body) is None,
        status / 100 != 2 ==> (status_failed(status, body) matches Some(
            ModelErrorView::Api { status: told, message },
        ) && told == status && message == body),
        status >= 500 || status == 429 ==> (status_failed(status, body) matches Some(error)
            && error.is_retryable()),
        400 <= status < 500 && status != 408 && status != 429 ==> (status_failed(
            status,
            body,
        ) matches Some(error) && !error.is_retryable()),
{
}

}
