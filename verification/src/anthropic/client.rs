//! What a client of the Messages API sends.

use vstd::prelude::*;

use super::convert::{body_wire, to_body};
use crate::http::{HttpCall, HttpCallView};
use crate::model::{Request, RequestView};
use crate::text::concat;

verus! {

pub const DEFAULT_BASE_URL: &'static str = "https://api.anthropic.com";

pub const API_VERSION: &'static str = "2023-06-01";

pub const DEFAULT_MAX_TOKENS: u32 = 8192;

/// Anthropic Messages API client. It is stateless: every request carries the
/// full conversation.
#[derive(Debug)]
pub struct Anthropic {
    api_key: String,
    model: String,
    base_url: String,
}

/// What a client knows.
#[verifier::ext_equal]
pub struct AnthropicView {
    pub api_key: Seq<char>,
    pub model: Seq<char>,
    pub base_url: Seq<char>,
}

impl View for Anthropic {
    type V = AnthropicView;

    closed spec fn view(&self) -> AnthropicView {
        AnthropicView { api_key: self.api_key@, model: self.model@, base_url: self.base_url@ }
    }
}

impl Clone for Anthropic {
    fn clone(&self) -> (r: Anthropic)
        ensures
            r@ == self@,
    {
        Anthropic {
            api_key: self.api_key.clone(),
            model: self.model.clone(),
            base_url: self.base_url.clone(),
        }
    }
}

impl AnthropicView {
    /// A client for `model`, with this key and this base URL where they are given.
    pub open spec fn of(
        model: Seq<char>,
        api_key: Option<Seq<char>>,
        base_url: Option<Seq<char>>,
    ) -> AnthropicView {
        AnthropicView {
            api_key: match api_key {
                Some(key) => key,
                None => Seq::empty(),
            },
            model,
            base_url: match base_url {
                Some(url) => url,
                None => DEFAULT_BASE_URL@,
            },
        }
    }

    /// With this key.
    pub open spec fn with_api_key(self, key: Seq<char>) -> AnthropicView {
        AnthropicView { api_key: key, ..self }
    }

    /// With this base URL.
    pub open spec fn with_base_url(self, url: Seq<char>) -> AnthropicView {
        AnthropicView { base_url: url, ..self }
    }

    /// The call for a request.
    pub open spec fn call(self, request: RequestView, stream: bool) -> HttpCallView {
        HttpCallView {
            url: self.base_url + "/v1/messages"@,
            headers: seq![
                ("x-api-key"@, self.api_key),
                ("anthropic-version"@, API_VERSION@),
            ],
            body: body_wire(request, self.model, DEFAULT_MAX_TOKENS, stream),
        }
    }
}

impl Anthropic {
    /// A client for `model`, with the key and the base URL of the environment
    /// where it has them.
    pub fn new(model: String, api_key: Option<String>, base_url: Option<String>) -> (r: Anthropic)
        ensures
            r@ == (AnthropicView {
                api_key: match api_key {
                    Some(key) => key@,
                    None => Seq::empty(),
                },
                model: model@,
                base_url: match base_url {
                    Some(url) => url@,
                    None => DEFAULT_BASE_URL@,
                },
            }),
            r@ == AnthropicView::of(model@, api_key.deep_view(), base_url.deep_view()),
    {
        Anthropic {
            api_key: match api_key {
                Some(key) => key,
                None => String::new(),
            },
            model,
            base_url: match base_url {
                Some(url) => url,
                None => DEFAULT_BASE_URL.to_owned(),
            },
        }
    }

    pub fn with_api_key(self, key: String) -> (r: Anthropic)
        ensures
            r@ == (AnthropicView { api_key: key@, ..self@ }),
            r@ == self@.with_api_key(key@),
    {
        Anthropic { api_key: key, model: self.model, base_url: self.base_url }
    }

    pub fn with_base_url(self, url: String) -> (r: Anthropic)
        ensures
            r@ == (AnthropicView { base_url: url@, ..self@ }),
            r@ == self@.with_base_url(url@),
    {
        Anthropic { api_key: self.api_key, model: self.model, base_url: url }
    }

    pub fn model(&self) -> (r: &str)
        ensures
            r@ == self@.model,
    {
        self.model.as_str()
    }

    /// The call for a request.
    pub fn request(&self, req: &Request, stream: bool) -> (r: HttpCall)
        ensures
            r@ == self@.call(req@, stream),
    {
        let mut headers: Vec<(String, String)> = Vec::new();
        headers.push(("x-api-key".to_owned(), self.api_key.clone()));
        headers.push(("anthropic-version".to_owned(), API_VERSION.to_owned()));
        assert(headers.deep_view() == seq![
            ("x-api-key"@, self@.api_key),
            ("anthropic-version"@, API_VERSION@),
        ]);
        HttpCall {
            url: concat(self.base_url.as_str(), "/v1/messages"),
            headers,
            body: to_body(req, self.model.as_str(), DEFAULT_MAX_TOKENS, stream),
        }
    }
}

/// A client keeps the model, the key and the base URL that it is given, in
/// whatever order they are set; without a base URL it goes to the provider's own.
pub proof fn law_clients_keep_what_they_are_given(
    client: AnthropicView,
    model: Seq<char>,
    key: Seq<char>,
    url: Seq<char>,
)
    ensures
        AnthropicView::of(model, Some(key), Some(url)) == (AnthropicView {
            api_key: key,
            model,
            base_url: url,
        }),
        AnthropicView::of(model, None, None).base_url == "https://api.anthropic.com"@,
        AnthropicView::of(model, None, None).api_key.len() == 0,
        client.with_api_key(key).api_key == key,
        client.with_api_key(key).model == client.model,
        client.with_api_key(key).base_url == client.base_url,
        client.with_base_url(url).model == client.model,
        client.with_base_url(url).api_key == client.api_key,
        client.with_base_url(url).base_url == url,
{
}

}
