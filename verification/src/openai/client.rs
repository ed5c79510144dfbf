//! What a client of the Chat Completions API sends.

use vstd::prelude::*;

use super::convert::{body_wire, to_body};
use crate::http::{HttpCall, HttpCallView};
use crate::model::{Request, RequestView};
use crate::text::{
    concat, law_trailing_characters_are_taken_off, trim_end, without_trailing,
};

verus! {

pub const DEFAULT_BASE_URL: &'static str = "https://api.openai.com/v1";

/// Chat Completions API client (OpenAI or any compatible server).
#[derive(Debug)]
pub struct OpenAi {
    api_key: String,
    model: String,
    base_url: String,
}

/// What a client knows.
#[verifier::ext_equal]
pub struct OpenAiView {
    pub api_key: Seq<char>,
    pub model: Seq<char>,
    pub base_url: Seq<char>,
}

impl View for OpenAi {
    type V = OpenAiView;

    closed spec fn view(&self) -> OpenAiView {
        OpenAiView { api_key: self.api_key@, model: self.model@, base_url: self.base_url@ }
    }
}

impl Clone for OpenAi {
    fn clone(&self) -> (r: OpenAi)
        ensures
            r@ == self@,
    {
        OpenAi {
            api_key: self.api_key.clone(),
            model: self.model.clone(),
            base_url: self.base_url.clone(),
        }
    }
}

impl OpenAiView {
    /// A client for `model`, with this key and this base URL where they are given.
    pub open spec fn of(
        model: Seq<char>,
        api_key: Option<Seq<char>>,
        base_url: Option<Seq<char>>,
    ) -> OpenAiView {
        OpenAiView {
            api_key: match api_key {
                Some(key) => key,
                None => Seq::empty(),
            },
            model,
            base_url: match base_url {
                Some(url) => url,
                None => DEFAULT_BASE_URL@,
            },
        }
    }

    /// With this key.
    pub open spec fn with_api_key(self, key: Seq<char>) -> OpenAiView {
        OpenAiView { api_key: key, ..self }
    }

    /// With this base URL.
    pub open spec fn with_base_url(self, url: Seq<char>) -> OpenAiView {
        OpenAiView { base_url: without_trailing(url, '/'), ..self }
    }

    /// The call for a request.
    pub open spec fn call(self, request: RequestView, stream: bool) -> HttpCallView {
        HttpCallView {
            url: self.base_url + "/chat/completions"@,
            headers: seq![("authorization"@, "Bearer "@ + self.api_key)],
            body: body_wire(request, self.model, stream),
        }
    }
}

impl OpenAi {
    /// A client for `model`, with the key and the base URL of the environment
    /// where it has them.
    pub fn new(model: String, api_key: Option<String>, base_url: Option<String>) -> (r: OpenAi)
        ensures
            r@ == (OpenAiView {
                api_key: match api_key {
                    Some(key) => key@,
                    None => Seq::empty(),
                },
                model: model@,
                base_url: match base_url {
                    Some(url) => url@,
                    None => DEFAULT_BASE_URL@,
                },
            }),
            r@ == OpenAiView::of(model@, api_key.deep_view(), base_url.deep_view()),
    {
        OpenAi {
            api_key: match api_key {
                Some(key) => key,
                None => String::new(),
            },
            model,
            base_url: match base_url {
                Some(url) => url,
                None => DEFAULT_BASE_URL.to_owned(),
            },
        }
    }

    pub fn with_api_key(self, key: String) -> (r: OpenAi)
        ensures
            r@ == (OpenAiView { api_key: key@, ..self@ }),
            r@ == self@.with_api_key(key@),
    {
        OpenAi { api_key: key, model: self.model, base_url: self.base_url }
    }

    /// Point at a compatible server, e.g. `http://localhost:11434/v1` for
    /// Ollama. The path must include the API prefix (usually `/v1`).
    pub fn with_base_url(self, url: String) -> (r: OpenAi)
        ensures
            r@ == (OpenAiView { base_url: without_trailing(url@, '/'), ..self@ }),
            r@ == self@.with_base_url(url@),
    {
        OpenAi { api_key: self.api_key, model: self.model, base_url: trim_end(url.as_str(), '/') }
    }

    /// The model identifier.
    pub fn model_id(&self) -> (r: &str)
        ensures
            r@ == self@.model,
    {
        self.model.as_str()
    }

    /// The call for a request.
    pub fn request(&self, req: &Request, stream: bool) -> (r: HttpCall)
        ensures
            r@ == self@.call(req@, stream),
    {
        let mut headers: Vec<(String, String)> = Vec::new();
        headers.push(("authorization".to_owned(), concat("Bearer ", self.api_key.as_str())));
        assert(headers.deep_view() == seq![("authorization"@, "Bearer "@ + self@.api_key)]);
        HttpCall {
            url: concat(self.base_url.as_str(), "/chat/completions"),
            headers,
            body: to_body(req, self.model.as_str(), stream),
        }
    }
}

/// A client keeps the model, the key and the base URL that it is given, in
/// whatever order they are set; without a base URL it goes to the provider's own.
pub proof fn law_clients_keep_what_they_are_given(
    client: OpenAiView,
    model: Seq<char>,
    key: Seq<char>,
    url: Seq<char>,
)
    ensures
        OpenAiView::of(model, Some(key), Some(url)) == (OpenAiView {
            api_key: key,
            model,
            base_url: url,
        }),
        OpenAiView::of(model, None, None).base_url == "https://api.openai.com/v1"@,
        OpenAiView::of(model, None, None).api_key.len() == 0,
        client.with_api_key(key).api_key == key,
        client.with_api_key(key).model == client.model,
        client.with_api_key(key).base_url == client.base_url,
        client.with_base_url(url).model == client.model,
        client.with_base_url(url).api_key == client.api_key,
        client.with_base_url(url).base_url.is_prefix_of(url),
        url.len() > 0 && url.last() != '/' ==> client.with_base_url(url).base_url == url,
        client.with_base_url(url).base_url.len() > 0 ==> client.with_base_url(url).base_url.last()
            != '/',
{
    law_trailing_characters_are_taken_off(url, '/');
}

}
