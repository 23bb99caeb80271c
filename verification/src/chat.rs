//! The rules of the exchange with the model endpoint: where a request goes,
//! what it carries, and what is made of the answer.
//!
//! The library sends nothing itself. It says what to send, and it takes a
//! description of what came back.

use vstd::prelude::*;
use crate::error::{AppError, AppErrorView, Service};
use crate::models::{ChatMessage, ChatRequest, ChatRequestView, ChatResponse, views};
use crate::status::{is_success, status_is_success};
use crate::text::{strip_suffixes, text_view, without_suffix};

verus! {

/// Where a chat completion is asked for: the endpoint's address without the
/// slashes at its end, then `/chat/completions`.
pub open spec fn completions_url(api_url: Seq<char>) -> Seq<char> {
    without_suffix(api_url, "/"@) + "/chat/completions"@
}

/// The value of the `Authorization` header: none for an empty key.
pub open spec fn bearer(api_key: Seq<char>) -> Option<Seq<char>> {
    if api_key.len() == 0 {
        None
    } else {
        Some("Bearer "@ + api_key)
    }
}

/// The text that is returned where the model offers no choice.
pub open spec fn no_response() -> Seq<char> {
    "No response"@
}

/// The reply that is taken from the texts of the choices: the first of
/// them, or the fixed text where there is none.
pub open spec fn reply_text(choices: Seq<Seq<char>>) -> Seq<char> {
    if choices.len() == 0 {
        no_response()
    } else {
        choices[0]
    }
}

/// How a request is made.
#[derive(Debug, Clone, Copy, PartialEq, Eq, Structural)]
pub enum Method {
    Get,
    Post,
}

/// One request to the endpoint.
#[derive(Debug)]
pub struct Call {
    /// How the request is made.
    pub method: Method,
    /// Where the request goes.
    pub url: String,
    /// The value of the `Authorization` header, where one is sent.
    pub authorization: Option<String>,
    /// What is sent as the body, in JSON, where there is a body.
    pub body: Option<ChatRequest>,
}

/// The view of a body that may be missing.
pub open spec fn body_view(body: Option<ChatRequest>) -> Option<ChatRequestView> {
    match body {
        Some(b) => Some(b@),
        None => None,
    }
}

/// What came back from the endpoint.
#[derive(Debug)]
pub enum Exchange<T> {
    /// Nothing: the endpoint could not be reached.
    Unreachable { cause: String },
    /// An answer, with its status, its body as text, and the body as it was
    /// read, or why it could not be read.
    Answered { status: u16, body: String, decoded: Result<T, String> },
}

/// Says what to send for a chat completion: a `POST` to the address, with
/// the header that carries the key where there is a key, and a body that asks
/// for one whole answer.
pub fn chat_request(messages: Vec<ChatMessage>, api_url: &str, api_key: &str, model: String) -> (r:
    Call)
    ensures
        r.method == Method::Post,
        r.url@ == completions_url(api_url@),
        text_view(r.authorization) == bearer(api_key@),
        body_view(r.body) == Some(
            ChatRequestView { model: model@, messages: views(messages@), stream: false },
        ),
{
    let url = strip_suffixes(api_url, "/").to_owned().concat("/chat/completions");
    let authorization = if api_key.unicode_len() == 0 {
        None
    } else {
        Some("Bearer ".to_owned().concat(api_key))
    };
    Call {
        method: Method::Post,
        url,
        authorization,
        body: Some(ChatRequest { model, messages, stream: false }),
    }
}

/// The reply that a response holds: the text of its first choice, or the
/// fixed text where it has none.
pub fn first_choice(response: &ChatResponse) -> (r: String)
    ensures
        r@ == reply_text(response@),
{
    if response.choices.len() == 0 {
        "No response".to_owned()
    } else {
        response.choices[0].message.content.clone()
    }
}

/// What a chat completion gives, from what came back from the endpoint.
///
/// An endpoint that could not be reached is a `Transport` failure. A status
/// outside 200 to 299 is an `Upstream` failure with the status and the body
/// as they came. A body that could not be read is a `Decode` failure. Else
/// the reply is the text of the first choice, or the fixed text where there
/// is no choice, which is no failure.
pub fn chat_completion(exchange: Exchange<ChatResponse>) -> (r: Result<String, AppError>)
    ensures
        match exchange {
            Exchange::Unreachable { cause } => r is Err && r->Err_0@ == (AppErrorView::Transport {
                service: Service::Completion,
                cause: cause@,
            }),
            Exchange::Answered { status, body, decoded } => if !is_success(status) {
                r is Err && r->Err_0@ == (AppErrorView::Upstream {
                    service: Service::Completion,
                    status,
                    body: body@,
                })
            } else {
                match decoded {
                    Err(cause) => r is Err && r->Err_0@ == (AppErrorView::Decode {
                        service: Service::Completion,
                        cause: cause@,
                    }),
                    Ok(response) => r is Ok && r->Ok_0@ == reply_text(response@),
                }
            },
        },
{
    match exchange {
        Exchange::Unreachable { cause } => Err(
            AppError::Transport { service: Service::Completion, cause },
        ),
        Exchange::Answered { status, body, decoded } => {
            if !status_is_success(status) {
                Err(AppError::Upstream { service: Service::Completion, status, body })
            } else {
                match decoded {
                    Err(cause) => Err(AppError::Decode { service: Service::Completion, cause }),
                    Ok(response) => Ok(first_choice(&response)),
                }
            }
        },
    }
}

} // verus!
