//! Addresses of the server's endpoints.

use crate::models::error::{error_type_of, ApiError};
use crate::utils::decimal::{decimal_text, format_decimal};
use crate::utils::text::{join2, join3, starts_with_char};
use vstd::prelude::*;

verus! {

/// The address of an endpoint: the endpoint appended to the address of the
/// server, with exactly one `/` put between them where the endpoint brings
/// none.
pub open spec fn url_of(server_url: Seq<char>, endpoint: Seq<char>) -> Seq<char> {
    if endpoint.len() > 0 && endpoint[0] == '/' {
        server_url + endpoint
    } else {
        server_url + "/"@ + endpoint
    }
}

/// Builds the address of an endpoint: [`url_of`].
pub fn build_url(server_url: &str, endpoint: &str) -> (url: String)
    ensures
        url@ == url_of(server_url@, endpoint@),
{
    if starts_with_char(endpoint, '/') {
        join2(server_url, endpoint)
    } else {
        join3(server_url, "/", endpoint)
    }
}

/// The key under which the server puts the message of a failure.
pub const MESSAGE_KEY: &'static str = "message";

/// The text under `key` in a JSON object, where `text` is such an object and
/// holds a text there; as `serde_json` reads it.
pub uninterp spec fn json_text_of(text: Seq<char>, key: Seq<char>) -> Option<Seq<char>>;

/// `serde_json::from_str` into a `serde_json::Value`, then `Value::get` with
/// `key` and `Value::as_str`. The result is named [`json_text_of`]; nothing
/// more is claimed of it.
#[verifier::external_body]
fn json_text_at(text: &str, key: &str) -> (found: Option<String>)
    ensures
        found.deep_view() == json_text_of(text@, key@),
{
    let value = serde_json::from_str::<serde_json::Value>(text).ok()?;
    value.get(key)?.as_str().map(|found| found.to_owned())
}

/// Whether a status code tells of success.
pub open spec fn is_success(status_code: u16) -> bool {
    200 <= status_code <= 299
}

/// The message of a failed request. A body that could be read gives the
/// message: the one that it holds as JSON, else the body itself. Without a
/// body the message tells the status code.
pub open spec fn failure_message(
    status_code: u16,
    body: Option<Seq<char>>,
    found: Option<Seq<char>>,
) -> Seq<char> {
    match body {
        Some(text) => match found {
            Some(message) => message,
            None => text,
        },
        None => "请求失败，状态码: "@ + decimal_text(status_code as nat),
    }
}

/// Judges the answer to a request from its status code, its body where it
/// could be read, and the message that was found in the body. Success passes;
/// anything else is an error with that status code and
/// [`failure_message`].
pub fn judge_response(status_code: u16, body: Option<&str>, found: Option<String>) -> (result:
    Result<(), ApiError>)
    ensures
        is_success(status_code) ==> result is Ok,
        !is_success(status_code) ==> result is Err && result->Err_0.status_code == status_code
            && result->Err_0.error_type == error_type_of(status_code) && result->Err_0.message@
            == failure_message(status_code, body.deep_view(), found.deep_view()),
{
    if 200 <= status_code && status_code <= 299 {
        return Ok(());
    }
    let message = match body {
        Some(text) => match found {
            Some(message) => message,
            None => text.to_owned(),
        },
        None => {
            let code = format_decimal(status_code as u64);
            join2("请求失败，状态码: ", code.as_str())
        },
    };
    Err(ApiError::new(status_code, message))
}

/// Judges the answer to a request from its status code and its body, where
/// the body could be read: [`judge_response`], with the text that the body
/// holds as JSON under [`MESSAGE_KEY`].
pub fn handle_response_error(status_code: u16, body: Option<&str>) -> (result: Result<
    (),
    ApiError,
>)
    ensures
        is_success(status_code) ==> result is Ok,
        !is_success(status_code) ==> result is Err && result->Err_0.status_code == status_code
            && result->Err_0.error_type == error_type_of(status_code) && result->Err_0.message@
            == failure_message(
            status_code,
            body.deep_view(),
            match body {
                Some(text) => json_text_of(text@, MESSAGE_KEY@),
                None => None,
            },
        ),
{
    let found = match body {
        Some(text) => json_text_at(text, MESSAGE_KEY),
        None => None,
    };
    judge_response(status_code, body, found)
}

} // verus!
