//! What is sent to an OpenAI-compatible chat service, and what its answers
//! mean. The HTTP exchange itself is not here.

use vstd::prelude::*;
use crate::error::{AppError, ErrorView};
use crate::text::concat;

verus! {

broadcast use vstd::string::group_string_axioms;

/// One chat message.
#[derive(Debug)]
pub struct Message {
    pub role: String,
    pub content: String,
}

/// A chat client that always answers with `response`.
#[derive(Debug)]
pub struct MockGenAiClient {
    pub response: String,
}

/// The service endpoint when `OPENAI_API_COMPATIBLE_LLM_ENDPOINT` is not set:
/// a local Ollama server, as the workspace's `.env` says.
pub const DEFAULT_ENDPOINT: &'static str = "http://127.0.0.1:11434";

/// A name for what parsing `input` with `url::Url::parse` gives: the URL's
/// serialization, or the text of the parse error.
pub uninterp spec fn parsed_url(input: Seq<char>) -> Result<Seq<char>, Seq<char>>;

/// A name for what resolving `rel` against the URL `base` with
/// `url::Url::join` gives: the resolved URL's serialization, or the text of
/// the error.
pub uninterp spec fn joined_url(base: Seq<char>, rel: Seq<char>) -> Result<Seq<char>, Seq<char>>;

/// A result of two strings taken by their views.
pub open spec fn text_result(r: Result<String, String>) -> Result<Seq<char>, Seq<char>> {
    match r {
        Ok(s) => Ok(s@),
        Err(e) => Err(e@),
    }
}

/// Parses `input` as an absolute URL with `reqwest::Url::parse` (the `url`
/// crate's `Url::parse`), giving its serialization or the error's text.
///
/// Trusted: the result is named by `parsed_url`.
#[verifier::external_body]
fn parse_url(input: &str) -> (r: Result<String, String>)
    ensures
        text_result(r) == parsed_url(input@),
{
    reqwest::Url::parse(input).map(String::from).map_err(|e| e.to_string())
}

/// Resolves `rel` against `base` with `reqwest::Url::join`, after reading
/// `base` back into a URL with `Url::parse`; gives the serialization of the
/// result or the error's text.
///
/// Trusted: the result is named by `joined_url`.
#[verifier::external_body]
fn join_url(base: &str, rel: &str) -> (r: Result<String, String>)
    ensures
        text_result(r) == joined_url(base@, rel@),
{
    let base = reqwest::Url::parse(base).map_err(|e| e.to_string())?;
    base.join(rel).map(String::from).map_err(|e| e.to_string())
}

/// `s`, with a `'/'` appended unless it already ends in one.
pub open spec fn with_slash(s: Seq<char>) -> Seq<char> {
    if s.len() > 0 && s.last() == '/' {
        s
    } else {
        s.push('/')
    }
}

/// The base URL of the OpenAI-compatible API of the service at the endpoint
/// `setting` (the default endpoint when there is none): the endpoint with a
/// `'/'` appended where it lacks one, then `v1/`.
pub open spec fn base_url_spec(setting: Option<Seq<char>>) -> Result<Seq<char>, ErrorView> {
    let raw = match setting {
        Some(s) => s,
        None => DEFAULT_ENDPOINT@,
    };
    url_setting_result(with_slash(raw) + "v1/"@)
}

/// What parsing a base URL text gives, as a client reports it.
pub open spec fn url_setting_result(text: Seq<char>) -> Result<Seq<char>, ErrorView> {
    match parsed_url(text) {
        Ok(u) => Ok(u),
        Err(e) => Err(ErrorView::Config("Invalid base URL: "@ + e)),
    }
}

/// A string result with its error taken by its view.
pub open spec fn string_result(r: Result<String, AppError>) -> Result<Seq<char>, ErrorView> {
    match r {
        Ok(s) => Ok(s@),
        Err(e) => Err(e@),
    }
}

/// The base URL of a client, from the value of
/// `OPENAI_API_COMPATIBLE_LLM_ENDPOINT` (`None` when it is not set): the
/// default endpoint when absent, a `'/'` appended where missing and the API
/// version `v1/` after it, then parsed; the URL's serialization, or a
/// configuration error naming the parse error.
pub fn base_url_from_setting(setting: Option<&str>) -> (r: Result<String, AppError>)
    ensures
        string_result(r) == base_url_spec(
            match setting {
                Some(s) => Some(s@),
                None => None,
            },
        ),
{
    let raw = match setting {
        Some(s) => s,
        None => DEFAULT_ENDPOINT,
    };
    let mut v = crate::text::chars_of(raw);
    if v.len() == 0 || v[v.len() - 1] != '/' {
        v.push('/');
    }
    let ghost endpoint = v@;
    v.push('v');
    v.push('1');
    v.push('/');
    let text = crate::text::string_from_chars(v.as_slice());
    proof {
        reveal_strlit("v1/");
        assert(endpoint == with_slash(raw@));
        assert(text@ == with_slash(raw@) + "v1/"@);
    }
    parse_base_url(text.as_str())
}

/// The base URL of a client given one explicitly: parsed as it is.
pub fn parse_base_url(text: &str) -> (r: Result<String, AppError>)
    ensures
        string_result(r) == url_setting_result(text@),
{
    match parse_url(text) {
        Ok(u) => Ok(u),
        Err(e) => Err(AppError::ConfigError(concat("Invalid base URL: ", e.as_str()))),
    }
}

/// The API key of a client (`None` when `OPENAI_API_KEY` is not set).
pub fn api_key_from_setting(setting: Option<String>) -> (r: Result<String, AppError>)
    ensures
        string_result(r) == match setting {
            Some(k) => Ok::<Seq<char>, ErrorView>(k@),
            None => Err(ErrorView::Config("OPENAI_API_KEY must be set"@)),
        },
{
    match setting {
        Some(k) => Ok(k),
        None => Err(AppError::ConfigError("OPENAI_API_KEY must be set".to_string())),
    }
}

/// The chat completions URL under the API base URL `base_url`:
/// `chat/completions` resolved against it.
pub fn chat_endpoint(base_url: &str) -> (r: Result<String, AppError>)
    ensures
        string_result(r) == match joined_url(base_url@, "chat/completions"@) {
            Ok(u) => Ok::<Seq<char>, ErrorView>(u),
            Err(e) => Err(ErrorView::Config("Failed to join URL: "@ + e)),
        },
{
    match join_url(base_url, "chat/completions") {
        Ok(u) => Ok(u),
        Err(e) => Err(AppError::ConfigError(concat("Failed to join URL: ", e.as_str()))),
    }
}

/// The value of the `Authorization` header that carries `api_key`.
pub fn authorization_value(api_key: &str) -> (r: String)
    ensures
        r@ == "Bearer "@ + api_key@,
{
    concat("Bearer ", api_key)
}

/// How an HTTP exchange with the chat service went.
#[derive(Debug)]
pub enum ChatHttp {
    /// The request could not be sent; the error's text.
    SendFailed(String),
    /// The service answered with an unsuccessful status (its text, such as
    /// `500 Internal Server Error`), and its body or the error reading it.
    Rejected { status: String, body: Result<String, String> },
    /// The service answered successfully; the contents of the answer's
    /// choices, in order, or the error decoding the answer.
    Received(Result<Vec<String>, String>),
}

/// What a chat call returns for an exchange.
pub open spec fn chat_reply_spec(http: ChatHttp) -> Result<Seq<char>, ErrorView> {
    match http {
        ChatHttp::SendFailed(e) => Err(ErrorView::Network(e@)),
        ChatHttp::Rejected { status, body } => Err(
            ErrorView::Network(
                "API Request failed: "@ + status@ + " - "@ + match body {
                    Ok(text) => text@,
                    Err(e) => "(failed to read response body: "@ + e@ + ")"@,
                },
            ),
        ),
        ChatHttp::Received(Err(e)) => Err(ErrorView::Network("Failed to parse response: "@ + e@)),
        ChatHttp::Received(Ok(contents)) => if contents@.len() > 0 {
            Ok(contents@[0]@)
        } else {
            Err(ErrorView::Network("No choices in response"@))
        },
    }
}

/// The answer of a chat call: the content of the first choice, or the
/// network error that the exchange amounts to.
pub fn chat_reply(http: ChatHttp) -> (r: Result<String, AppError>)
    ensures
        string_result(r) == chat_reply_spec(http),
{
    match http {
        ChatHttp::SendFailed(e) => Err(AppError::NetworkError(e)),
        ChatHttp::Rejected { status, body } => {
            let text = match body {
                Ok(t) => t,
                Err(e) => concat(concat("(failed to read response body: ", e.as_str()).as_str(), ")"),
            };
            let m = concat(
                concat(concat("API Request failed: ", status.as_str()).as_str(), " - ").as_str(),
                text.as_str(),
            );
            Err(AppError::NetworkError(m))
        },
        ChatHttp::Received(Err(e)) => Err(
            AppError::NetworkError(concat("Failed to parse response: ", e.as_str())),
        ),
        ChatHttp::Received(Ok(contents)) => {
            if contents.len() > 0 {
                Ok(contents[0].clone())
            } else {
                Err(AppError::NetworkError("No choices in response".to_string()))
            }
        },
    }
}

impl MockGenAiClient {
    /// What the mock answers to any chat: its response.
    pub fn reply(&self) -> (r: Result<String, AppError>)
        ensures
            string_result(r) == Ok::<Seq<char>, ErrorView>(self.response@),
    {
        Ok(self.response.clone())
    }
}

} // verus!
