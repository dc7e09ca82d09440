//! The exchange with the text-generation service: what is sent, and how the
//! answer is judged.
//!
//! Nothing here touches the network. The caller posts
//! [`GenerationRequest::body`] to the endpoint once, tells [`after_send`] what
//! the transport reported, and, where that asks for it, decodes the body of
//! the answer and hands what came of it to [`after_body`].

use crate::error::{Error, ErrorView};
use vstd::prelude::*;

verus! {

/// The JSON string literal that `serde_json::to_string` writes for the text
/// `s`: the text between double quotes, with the characters escaped that JSON
/// does not allow inside a string.
pub uninterp spec fn json_string(s: Seq<char>) -> Seq<char>;

/// Calls `serde_json::to_string` on a string slice. Nothing is proved of it.
/// The contract takes the result to be [`json_string`] of the text, and
/// claims that the call succeeds: a string slice always serialises, and the
/// serialiser writes into a buffer in memory, which accepts every write.
#[verifier::external_body]
fn encode_json_string(text: &str) -> (r: Option<String>)
    ensures
        r is Some,
        r.unwrap()@ == json_string(text@),
{
    serde_json::to_string(text).ok()
}

/// One request for a completion. Streaming is always off, so the service
/// answers with a single, final response.
#[derive(Debug, PartialEq, Eq)]
pub struct GenerationRequest {
    endpoint: String,
    model: String,
    prompt: String,
    stream: bool,
}

/// The mathematical value of a [`GenerationRequest`].
pub struct GenerationRequestView {
    /// The URL the request is posted to.
    pub endpoint: Seq<char>,
    /// The identifier of the model that is to answer.
    pub model: Seq<char>,
    /// The text the model is to complete.
    pub prompt: Seq<char>,
    /// Whether the answer is to arrive in pieces.
    pub stream: bool,
}

impl View for GenerationRequest {
    type V = GenerationRequestView;

    closed spec fn view(&self) -> GenerationRequestView {
        GenerationRequestView {
            endpoint: self.endpoint@,
            model: self.model@,
            prompt: self.prompt@,
            stream: self.stream,
        }
    }
}

/// The answer of the service to one request.
#[derive(Debug, Clone, PartialEq, Eq)]
pub struct GenerationResponse {
    /// The model that answered.
    pub model: String,
    /// When the answer was made, as the service writes it.
    pub created_at: String,
    /// The generated text.
    pub response: String,
    /// Whether the answer is complete.
    pub done: bool,
    /// The conversation state as the service encodes it.
    pub context: Vec<i32>,
    /// How many tokens of the prompt were evaluated.
    pub prompt_eval_count: i32,
    /// How many tokens were generated.
    pub eval_count: i32,
    /// What the service reported as having gone wrong, if anything.
    pub err: Option<String>,
}

/// The JSON object with the members `model`, `prompt` and `stream`, in this
/// order and without white space between them, where the first two are given
/// as JSON texts and the third is `false`.
pub open spec fn framed(model_json: Seq<char>, prompt_json: Seq<char>) -> Seq<char> {
    "{\"model\":"@ + model_json + ",\"prompt\":"@ + prompt_json + ",\"stream\":false}"@
}

/// The JSON object that asks `model` to complete `prompt` in one piece.
pub open spec fn request_body(model: Seq<char>, prompt: Seq<char>) -> Seq<char> {
    framed(json_string(model), json_string(prompt))
}

/// The JSON string literal for `text`.
pub fn json_text(text: &str) -> (encoded: String)
    ensures
        encoded@ == json_string(text@),
{
    match encode_json_string(text) {
        Some(encoded) => encoded,
        None => unreached(),
    }
}

/// Puts the two encoded members into the object that is posted.
pub fn frame_body(model_json: &str, prompt_json: &str) -> (text: String)
    ensures
        text@ == framed(model_json@, prompt_json@),
{
    let mut text = String::from_str("{\"model\":");
    text.append(model_json);
    text.append(",\"prompt\":");
    text.append(prompt_json);
    text.append(",\"stream\":false}");
    text
}

impl GenerationRequest {
    #[verifier::type_invariant]
    spec fn never_streams(&self) -> bool {
        !self.stream
    }

    /// A request to `endpoint` that asks `model` to complete `prompt`, with
    /// streaming off.
    pub fn new(endpoint: String, model: String, prompt: String) -> (request: GenerationRequest)
        ensures
            request@ == (GenerationRequestView {
                endpoint: endpoint@,
                model: model@,
                prompt: prompt@,
                stream: false,
            }),
    {
        GenerationRequest { endpoint, model, prompt, stream: false }
    }

    /// The URL the request is posted to.
    pub fn endpoint(&self) -> (endpoint: &str)
        ensures
            endpoint@ == self@.endpoint,
    {
        self.endpoint.as_str()
    }

    /// The identifier of the model that is to answer.
    pub fn model(&self) -> (model: &str)
        ensures
            model@ == self@.model,
    {
        self.model.as_str()
    }

    /// The text the model is to complete.
    pub fn prompt(&self) -> (prompt: &str)
        ensures
            prompt@ == self@.prompt,
    {
        self.prompt.as_str()
    }

    /// Whether the answer is to arrive in pieces: never.
    pub fn stream(&self) -> (stream: bool)
        ensures
            stream == self@.stream,
            !stream,
    {
        proof {
            use_type_invariant(self);
        }
        self.stream
    }

    /// The body to post: the JSON object with the members `model`, `prompt`
    /// and `stream`.
    pub fn body(&self) -> (text: String)
        ensures
            text@ == request_body(self@.model, self@.prompt),
    {
        let model = json_text(self.model.as_str());
        let prompt = json_text(self.prompt.as_str());
        frame_body(model.as_str(), prompt.as_str())
    }
}

/// The statuses with which the service reports success.
pub open spec fn is_success(status: u16) -> bool {
    200 <= status <= 299
}

/// Whether `status` reports success.
pub fn status_is_success(status: u16) -> (b: bool)
    ensures
        b == is_success(status),
{
    200 <= status && status <= 299
}

/// Witness that the service has reported success, so that the body of its
/// answer is due. Only [`after_send`] makes one.
#[derive(Debug)]
pub struct BodyDue {
    status: u16,
}

impl BodyDue {
    /// The status that the service answered with.
    pub closed spec fn status(&self) -> u16 {
        self.status
    }

    /// The status that the service answered with.
    pub fn code(&self) -> (status: u16)
        ensures
            status == self.status(),
    {
        self.status
    }
}

/// Judges what the transport reported on the request: either the status of
/// the answer, or the cause for which there is none.
///
/// A failed transport is a `TransportError` with that cause. A status outside
/// the success range is `GenerationRequestFailed`, whatever the body holds.
/// Otherwise the body is due and is to be decoded.
pub fn after_send(outcome: Result<u16, String>) -> (next: Result<BodyDue, Error>)
    ensures
        match outcome {
            Err(cause) => next matches Err(e) && e@ == ErrorView::TransportError(cause@),
            Ok(status) => if is_success(status) {
                next matches Ok(due) && due.status() == status
            } else {
                next matches Err(e) && e@ == ErrorView::GenerationRequestFailed
            },
        },
{
    match outcome {
        Err(cause) => Err(Error::TransportError(cause)),
        Ok(status) => if status_is_success(status) {
            Ok(BodyDue { status })
        } else {
            Err(Error::GenerationRequestFailed)
        },
    }
}

/// What came of reading and decoding the body of a successful answer.
#[derive(Debug, Clone, PartialEq, Eq)]
pub enum Body {
    /// The body has the agreed shape and decodes to this response.
    Decoded(GenerationResponse),
    /// The body arrived but does not have the agreed shape; holds what the
    /// decoder objected to.
    Undecodable(String),
    /// The connection failed before the body had arrived; holds the cause.
    Interrupted(String),
}

/// Judges the body of a successful answer.
///
/// A decoded response is final and is handed on as it is. A body that does
/// not decode is a `ResponseDecodeError` with the decoder's objection, and one
/// that never arrived a `TransportError` with its cause.
pub fn after_body(due: BodyDue, body: Body) -> (r: Result<GenerationResponse, Error>)
    ensures
        match body {
            Body::Decoded(response) => r == Ok::<GenerationResponse, Error>(response),
            Body::Undecodable(cause) => r matches Err(e) && e@ == ErrorView::ResponseDecodeError(
                cause@,
            ),
            Body::Interrupted(cause) => r matches Err(e) && e@ == ErrorView::TransportError(
                cause@,
            ),
        },
{
    match body {
        Body::Decoded(response) => Ok(response),
        Body::Undecodable(cause) => Err(Error::ResponseDecodeError(cause)),
        Body::Interrupted(cause) => Err(Error::TransportError(cause)),
    }
}

} // verus!
