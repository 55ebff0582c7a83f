use vstd::prelude::*;

verus! {

/// Why a webhook request was refused.
#[derive(Debug, Clone, PartialEq, Eq)]
pub enum ShookServerError {
    /// The sandbox service failed; the message it gave.
    Microsandbox(String),
    /// The body is not the expected JSON document; the parser's message.
    SerdeJson(String),
    /// The payload breaks a rule of the configuration; which rule.
    Validator(String),
    /// A header needed to authenticate the request is missing or unusable.
    MissingHeader(String),
    /// The request's signature is not the one its body and the shared
    /// secret give.
    RequestSignaturesMismatch,
    /// A value the request names is unknown; the message says which.
    Parse(String),
}

/// An HTTP answer: status code and body text.
#[derive(Debug, Clone, PartialEq, Eq)]
pub struct Reply {
    pub status: u16,
    pub body: String,
}

impl ShookServerError {
    /// The HTTP status code this refusal is answered with: 500 when the
    /// sandbox service failed, 400 for anything wrong with the request.
    pub fn status_code(&self) -> (r: u16)
        ensures
            r == (if self is Microsandbox { 500u16 } else { 400u16 }),
    {
        match self {
            ShookServerError::Microsandbox(_) => 500,
            _ => 400,
        }
    }

    /// The text of the refusal: the underlying message for failures of the
    /// sandbox service, the JSON parser and the payload rules; otherwise a
    /// description of what is wrong.
    pub open spec fn message_spec(&self) -> Seq<char> {
        match self {
            ShookServerError::Microsandbox(m) => m@,
            ShookServerError::SerdeJson(m) => m@,
            ShookServerError::Validator(m) => m@,
            ShookServerError::MissingHeader(h) => "Missing header: "@ + h@,
            ShookServerError::RequestSignaturesMismatch => "Request signatures didn't match!"@,
            ShookServerError::Parse(m) => m@,
        }
    }

    /// The text of the refusal (see [`ShookServerError::message_spec`]).
    pub fn message(&self) -> (r: String)
        ensures
            r@ == self.message_spec(),
    {
        match self {
            ShookServerError::Microsandbox(m) => m.clone(),
            ShookServerError::SerdeJson(m) => m.clone(),
            ShookServerError::Validator(m) => m.clone(),
            ShookServerError::MissingHeader(h) => {
                let mut out = "Missing header: ".to_owned();
                out.append(h.as_str());
                out
            },
            ShookServerError::RequestSignaturesMismatch => "Request signatures didn't match!".to_owned(),
            ShookServerError::Parse(m) => m.clone(),
        }
    }

    /// The answer to a refused request: its status code and its text.
    pub fn reply(&self) -> (r: Reply)
        ensures
            r.status == (if self is Microsandbox { 500u16 } else { 400u16 }),
            r.body@ == self.message_spec(),
    {
        Reply { status: self.status_code(), body: self.message() }
    }
}

/// The answer when a job was handed to the dispatcher: `OK` when it was
/// taken, a server error with the dispatcher's message when not.
pub fn submission_reply(submitted: Result<(), String>) -> (r: Reply)
    ensures
        submitted is Ok ==> r.status == 200 && r.body@ == "OK"@,
        submitted matches Err(m) ==> r.status == 500 && r.body@ == m@,
{
    match submitted {
        Ok(()) => Reply { status: 200, body: "OK".to_owned() },
        Err(m) => Reply { status: 500, body: m },
    }
}

} // verus!
