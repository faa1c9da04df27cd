//! What can go wrong with a call to the service.

use crate::request::{decimal, push_decimal};
use std::collections::HashMap;
use vstd::prelude::*;
use vstd::string::StringExecFns;

verus! {

/// The error that `serde_json` raises when a text is not the JSON that was
/// expected. Its contents are not looked into here.
#[verifier::external_type_specification]
#[verifier::external_body]
pub struct ExJsonError(serde_json::Error);

/// The error that `reqwest` raises when a request could not be carried out. Its
/// contents are not looked into here.
#[verifier::external_type_specification]
#[verifier::external_body]
pub struct ExHttpError(reqwest::Error);

/// The envelope in which the service reports an error.
#[derive(Debug)]
pub struct ApiErrorResponse {
    pub error: ApiError,
}

/// An error that the service reports.
#[derive(Debug)]
pub struct ApiError {
    pub message: String,
    pub code: u32,
    pub data: Option<HashMap<String, String>>,
}

/// The line that describes an error of the service: its code in square brackets,
/// then its message.
pub open spec fn api_error_line(code: u32, message: Seq<char>) -> Seq<char> {
    "["@ + decimal(code as nat) + "] "@ + message
}

/// The line that describes an answer that could not be decoded: the answer, then
/// the reason.
pub open spec fn decode_error_line(message: Seq<char>, reason: Seq<char>) -> Seq<char> {
    "could not decode "@ + message + ": "@ + reason
}

impl ApiError {
    /// The error in one line.
    pub fn describe(&self) -> (line: String)
        ensures
            line@ == api_error_line(self.code, self.message@),
    {
        let mut line: String = "[".to_owned();
        push_decimal(&mut line, self.code);
        line.append("] ");
        line.append(self.message.as_str());
        line
    }
}

/// An answer of the service that could not be decoded.
#[derive(Debug)]
pub struct DecodeError {
    /// The answer as it came.
    pub message: String,
    /// Why it could not be decoded.
    pub error: serde_json::Error,
}

impl DecodeError {
    /// The error in one line, given the reason in words.
    pub fn describe_with(&self, reason: &str) -> (line: String)
        ensures
            line@ == decode_error_line(self.message@, reason@),
    {
        let mut line: String = "could not decode ".to_owned();
        line.append(self.message.as_str());
        line.append(": ");
        line.append(reason);
        line
    }

    /// The error in one line. The reason is put in the words of `serde_json`.
    pub fn describe(&self) -> (line: String)
        ensures
            exists|reason: Seq<char>| line@ == decode_error_line(self.message@, reason),
    {
        let reason: String = json_error_text(&self.error);
        self.describe_with(reason.as_str())
    }
}

/// Puts an error of `serde_json` in words, through its `Display`. Nothing is
/// claimed of the words.
#[verifier::external_body]
fn json_error_text(error: &serde_json::Error) -> (text: String) {
    error.to_string()
}

/// Puts an error of `reqwest` in words, through its `Display`. Nothing is claimed
/// of the words.
#[verifier::external_body]
fn http_error_text(error: &reqwest::Error) -> (text: String) {
    error.to_string()
}

/// Why a call to the service failed.
#[derive(Debug)]
pub enum ClientError {
    /// The service answered with an error of its own.
    ApiError(ApiError),
    /// The service answered with something that could not be decoded.
    DecodeError(DecodeError),
    /// The request could not be carried out.
    HttpError(reqwest::Error),
}

impl ClientError {
    /// The error in one line.
    pub fn describe(&self) -> (line: String)
        ensures
            self matches ClientError::ApiError(error) ==> line@ == api_error_line(
                error.code,
                error.message@,
            ),
            self matches ClientError::DecodeError(error) ==> exists|reason: Seq<char>|
                line@ == decode_error_line(error.message@, reason),
    {
        match self {
            ClientError::ApiError(error) => error.describe(),
            ClientError::DecodeError(error) => error.describe(),
            ClientError::HttpError(error) => http_error_text(error),
        }
    }
}

impl From<ApiError> for ClientError {
    fn from(error: ApiError) -> (wrapped: ClientError) {
        ClientError::ApiError(error)
    }
}

impl vstd::std_specs::convert::FromSpecImpl<ApiError> for ClientError {
    open spec fn obeys_from_spec() -> bool {
        true
    }

    open spec fn from_spec(error: ApiError) -> ClientError {
        ClientError::ApiError(error)
    }
}

impl From<DecodeError> for ClientError {
    fn from(error: DecodeError) -> (wrapped: ClientError) {
        ClientError::DecodeError(error)
    }
}

impl vstd::std_specs::convert::FromSpecImpl<DecodeError> for ClientError {
    open spec fn obeys_from_spec() -> bool {
        true
    }

    open spec fn from_spec(error: DecodeError) -> ClientError {
        ClientError::DecodeError(error)
    }
}

impl From<reqwest::Error> for ClientError {
    fn from(error: reqwest::Error) -> (wrapped: ClientError) {
        ClientError::HttpError(error)
    }
}

impl vstd::std_specs::convert::FromSpecImpl<reqwest::Error> for ClientError {
    open spec fn obeys_from_spec() -> bool {
        true
    }

    open spec fn from_spec(error: reqwest::Error) -> ClientError {
        ClientError::HttpError(error)
    }
}

/// The error to raise for an answer that could not be decoded as what was asked
/// for: the error that the service reported, if the answer can be read as one,
/// else the answer itself with the reason why it could not be decoded.
pub open spec fn undecoded(
    answer: String,
    reason: serde_json::Error,
    reported: Result<ApiErrorResponse, serde_json::Error>,
) -> ClientError {
    match reported {
        Ok(response) => ClientError::ApiError(response.error),
        Err(_) => ClientError::DecodeError(DecodeError { message: answer, error: reason }),
    }
}

/// Decides what to raise for an `answer` that could not be decoded for `reason`,
/// given the outcome of reading the answer as an error report instead.
pub fn decode_failure(
    answer: String,
    reason: serde_json::Error,
    reported: Result<ApiErrorResponse, serde_json::Error>,
) -> (error: ClientError)
    ensures
        error == undecoded(answer, reason, reported),
{
    match reported {
        Ok(response) => ClientError::from(response.error),
        Err(_) => ClientError::from(DecodeError { message: answer, error: reason }),
    }
}

} // verus!
