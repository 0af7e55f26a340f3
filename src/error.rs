//! The errors that a request or the reading of a response can end in.
use vstd::prelude::*;
use crate::text::decimal;

verus! {

#[derive(Clone, Debug)]
pub enum ApiError {
    /// The connection failed: DNS, TLS, or reading the body.
    Transport { message: String },
    /// The body was empty, or held only whitespace.
    EmptyResponse { status: u16 },
    /// The provider answered with an error; its message.
    ProviderError { message: String },
    /// The body is neither the expected result nor a known error envelope.
    MalformedResponse { parse_error: String, raw_text: String },
    /// A header value holds bytes that HTTP headers cannot carry.
    HeaderConstruction { name: String },
}

impl ApiError {
    /// A one-line description of the error.
    pub fn describe(&self) -> (r: String)
        ensures
            r@ == match self {
                ApiError::Transport { message } => "transport error: "@ + message@,
                ApiError::EmptyResponse { status } => "Received empty response with status code: "@ + decimal(
                    *status as nat,
                ),
                ApiError::ProviderError { message } => message@,
                ApiError::MalformedResponse { parse_error, raw_text } => "Error parsing response: "@ + parse_error@
                    + " in text: '"@ + raw_text@ + "'"@,
                ApiError::HeaderConstruction { name } => "invalid value for header "@ + name@,
            },
    {
        match self {
            ApiError::Transport { message } => crate::text::concat("transport error: ", message.as_str()),
            ApiError::EmptyResponse { status } => {
                let code = crate::text::u64_decimal(*status as u64);
                crate::text::concat("Received empty response with status code: ", code.as_str())
            },
            ApiError::ProviderError { message } => message.clone(),
            ApiError::MalformedResponse { parse_error, raw_text } => {
                let head = crate::text::concat("Error parsing response: ", parse_error.as_str());
                let head = crate::text::concat(head.as_str(), " in text: '");
                let head = crate::text::concat(head.as_str(), raw_text.as_str());
                crate::text::concat(head.as_str(), "'")
            },
            ApiError::HeaderConstruction { name } => {
                crate::text::concat("invalid value for header ", name.as_str())
            },
        }
    }
}

} // verus!
