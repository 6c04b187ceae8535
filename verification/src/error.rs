use vstd::prelude::*;
use serde_json::Error as JsonFailure;
use reqwest::Error as HttpFailure;

verus! {

/// The opaque error that serialization of a request state produced.
#[verifier::external_type_specification]
#[verifier::external_body]
pub struct ExJsonFailure(JsonFailure);

/// The opaque error of the HTTP client.
#[verifier::external_type_specification]
#[verifier::external_body]
pub struct ExHttpFailure(HttpFailure);

/// Any request, transport, response validation, or answer access failure.
#[derive(Debug)]
pub enum Error {
    Configuration(String),
    StateSerialization(JsonFailure),
    Transport(HttpFailure),
    Http { status: u16 },
    InvalidResponse(String),
    AlreadyCompleted,
    NotFound(String),
    TypeMismatch { id: String, expected: &'static str, actual: &'static str },
}

} // verus!
