//! The directory's error surface.
//!
//! Every failed operation is one of four kinds. The message of a not-found,
//! conflict or bad-request error is shown to the caller as it stands; an
//! internal error keeps its detail for the server's own log and is shown to
//! the caller only as a generic message.

use crate::json::{fields_view, Json, JsonV};
use vstd::prelude::*;

verus! {

/// Why an operation failed.
#[derive(Debug, PartialEq)]
pub enum ApiError {
    /// The named entity is not stored under the given scope.
    NotFound(String),
    /// An entity with the same identity already exists under the scope.
    Conflict(String),
    /// The request contradicts itself.
    BadRequest(String),
    /// The backend or a stored document failed; the message is server-side
    /// detail, never shown to the caller.
    Internal(String),
}

/// The mathematical shape of an [`ApiError`].
pub enum ApiErrorV {
    NotFound(Seq<char>),
    Conflict(Seq<char>),
    BadRequest(Seq<char>),
    Internal(Seq<char>),
}

impl View for ApiError {
    type V = ApiErrorV;

    open spec fn view(&self) -> ApiErrorV {
        match self {
            ApiError::NotFound(m) => ApiErrorV::NotFound(m@),
            ApiError::Conflict(m) => ApiErrorV::Conflict(m@),
            ApiError::BadRequest(m) => ApiErrorV::BadRequest(m@),
            ApiError::Internal(m) => ApiErrorV::Internal(m@),
        }
    }
}

impl ApiErrorV {
    /// The HTTP status each kind maps to.
    pub open spec fn status(self) -> int {
        match self {
            ApiErrorV::NotFound(_) => 404,
            ApiErrorV::Conflict(_) => 409,
            ApiErrorV::BadRequest(_) => 400,
            ApiErrorV::Internal(_) => 500,
        }
    }

    /// The status, as the decimal string the response envelope carries.
    pub open spec fn status_text(self) -> Seq<char> {
        match self {
            ApiErrorV::NotFound(_) => "404"@,
            ApiErrorV::Conflict(_) => "409"@,
            ApiErrorV::BadRequest(_) => "400"@,
            ApiErrorV::Internal(_) => "500"@,
        }
    }

    /// The message shown to the caller: the error's own message, except
    /// that internal detail is masked.
    pub open spec fn public_message(self) -> Seq<char> {
        match self {
            ApiErrorV::NotFound(m) => m,
            ApiErrorV::Conflict(m) => m,
            ApiErrorV::BadRequest(m) => m,
            ApiErrorV::Internal(_) => "Internal server error"@,
        }
    }

    /// The response envelope: `{ "code": "<status>", "message": "<text>" }`.
    pub open spec fn body(self) -> JsonV {
        JsonV::Obj(
            seq![
                ("code"@, JsonV::Str(self.status_text())),
                ("message"@, JsonV::Str(self.public_message())),
            ],
        )
    }
}

impl ApiError {
    /// The HTTP status this error is served with.
    pub fn status_code(&self) -> (c: u16)
        ensures
            c as int == self@.status(),
    {
        match self {
            ApiError::NotFound(_) => 404,
            ApiError::Conflict(_) => 409,
            ApiError::BadRequest(_) => 400,
            ApiError::Internal(_) => 500,
        }
    }

    /// The JSON envelope this error is served with.
    pub fn response_body(&self) -> (r: Json)
        ensures
            r@ == self@.body(),
    {
        let code: String = match self {
            ApiError::NotFound(_) => String::from_str("404"),
            ApiError::Conflict(_) => String::from_str("409"),
            ApiError::BadRequest(_) => String::from_str("400"),
            ApiError::Internal(_) => String::from_str("500"),
        };
        let message: String = match self {
            ApiError::NotFound(m) => m.clone(),
            ApiError::Conflict(m) => m.clone(),
            ApiError::BadRequest(m) => m.clone(),
            ApiError::Internal(_) => String::from_str("Internal server error"),
        };
        let mut fields: Vec<(String, Json)> = Vec::new();
        fields.push((String::from_str("code"), Json::Str(code)));
        fields.push((String::from_str("message"), Json::Str(message)));
        let ghost fv = fields_view(fields@);
        proof {
            assert(fv =~= seq![
                ("code"@, JsonV::Str(self@.status_text())),
                ("message"@, JsonV::Str(self@.public_message())),
            ]);
        }
        Json::Obj(fields)
    }
}

/// What the server keeps for its own log when a stored document no longer
/// decodes against its schema.
pub open spec fn spec_malformed_stored_msg() -> Seq<char> {
    "stored value does not match the entity schema"@
}

/// Builds [`spec_malformed_stored_msg`].
pub fn malformed_stored_msg() -> (r: String)
    ensures
        r@ == spec_malformed_stored_msg(),
{
    String::from_str("stored value does not match the entity schema")
}

} // verus!
