//! The error taxonomy: request faults, transport faults, and the
//! classified remote failures.

use crate::client::{ClientError, SpecClientError};
use crate::response::{ErrorResponse, SpecErrorResponse, content_type_of, spec_error_fields};
use crate::request::RequestError;
use crate::text::eq_trim_lower;
use vstd::prelude::*;
use vstd::utf8::encode_utf8;

verus! {

/// Every way an operation can fail: a malformed request, a transport
/// fault, a body that could not be read, a client-side name check, or
/// one of the classified remote failures.
#[derive(Debug)]
pub enum FutonError {
    /// The transport failed; nothing is known about the server state.
    Client(ClientError),
    /// The request could not be built.
    Request(RequestError),
    /// A body could not be parsed as the expected JSON shape.
    Json,
    /// The base URL could not be parsed.
    Url(String),
    NotFound(ErrorResponse),
    Unauthorized(ErrorResponse),
    UnknownError(ErrorResponse),
    InvalidRevFormat(ErrorResponse),
    UnknownBadRequest(ErrorResponse),
    Conflict(ErrorResponse),
    /// The database name fails the naming rule; nothing was sent.
    InvalidDatabaseName(String),
}

/// The mathematical model of a [`FutonError`].
pub enum SpecFutonError {
    Client(SpecClientError),
    Request(RequestError),
    Json,
    Url(Seq<char>),
    NotFound(SpecErrorResponse),
    Unauthorized(SpecErrorResponse),
    UnknownError(SpecErrorResponse),
    InvalidRevFormat(SpecErrorResponse),
    UnknownBadRequest(SpecErrorResponse),
    Conflict(SpecErrorResponse),
    InvalidDatabaseName(Seq<char>),
}

impl View for FutonError {
    type V = SpecFutonError;

    open spec fn view(&self) -> SpecFutonError {
        match *self {
            FutonError::Client(ref e) => SpecFutonError::Client(e@),
            FutonError::Request(e) => SpecFutonError::Request(e),
            FutonError::Json => SpecFutonError::Json,
            FutonError::Url(ref u) => SpecFutonError::Url(u@),
            FutonError::NotFound(ref e) => SpecFutonError::NotFound(e@),
            FutonError::Unauthorized(ref e) => SpecFutonError::Unauthorized(e@),
            FutonError::UnknownError(ref e) => SpecFutonError::UnknownError(e@),
            FutonError::InvalidRevFormat(ref e) => SpecFutonError::InvalidRevFormat(e@),
            FutonError::UnknownBadRequest(ref e) => SpecFutonError::UnknownBadRequest(e@),
            FutonError::Conflict(ref e) => SpecFutonError::Conflict(e@),
            FutonError::InvalidDatabaseName(ref n) => SpecFutonError::InvalidDatabaseName(n@),
        }
    }
}

/// The result type of every operation.
pub type FutonResult<T> = Result<T, FutonError>;

/// The reason text that marks a malformed revision token: compared
/// case-insensitively after trimming whitespace.
pub open spec fn is_invalid_rev_reason(reason: Seq<char>) -> bool {
    eq_trim_lower(encode_utf8(reason), encode_utf8("invalid rev format"@))
}

/// How a classified payload maps to an error kind, by status code:
/// the known codes get their own kind; a bad request is split on the
/// revision-format reason; everything else is unknown.
pub open spec fn spec_error_kind(p: SpecErrorResponse) -> SpecFutonError {
    if p.status == 404 {
        SpecFutonError::NotFound(p)
    } else if p.status == 401 {
        SpecFutonError::Unauthorized(p)
    } else if p.status == 409 {
        SpecFutonError::Conflict(p)
    } else if p.status == 400 {
        if is_invalid_rev_reason(p.reason) {
            SpecFutonError::InvalidRevFormat(p)
        } else {
            SpecFutonError::UnknownBadRequest(p)
        }
    } else {
        SpecFutonError::UnknownError(p)
    }
}

/// What classification makes of a response: success passes through,
/// anything else becomes a typed error carrying the payload.  A JSON
/// body that does not parse as an error payload is itself an error.
pub open spec fn spec_classify(
    status: u16,
    headers: Seq<(Seq<char>, Seq<char>)>,
    body: Seq<u8>,
) -> Result<(), SpecFutonError> {
    if 200 <= status < 300 {
        Ok(())
    } else {
        match content_type_of(headers) {
            Some(ct) => {
                if ct == "application/json"@ {
                    match spec_error_fields(body) {
                        Some((e, rz)) => Err(
                            spec_error_kind(SpecErrorResponse { error: e, reason: rz, status }),
                        ),
                        None => Err(SpecFutonError::Json),
                    }
                } else {
                    Err(
                        spec_error_kind(
                            SpecErrorResponse {
                                error: "unsupported content type"@,
                                reason: "content type '"@ + ct + "' is unsupported"@,
                                status,
                            },
                        ),
                    )
                }
            },
            None => Err(
                spec_error_kind(
                    SpecErrorResponse {
                        error: "unknown error"@,
                        reason: "unknown error"@,
                        status,
                    },
                ),
            ),
        }
    }
}

impl FutonError {
    /// True exactly for the absent-resource classification.
    pub fn is_not_found(&self) -> (r: bool)
        ensures
            r == (self@ is NotFound),
    {
        match self {
            FutonError::NotFound(_) => true,
            _ => false,
        }
    }

    /// Maps a classified payload to its error kind by status.
    pub fn from_payload(payload: ErrorResponse) -> (r: FutonError)
        ensures
            r == spec_from_payload(payload),
            r@ == spec_error_kind(payload@),
    {
        if payload.status == 404 {
            FutonError::NotFound(payload)
        } else if payload.status == 401 {
            FutonError::Unauthorized(payload)
        } else if payload.status == 409 {
            FutonError::Conflict(payload)
        } else if payload.status == 400 {
            if crate::text::matches_trim_lower(
                payload.reason.as_str().as_bytes(),
                "invalid rev format".as_bytes(),
            ) {
                FutonError::InvalidRevFormat(payload)
            } else {
                FutonError::UnknownBadRequest(payload)
            }
        } else {
            FutonError::UnknownError(payload)
        }
    }
}

/// The value a bare payload converts to: the kind its status
/// dictates, carrying the payload itself.
pub open spec fn spec_from_payload(payload: ErrorResponse) -> FutonError {
    if payload.status == 404 {
        FutonError::NotFound(payload)
    } else if payload.status == 401 {
        FutonError::Unauthorized(payload)
    } else if payload.status == 409 {
        FutonError::Conflict(payload)
    } else if payload.status == 400 {
        if is_invalid_rev_reason(payload.reason@) {
            FutonError::InvalidRevFormat(payload)
        } else {
            FutonError::UnknownBadRequest(payload)
        }
    } else {
        FutonError::UnknownError(payload)
    }
}

impl From<ErrorResponse> for FutonError {
    /// A bare payload converts to the kind its status dictates.
    fn from(payload: ErrorResponse) -> (r: FutonError)
        ensures
            r@ == spec_error_kind(payload@),
    {
        FutonError::from_payload(payload)
    }
}

impl vstd::std_specs::convert::FromSpecImpl<ErrorResponse> for FutonError {
    open spec fn obeys_from_spec() -> bool {
        true
    }

    open spec fn from_spec(payload: ErrorResponse) -> FutonError {
        spec_from_payload(payload)
    }
}

} // verus!
