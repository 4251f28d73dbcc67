//! The transport boundary and the shared request pipeline.
//!
//! A [`Client`] is the injected capability that carries one request to
//! the server and brings the whole response back.  The crate states
//! nothing about what a client returns: every function that sends a
//! request says what holds of its result whatever response came back,
//! and the exact interpretation of a response is done by verified
//! functions that take the response as an argument.

use crate::body::FutonBody;
use crate::error::{spec_classify, FutonError, FutonResult};
use crate::request::{FutonRequest, Method, RequestModel};
use crate::response::{FutonResponse, ResponseModel};
use crate::text::str_eq;
use vstd::prelude::*;

verus! {

/// A transport failure, reported by the injected client.
#[derive(Debug)]
pub enum ClientError {
    Transport(String),
}

/// The mathematical model of a [`ClientError`].
pub enum SpecClientError {
    Transport(Seq<char>),
}

impl View for ClientError {
    type V = SpecClientError;

    open spec fn view(&self) -> SpecClientError {
        match *self {
            ClientError::Transport(ref m) => SpecClientError::Transport(m@),
        }
    }
}

/// The transport capability: carries one request and returns the
/// status, headers and whole body of the response.  Implementations
/// live outside the library (a real HTTP client, or a test double)
/// and must be independently shareable.
pub trait Client: Clone {
    fn call(&mut self, req: FutonRequest) -> Result<FutonResponse, ClientError>;
}

/// True when an error is one that some response classifies to, or
/// the transport's own failure: the pipeline never invents an error
/// of another shape.
pub open spec fn classified_error_of(e: crate::error::SpecFutonError) -> bool {
    e is Client || (exists|rm: ResponseModel|
        (#[trigger] crate::error::spec_classify(rm.status, rm.headers, rm.body)) == Err::<
            (),
            crate::error::SpecFutonError,
        >(e))
}

/// True when a body is one that a response with a success
/// classification carried.
pub open spec fn success_body(b: Seq<u8>) -> bool {
    exists|rm: ResponseModel|
        (#[trigger] crate::error::spec_classify(rm.status, rm.headers, rm.body)) is Ok
            && rm.body == b
}

/// Classifies a response: a success status passes through unchanged;
/// anything else becomes the typed error its status and payload
/// dictate.  Purely a function of status, headers and body.
pub fn response_to_error(response: FutonResponse) -> (r: FutonResult<FutonResponse>)
    ensures
        match spec_classify(response@.status, response@.headers, response@.body) {
            Ok(()) => r matches Ok(resp) && resp@ == response@,
            Err(e) => r matches Err(f) && f@ == e,
        },
{
    if response.is_success() {
        return Ok(response);
    }
    let status = response.status();
    let payload = match response.content_type() {
        Some(ct) => {
            if str_eq(ct.as_str(), "application/json") {
                match crate::response::parse_error_fields(response.body().bytes()) {
                    Some((error, reason)) => crate::response::ErrorResponse {
                        error,
                        reason,
                        status,
                    },
                    None => {
                        return Err(FutonError::Json);
                    },
                }
            } else {
                let mut reason = String::new();
                reason.append("content type '");
                reason.append(ct.as_str());
                reason.append("' is unsupported");
                proof {
                    assert(reason@ =~= "content type '"@ + ct@ + "' is unsupported"@);
                }
                crate::response::ErrorResponse {
                    error: "unsupported content type".to_owned(),
                    reason,
                    status,
                }
            }
        },
        None => crate::response::ErrorResponse {
            error: "unknown error".to_owned(),
            reason: "unknown error".to_owned(),
            status,
        },
    };
    Err(FutonError::from_payload(payload))
}

/// Absorbs the absent-resource classification into an empty result;
/// every other outcome passes through unchanged.
pub fn absorb_not_found<T>(r: FutonResult<T>) -> (q: FutonResult<Option<T>>)
    ensures
        match r {
            Ok(v) => q matches Ok(o) && o matches Some(w) && w == v,
            Err(e) => {
                if e@ is NotFound {
                    q matches Ok(o) && o is None
                } else {
                    q matches Err(f) && f == e
                }
            },
        },
{
    match r {
        Ok(v) => Ok(Some(v)),
        Err(e) => {
            if e.is_not_found() {
                Ok(None)
            } else {
                Err(e)
            }
        },
    }
}

/// Issues a HEAD request and returns the status code of the response:
/// some response's status, or the transport's failure.
pub(crate) fn head_request<C: Client>(client: &mut C, req: FutonRequest) -> (r: FutonResult<u16>)
    ensures
        r matches Ok(st) ==> exists|rm: ResponseModel| #[trigger] rm.status == st,
        r matches Err(e) ==> e@ is Client,
{
    let req = req.method(Method::Head);
    match client.call(req) {
        Ok(res) => {
            let st = res.status();
            proof {
                assert(res@.status == st);
            }
            Ok(st)
        },
        Err(e) => Err(FutonError::Client(e)),
    }
}

/// How a presence probe reads a status: the resource is present
/// exactly when the server did not answer with the absent-resource
/// status.  The body of such a response is never read.
pub fn interpret_presence(status: u16) -> (r: bool)
    ensures
        r == (status != 404),
{
    status != 404
}

/// Prepares one JSON request: the given method; the `accept` header
/// asking for JSON back; and, exactly when a body is given, that body
/// with its content type announced.  Nothing else of the request
/// changes.
pub(crate) fn prepare_json_request(
    req: FutonRequest,
    method: Method,
    body: Option<Vec<u8>>,
) -> (r: FutonRequest)
    ensures
        r@ == (RequestModel {
            method,
            headers: req@.headers.push(("accept"@, "application/json"@)) + (match body {
                Some(_) => seq![("content-type"@, "application/json"@)],
                None => Seq::<(Seq<char>, Seq<char>)>::empty(),
            }),
            body: (match body {
                Some(ref bytes) => bytes@,
                None => req@.body,
            }),
            ..req@
        }),
{
    proof {
        crate::request::lemma_accept_header_valid();
    }
    let ghost h0 = req@.headers;
    let req = req.method(method);
    let req = match req.header("accept", "application/json") {
        Ok(q) => q,
        Err(_) => {
            // Unreachable: the lemma above shows the constants valid.
            proof {
                assert(false);
            }
            FutonRequest::from_origin("")
        },
    };
    match body {
        Some(bytes) => {
            let out = req.json(bytes);
            proof {
                assert(out@.headers =~= h0.push(("accept"@, "application/json"@)) + seq![
                    ("content-type"@, "application/json"@),
                ]);
            }
            out
        },
        None => {
            proof {
                assert(req@.headers =~= h0.push(("accept"@, "application/json"@))
                    + Seq::<(Seq<char>, Seq<char>)>::empty());
            }
            req
        },
    }
}

/// Issues one JSON request, prepared by `prepare_json_request`: the
/// response is classified, and the raw body of a successful response
/// is returned for the caller to decode.  The result is always some
/// response's classification outcome, or the transport's failure.
pub(crate) fn json_request<C: Client>(
    client: &mut C,
    req: FutonRequest,
    method: Method,
    body: Option<Vec<u8>>,
) -> (r: FutonResult<FutonBody>)
    ensures
        r matches Ok(b) ==> success_body(b@),
        r matches Err(e) ==> classified_error_of(e@),
{
    let req = prepare_json_request(req, method, body);
    let res = match client.call(req) {
        Ok(res) => res,
        Err(e) => {
            return Err(FutonError::Client(e));
        },
    };
    let ghost rm = res@;
    let res = match response_to_error(res) {
        Ok(res) => res,
        Err(e) => {
            proof {
                assert(crate::error::spec_classify(rm.status, rm.headers, rm.body) == Err::<
                    (),
                    crate::error::SpecFutonError,
                >(e@));
            }
            return Err(e);
        },
    };
    let b = res.into_body();
    proof {
        assert(crate::error::spec_classify(rm.status, rm.headers, rm.body) is Ok && b@
            == rm.body);
    }
    Ok(b)
}

} // verus!
