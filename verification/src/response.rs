//! Responses and the server's error payload.

use crate::body::FutonBody;
use crate::json;
use crate::json::{JsonValue, SpecValue};
use crate::text::{str_eq, string_from_utf8};
use vstd::prelude::*;
use vstd::utf8::{decode_utf8, encode_utf8, valid_utf8};

verus! {

/// A received response: status, headers and the whole body.
#[derive(Debug)]
pub struct FutonResponse {
    status: u16,
    headers: Vec<(String, String)>,
    body: FutonBody,
}

/// The mathematical model of a response.
pub struct ResponseModel {
    pub status: u16,
    /// Header pairs in arrival order, names lowercase.
    pub headers: Seq<(Seq<char>, Seq<char>)>,
    pub body: Seq<u8>,
}

impl View for FutonResponse {
    type V = ResponseModel;

    closed spec fn view(&self) -> ResponseModel {
        ResponseModel {
            status: self.status,
            headers: crate::request::pairs_view(self.headers@),
            body: self.body@,
        }
    }
}

/// The server's error payload: a machine code and a human reason.
/// The status is attached by the classifier; it is not part of the
/// wire payload.
#[derive(Debug)]
pub struct ErrorResponse {
    pub error: String,
    pub reason: String,
    pub status: u16,
}

/// The mathematical model of an error payload.
pub struct SpecErrorResponse {
    pub error: Seq<char>,
    pub reason: Seq<char>,
    pub status: u16,
}

impl View for ErrorResponse {
    type V = SpecErrorResponse;

    open spec fn view(&self) -> SpecErrorResponse {
        SpecErrorResponse { error: self.error@, reason: self.reason@, status: self.status }
    }
}

/// The `error` and `reason` fields of a well-formed error payload:
/// a JSON object document with both fields as strings.
pub open spec fn spec_error_fields(body: Seq<u8>) -> Option<(Seq<char>, Seq<char>)> {
    match json::spec_object_document(body) {
        Some(m) => match (
            json::spec_obj_get(m, encode_utf8("error"@)),
            json::spec_obj_get(m, encode_utf8("reason"@)),
        ) {
            (Some(SpecValue::Str(e)), Some(SpecValue::Str(rz))) => {
                if valid_utf8(e) && valid_utf8(rz) {
                    Some((decode_utf8(e), decode_utf8(rz)))
                } else {
                    None
                }
            },
            _ => None,
        },
        None => None,
    }
}

/// Parses the server's error payload out of a body.
pub fn parse_error_fields(body: &Vec<u8>) -> (r: Option<(String, String)>)
    ensures
        (match r {
            Some(p) => Some((p.0@, p.1@)),
            None => None::<(Seq<char>, Seq<char>)>,
        }) == spec_error_fields(body@),
{
    let members = match json::parse_object_document(body) {
        Some(m) => m,
        None => {
            return None;
        },
    };
    let ev = match json::obj_find(&members, "error") {
        Some(v) => v,
        None => {
            return None;
        },
    };
    let e = match ev {
        JsonValue::Str(b) => match string_from_utf8(b.as_slice()) {
            Some(s) => s,
            None => {
                return None;
            },
        },
        _ => {
            return None;
        },
    };
    let rv = match json::obj_find(&members, "reason") {
        Some(v) => v,
        None => {
            return None;
        },
    };
    let rz = match rv {
        JsonValue::Str(b) => match string_from_utf8(b.as_slice()) {
            Some(s) => s,
            None => {
                return None;
            },
        },
        _ => {
            return None;
        },
    };
    Some((e, rz))
}

/// The first `content-type` header, if any.
pub open spec fn content_type_of(headers: Seq<(Seq<char>, Seq<char>)>) -> Option<Seq<char>>
    decreases headers.len(),
{
    if headers.len() == 0 {
        None
    } else if headers[0].0 == "content-type"@ {
        Some(headers[0].1)
    } else {
        content_type_of(headers.drop_first())
    }
}

/// What `error_for_status` reports for a status and body: nothing for
/// a status outside the error ranges; otherwise the parsed payload,
/// or one synthesized from the status's reason phrase and the body
/// text.
pub open spec fn spec_error_for_status(status: u16, body: Seq<u8>) -> Option<SpecErrorResponse> {
    if 400 <= status <= 599 {
        Some(
            match spec_error_fields(body) {
                Some((e, rz)) => SpecErrorResponse { error: e, reason: rz, status },
                None => SpecErrorResponse {
                    error: match crate::reason_phrase_of(status) {
                        Some(p) => p,
                        None => "unknown error"@,
                    },
                    reason: crate::text::lossy_text_of(body),
                    status,
                },
            },
        )
    } else {
        None
    }
}

impl FutonResponse {
    /// Assembles a received response.
    pub fn new(status: u16, headers: Vec<(String, String)>, body: FutonBody) -> (r: Self)
        ensures
            r@ == (ResponseModel {
                status,
                headers: crate::request::pairs_view(headers@),
                body: body@,
            }),
    {
        FutonResponse { status, headers, body }
    }

    /// The status code.
    pub fn status(&self) -> (r: u16)
        ensures
            r == self@.status,
    {
        self.status
    }

    /// The body.
    pub fn body(&self) -> (r: &FutonBody)
        ensures
            r@ == self@.body,
    {
        &self.body
    }

    /// Unwraps the body.
    pub fn into_body(self) -> (r: FutonBody)
        ensures
            r@ == self@.body,
    {
        self.body
    }

    /// True when the server says the resource is absent.
    pub fn is_not_found(&self) -> (r: bool)
        ensures
            r == (self@.status == 404),
    {
        self.status == 404
    }

    /// True for any success status.
    pub fn is_success(&self) -> (r: bool)
        ensures
            r == (200 <= self@.status < 300),
    {
        200 <= self.status && self.status < 300
    }

    /// The body, absent when the server says the resource is.
    pub fn maybe_body(&self) -> (r: Option<&FutonBody>)
        ensures
            self@.status == 404 ==> r is None,
            self@.status != 404 ==> (r matches Some(b) && b@ == self@.body),
    {
        if self.status == 404 {
            None
        } else {
            Some(&self.body)
        }
    }

    /// The first `content-type` header, if any.
    pub fn content_type(&self) -> (r: Option<&String>)
        ensures
            (match r {
                Some(s) => Some(s@),
                None => None::<Seq<char>>,
            }) == content_type_of(self@.headers),
    {
        let mut k: usize = 0;
        proof {
            assert(crate::request::pairs_view(self.headers@).skip(0) =~= crate::request::pairs_view(
                self.headers@,
            ));
        }
        while k < self.headers.len()
            invariant
                k <= self.headers@.len(),
                content_type_of(crate::request::pairs_view(self.headers@)) == content_type_of(
                    crate::request::pairs_view(self.headers@).skip(k as int),
                ),
            decreases self.headers@.len() - k,
        {
            let hit = str_eq(self.headers[k].0.as_str(), "content-type");
            proof {
                let h = crate::request::pairs_view(self.headers@);
                assert(h.skip(k as int)[0] == h[k as int]);
                assert(h.skip(k as int).drop_first() =~= h.skip(k + 1));
            }
            if hit {
                return Some(&self.headers[k].1);
            }
            k = k + 1;
        }
        proof {
            let h = crate::request::pairs_view(self.headers@);
            assert(h.skip(h.len() as int) =~= Seq::<(Seq<char>, Seq<char>)>::empty());
        }
        None
    }

    /// Splits off the error payload of a failed response: a response
    /// with a client- or server-error status becomes the parsed (or
    /// synthesized) payload, any other passes through unchanged.
    pub fn error_for_status(self) -> (r: Result<FutonResponse, ErrorResponse>)
        ensures
            match spec_error_for_status(self@.status, self@.body) {
                Some(e) => r matches Err(err) && err@ == e,
                None => r matches Ok(resp) && resp@ == self@,
            },
    {
        if 400 <= self.status && self.status <= 599 {
            let status = self.status;
            let body = self.into_body();
            match parse_error_fields(body.bytes()) {
                Some((error, reason)) => Err(ErrorResponse { error, reason, status }),
                None => {
                    let error = match crate::canonical_reason(status) {
                        Some(p) => p,
                        None => "unknown error".to_owned(),
                    };
                    let reason = crate::text::lossy_text(body.bytes().as_slice());
                    Err(ErrorResponse { error, reason, status })
                },
            }
        } else {
            Ok(self)
        }
    }
}

} // verus!
