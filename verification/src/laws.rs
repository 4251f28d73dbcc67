//! The protocol's laws, stated once and proved against the same spec
//! functions the executable contracts use.

use crate::credentials::SpecCredentials;
use crate::error::{is_invalid_rev_reason, spec_classify, SpecFutonError};
use crate::json;
use crate::json::SpecValue;
use crate::records::spec_document_operation;
use crate::request::{spec_render, RequestModel};
use vstd::prelude::*;

verus! {

/// Classification is decided by the status code alone, given a
/// readable payload: success passes through exactly for a success
/// status, and each error kind names its status.  In particular a
/// conflicting write is reported as `Conflict` and never as any other
/// kind, and an absent resource as `NotFound`.
pub proof fn law_classification_by_status(
    status: u16,
    headers: Seq<(Seq<char>, Seq<char>)>,
    body: Seq<u8>,
)
    ensures
        (spec_classify(status, headers, body) is Ok) <==> (200 <= status < 300),
        spec_classify(status, headers, body) matches Err(e) ==> match e {
            SpecFutonError::NotFound(p) => status == 404 && p.status == status,
            SpecFutonError::Unauthorized(p) => status == 401 && p.status == status,
            SpecFutonError::Conflict(p) => status == 409 && p.status == status,
            SpecFutonError::InvalidRevFormat(p) => status == 400 && p.status == status
                && is_invalid_rev_reason(p.reason),
            SpecFutonError::UnknownBadRequest(p) => status == 400 && p.status == status
                && !is_invalid_rev_reason(p.reason),
            SpecFutonError::UnknownError(p) => !(200 <= status < 300) && status != 404 && status
                != 401 && status != 409 && status != 400 && p.status == status,
            SpecFutonError::Json => !(200 <= status < 300),
            _ => false,
        },
{
}

/// A conflicting write is classified as `Conflict`, never as a
/// different error kind; the one other outcome is a payload that
/// cannot be read at all.
pub proof fn law_conflict_is_conflict(
    status: u16,
    headers: Seq<(Seq<char>, Seq<char>)>,
    body: Seq<u8>,
)
    requires
        status == 409,
    ensures
        spec_classify(status, headers, body) matches Err(e) && (e is Conflict || e is Json),
{
}

/// An absent resource is classified as `NotFound`, never as a
/// different error kind; the one other outcome is a payload that
/// cannot be read at all.  Fetches absorb exactly this classification
/// into an empty result (see `interpret_fetch`).
pub proof fn law_absent_is_not_found(
    status: u16,
    headers: Seq<(Seq<char>, Seq<char>)>,
    body: Seq<u8>,
)
    requires
        status == 404,
    ensures
        spec_classify(status, headers, body) matches Err(e) && (e is NotFound || e is Json),
{
}

/// The codec reads its own writing back: a scalar value serialized as
/// one document parses to that value again.  (A raw span is written
/// verbatim and is bound by its own producer, so it is outside this
/// law; integers must fit the wire's signed range.)
pub proof fn law_codec_reads_back_scalar_values(v: SpecValue)
    requires
        !(v is Raw),
        v matches SpecValue::Int(n) ==> -0x7FFF_FFFF_FFFF_FFFF <= n <= 0x7FFF_FFFF_FFFF_FFFF,
    ensures
        json::spec_value_document(json::spec_ser_value(v)) == Some(v),
{
    let s = json::spec_ser_value(v);
    match v {
        SpecValue::Null => {
            assert(json::spec_skip_ws(s, 0) == 0);
            assert(json::spec_parse_value(s, 0) == Some((SpecValue::Null, 4int)));
            assert(json::spec_skip_ws(s, 4) == 4);
        },
        SpecValue::Bool(t) => {
            assert(json::spec_skip_ws(s, 0) == 0);
            if t {
                assert(json::spec_parse_value(s, 0) == Some((SpecValue::Bool(true), 4int)));
                assert(json::spec_skip_ws(s, 4) == 4);
            } else {
                assert(json::spec_parse_value(s, 0) == Some((SpecValue::Bool(false), 5int)));
                assert(json::spec_skip_ws(s, 5) == 5);
            }
        },
        SpecValue::Int(n) => {
            if n > 0 {
                json::lemma_digits_are_digits(n);
            } else if n < 0 {
                json::lemma_digits_are_digits(-n);
            }
            assert(s.len() >= 1);
            assert(s[0] == 0x2D || json::is_digit(s[0]));
            assert(json::spec_skip_ws(s, 0) == 0);
            assert(s.skip(0) =~= json::spec_int_bytes(n) + Seq::<u8>::empty());
            json::lemma_parse_int_of(s, 0, n, Seq::empty());
            assert(json::spec_parse_value(s, 0) == Some((SpecValue::Int(n), s.len() as int)));
            assert(json::spec_skip_ws(s, s.len() as int) == s.len());
        },
        SpecValue::Str(b) => {
            assert(s[0] == 0x22);
            assert(json::spec_skip_ws(s, 0) == 0);
            assert(s.skip(0) =~= json::spec_string_literal(b) + Seq::<u8>::empty());
            json::lemma_parse_string_literal(s, 0, b, Seq::empty());
            assert(json::spec_parse_value(s, 0) == Some((SpecValue::Str(b), s.len() as int)));
            assert(json::spec_skip_ws(s, s.len() as int) == s.len());
        },
        SpecValue::Raw(_) => {
        },
    }
}

/// The codec reads its own object writing back: an object of scalar
/// members serialized as one document parses to the same member list,
/// keys, values and order alike.
pub proof fn law_codec_reads_back_objects(m: json::SpecMembers)
    requires
        json::scalar_members(m),
    ensures
        json::spec_object_document(json::spec_ser_object(m)) == Some(m),
{
    json::lemma_object_document_round_trip(m);
}

/// The diagnostic rendering never depends on the secret: two requests
/// that differ only in the Basic password render identically, so the
/// secret cannot leak through a log line.
pub proof fn law_render_hides_the_secret(m1: RequestModel, m2: RequestModel)
    requires
        m1.base == m2.base,
        m1.segments == m2.segments,
        m1.query == m2.query,
        m1.method == m2.method,
        m1.headers == m2.headers,
        m1.body == m2.body,
        match (m1.credentials, m2.credentials) {
            (
                SpecCredentials::Basic { username: u1, .. },
                SpecCredentials::Basic { username: u2, .. },
            ) => u1 == u2,
            (c1, c2) => c1 == c2,
        },
    ensures
        spec_render(m1) == spec_render(m2),
{
}

} // verus!
