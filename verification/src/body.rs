//! Request and response bodies: opaque bytes with JSON helpers.

use crate::json;
use crate::json::JsonValue;
use vstd::prelude::*;
use vstd::utf8::{decode_utf8, valid_utf8};

verus! {

/// An opaque byte body, built once and read whole.
#[derive(Debug)]
pub struct FutonBody {
    inner: Vec<u8>,
}

impl View for FutonBody {
    type V = Seq<u8>;

    closed spec fn view(&self) -> Seq<u8> {
        self.inner@
    }
}

impl FutonBody {
    /// A body with no content.
    pub fn empty() -> (r: Self)
        ensures
            r@ == Seq::<u8>::empty(),
    {
        let v: Vec<u8> = Vec::new();
        proof {
            assert(v@ =~= Seq::<u8>::empty());
        }
        FutonBody { inner: v }
    }

    /// Wraps raw bytes as a body.
    pub fn from_bytes(bytes: Vec<u8>) -> (r: Self)
        ensures
            r@ == bytes@,
    {
        FutonBody { inner: bytes }
    }

    /// The body's bytes.
    pub fn bytes(&self) -> (r: &Vec<u8>)
        ensures
            r@ == self@,
    {
        &self.inner
    }

    /// Unwraps the body's bytes.
    pub fn into_bytes(self) -> (r: Vec<u8>)
        ensures
            r@ == self@,
    {
        self.inner
    }

    /// The body as text, when it is valid UTF-8.
    pub fn text(&self) -> (r: Option<String>)
        ensures
            r matches Some(s) ==> valid_utf8(self@) && s@ == decode_utf8(self@),
            r is None ==> !valid_utf8(self@),
    {
        crate::text::string_from_utf8(self.inner.as_slice())
    }

    /// The body parsed as one JSON value.
    pub fn json(&self) -> (r: Option<JsonValue>)
        ensures
            r matches Some(v) ==> json::spec_value_document(self@) == Some(v@),
            r is None ==> json::spec_value_document(self@) is None,
    {
        json::parse_value_document(&self.inner)
    }

    /// The body parsed as one JSON object, as its member list.
    pub fn json_object(&self) -> (r: Option<Vec<(Vec<u8>, JsonValue)>>)
        ensures
            r matches Some(m) ==> json::spec_object_document(self@) == Some(
                json::members_view(m@),
            ),
            r is None ==> json::spec_object_document(self@) is None,
    {
        json::parse_object_document(&self.inner)
    }

    /// True when the body holds no bytes.
    pub fn is_empty(&self) -> (r: bool)
        ensures
            r == (self@.len() == 0),
    {
        self.inner.len() == 0
    }
}

impl Default for FutonBody {
    /// The default body is empty.
    fn default() -> (r: Self)
        ensures
            r@ == Seq::<u8>::empty(),
    {
        FutonBody::empty()
    }
}

} // verus!
