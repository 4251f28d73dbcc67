//! Documents and the revision-aware CRUD protocol.

use crate::client::{head_request, interpret_presence, json_request, response_to_error, Client};
use crate::credentials::Credentials;
use crate::error::{FutonError, FutonResult};
use crate::records::{DocumentOperation, JsonDecode, JsonEncode};
use crate::request::{FutonRequest, Method, RequestError};
use crate::response::{FutonResponse, ResponseModel};
use vstd::prelude::*;

verus! {

/// The model of an optional borrowed string.
pub open spec fn opt_str_view(o: Option<&str>) -> Option<Seq<char>> {
    match o {
        Some(s) => Some(s@),
        None => None,
    }
}

/// The document capability: a value with an identifier, an optional
/// revision token, and the means to write both back after a round
/// trip.  The revision token is opaque: it is compared for presence
/// and forwarded verbatim, never interpreted.
///
/// Implementors outside the library are not verified; what the
/// operations prove about documents rests on these contracts.
pub trait Document: JsonEncode + JsonDecode {
    /// The identifier, as the contracts see it.  A verified
    /// implementor overrides this to name its own field; the default
    /// leaves the contracts vacuous for implementors outside the
    /// library.
    open spec fn id_view(&self) -> Seq<char> {
        Seq::empty()
    }

    /// The revision token, as the contracts see it.
    open spec fn rev_view(&self) -> Option<Seq<char>> {
        None
    }

    /// The identifier.
    fn id(&self) -> (r: &str)
        ensures
            r@ == self.id_view(),
    ;

    /// The revision token, when the document has one.
    fn rev(&self) -> (r: Option<&str>)
        ensures
            opt_str_view(r) == self.rev_view(),
    ;

    /// Overwrites the identifier, leaving the revision alone.
    fn set_id(&mut self, id: &str)
        ensures
            final(self).id_view() == id@,
            final(self).rev_view() == old(self).rev_view(),
    ;

    /// Overwrites the revision token, leaving the identifier alone.
    fn set_rev(&mut self, rev: &str)
        ensures
            final(self).rev_view() == Some(rev@),
            final(self).id_view() == old(self).id_view(),
    ;
}

/// Writes a mutation acknowledgment's revision onto the document:
/// the server-returned token is the single source of truth for the
/// next write.
pub fn apply_mutation_ack<D: Document>(doc: D, ack: &DocumentOperation) -> (r: D)
    ensures
        r.id_view() == doc.id_view(),
        r.rev_view() == Some(ack.rev@),
{
    let mut doc = doc;
    doc.set_rev(ack.rev.as_str());
    doc
}

/// Writes a copy acknowledgment onto the document: the server names
/// the newly written copy, so both the identifier and the revision
/// are overwritten.
pub fn apply_copy_ack<D: Document>(doc: D, ack: &DocumentOperation) -> (r: D)
    ensures
        r.id_view() == ack.id@,
        r.rev_view() == Some(ack.rev@),
{
    let mut doc = doc;
    doc.set_id(ack.id.as_str());
    doc.set_rev(ack.rev.as_str());
    doc
}

/// Interprets the response to a fetch: an absent document is an empty
/// result, not an error; any other failure classification propagates;
/// a successful body is decoded by the document type itself.
pub fn interpret_fetch<D: Document>(res: FutonResponse) -> (r: FutonResult<Option<D>>)
    ensures
        res@.status == 404 ==> (r matches Ok(o) && o is None),
        res@.status != 404 ==> (match crate::error::spec_classify(
            res@.status,
            res@.headers,
            res@.body,
        ) {
            Err(e) => r matches Err(f) && f@ == e,
            Ok(()) => (r matches Ok(o) && o is Some) || (r matches Err(f) && f@ is Json),
        }),
{
    if res.is_not_found() {
        return Ok(None);
    }
    let res = match response_to_error(res) {
        Ok(res) => res,
        Err(e) => {
            return Err(e);
        },
    };
    match D::from_json_bytes(res.body().bytes()) {
        Some(doc) => Ok(Some(doc)),
        None => Err(FutonError::Json),
    }
}

/// Interprets the body of a successful mutation: the acknowledgment
/// must decode, and its revision is written onto the document.  This
/// is where the revision protocol's promise lives: the id is never
/// changed by a mutation, and the installed token is exactly the
/// server's — never locally invented — so it is non-empty whenever
/// the server's is.
pub fn interpret_mutation<D: Document>(doc: D, body: &Vec<u8>) -> (r: FutonResult<D>)
    ensures
        match crate::records::spec_document_operation(body@) {
            Some(ack) => r matches Ok(d) && d.id_view() == doc.id_view() && d.rev_view() == Some(
                ack.rev,
            ),
            None => r matches Err(f) && f@ is Json,
        },
{
    match DocumentOperation::parse(body) {
        Some(ack) => Ok(apply_mutation_ack(doc, &ack)),
        None => Err(FutonError::Json),
    }
}

/// True when a fetch outcome is the interpretation of the given
/// response, exactly as `interpret_fetch` pins it: absence for the
/// absent-resource status, a decoded document (or its decode failure)
/// for a success classification, the classified error otherwise.
pub open spec fn fetch_outcome_of<D: Document>(r: &FutonResult<Option<D>>, rm: ResponseModel) -> bool {
    if rm.status == 404 {
        r matches Ok(o) && o is None
    } else {
        match crate::error::spec_classify(rm.status, rm.headers, rm.body) {
            Err(e) => r matches Err(f) && f@ == e,
            Ok(()) => (r matches Ok(o) && o is Some) || (r matches Err(f) && f@ is Json),
        }
    }
}

/// The document operations of one database.
pub struct Documents<'db, C: Client> {
    client: &'db C,
    base: &'db String,
    db_name: &'db String,
    credentials: &'db Credentials,
}

impl<'db, C: Client> Documents<'db, C> {
    /// The client the handle sends through, as the contracts see it.
    pub closed spec fn client_view(&self) -> C {
        *self.client
    }

    /// The base origin, as the contracts see it.
    pub closed spec fn base_view(&self) -> Seq<char> {
        self.base@
    }

    /// The database name, as the contracts see it.
    pub closed spec fn db_name_view(&self) -> Seq<char> {
        self.db_name@
    }

    /// The credentials, as the contracts see it.
    pub closed spec fn credentials_view(&self) -> crate::credentials::SpecCredentials {
        self.credentials@
    }

    /// Document operations against the given database: the handle
    /// carries exactly the client, base, name and credentials it was
    /// given, and every request it builds starts from them.
    pub fn new(
        client: &'db C,
        base: &'db String,
        db_name: &'db String,
        credentials: &'db Credentials,
    ) -> (r: Self)
        ensures
            r.client_view() == *client,
            r.base_view() == base@,
            r.db_name_view() == db_name@,
            r.credentials_view() == credentials@,
    {
        Documents { client, base, db_name, credentials }
    }

    /// The request every operation starts from: the database path at
    /// the configured base, carrying the configured credentials.
    fn base_request(&self) -> (r: FutonRequest)
        ensures
            r@.base == self.base@,
            r@.credentials == self.credentials@,
            r@.method == Method::Get,
            r@.segments == seq![self.db_name@],
            r@.body == Seq::<u8>::empty(),
            r@.query == Seq::<(Seq<char>, Seq<char>)>::empty(),
            r@.headers == Seq::<(Seq<char>, Seq<char>)>::empty(),
    {
        FutonRequest::from_origin(self.base.as_str()).credentials(
            crate::credentials::clone_credentials(self.credentials),
        ).database(self.db_name.as_str())
    }

    /// Creates a new document.  The caller must not supply a revision:
    /// a revision belongs to an existing document, and creation relies
    /// on the server's own conflict detection.  On success the
    /// server's revision is written onto the document, whose id is
    /// unchanged.
    pub fn create<D: Document>(&self, doc: D) -> (r: FutonResult<D>)
        requires
            doc.rev_view() is None,
        ensures
            r matches Ok(d) ==> d.id_view() == doc.id_view() && (exists|body: Seq<u8>|
                (#[trigger] crate::records::spec_document_operation(body)) matches Some(ack)
                    && d.rev_view() == Some(ack.rev)),
    {
        let body = match doc.to_json_bytes() {
            Some(b) => b,
            None => {
                return Err(FutonError::Request(RequestError::Json));
            },
        };
        let req = self.base_request();
        let mut client = self.client.clone();
        let res_body = match json_request(&mut client, req, Method::Post, Some(body)) {
            Ok(b) => b,
            Err(e) => {
                return Err(e);
            },
        };
        interpret_mutation(doc, res_body.bytes())
    }

    /// Creates the document if absent, updates it if the supplied
    /// revision is current; a stale revision is a conflict that the
    /// caller resolves.  On success the server's new revision is
    /// written onto the document, whose id is unchanged.
    pub fn create_or_update<D: Document>(&self, doc: D) -> (r: FutonResult<D>)
        ensures
            r matches Ok(d) ==> d.id_view() == doc.id_view() && (exists|body: Seq<u8>|
                (#[trigger] crate::records::spec_document_operation(body)) matches Some(ack)
                    && d.rev_view() == Some(ack.rev)),
    {
        let body = match doc.to_json_bytes() {
            Some(b) => b,
            None => {
                return Err(FutonError::Request(RequestError::Json));
            },
        };
        let req = self.base_request().document(doc.id(), doc.rev());
        let mut client = self.client.clone();
        let res_body = match json_request(&mut client, req, Method::Put, Some(body)) {
            Ok(b) => b,
            Err(e) => {
                return Err(e);
            },
        };
        interpret_mutation(doc, res_body.bytes())
    }

    /// Whether a document with this id is present: a HEAD request to
    /// the document path, read by `interpret_presence` — the answer is
    /// some response's status compared against the absent-resource
    /// status, and the response body is never read.
    pub fn is_present(&self, id: &str) -> (r: FutonResult<bool>)
        ensures
            r matches Ok(b) ==> exists|rm: ResponseModel| b == ((#[trigger] rm.status) != 404),
            r matches Err(e) ==> e@ is Client,
    {
        let req = self.base_request().document(id, None);
        let mut client = self.client.clone();
        match head_request(&mut client, req) {
            Ok(status) => {
                let b = interpret_presence(status);
                proof {
                    let rm = choose|rm: ResponseModel| rm.status == status;
                    assert(b == (rm.status != 404));
                }
                Ok(b)
            },
            Err(e) => Err(e),
        }
    }

    /// Fetches the current version of a document; absence is an empty
    /// result, not an error.
    pub fn get<D: Document>(&self, id: &str) -> (r: FutonResult<Option<D>>)
        ensures
            (exists|rm: ResponseModel| #[trigger] fetch_outcome_of(&r, rm)) || (r matches Err(e)
                && e@ is Client),
            r matches Err(e) ==> !(e@ is NotFound),
    {
        self.fetch(id, None)
    }

    /// Fetches a document at a given revision.
    pub fn get_rev<D: Document>(&self, id: &str, rev: &str) -> (r: FutonResult<Option<D>>)
        ensures
            (exists|rm: ResponseModel| #[trigger] fetch_outcome_of(&r, rm)) || (r matches Err(e)
                && e@ is Client),
            r matches Err(e) ==> !(e@ is NotFound),
    {
        self.fetch(id, Some(rev))
    }

    /// Fetches a document, at a given revision when one is supplied.
    pub fn find<D: Document>(&self, id: &str, rev: Option<&str>) -> (r: FutonResult<Option<D>>)
        ensures
            (exists|rm: ResponseModel| #[trigger] fetch_outcome_of(&r, rm)) || (r matches Err(e)
                && e@ is Client),
            r matches Err(e) ==> !(e@ is NotFound),
    {
        self.fetch(id, rev)
    }

    /// The one fetch path: GET, with absence absorbed.  The outcome is
    /// some response's interpretation, or the transport's failure; an
    /// absent resource is never reported as an error.
    fn fetch<D: Document>(&self, id: &str, rev: Option<&str>) -> (r: FutonResult<Option<D>>)
        ensures
            (exists|rm: ResponseModel| #[trigger] fetch_outcome_of(&r, rm)) || (r matches Err(e)
                && e@ is Client),
            r matches Err(e) ==> !(e@ is NotFound),
    {
        let req = self.base_request().document(id, rev).method(Method::Get);
        let req = match req.header("accept", "application/json") {
            Ok(q) => q,
            Err(e) => {
                proof {
                    crate::request::lemma_accept_header_valid();
                }
                return Err(FutonError::Request(e));
            },
        };
        let mut client = self.client.clone();
        let res = match client.call(req) {
            Ok(res) => res,
            Err(e) => {
                return Err(FutonError::Client(e));
            },
        };
        let ghost rm = res@;
        let out = interpret_fetch(res);
        proof {
            assert(fetch_outcome_of(&out, rm));
        }
        out
    }

    /// Deletes a document.  A revision is required; when the caller's
    /// copy has none, the current revision is fetched first, and a
    /// document absent on the server is handed back unchanged.  On
    /// success the tombstone revision is written onto the document.
    pub fn delete<D: Document>(&self, doc: D) -> (r: FutonResult<D>)
        ensures
            r matches Ok(d) ==> d.id_view() == doc.id_view(),
            r matches Ok(d) ==> (d.rev_view() is Some || doc.rev_view() is None),
    {
        let has_rev = doc.rev().is_some();
        let doc: D = if has_rev {
            doc
        } else {
            match self.fetch::<D>(doc.id(), None) {
                Ok(Some(current)) => {
                    if !current_matches::<D>(&current, doc.id()) {
                        return Err(FutonError::Json);
                    }
                    current
                },
                Ok(None) => {
                    return Ok(doc);
                },
                Err(e) => {
                    return Err(e);
                },
            }
        };
        let req = self.base_request().document(doc.id(), doc.rev()).method(Method::Delete);
        let req = match req.header("accept", "application/json") {
            Ok(q) => q,
            Err(e) => {
                return Err(FutonError::Request(e));
            },
        };
        let mut client = self.client.clone();
        let res = match client.call(req) {
            Ok(res) => res,
            Err(e) => {
                return Err(FutonError::Client(e));
            },
        };
        let res = match response_to_error(res) {
            Ok(res) => res,
            Err(e) => {
                return Err(e);
            },
        };
        let body = res.into_body();
        interpret_mutation(doc, body.bytes())
    }

    /// Copies a document to a destination.  The source revision rides
    /// along as a query parameter when present; the destination id
    /// (and its current revision, when overwriting) travel in the
    /// `Destination` header.  On success the caller's document is
    /// renamed to the destination and carries the copy's revision.
    pub fn copy<D: Document>(&self, doc: D, destination: crate::params::CopyDestination) -> (r:
        FutonResult<D>)
        ensures
            r matches Ok(d) ==> exists|body: Seq<u8>|
                (#[trigger] crate::records::spec_document_operation(body)) matches Some(ack)
                    && d.id_view() == ack.id && d.rev_view() == Some(ack.rev),
    {
        let dest_value = destination.header_value();
        let req = self.base_request().document(doc.id(), doc.rev()).method(Method::Copy);
        let req = match req.header("destination", dest_value.as_str()) {
            Ok(q) => q,
            Err(e) => {
                return Err(FutonError::Request(e));
            },
        };
        let req = match req.header("accept", "application/json") {
            Ok(q) => q,
            Err(e) => {
                return Err(FutonError::Request(e));
            },
        };
        let mut client = self.client.clone();
        let res = match client.call(req) {
            Ok(res) => res,
            Err(e) => {
                return Err(FutonError::Client(e));
            },
        };
        let res = match response_to_error(res) {
            Ok(res) => res,
            Err(e) => {
                return Err(e);
            },
        };
        let body = res.into_body();
        match DocumentOperation::parse(body.bytes()) {
            Some(ack) => Ok(apply_copy_ack(doc, &ack)),
            None => Err(FutonError::Json),
        }
    }
}

/// Whether a fetched document still carries the id it was asked for.
/// The decoding is the document type's own, so this is checked rather
/// than assumed.
fn current_matches<D: Document>(current: &D, id: &str) -> (r: bool)
    ensures
        r == (current.id_view() == id@),
{
    crate::text::str_eq(current.id(), id)
}

} // verus!
