//! Database lifecycle and listing operations.

use crate::client::{head_request, interpret_presence, json_request, Client};
use crate::credentials::{clone_credentials, Credentials};
use crate::ddoc::DesignDocuments;
use crate::document::{Document, Documents};
use crate::error::{FutonError, FutonResult};
use crate::params::{DatabaseCreationParams, ViewParams};
use crate::records::{DatabaseInfo, Rev, ViewResults};
use crate::request::{FutonRequest, Method};
use vstd::prelude::*;
use vstd::string::StringSliceAdditionalSpecFns;
use vstd::utf8::encode_utf8;

verus! {

/// The characters a database name may continue with.
pub open spec fn db_name_char(c: char) -> bool {
    ('a' <= c <= 'z') || ('0' <= c <= '9') || c == '_' || c == '$' || c == '(' || c == ')' || c
        == '+' || c == '/' || c == '-'
}

/// The server's naming rule: one leading lowercase letter, then any
/// number of characters from the allowed set.
pub open spec fn valid_db_name(s: Seq<char>) -> bool {
    &&& s.len() > 0
    &&& 'a' <= s[0] <= 'z'
    &&& forall|i: int| 0 < i < s.len() ==> db_name_char(#[trigger] s[i])
}

/// The byte-level form of [`db_name_char`].
pub open spec fn db_name_byte(b: u8) -> bool {
    (0x61 <= b <= 0x7A) || (0x30 <= b <= 0x39) || b == 0x5F || b == 0x24 || b == 0x28 || b == 0x29
        || b == 0x2B || b == 0x2F || b == 0x2D
}

/// A valid name's characters are all ASCII.
proof fn lemma_valid_name_ascii(s: Seq<char>)
    requires
        valid_db_name(s),
    ensures
        vstd::utf8::is_ascii_chars(s),
{
    assert forall|i: int| 0 <= i < s.len() implies '\0' <= #[trigger] s[i] <= '\u{7f}' by {
        if i > 0 {
            assert(db_name_char(s[i]));
        }
    }
}

/// Checks a database name against the server's naming rule.
pub fn is_valid_db_name(name: &str) -> (r: bool)
    ensures
        r == valid_db_name(name@),
{
    let bytes = name.as_bytes();
    let n = bytes.len();
    if n == 0 {
        proof {
            assert(encode_utf8(name@).len() == 0);
            if name@.len() > 0 {
                vstd::utf8::encode_utf8_first_scalar(name@);
            }
        }
        return false;
    }
    let mut k: usize = 0;
    let mut ok = true;
    while k < n
        invariant
            bytes@ == name.spec_bytes(),
            n == bytes@.len(),
            k <= n,
            ok ==> forall|i: int|
                0 <= i < k ==> (if i == 0 {
                    0x61 <= #[trigger] bytes@[i] <= 0x7A
                } else {
                    db_name_byte(bytes@[i])
                }),
            !ok ==> exists|i: int|
                0 <= i < k && !(if i == 0 {
                    0x61 <= #[trigger] bytes@[i] <= 0x7A
                } else {
                    db_name_byte(bytes@[i])
                }),
        decreases n - k,
    {
        let b = bytes[k];
        let this_ok = if k == 0 {
            0x61 <= b && b <= 0x7A
        } else {
            (0x61 <= b && b <= 0x7A) || (0x30 <= b && b <= 0x39) || b == 0x5F || b == 0x24 || b
                == 0x28 || b == 0x29 || b == 0x2B || b == 0x2F || b == 0x2D
        };
        if !this_ok {
            ok = false;
        }
        k = k + 1;
    }
    proof {
        if ok {
            crate::text::lemma_encode_ascii(name@);
            assert forall|i: int| 0 < i < name@.len() implies db_name_char(
                #[trigger] name@[i],
            ) by {
                assert(encode_utf8(name@)[i] == name@[i] as u8);
                assert(db_name_byte(name@[i] as u8));
                assert(name@[i] <= '\u{7f}');
            }
            assert(encode_utf8(name@)[0] == name@[0] as u8);
            assert(valid_db_name(name@));
        } else {
            if valid_db_name(name@) {
                lemma_valid_name_ascii(name@);
                vstd::utf8::is_ascii_chars_encode_utf8(name@);
                let i = choose|i: int|
                    0 <= i < n && !(if i == 0 {
                        0x61 <= bytes@[i] <= 0x7A
                    } else {
                        db_name_byte(bytes@[i])
                    });
                assert(bytes@[i] == name@[i] as u8);
                if i > 0 {
                    assert(db_name_char(name@[i]));
                }
                assert(false);
            }
        }
    }
    ok
}

/// One database of the server: its lifecycle, listings, and the way
/// into its documents.
pub struct Database<C: Client> {
    client: C,
    base: String,
    name: String,
    credentials: Credentials,
}

impl<C: Client> Database<C> {
    /// The validated name, as the contracts see it.
    pub closed spec fn name_view(&self) -> Seq<char> {
        self.name@
    }

    /// The base origin, as the contracts see it.
    pub closed spec fn base_view(&self) -> Seq<char> {
        self.base@
    }

    /// The client the handle sends through, as the contracts see it.
    pub closed spec fn client_view(&self) -> C {
        self.client
    }

    /// The credentials, as the contracts see it.
    pub closed spec fn credentials_view(&self) -> crate::credentials::SpecCredentials {
        self.credentials@
    }

    /// A handle on the named database, holding exactly the given
    /// client, base and credentials.  The name is validated against
    /// the server's naming rule before anything reaches the network:
    /// an invalid name is rejected with `InvalidDatabaseName`, always
    /// and only then, and validation itself performs no I/O.
    pub fn new(client: C, base: String, name: &str, credentials: Credentials) -> (r: FutonResult<
        Database<C>,
    >)
        ensures
            r matches Ok(db) ==> valid_db_name(name@) && db.name_view() == name@ && db.base_view()
                == base@ && db.client_view() == client && db.credentials_view() == credentials@,
            r matches Err(e) ==> !valid_db_name(name@) && (e@ matches
                crate::error::SpecFutonError::InvalidDatabaseName(n) && n == name@),
    {
        if !is_valid_db_name(name) {
            return Err(FutonError::InvalidDatabaseName(name.to_owned()));
        }
        Ok(Database { client, base, name: name.to_owned(), credentials })
    }

    /// The validated name.
    pub fn name(&self) -> (r: &String)
        ensures
            r@ == self.name_view(),
    {
        &self.name
    }

    /// The request every operation starts from: the database path at
    /// the configured base, carrying the configured credentials.
    fn base_request(&self) -> (r: FutonRequest)
        ensures
            r@.base == self.base@,
            r@.credentials == self.credentials@,
            r@.method == crate::request::Method::Get,
            r@.segments == seq![self.name@],
            r@.query == Seq::<(Seq<char>, Seq<char>)>::empty(),
            r@.headers == Seq::<(Seq<char>, Seq<char>)>::empty(),
            r@.body == Seq::<u8>::empty(),
    {
        FutonRequest::from_origin(self.base.as_str()).credentials(
            clone_credentials(&self.credentials),
        ).database(self.name.as_str())
    }

    /// Whether the database is present: a HEAD request to the database
    /// path, read by `interpret_presence` — the answer is some
    /// response's status compared against the absent-resource status,
    /// and the response body is never read.
    pub fn is_present(&self) -> (r: FutonResult<bool>)
        ensures
            r matches Ok(b) ==> exists|rm: crate::response::ResponseModel| b == ((
            #[trigger] rm.status) != 404),
            r matches Err(e) ==> e@ is Client,
    {
        let mut client = self.client.clone();
        match head_request(&mut client, self.base_request()) {
            Ok(status) => {
                let b = interpret_presence(status);
                proof {
                    let rm = choose|rm: crate::response::ResponseModel| rm.status == status;
                    assert(b == (rm.status != 404));
                }
                Ok(b)
            },
            Err(e) => Err(e),
        }
    }

    /// The database's metadata, decoded from some successfully
    /// classified response; an absent database is the classified
    /// `NotFound`, propagated and never absorbed.
    pub fn info(&self) -> (r: FutonResult<DatabaseInfo>)
        ensures
            r matches Ok(info) ==> exists|body: Seq<u8>|
                crate::client::success_body(body) && (#[trigger] crate::records::spec_database_info(
                    body,
                )) == Some(crate::records::database_info_view(&info)),
            r matches Err(e) ==> e@ is Json || crate::client::classified_error_of(e@),
    {
        let mut client = self.client.clone();
        let body = match json_request(&mut client, self.base_request(), Method::Get, None) {
            Ok(b) => b,
            Err(e) => {
                return Err(e);
            },
        };
        let out = match DatabaseInfo::parse(body.bytes()) {
            Some(info) => Ok(info),
            None => Err(FutonError::Json),
        };
        proof {
            assert(out matches Ok(info) ==> crate::records::spec_database_info(body@) == Some(
                crate::records::database_info_view(&info),
            ));
        }
        out
    }

    /// Creates the database with the given parameters: a PUT of the
    /// serialized query pairs, answered by some response whose
    /// classification decides the outcome.
    pub fn create(&self, params: DatabaseCreationParams) -> (r: FutonResult<()>)
        requires
            params.q matches Some(qv) ==> qv <= 0x7FFF_FFFF_FFFF_FFFF,
            params.n matches Some(nv) ==> nv <= 0x7FFF_FFFF_FFFF_FFFF,
        ensures
            r matches Ok(u) ==> exists|body: Seq<u8>| #[trigger] crate::client::success_body(
                body,
            ),
            r matches Err(e) ==> crate::client::classified_error_of(e@),
    {
        let req = self.base_request().query_params(&params.query_pairs());
        let mut client = self.client.clone();
        match json_request(&mut client, req, Method::Put, None) {
            Ok(_) => Ok(()),
            Err(e) => Err(e),
        }
    }

    /// Deletes the database: a DELETE of the database path, answered
    /// by some response whose classification decides the outcome; a
    /// classified `NotFound` propagates.
    pub fn delete(&self) -> (r: FutonResult<()>)
        ensures
            r matches Ok(u) ==> exists|body: Seq<u8>| #[trigger] crate::client::success_body(
                body,
            ),
            r matches Err(e) ==> crate::client::classified_error_of(e@),
    {
        let mut client = self.client.clone();
        match json_request(&mut client, self.base_request(), Method::Delete, None) {
            Ok(_) => Ok(()),
            Err(e) => Err(e),
        }
    }

    /// Lists all documents: the builtin all-documents view without a
    /// partition, rows in server order with the paging metadata of
    /// some successfully classified response.
    pub fn all_docs<D: Document>(&self, params: ViewParams) -> (r: FutonResult<
        ViewResults<Rev, D>,
    >)
        requires
            params.skip <= 0x7FFF_FFFF_FFFF_FFFF,
            params.limit matches Some(l) ==> l <= 0x7FFF_FFFF_FFFF_FFFF,
            params.group_level matches Some(g) ==> g <= 0x7FFF_FFFF_FFFF_FFFF,
        ensures
            r matches Ok(vr) ==> exists|body: Seq<u8>|
                crate::client::success_body(body)
                    && #[trigger] crate::records::view_results_match_frame(&vr, body),
            r matches Err(e) ==> e@ is Json || crate::client::classified_error_of(e@),
    {
        self.design_docs(None).execute_builtin_view("_all_docs", params)
    }

    /// Lists the documents of one partition, as `all_docs` does within
    /// it.
    pub fn all_docs_in_partition<D: Document>(&self, partition: String, params: ViewParams) -> (r:
        FutonResult<ViewResults<Rev, D>>)
        requires
            params.skip <= 0x7FFF_FFFF_FFFF_FFFF,
            params.limit matches Some(l) ==> l <= 0x7FFF_FFFF_FFFF_FFFF,
            params.group_level matches Some(g) ==> g <= 0x7FFF_FFFF_FFFF_FFFF,
        ensures
            r matches Ok(vr) ==> exists|body: Seq<u8>|
                crate::client::success_body(body)
                    && #[trigger] crate::records::view_results_match_frame(&vr, body),
            r matches Err(e) ==> e@ is Json || crate::client::classified_error_of(e@),
    {
        self.design_docs(Some(partition)).execute_builtin_view("_all_docs", params)
    }

    /// The document operations of this database, carrying its client,
    /// base, name and credentials.
    pub fn documents(&self) -> (r: Documents<'_, C>)
        ensures
            r.client_view() == self.client_view(),
            r.base_view() == self.base_view(),
            r.db_name_view() == self.name_view(),
            r.credentials_view() == self.credentials_view(),
    {
        Documents::new(&self.client, &self.base, &self.name, &self.credentials)
    }

    /// The design-document operations of this database, scoped to a
    /// partition when one is given, carrying its client, base, name
    /// and credentials.
    pub fn design_docs(&self, partition: Option<String>) -> (r: DesignDocuments<'_, C>)
        ensures
            r.client_view() == self.client_view(),
            r.base_view() == self.base_view(),
            r.db_name_view() == self.name_view(),
            r.credentials_view() == self.credentials_view(),
            r.partition_view() == (match partition {
                Some(ref p) => Some(p@),
                None => None::<Seq<char>>,
            }),
    {
        DesignDocuments::new(&self.client, &self.base, partition, &self.name, &self.credentials)
    }
}

} // verus!
