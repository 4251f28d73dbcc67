//! Design documents and view execution.

use crate::client::{json_request, Client};
use crate::credentials::Credentials;
use crate::document::{opt_str_view, Document, Documents};
use crate::error::{FutonError, FutonResult};
use crate::json;
use crate::params::ViewParams;
use crate::records::{parse_view_results, JsonDecode, JsonEncode, ViewResults};
use crate::request::Method;
use crate::text::matches_lower;
use vstd::prelude::*;
use vstd::string::StringSliceAdditionalSpecFns;

verus! {

/// The language a design document's views are written in.
pub enum QueryServer {
    JavaScript,
    Erlang,
    Custom(String),
}

/// The mathematical model of a [`QueryServer`].
pub enum SpecQueryServer {
    JavaScript,
    Erlang,
    Custom(Seq<char>),
}

impl View for QueryServer {
    type V = SpecQueryServer;

    open spec fn view(&self) -> SpecQueryServer {
        match *self {
            QueryServer::JavaScript => SpecQueryServer::JavaScript,
            QueryServer::Erlang => SpecQueryServer::Erlang,
            QueryServer::Custom(ref s) => SpecQueryServer::Custom(s@),
        }
    }
}

impl QueryServer {
    /// Reads a language name; the two known names are matched without
    /// regard to case, anything else is a custom query server under
    /// its lowercased name.  Case folding here, as everywhere in this
    /// crate, is deliberately ASCII-wise: the known names and real
    /// custom names are ASCII, and a non-ASCII character in a name is
    /// kept as it is rather than folded by locale-style rules.
    pub fn parse(s: &str) -> (r: QueryServer)
        ensures
            crate::text::eq_lower(s.spec_bytes(), "javascript".spec_bytes()) ==> r@ is JavaScript,
            crate::text::eq_lower(s.spec_bytes(), "erlang".spec_bytes()) ==> r@ is Erlang,
            !crate::text::eq_lower(s.spec_bytes(), "javascript".spec_bytes())
                && !crate::text::eq_lower(s.spec_bytes(), "erlang".spec_bytes()) ==> (
            r@ matches SpecQueryServer::Custom(c) && vstd::utf8::encode_utf8(c)
                == crate::text::ascii_lower_bytes(s.spec_bytes())),
    {
        proof {
            reveal_strlit("javascript");
            reveal_strlit("erlang");
            crate::text::lemma_ascii_encode("javascript"@);
            crate::text::lemma_ascii_encode("erlang"@);
        }
        if matches_lower(s.as_bytes(), "javascript".as_bytes()) {
            QueryServer::JavaScript
        } else if matches_lower(s.as_bytes(), "erlang".as_bytes()) {
            QueryServer::Erlang
        } else {
            QueryServer::Custom(crate::text::ascii_lowercase(s))
        }
    }

    /// The wire word for this language.
    pub fn as_str(&self) -> (r: &str)
        ensures
            match self@ {
                SpecQueryServer::JavaScript => r@ == "javascript"@,
                SpecQueryServer::Erlang => r@ == "erlang"@,
                SpecQueryServer::Custom(c) => r@ == c,
            },
    {
        match self {
            QueryServer::JavaScript => "javascript",
            QueryServer::Erlang => "erlang",
            QueryServer::Custom(s) => s.as_str(),
        }
    }
}

impl Default for QueryServer {
    /// Views are in JavaScript unless said otherwise.
    fn default() -> (r: Self)
        ensures
            r@ is JavaScript,
    {
        QueryServer::JavaScript
    }
}

/// The id a design-document name maps to, byte for byte: a leading
/// `_design` is first stripped from the name, then the `_design/`
/// prefix is put on.
pub open spec fn spec_design_id_bytes(name_bytes: Seq<u8>) -> Seq<u8> {
    let stripped = if name_bytes.len() >= 7 && name_bytes.take(7) == "_design".spec_bytes() {
        name_bytes.skip(7)
    } else {
        name_bytes
    };
    "_design/".spec_bytes() + stripped
}

/// A design document: a named bundle of views in one language.
pub struct DesignDocument {
    id: String,
    rev: Option<String>,
    language: QueryServer,
}

impl DesignDocument {
    /// The language, as the contracts see it.
    pub closed spec fn language_view(&self) -> SpecQueryServer {
        self.language@
    }

    /// A design document under the given name, with its revision when
    /// it is already stored.
    pub fn new(name: &str, rev: Option<&str>, language: QueryServer) -> (r: Self)
        ensures
            vstd::utf8::encode_utf8(r.id_view()) == spec_design_id_bytes(name.spec_bytes()),
            r.rev_view() == opt_str_view(rev),
            r.language_view() == language@,
    {
        let bytes = name.as_bytes();
        let mut id_bytes: Vec<u8> = Vec::new();
        json::write_bytes(&mut id_bytes, "_design/".as_bytes());
        let strip = bytes.len() >= 7 && crate::text::bytes_eq(
            vstd::slice::slice_subrange(bytes, 0, 7),
            "_design".as_bytes(),
        );
        let stripped: &[u8] = if strip {
            vstd::slice::slice_subrange(bytes, 7, bytes.len())
        } else {
            bytes
        };
        json::write_bytes(&mut id_bytes, stripped);
        proof {
            let nb = name.spec_bytes();
            assert(nb.take(7) =~= nb.subrange(0, 7)) by {
                if nb.len() >= 7 {
                }
            }
            assert(id_bytes@ =~= spec_design_id_bytes(nb));
            vstd::utf8::encode_utf8_valid_utf8("_design/"@);
            vstd::utf8::encode_utf8_valid_utf8(name@);
            if strip {
                reveal_strlit("_design");
                crate::text::lemma_ascii_encode("_design"@);
                let prefix = nb.subrange(0, 7);
                let suffix = nb.subrange(7, nb.len() as int);
                assert(crate::text::all_ascii(prefix)) by {
                    assert(prefix == "_design".spec_bytes());
                }
                crate::text::lemma_ascii_decode(prefix);
                if !vstd::utf8::valid_utf8(suffix) {
                    vstd::utf8::partial_valid_partial_invalid_utf8(nb, 7);
                }
                vstd::utf8::valid_utf8_concat("_design/".spec_bytes(), suffix);
                assert(suffix =~= nb.skip(7));
            } else {
                vstd::utf8::valid_utf8_concat("_design/".spec_bytes(), nb);
            }
            assert(vstd::utf8::valid_utf8(id_bytes@));
        }
        let ghost gid = id_bytes@;
        let id = match crate::text::string_from_utf8(id_bytes.as_slice()) {
            Some(s) => s,
            None => {
                proof {
                    assert(false);
                }
                String::new()
            },
        };
        proof {
            vstd::utf8::decode_utf8_encode_utf8(gid);
        }
        let rev = match rev {
            Some(rv) => Some(rv.to_owned()),
            None => None,
        };
        DesignDocument { id, rev, language }
    }
}

impl JsonEncode for DesignDocument {
    /// Writes the document as the server stores it.
    fn to_json_bytes(&self) -> Option<Vec<u8>> {
        let mut w = json::JsonObjWriter::new();
        w.add_str("id", self.id.as_str());
        match &self.rev {
            Some(rv) => {
                w.add_str("rev", rv.as_str());
            },
            None => {
                w.add("rev", &json::JsonValue::Null);
            },
        }
        w.add_str("language", self.language.as_str());
        Some(w.finish())
    }
}

impl JsonDecode for DesignDocument {
    /// Reads the document back; a missing or null revision is absent.
    fn from_json_bytes(bytes: &Vec<u8>) -> Option<Self> {
        let m = match json::parse_object_document(bytes) {
            Some(m) => m,
            None => {
                return None;
            },
        };
        let id = match crate::records::get_str(&m, "id") {
            Some(s) => s,
            None => {
                return None;
            },
        };
        let rev = match json::obj_find(&m, "rev") {
            None => None,
            Some(json::JsonValue::Null) => None,
            Some(json::JsonValue::Str(b)) => match crate::text::string_from_utf8(b.as_slice()) {
                Some(s) => Some(s),
                None => {
                    return None;
                },
            },
            Some(_) => {
                return None;
            },
        };
        let language = match crate::records::get_str(&m, "language") {
            Some(s) => QueryServer::parse(s.as_str()),
            None => {
                return None;
            },
        };
        Some(DesignDocument { id, rev, language })
    }
}

impl Document for DesignDocument {
    closed spec fn id_view(&self) -> Seq<char> {
        self.id@
    }

    closed spec fn rev_view(&self) -> Option<Seq<char>> {
        match self.rev {
            Some(ref rv) => Some(rv@),
            None => None,
        }
    }

    fn id(&self) -> (r: &str) {
        self.id.as_str()
    }

    fn rev(&self) -> (r: Option<&str>) {
        match &self.rev {
            Some(rv) => Some(rv.as_str()),
            None => None,
        }
    }

    fn set_id(&mut self, id: &str) {
        self.id = id.to_owned();
    }

    fn set_rev(&mut self, rev: &str) {
        self.rev = Some(rev.to_owned());
    }
}

/// The design-document operations of one database, optionally scoped
/// to a partition.
pub struct DesignDocuments<'db, C: Client> {
    client: &'db C,
    base: &'db String,
    partition: Option<String>,
    db_name: &'db String,
    credentials: &'db Credentials,
}

impl<'db, C: Client> DesignDocuments<'db, C> {
    /// The client the handle sends through, as the contracts see it.
    pub closed spec fn client_view(&self) -> C {
        *self.client
    }

    /// The base origin, as the contracts see it.
    pub closed spec fn base_view(&self) -> Seq<char> {
        self.base@
    }

    /// The database name, as the contracts see it.
    pub closed spec fn db_name_view(&self) -> Seq<char> {
        self.db_name@
    }

    /// The credentials, as the contracts see it.
    pub closed spec fn credentials_view(&self) -> crate::credentials::SpecCredentials {
        self.credentials@
    }

    /// The partition scope, as the contracts see it.
    pub closed spec fn partition_view(&self) -> Option<Seq<char>> {
        match self.partition {
            Some(ref p) => Some(p@),
            None => None,
        }
    }

    /// Design-document operations against the given database: the
    /// handle carries exactly what it was given.
    pub fn new(
        client: &'db C,
        base: &'db String,
        partition: Option<String>,
        db_name: &'db String,
        credentials: &'db Credentials,
    ) -> (r: Self)
        ensures
            r.client_view() == *client,
            r.base_view() == base@,
            r.db_name_view() == db_name@,
            r.credentials_view() == credentials@,
            r.partition_view() == (match partition {
                Some(ref p) => Some(p@),
                None => None::<Seq<char>>,
            }),
    {
        DesignDocuments { client, base, partition, db_name, credentials }
    }

    /// The plain document operations underneath.
    fn docs(&self) -> (r: Documents<'_, C>) {
        Documents::new(self.client, self.base, self.db_name, self.credentials)
    }

    /// Stores a new design document.
    pub fn create(&self, doc: DesignDocument) -> (r: FutonResult<DesignDocument>)
        requires
            doc.rev_view() is None,
        ensures
            r matches Ok(d) ==> d.id_view() == doc.id_view() && (exists|body: Seq<u8>|
                (#[trigger] crate::records::spec_document_operation(body)) matches Some(ack)
                    && d.rev_view() == Some(ack.rev)),
    {
        self.docs().create(doc)
    }

    /// Stores or updates a design document.
    pub fn create_or_update(&self, doc: DesignDocument) -> (r: FutonResult<DesignDocument>)
        ensures
            r matches Ok(d) ==> d.id_view() == doc.id_view() && (exists|body: Seq<u8>|
                (#[trigger] crate::records::spec_document_operation(body)) matches Some(ack)
                    && d.rev_view() == Some(ack.rev)),
    {
        self.docs().create_or_update(doc)
    }

    /// Runs a builtin view: the parameters go as the JSON body, the
    /// partition (when set) prefixes the view's path segment, and the
    /// rows come back typed, in server order, framed by some
    /// successfully classified response.
    pub fn execute_builtin_view<V: JsonDecode, T: JsonDecode>(
        &self,
        view: &str,
        params: ViewParams,
    ) -> (r: FutonResult<ViewResults<V, T>>)
        requires
            params.skip <= 0x7FFF_FFFF_FFFF_FFFF,
            params.limit matches Some(l) ==> l <= 0x7FFF_FFFF_FFFF_FFFF,
            params.group_level matches Some(g) ==> g <= 0x7FFF_FFFF_FFFF_FFFF,
        ensures
            r matches Ok(vr) ==> exists|body: Seq<u8>|
                crate::client::success_body(body)
                    && #[trigger] crate::records::view_results_match_frame(&vr, body),
            r matches Err(e) ==> e@ is Json || crate::client::classified_error_of(e@),
    {
        let body = params.to_json_bytes();
        let req = crate::request::FutonRequest::from_origin(self.base.as_str()).credentials(
            crate::credentials::clone_credentials(self.credentials),
        ).database(self.db_name.as_str()).document(view, None);
        let req = match &self.partition {
            Some(p) => req.partition(p.as_str()),
            None => req,
        };
        let mut client = self.client.clone();
        let res_body = match json_request(&mut client, req, Method::Post, Some(body)) {
            Ok(b) => b,
            Err(e) => {
                return Err(e);
            },
        };
        let out = match parse_view_results::<V, T>(res_body.bytes()) {
            Some(results) => Ok(results),
            None => Err(FutonError::Json),
        };
        proof {
            assert(out matches Ok(vr) ==> crate::records::view_results_match_frame(
                &vr,
                res_body@,
            ));
        }
        out
    }
}

} // verus!
