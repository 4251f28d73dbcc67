//! Parameter objects for database creation, copying and view queries.

use crate::document::Document;
use crate::json;
use vstd::prelude::*;
use vstd::string::StringExecFns;

verus! {

/// The knobs of database creation: shard count, replica count, and
/// partitioning.
pub struct DatabaseCreationParams {
    pub q: Option<usize>,
    pub n: Option<usize>,
    pub partitioned: bool,
}

/// The query pairs database creation sends: `q` and `n` when set,
/// `partitioned` always.
pub open spec fn spec_creation_query(
    q: Option<usize>,
    n: Option<usize>,
    partitioned: bool,
) -> Seq<(Seq<char>, Seq<char>)> {
    (match q {
        Some(qv) => seq![("q"@, crate::text::ascii_chars(json::spec_int_bytes(qv as int)))],
        None => Seq::<(Seq<char>, Seq<char>)>::empty(),
    }) + (match n {
        Some(nv) => seq![("n"@, crate::text::ascii_chars(json::spec_int_bytes(nv as int)))],
        None => Seq::<(Seq<char>, Seq<char>)>::empty(),
    }) + seq![
        ("partitioned"@, if partitioned {
            "true"@
        } else {
            "false"@
        }),
    ]
}

impl DatabaseCreationParams {
    /// The preset for a partitioned database.
    pub fn partitioned() -> (r: Self)
        ensures
            r.q is None,
            r.n is None,
            r.partitioned,
    {
        DatabaseCreationParams { q: None, n: None, partitioned: true }
    }

    /// The query pairs these parameters serialize to.  The counts
    /// must fit the wire's signed range.
    pub fn query_pairs(&self) -> (r: Vec<(String, String)>)
        requires
            self.q matches Some(qv) ==> qv <= 0x7FFF_FFFF_FFFF_FFFF,
            self.n matches Some(nv) ==> nv <= 0x7FFF_FFFF_FFFF_FFFF,
        ensures
            crate::request::pairs_view(r@) == spec_creation_query(self.q, self.n, self.partitioned),
    {
        let mut out: Vec<(String, String)> = Vec::new();
        match self.q {
            Some(qv) => {
                out.push(("q".to_owned(), usize_to_string(qv)));
            },
            None => {},
        }
        match self.n {
            Some(nv) => {
                out.push(("n".to_owned(), usize_to_string(nv)));
            },
            None => {},
        }
        out.push(
            (
                "partitioned".to_owned(),
                if self.partitioned {
                    "true".to_owned()
                } else {
                    "false".to_owned()
                },
            ),
        );
        proof {
            assert(crate::request::pairs_view(out@) =~= spec_creation_query(
                self.q,
                self.n,
                self.partitioned,
            ));
        }
        out
    }
}

impl Default for DatabaseCreationParams {
    /// By default nothing is overridden and the database is not
    /// partitioned.
    fn default() -> (r: Self)
        ensures
            r.q is None,
            r.n is None,
            !r.partitioned,
    {
        DatabaseCreationParams { q: None, n: None, partitioned: false }
    }
}

/// A count rendered in decimal.  The count must fit the wire's
/// signed range, which every real shard or replica count does.
pub fn usize_to_string(n: usize) -> (r: String)
    requires
        n <= 0x7FFF_FFFF_FFFF_FFFF,
    ensures
        r@ == crate::text::ascii_chars(json::spec_int_bytes(n as int)),
{
    let mut bytes: Vec<u8> = Vec::new();
    json::write_int(&mut bytes, n as i64);
    proof {
        lemma_int_bytes_ascii(n as int);
        assert(bytes@ =~= json::spec_int_bytes(n as int));
    }
    crate::text::ascii_to_string(bytes.as_slice())
}

/// Decimal renderings are ASCII.
proof fn lemma_digits_ascii(n: int)
    ensures
        crate::text::all_ascii(json::spec_digits(n)),
    decreases n,
{
    if n > 0 {
        lemma_digits_ascii(n / 10);
        assert forall|i: int| 0 <= i < json::spec_digits(n).len() implies #[trigger] json::spec_digits(
            n,
        )[i] < 0x80 by {
            if i < json::spec_digits(n / 10).len() {
                assert(json::spec_digits(n)[i] == json::spec_digits(n / 10)[i]);
            }
        }
    }
}

/// Integer renderings are ASCII.
pub proof fn lemma_int_bytes_ascii(n: int)
    ensures
        crate::text::all_ascii(json::spec_int_bytes(n)),
{
    if n == 0 {
    } else if n < 0 {
        lemma_digits_ascii(-n);
        assert forall|i: int| 0 <= i < json::spec_int_bytes(n).len() implies #[trigger] json::spec_int_bytes(
            n,
        )[i] < 0x80 by {
            if i > 0 {
                assert(json::spec_int_bytes(n)[i] == json::spec_digits(-n)[i - 1]);
            }
        }
    } else {
        lemma_digits_ascii(n);
        assert(json::spec_int_bytes(n) =~= json::spec_digits(n));
    }
}

/// Where a copy lands: a fresh id, or an existing document overwritten
/// at its current revision.
pub struct CopyDestination {
    pub id: String,
    pub rev: Option<String>,
}

/// The `Destination` header value: the id alone for a fresh target,
/// the id with `?rev=` for overwriting an existing one.
pub open spec fn spec_destination(id: Seq<char>, rev: Option<Seq<char>>) -> Seq<char> {
    match rev {
        Some(rv) => id + "?rev="@ + rv,
        None => id,
    }
}

impl CopyDestination {
    /// A fresh destination id.
    pub fn new(id: &str) -> (r: Self)
        ensures
            r.id@ == id@,
            r.rev is None,
    {
        CopyDestination { id: id.to_owned(), rev: None }
    }

    /// An existing destination, overwritten at its current revision.
    pub fn existing(id: &str, rev: &str) -> (r: Self)
        ensures
            r.id@ == id@,
            r.rev matches Some(rv) && rv@ == rev@,
    {
        CopyDestination { id: id.to_owned(), rev: Some(rev.to_owned()) }
    }

    /// The destination a document names: its own id and revision.
    pub fn from_doc<D: Document>(doc: &D) -> (r: Self)
        ensures
            r.id@ == doc.id_view(),
            (match r.rev {
                Some(ref rv) => Some(rv@),
                None => None,
            }) == doc.rev_view(),
    {
        let rev = match doc.rev() {
            Some(rv) => Some(rv.to_owned()),
            None => None,
        };
        CopyDestination { id: doc.id().to_owned(), rev }
    }

    /// The `Destination` header value this destination encodes to.
    pub fn header_value(&self) -> (r: String)
        ensures
            r@ == spec_destination(self.id@, match self.rev {
                Some(ref rv) => Some(rv@),
                None => None,
            }),
    {
        match &self.rev {
            Some(rv) => {
                let mut out = String::new();
                out.append(self.id.as_str());
                out.append("?rev=");
                out.append(rv.as_str());
                proof {
                    assert(out@ =~= self.id@ + "?rev="@ + rv@);
                }
                out
            },
            None => self.id.clone(),
        }
    }
}

/// How stale a view read may be.
#[derive(Clone, Copy, PartialEq, Eq, Structural, Debug)]
pub enum Update {
    True,
    False,
    Lazy,
}

impl Update {
    /// The wire word for this freshness choice.
    pub fn as_str(self) -> (r: &'static str)
        ensures
            r@ == self.view(),
    {
        match self {
            Update::True => "true",
            Update::False => "false",
            Update::Lazy => "lazy",
        }
    }
}

impl View for Update {
    type V = Seq<char>;

    open spec fn view(&self) -> Seq<char> {
        match *self {
            Update::True => "true"@,
            Update::False => "false"@,
            Update::Lazy => "lazy"@,
        }
    }
}

impl Default for Update {
    /// Reads ask for a fresh index unless told otherwise.
    fn default() -> (r: Self)
        ensures
            r == Update::True,
    {
        Update::True
    }
}

/// The view-query options, sent as the JSON body of a view request.
/// A key is carried as raw JSON text, since view keys are arbitrary
/// JSON values.
pub struct ViewParams {
    pub conflicts: bool,
    pub descending: bool,
    pub end_key: Option<Vec<u8>>,
    pub end_key_doc_id: Option<String>,
    pub group: bool,
    pub group_level: Option<usize>,
    pub include_docs: bool,
    pub attachments: bool,
    pub attachments_encoding_info: bool,
    pub inclusive_end: bool,
    pub key: Option<Vec<u8>>,
    pub keys: Option<Vec<u8>>,
    pub limit: Option<usize>,
    pub reduce: bool,
    pub skip: usize,
    pub sorted: bool,
    pub stable: bool,
    pub start_key: Option<Vec<u8>>,
    pub start_key_doc_id: Option<String>,
    pub update: Update,
    pub update_seq: bool,
}

impl Default for ViewParams {
    /// The defaults favour strict, consistent reads: nothing optional
    /// is sent, reads are sorted, fresh and unreduced.
    fn default() -> (r: Self)
        ensures
            !r.conflicts,
            !r.descending,
            r.end_key is None,
            r.end_key_doc_id is None,
            !r.group,
            r.group_level is None,
            !r.include_docs,
            !r.attachments,
            !r.attachments_encoding_info,
            !r.inclusive_end,
            r.key is None,
            r.keys is None,
            r.limit is None,
            !r.reduce,
            r.skip == 0,
            r.sorted,
            !r.stable,
            r.start_key is None,
            r.start_key_doc_id is None,
            r.update == Update::True,
            !r.update_seq,
    {
        ViewParams {
            conflicts: false,
            descending: false,
            end_key: None,
            end_key_doc_id: None,
            group: false,
            group_level: None,
            include_docs: false,
            attachments: false,
            attachments_encoding_info: false,
            inclusive_end: false,
            key: None,
            keys: None,
            limit: None,
            reduce: false,
            skip: 0,
            sorted: true,
            stable: false,
            start_key: None,
            start_key_doc_id: None,
            update: Update::default(),
            update_seq: false,
        }
    }
}

/// The members of the view-query body, in wire order: every boolean
/// and count always, each optional field only when set.
pub open spec fn spec_view_members(p: &ViewParams) -> json::SpecMembers {
    spec_view_members_a(p) + spec_view_members_b(p) + spec_view_members_c(p)
}

/// The range bounds, inclusive-end choice and grouping options.
pub open spec fn spec_view_members_a(p: &ViewParams) -> json::SpecMembers {
    json::bool_member("conflicts"@, p.conflicts) + json::bool_member("descending"@, p.descending) + json::opt_raw_member("end_key"@, json::opt_bytes_view(&p.end_key)) + json::opt_str_member("end_key_doc_id"@, json::opt_string_view(&p.end_key_doc_id)) + json::bool_member("group"@, p.group) + json::opt_int_member("group_level"@, json::opt_usize_view(&p.group_level)) + json::bool_member("include_docs"@, p.include_docs)
}

/// Writes these members in wire order.
fn write_view_members_a(w: &mut json::JsonObjWriter, p: &ViewParams)
    requires
        old(w).wf(),
        p.skip <= 0x7FFF_FFFF_FFFF_FFFF,
        p.limit matches Some(l) ==> l <= 0x7FFF_FFFF_FFFF_FFFF,
        p.group_level matches Some(g) ==> g <= 0x7FFF_FFFF_FFFF_FFFF,
    ensures
        final(w).wf(),
        final(w).members() == old(w).members() + spec_view_members_a(p),
{
    let ghost m0 = w.members();
    let ghost mut gm: json::SpecMembers = Seq::empty();
    w.add_bool("conflicts", p.conflicts);
    proof {
        gm = json::bool_member("conflicts"@, p.conflicts);
        assert(w.members() =~= m0 + gm);
    }
    w.add_bool("descending", p.descending);
    proof {
        gm = gm + json::bool_member("descending"@, p.descending);
        assert(w.members() =~= m0 + gm);
    }
    w.add_opt_raw("end_key", &p.end_key);
    proof {
        gm = gm + json::opt_raw_member("end_key"@, json::opt_bytes_view(&p.end_key));
        assert(w.members() =~= m0 + gm);
    }
    w.add_opt_str("end_key_doc_id", &p.end_key_doc_id);
    proof {
        gm = gm + json::opt_str_member("end_key_doc_id"@, json::opt_string_view(&p.end_key_doc_id));
        assert(w.members() =~= m0 + gm);
    }
    w.add_bool("group", p.group);
    proof {
        gm = gm + json::bool_member("group"@, p.group);
        assert(w.members() =~= m0 + gm);
    }
    w.add_opt_count("group_level", &p.group_level);
    proof {
        gm = gm + json::opt_int_member("group_level"@, json::opt_usize_view(&p.group_level));
        assert(w.members() =~= m0 + gm);
    }
    w.add_bool("include_docs", p.include_docs);
    proof {
        gm = gm + json::bool_member("include_docs"@, p.include_docs);
        assert(w.members() =~= m0 + gm);
    }
    proof {
        assert(gm == spec_view_members_a(p));
    }
}

/// The attachment, key and paging options.
pub open spec fn spec_view_members_b(p: &ViewParams) -> json::SpecMembers {
    json::bool_member("attachments"@, p.attachments) + json::bool_member("att_encoding_info"@, p.attachments_encoding_info) + json::bool_member("inclusive_end"@, p.inclusive_end) + json::opt_raw_member("key"@, json::opt_bytes_view(&p.key)) + json::opt_raw_member("keys"@, json::opt_bytes_view(&p.keys)) + json::opt_int_member("limit"@, json::opt_usize_view(&p.limit)) + json::bool_member("reduce"@, p.reduce)
}

/// Writes these members in wire order.
fn write_view_members_b(w: &mut json::JsonObjWriter, p: &ViewParams)
    requires
        old(w).wf(),
        p.skip <= 0x7FFF_FFFF_FFFF_FFFF,
        p.limit matches Some(l) ==> l <= 0x7FFF_FFFF_FFFF_FFFF,
        p.group_level matches Some(g) ==> g <= 0x7FFF_FFFF_FFFF_FFFF,
    ensures
        final(w).wf(),
        final(w).members() == old(w).members() + spec_view_members_b(p),
{
    let ghost m0 = w.members();
    let ghost mut gm: json::SpecMembers = Seq::empty();
    w.add_bool("attachments", p.attachments);
    proof {
        gm = json::bool_member("attachments"@, p.attachments);
        assert(w.members() =~= m0 + gm);
    }
    w.add_bool("att_encoding_info", p.attachments_encoding_info);
    proof {
        gm = gm + json::bool_member("att_encoding_info"@, p.attachments_encoding_info);
        assert(w.members() =~= m0 + gm);
    }
    w.add_bool("inclusive_end", p.inclusive_end);
    proof {
        gm = gm + json::bool_member("inclusive_end"@, p.inclusive_end);
        assert(w.members() =~= m0 + gm);
    }
    w.add_opt_raw("key", &p.key);
    proof {
        gm = gm + json::opt_raw_member("key"@, json::opt_bytes_view(&p.key));
        assert(w.members() =~= m0 + gm);
    }
    w.add_opt_raw("keys", &p.keys);
    proof {
        gm = gm + json::opt_raw_member("keys"@, json::opt_bytes_view(&p.keys));
        assert(w.members() =~= m0 + gm);
    }
    w.add_opt_count("limit", &p.limit);
    proof {
        gm = gm + json::opt_int_member("limit"@, json::opt_usize_view(&p.limit));
        assert(w.members() =~= m0 + gm);
    }
    w.add_bool("reduce", p.reduce);
    proof {
        gm = gm + json::bool_member("reduce"@, p.reduce);
        assert(w.members() =~= m0 + gm);
    }
    proof {
        assert(gm == spec_view_members_b(p));
    }
}

/// The ordering, staleness and sequence options.
pub open spec fn spec_view_members_c(p: &ViewParams) -> json::SpecMembers {
    json::int_member("skip"@, p.skip as int) + json::bool_member("sorted"@, p.sorted) + json::bool_member("stable"@, p.stable) + json::opt_raw_member("start_key"@, json::opt_bytes_view(&p.start_key)) + json::opt_str_member("start_key_doc_id"@, json::opt_string_view(&p.start_key_doc_id)) + json::str_member("update"@, p.update.view()) + json::bool_member("update_seq"@, p.update_seq)
}

/// Writes these members in wire order.
fn write_view_members_c(w: &mut json::JsonObjWriter, p: &ViewParams)
    requires
        old(w).wf(),
        p.skip <= 0x7FFF_FFFF_FFFF_FFFF,
        p.limit matches Some(l) ==> l <= 0x7FFF_FFFF_FFFF_FFFF,
        p.group_level matches Some(g) ==> g <= 0x7FFF_FFFF_FFFF_FFFF,
    ensures
        final(w).wf(),
        final(w).members() == old(w).members() + spec_view_members_c(p),
{
    let ghost m0 = w.members();
    let ghost mut gm: json::SpecMembers = Seq::empty();
    w.add_int("skip", p.skip as i64);
    proof {
        gm = json::int_member("skip"@, p.skip as int);
        assert(w.members() =~= m0 + gm);
    }
    w.add_bool("sorted", p.sorted);
    proof {
        gm = gm + json::bool_member("sorted"@, p.sorted);
        assert(w.members() =~= m0 + gm);
    }
    w.add_bool("stable", p.stable);
    proof {
        gm = gm + json::bool_member("stable"@, p.stable);
        assert(w.members() =~= m0 + gm);
    }
    w.add_opt_raw("start_key", &p.start_key);
    proof {
        gm = gm + json::opt_raw_member("start_key"@, json::opt_bytes_view(&p.start_key));
        assert(w.members() =~= m0 + gm);
    }
    w.add_opt_str("start_key_doc_id", &p.start_key_doc_id);
    proof {
        gm = gm + json::opt_str_member("start_key_doc_id"@, json::opt_string_view(&p.start_key_doc_id));
        assert(w.members() =~= m0 + gm);
    }
    w.add_str("update", p.update.as_str());
    proof {
        gm = gm + json::str_member("update"@, p.update.view());
        assert(w.members() =~= m0 + gm);
    }
    w.add_bool("update_seq", p.update_seq);
    proof {
        gm = gm + json::bool_member("update_seq"@, p.update_seq);
        assert(w.members() =~= m0 + gm);
    }
    proof {
        assert(gm == spec_view_members_c(p));
    }
}

impl ViewParams {
    /// Serializes the options as the JSON body of a view request.
    /// The counts must fit the wire's signed range, which every real
    /// paging parameter does.
    pub fn to_json_bytes(&self) -> (r: Vec<u8>)
        requires
            self.skip <= 0x7FFF_FFFF_FFFF_FFFF,
            self.limit matches Some(l) ==> l <= 0x7FFF_FFFF_FFFF_FFFF,
            self.group_level matches Some(g) ==> g <= 0x7FFF_FFFF_FFFF_FFFF,
        ensures
            r@ == json::spec_ser_object(spec_view_members(self)),
    {
        let mut w = json::JsonObjWriter::new();
        write_view_members_a(&mut w, self);
        write_view_members_b(&mut w, self);
        write_view_members_c(&mut w, self);
        proof {
            assert(w.members() =~= spec_view_members(self));
        }
        w.finish()
    }
}

} // verus!
