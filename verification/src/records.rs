//! The typed records the server returns, and their decoding from JSON.

use crate::json;
use crate::json::{JsonValue, SpecMembers, SpecValue};
use crate::text::string_from_utf8;
use vstd::prelude::*;
use vstd::string::StringSliceAdditionalSpecFns;
use vstd::utf8::{decode_utf8, encode_utf8, valid_utf8};

verus! {

/// A decode capability: a value read back from JSON text.  The
/// library's own records implement it with the verified parser; a
/// caller's document types implement it however they wish.
pub trait JsonDecode: Sized {
    fn from_json_bytes(bytes: &Vec<u8>) -> Option<Self>;
}

/// An encode capability: a value written as JSON text.
pub trait JsonEncode {
    fn to_json_bytes(&self) -> Option<Vec<u8>>;
}

// ---------------------------------------------------------------------
// Typed field extraction.
// ---------------------------------------------------------------------
/// The string field under `key`, when present, a string and UTF-8.
pub open spec fn spec_get_str(m: SpecMembers, key: Seq<u8>) -> Option<Seq<char>> {
    match json::spec_obj_get(m, key) {
        Some(SpecValue::Str(b)) => if valid_utf8(b) {
            Some(decode_utf8(b))
        } else {
            None
        },
        _ => None,
    }
}

/// The boolean field under `key`, when present and a boolean.
pub open spec fn spec_get_bool(m: SpecMembers, key: Seq<u8>) -> Option<bool> {
    match json::spec_obj_get(m, key) {
        Some(SpecValue::Bool(b)) => Some(b),
        _ => None,
    }
}

/// The count field under `key`, when present, an integer and in the
/// machine range.
pub open spec fn spec_get_usize(m: SpecMembers, key: Seq<u8>) -> Option<usize> {
    match json::spec_obj_get(m, key) {
        Some(SpecValue::Int(n)) => if 0 <= n <= usize::MAX {
            Some(n as usize)
        } else {
            None
        },
        _ => None,
    }
}

/// Reads a string field.
pub fn get_str(m: &Vec<(Vec<u8>, JsonValue)>, key: &str) -> (r: Option<String>)
    ensures
        (match r {
            Some(s) => Some(s@),
            None => None::<Seq<char>>,
        }) == spec_get_str(json::members_view(m@), key.spec_bytes()),
{
    match json::obj_find(m, key) {
        Some(JsonValue::Str(b)) => string_from_utf8(b.as_slice()),
        _ => None,
    }
}

/// Reads a boolean field.
pub fn get_bool(m: &Vec<(Vec<u8>, JsonValue)>, key: &str) -> (r: Option<bool>)
    ensures
        r == spec_get_bool(json::members_view(m@), key.spec_bytes()),
{
    match json::obj_find(m, key) {
        Some(JsonValue::Bool(b)) => Some(*b),
        _ => None,
    }
}

/// Reads a count field.
pub fn get_usize(m: &Vec<(Vec<u8>, JsonValue)>, key: &str) -> (r: Option<usize>)
    ensures
        r == spec_get_usize(json::members_view(m@), key.spec_bytes()),
{
    match json::obj_find(m, key) {
        Some(JsonValue::Int(n)) => {
            let n = *n;
            if n >= 0 && n as u64 <= usize::MAX as u64 {
                Some(n as usize)
            } else {
                None
            }
        },
        _ => None,
    }
}

/// Reads a nested object field as its member list.
pub fn get_object(m: &Vec<(Vec<u8>, JsonValue)>, key: &str) -> (r: Option<
    Vec<(Vec<u8>, JsonValue)>,
>)
    ensures
        (match r {
            Some(inner) => Some(json::members_view(inner@)),
            None => None::<SpecMembers>,
        }) == spec_get_object(json::members_view(m@), key.spec_bytes()),
{
    match json::obj_find(m, key) {
        Some(JsonValue::Raw(b)) => json::parse_object_document(b),
        _ => None,
    }
}

/// The nested object under `key`, when present, an object span and a
/// well-formed object document.
pub open spec fn spec_get_object(m: SpecMembers, key: Seq<u8>) -> Option<SpecMembers> {
    match json::spec_obj_get(m, key) {
        Some(SpecValue::Raw(b)) => json::spec_object_document(b),
        _ => None,
    }
}

// ---------------------------------------------------------------------
// Mutation acknowledgments.
// ---------------------------------------------------------------------
/// The server's acknowledgment of one mutation: the document id, its
/// new revision, and the ok marker.
#[derive(Debug)]
pub struct DocumentOperation {
    pub id: String,
    pub ok: bool,
    pub rev: String,
}

/// The mathematical model of a [`DocumentOperation`].
pub struct SpecDocumentOperation {
    pub id: Seq<char>,
    pub ok: bool,
    pub rev: Seq<char>,
}

impl View for DocumentOperation {
    type V = SpecDocumentOperation;

    open spec fn view(&self) -> SpecDocumentOperation {
        SpecDocumentOperation { id: self.id@, ok: self.ok, rev: self.rev@ }
    }
}

/// The acknowledgment a body decodes to: an object with `id`, `ok`
/// and `rev` fields of the right shapes.
pub open spec fn spec_document_operation(body: Seq<u8>) -> Option<SpecDocumentOperation> {
    match json::spec_object_document(body) {
        Some(m) => match (
            spec_get_str(m, encode_utf8("id"@)),
            spec_get_bool(m, encode_utf8("ok"@)),
            spec_get_str(m, encode_utf8("rev"@)),
        ) {
            (Some(id), Some(ok), Some(rev)) => Some(SpecDocumentOperation { id, ok, rev }),
            _ => None,
        },
        None => None,
    }
}

impl DocumentOperation {
    /// Decodes a mutation acknowledgment.
    pub fn parse(body: &Vec<u8>) -> (r: Option<DocumentOperation>)
        ensures
            (match r {
                Some(op) => Some(op@),
                None => None::<SpecDocumentOperation>,
            }) == spec_document_operation(body@),
    {
        let m = match json::parse_object_document(body) {
            Some(m) => m,
            None => {
                return None;
            },
        };
        let id = match get_str(&m, "id") {
            Some(s) => s,
            None => {
                return None;
            },
        };
        let ok = match get_bool(&m, "ok") {
            Some(b) => b,
            None => {
                return None;
            },
        };
        let rev = match get_str(&m, "rev") {
            Some(s) => s,
            None => {
                return None;
            },
        };
        Some(DocumentOperation { id, ok, rev })
    }
}

impl JsonDecode for DocumentOperation {
    fn from_json_bytes(bytes: &Vec<u8>) -> Option<Self> {
        DocumentOperation::parse(bytes)
    }
}

/// A bare revision, as rows of the all-documents view carry it.
#[derive(Debug)]
pub struct Rev {
    pub rev: String,
}

/// The revision record a body decodes to.
pub open spec fn spec_rev_record(body: Seq<u8>) -> Option<Seq<char>> {
    match json::spec_object_document(body) {
        Some(m) => spec_get_str(m, encode_utf8("rev"@)),
        None => None,
    }
}

impl Rev {
    /// Decodes a revision record.
    pub fn parse(body: &Vec<u8>) -> (r: Option<Rev>)
        ensures
            (match r {
                Some(v) => Some(v.rev@),
                None => None::<Seq<char>>,
            }) == spec_rev_record(body@),
    {
        let m = match json::parse_object_document(body) {
            Some(m) => m,
            None => {
                return None;
            },
        };
        match get_str(&m, "rev") {
            Some(rev) => Some(Rev { rev }),
            None => None,
        }
    }
}

impl JsonDecode for Rev {
    fn from_json_bytes(bytes: &Vec<u8>) -> Option<Self> {
        Rev::parse(bytes)
    }
}

/// The server's plain acknowledgment.
#[derive(Debug)]
pub struct OkStatus {
    pub ok: bool,
}

impl OkStatus {
    /// Decodes a plain acknowledgment.
    pub fn parse(body: &Vec<u8>) -> (r: Option<OkStatus>)
        ensures
            (match r {
                Some(v) => Some(v.ok),
                None => None::<bool>,
            }) == (match json::spec_object_document(body@) {
                Some(m) => spec_get_bool(m, encode_utf8("ok"@)),
                None => None,
            }),
    {
        let m = match json::parse_object_document(body) {
            Some(m) => m,
            None => {
                return None;
            },
        };
        match get_bool(&m, "ok") {
            Some(ok) => Some(OkStatus { ok }),
            None => None,
        }
    }
}

/// What remains of a deleted document: its id, the deletion revision,
/// and the deletion marker.
#[derive(Debug)]
pub struct Tombstone {
    pub id: String,
    pub rev: String,
    pub deleted: bool,
}

/// The tombstone a body decodes to: the underscored wire fields.
pub open spec fn spec_tombstone(body: Seq<u8>) -> Option<(Seq<char>, Seq<char>, bool)> {
    match json::spec_object_document(body) {
        Some(m) => match (
            spec_get_str(m, encode_utf8("_id"@)),
            spec_get_str(m, encode_utf8("_rev"@)),
            spec_get_bool(m, encode_utf8("_deleted"@)),
        ) {
            (Some(id), Some(rev), Some(deleted)) => Some((id, rev, deleted)),
            _ => None,
        },
        None => None,
    }
}

impl Tombstone {
    /// Decodes a tombstone.
    pub fn parse(body: &Vec<u8>) -> (r: Option<Tombstone>)
        ensures
            (match r {
                Some(t) => Some((t.id@, t.rev@, t.deleted)),
                None => None::<(Seq<char>, Seq<char>, bool)>,
            }) == spec_tombstone(body@),
    {
        let m = match json::parse_object_document(body) {
            Some(m) => m,
            None => {
                return None;
            },
        };
        let id = match get_str(&m, "_id") {
            Some(s) => s,
            None => {
                return None;
            },
        };
        let rev = match get_str(&m, "_rev") {
            Some(s) => s,
            None => {
                return None;
            },
        };
        let deleted = match get_bool(&m, "_deleted") {
            Some(b) => b,
            None => {
                return None;
            },
        };
        Some(Tombstone { id, rev, deleted })
    }
}

impl JsonDecode for Tombstone {
    fn from_json_bytes(bytes: &Vec<u8>) -> Option<Self> {
        Tombstone::parse(bytes)
    }
}

impl JsonEncode for Tombstone {
    fn to_json_bytes(&self) -> Option<Vec<u8>> {
        let mut w = json::JsonObjWriter::new();
        w.add_str("_id", self.id.as_str());
        w.add_str("_rev", self.rev.as_str());
        w.add_bool("_deleted", self.deleted);
        Some(w.finish())
    }
}

impl crate::document::Document for Tombstone {
    open spec fn id_view(&self) -> Seq<char> {
        self.id@
    }

    open spec fn rev_view(&self) -> Option<Seq<char>> {
        Some(self.rev@)
    }

    fn id(&self) -> (r: &str) {
        self.id.as_str()
    }

    fn rev(&self) -> (r: Option<&str>) {
        Some(self.rev.as_str())
    }

    fn set_id(&mut self, id: &str) {
        self.id = id.to_owned();
    }

    fn set_rev(&mut self, rev: &str) {
        self.rev = rev.to_owned();
    }
}

// ---------------------------------------------------------------------
// Database metadata.
// ---------------------------------------------------------------------
/// The cluster sharding and replication parameters.
#[derive(Debug)]
pub struct ClusterReplicationParams {
    pub n: usize,
    pub q: usize,
    pub r: usize,
    pub w: usize,
}

/// The cluster record a nested object decodes to.
pub open spec fn spec_cluster(m: SpecMembers) -> Option<(usize, usize, usize, usize)> {
    match (
        spec_get_usize(m, encode_utf8("n"@)),
        spec_get_usize(m, encode_utf8("q"@)),
        spec_get_usize(m, encode_utf8("r"@)),
        spec_get_usize(m, encode_utf8("w"@)),
    ) {
        (Some(n), Some(q), Some(r), Some(w)) => Some((n, q, r, w)),
        _ => None,
    }
}

/// The size figures the server reports for a database.
#[derive(Debug)]
pub struct Sizes {
    pub active: usize,
    pub external: usize,
    pub file: usize,
}

/// The sizes record a nested object decodes to.
pub open spec fn spec_sizes(m: SpecMembers) -> Option<(usize, usize, usize)> {
    match (
        spec_get_usize(m, encode_utf8("active"@)),
        spec_get_usize(m, encode_utf8("external"@)),
        spec_get_usize(m, encode_utf8("file"@)),
    ) {
        (Some(active), Some(external), Some(file)) => Some((active, external, file)),
        _ => None,
    }
}

/// The metadata of one database.
#[derive(Debug)]
pub struct DatabaseInfo {
    pub cluster: ClusterReplicationParams,
    pub db_name: String,
    pub compact_running: bool,
    pub disk_format_version: usize,
    pub doc_count: usize,
    pub doc_del_count: usize,
    pub instance_start_time: String,
    /// Database properties, as key/value text pairs in wire order.
    /// A repeated key keeps every occurrence, as the wire carried it.
    pub props: Vec<(String, String)>,
    pub purge_seq: String,
    pub sizes: Sizes,
    pub update_seq: String,
}

/// The property list a nested object decodes to: every value must be
/// a UTF-8 string.
pub open spec fn spec_props(m: SpecMembers) -> Option<Seq<(Seq<char>, Seq<char>)>>
    decreases m.len(),
{
    if m.len() == 0 {
        Some(Seq::empty())
    } else {
        match spec_props(m.drop_last()) {
            Some(init) => match m.last().1 {
                SpecValue::Str(b) => {
                    if valid_utf8(m.last().0) && valid_utf8(b) {
                        Some(init.push((decode_utf8(m.last().0), decode_utf8(b))))
                    } else {
                        None
                    }
                },
                _ => None,
            },
            None => None,
        }
    }
}

/// Decodes a property object into text pairs.
pub fn parse_props(m: &Vec<(Vec<u8>, JsonValue)>) -> (r: Option<Vec<(String, String)>>)
    ensures
        (match r {
            Some(ps) => Some(crate::request::pairs_view(ps@)),
            None => None::<Seq<(Seq<char>, Seq<char>)>>,
        }) == spec_props(json::members_view(m@)),
{
    let mut out: Vec<(String, String)> = Vec::new();
    let mut k: usize = 0;
    proof {
        assert(json::members_view(m@).take(0) =~= Seq::<(Seq<u8>, SpecValue)>::empty());
        assert(crate::request::pairs_view(out@) =~= Seq::<(Seq<char>, Seq<char>)>::empty());
    }
    while k < m.len()
        invariant
            k <= m@.len(),
            spec_props(json::members_view(m@).take(k as int)) == Some(
                crate::request::pairs_view(out@),
            ),
        decreases m@.len() - k,
    {
        let key = match string_from_utf8(m[k].0.as_slice()) {
            Some(s) => s,
            None => {
                proof {
                    lemma_spec_props_step(json::members_view(m@), k as int);
                }
                return None;
            },
        };
        let value = match &m[k].1 {
            JsonValue::Str(b) => match string_from_utf8(b.as_slice()) {
                Some(s) => s,
                None => {
                    proof {
                        lemma_spec_props_step(json::members_view(m@), k as int);
                    }
                    return None;
                },
            },
            _ => {
                proof {
                    lemma_spec_props_step(json::members_view(m@), k as int);
                }
                return None;
            },
        };
        let ghost out0 = crate::request::pairs_view(out@);
        out.push((key, value));
        proof {
            let mm = json::members_view(m@);
            assert(mm.take(k + 1).drop_last() =~= mm.take(k as int));
            assert(mm.take(k + 1).last() == mm[k as int]);
            assert(crate::request::pairs_view(out@) =~= out0.push(
                (decode_utf8(mm[k as int].0), decode_utf8(mm[k as int].1->Str_0)),
            ));
        }
        k = k + 1;
    }
    proof {
        assert(json::members_view(m@).take(m@.len() as int) =~= json::members_view(m@));
    }
    Some(out)
}

/// A failed member fails the whole property list, whatever came
/// before it.
proof fn lemma_spec_props_step(m: SpecMembers, k: int)
    requires
        0 <= k < m.len(),
        !(m[k].1 is Str && valid_utf8(m[k].0) && valid_utf8(m[k].1->Str_0)),
    ensures
        spec_props(m) is None,
    decreases m.len(),
{
    if m.len() > 0 {
        if k == m.len() - 1 {
            assert(m.last() == m[k]);
        } else {
            assert(m.drop_last()[k] == m[k]);
            lemma_spec_props_step(m.drop_last(), k);
        }
    }
}

/// The database metadata a body decodes to.
pub open spec fn spec_database_info(body: Seq<u8>) -> Option<
    (
        (usize, usize, usize, usize),  // cluster n, q, r, w
        Seq<char>,  // db_name
        bool,  // compact_running
        (usize, usize, usize),  // disk_format_version, doc_count, doc_del_count
        Seq<char>,  // instance_start_time
        Seq<(Seq<char>, Seq<char>)>,  // props
        Seq<char>,  // purge_seq
        (usize, usize, usize),  // sizes active, external, file
        Seq<char>,  // update_seq
    ),
> {
    match json::spec_object_document(body) {
        Some(m) => {
            let cluster = match spec_get_object(m, encode_utf8("cluster"@)) {
                Some(cm) => spec_cluster(cm),
                None => None,
            };
            let props = match spec_get_object(m, encode_utf8("props"@)) {
                Some(pm) => spec_props(pm),
                None => None,
            };
            let sizes = match spec_get_object(m, encode_utf8("sizes"@)) {
                Some(sm) => spec_sizes(sm),
                None => None,
            };
            match (
                cluster,
                spec_get_str(m, encode_utf8("db_name"@)),
                spec_get_bool(m, encode_utf8("compact_running"@)),
                spec_get_usize(m, encode_utf8("disk_format_version"@)),
                spec_get_usize(m, encode_utf8("doc_count"@)),
                spec_get_usize(m, encode_utf8("doc_del_count"@)),
                spec_get_str(m, encode_utf8("instance_start_time"@)),
                props,
                spec_get_str(m, encode_utf8("purge_seq"@)),
                sizes,
                spec_get_str(m, encode_utf8("update_seq"@)),
            ) {
                (
                    Some(cl),
                    Some(db_name),
                    Some(compact),
                    Some(dfv),
                    Some(dc),
                    Some(ddc),
                    Some(ist),
                    Some(ps),
                    Some(purge),
                    Some(sz),
                    Some(upd),
                ) => Some((cl, db_name, compact, (dfv, dc, ddc), ist, ps, purge, sz, upd)),
                _ => None,
            }
        },
        None => None,
    }
}

/// The model of a decoded [`DatabaseInfo`], in the shape
/// [`spec_database_info`] yields.
pub open spec fn database_info_view(info: &DatabaseInfo) -> (
    (usize, usize, usize, usize),
    Seq<char>,
    bool,
    (usize, usize, usize),
    Seq<char>,
    Seq<(Seq<char>, Seq<char>)>,
    Seq<char>,
    (usize, usize, usize),
    Seq<char>,
) {
    (
        (info.cluster.n, info.cluster.q, info.cluster.r, info.cluster.w),
        info.db_name@,
        info.compact_running,
        (info.disk_format_version, info.doc_count, info.doc_del_count),
        info.instance_start_time@,
        crate::request::pairs_view(info.props@),
        info.purge_seq@,
        (info.sizes.active, info.sizes.external, info.sizes.file),
        info.update_seq@,
    )
}

impl DatabaseInfo {
    /// Decodes the metadata of a database.
    pub fn parse(body: &Vec<u8>) -> (r: Option<DatabaseInfo>)
        ensures
            (match r {
                Some(info) => Some(database_info_view(&info)),
                None => None,
            }) == spec_database_info(body@),
    {
        let m = match json::parse_object_document(body) {
            Some(m) => m,
            None => {
                return None;
            },
        };
        let cm = match get_object(&m, "cluster") {
            Some(cm) => cm,
            None => {
                return None;
            },
        };
        let cluster = match (
            get_usize(&cm, "n"),
            get_usize(&cm, "q"),
            get_usize(&cm, "r"),
            get_usize(&cm, "w"),
        ) {
            (Some(n), Some(q), Some(r), Some(w)) => ClusterReplicationParams { n, q, r, w },
            _ => {
                return None;
            },
        };
        let db_name = match get_str(&m, "db_name") {
            Some(s) => s,
            None => {
                return None;
            },
        };
        let compact_running = match get_bool(&m, "compact_running") {
            Some(b) => b,
            None => {
                return None;
            },
        };
        let disk_format_version = match get_usize(&m, "disk_format_version") {
            Some(v) => v,
            None => {
                return None;
            },
        };
        let doc_count = match get_usize(&m, "doc_count") {
            Some(v) => v,
            None => {
                return None;
            },
        };
        let doc_del_count = match get_usize(&m, "doc_del_count") {
            Some(v) => v,
            None => {
                return None;
            },
        };
        let instance_start_time = match get_str(&m, "instance_start_time") {
            Some(s) => s,
            None => {
                return None;
            },
        };
        let pm = match get_object(&m, "props") {
            Some(pm) => pm,
            None => {
                return None;
            },
        };
        let props = match parse_props(&pm) {
            Some(ps) => ps,
            None => {
                return None;
            },
        };
        let purge_seq = match get_str(&m, "purge_seq") {
            Some(s) => s,
            None => {
                return None;
            },
        };
        let sm = match get_object(&m, "sizes") {
            Some(sm) => sm,
            None => {
                return None;
            },
        };
        let sizes = match (
            get_usize(&sm, "active"),
            get_usize(&sm, "external"),
            get_usize(&sm, "file"),
        ) {
            (Some(active), Some(external), Some(file)) => Sizes { active, external, file },
            _ => {
                return None;
            },
        };
        let update_seq = match get_str(&m, "update_seq") {
            Some(s) => s,
            None => {
                return None;
            },
        };
        Some(
            DatabaseInfo {
                cluster,
                db_name,
                compact_running,
                disk_format_version,
                doc_count,
                doc_del_count,
                instance_start_time,
                props,
                purge_seq,
                sizes,
                update_seq,
            },
        )
    }
}

impl JsonDecode for DatabaseInfo {
    fn from_json_bytes(bytes: &Vec<u8>) -> Option<Self> {
        DatabaseInfo::parse(bytes)
    }
}

// ---------------------------------------------------------------------
// Server metadata.
// ---------------------------------------------------------------------
/// The vendor block of the server's identity record.
#[derive(Debug)]
pub struct ServerInstanceInfoVendor {
    pub name: String,
}

/// The server's identity record.
#[derive(Debug)]
pub struct ServerInstanceInfo {
    pub couchdb: String,
    pub uuid: String,
    pub git_sha: String,
    pub version: String,
    pub vendor: ServerInstanceInfoVendor,
    pub features: Vec<String>,
}

/// The feature list a nested array decodes to: every element must be
/// a UTF-8 string.
pub open spec fn spec_features(e: Seq<SpecValue>) -> Option<Seq<Seq<char>>>
    decreases e.len(),
{
    if e.len() == 0 {
        Some(Seq::empty())
    } else {
        match spec_features(e.drop_last()) {
            Some(init) => match e.last() {
                SpecValue::Str(b) => {
                    if valid_utf8(b) {
                        Some(init.push(decode_utf8(b)))
                    } else {
                        None
                    }
                },
                _ => None,
            },
            None => None,
        }
    }
}

/// A failed element fails the whole feature list.
proof fn lemma_spec_features_step(e: Seq<SpecValue>, k: int)
    requires
        0 <= k < e.len(),
        !(e[k] is Str && valid_utf8(e[k]->Str_0)),
    ensures
        spec_features(e) is None,
    decreases e.len(),
{
    if e.len() > 0 {
        if k == e.len() - 1 {
            assert(e.last() == e[k]);
        } else {
            assert(e.drop_last()[k] == e[k]);
            lemma_spec_features_step(e.drop_last(), k);
        }
    }
}

/// Decodes a feature array into strings.
pub fn parse_features(e: &Vec<JsonValue>) -> (r: Option<Vec<String>>)
    ensures
        (match r {
            Some(fs) => Some(crate::request::strings_view(fs@)),
            None => None::<Seq<Seq<char>>>,
        }) == spec_features(json::elems_view(e@)),
{
    let mut out: Vec<String> = Vec::new();
    let mut k: usize = 0;
    proof {
        assert(json::elems_view(e@).take(0) =~= Seq::<SpecValue>::empty());
        assert(crate::request::strings_view(out@) =~= Seq::<Seq<char>>::empty());
    }
    while k < e.len()
        invariant
            k <= e@.len(),
            spec_features(json::elems_view(e@).take(k as int)) == Some(
                crate::request::strings_view(out@),
            ),
        decreases e@.len() - k,
    {
        let s = match &e[k] {
            JsonValue::Str(b) => match string_from_utf8(b.as_slice()) {
                Some(s) => s,
                None => {
                    proof {
                        lemma_spec_features_step(json::elems_view(e@), k as int);
                    }
                    return None;
                },
            },
            _ => {
                proof {
                    lemma_spec_features_step(json::elems_view(e@), k as int);
                }
                return None;
            },
        };
        let ghost out0 = crate::request::strings_view(out@);
        out.push(s);
        proof {
            let ee = json::elems_view(e@);
            assert(ee.take(k + 1).drop_last() =~= ee.take(k as int));
            assert(ee.take(k + 1).last() == ee[k as int]);
            assert(crate::request::strings_view(out@) =~= out0.push(
                decode_utf8(ee[k as int]->Str_0),
            ));
        }
        k = k + 1;
    }
    proof {
        assert(json::elems_view(e@).take(e@.len() as int) =~= json::elems_view(e@));
    }
    Some(out)
}

/// The identity record a body decodes to.
pub open spec fn spec_server_info(body: Seq<u8>) -> Option<
    (Seq<char>, Seq<char>, Seq<char>, Seq<char>, Seq<char>, Seq<Seq<char>>),
> {
    match json::spec_object_document(body) {
        Some(m) => {
            let vendor = match spec_get_object(m, encode_utf8("vendor"@)) {
                Some(vm) => spec_get_str(vm, encode_utf8("name"@)),
                None => None,
            };
            let features = match json::spec_obj_get(m, encode_utf8("features"@)) {
                Some(SpecValue::Raw(b)) => match json::spec_parse_array(b, 0) {
                    Some((e, k)) => if json::spec_skip_ws(b, k) == b.len() {
                        spec_features(e)
                    } else {
                        None
                    },
                    None => None,
                },
                _ => None,
            };
            match (
                spec_get_str(m, encode_utf8("couchdb"@)),
                spec_get_str(m, encode_utf8("uuid"@)),
                spec_get_str(m, encode_utf8("git_sha"@)),
                spec_get_str(m, encode_utf8("version"@)),
                vendor,
                features,
            ) {
                (Some(c), Some(u), Some(g), Some(v), Some(vn), Some(fs)) => Some(
                    (c, u, g, v, vn, fs),
                ),
                _ => None,
            }
        },
        None => None,
    }
}

/// The model of a decoded [`ServerInstanceInfo`], in the shape
/// [`spec_server_info`] yields.
pub open spec fn server_info_view(info: &ServerInstanceInfo) -> (
    Seq<char>,
    Seq<char>,
    Seq<char>,
    Seq<char>,
    Seq<char>,
    Seq<Seq<char>>,
) {
    (
        info.couchdb@,
        info.uuid@,
        info.git_sha@,
        info.version@,
        info.vendor.name@,
        crate::request::strings_view(info.features@),
    )
}

impl ServerInstanceInfo {
    /// Decodes the server's identity record.
    pub fn parse(body: &Vec<u8>) -> (r: Option<ServerInstanceInfo>)
        ensures
            (match r {
                Some(info) => Some(server_info_view(&info)),
                None => None,
            }) == spec_server_info(body@),
    {
        let m = match json::parse_object_document(body) {
            Some(m) => m,
            None => {
                return None;
            },
        };
        let couchdb = match get_str(&m, "couchdb") {
            Some(s) => s,
            None => {
                return None;
            },
        };
        let uuid = match get_str(&m, "uuid") {
            Some(s) => s,
            None => {
                return None;
            },
        };
        let git_sha = match get_str(&m, "git_sha") {
            Some(s) => s,
            None => {
                return None;
            },
        };
        let version = match get_str(&m, "version") {
            Some(s) => s,
            None => {
                return None;
            },
        };
        let vm = match get_object(&m, "vendor") {
            Some(vm) => vm,
            None => {
                return None;
            },
        };
        let name = match get_str(&vm, "name") {
            Some(s) => s,
            None => {
                return None;
            },
        };
        let fe = match json::obj_find(&m, "features") {
            Some(JsonValue::Raw(b)) => match json::parse_array_at(b, 0) {
                Some((e, k)) => {
                    let t = json::skip_ws(b, k);
                    if t == b.len() {
                        e
                    } else {
                        return None;
                    }
                },
                None => {
                    return None;
                },
            },
            _ => {
                return None;
            },
        };
        let features = match parse_features(&fe) {
            Some(fs) => fs,
            None => {
                return None;
            },
        };
        Some(
            ServerInstanceInfo {
                couchdb,
                uuid,
                git_sha,
                version,
                vendor: ServerInstanceInfoVendor { name },
                features,
            },
        )
    }
}

impl JsonDecode for ServerInstanceInfo {
    fn from_json_bytes(bytes: &Vec<u8>) -> Option<Self> {
        ServerInstanceInfo::parse(bytes)
    }
}


// ---------------------------------------------------------------------
// View results.
// ---------------------------------------------------------------------
/// One row of a view: the emitting document's id, the emitted key,
/// the emitted value, and the document itself when asked for.
#[derive(Debug)]
pub struct ViewRow<V, T> {
    pub id: String,
    pub key: String,
    pub value: V,
    pub doc: Option<T>,
}

/// An ordered page of view rows with its paging metadata.
#[derive(Debug)]
pub struct ViewResults<V, T> {
    pub offset: usize,
    pub total_rows: usize,
    pub update_seq: Option<String>,
    pub rows: Vec<ViewRow<V, T>>,
}

impl<V, T> ViewResults<V, T> {
    /// The rows, in server order.
    pub fn iter(&self) -> (r: &Vec<ViewRow<V, T>>)
        ensures
            r == &self.rows,
    {
        &self.rows
    }
}

/// The decoded frame of one row: its id, key, emitted value, and the
/// document value when present (a missing or null `doc` member is an
/// absent document).
pub open spec fn spec_row_frame(v: SpecValue) -> Option<
    (Seq<char>, Seq<char>, SpecValue, Option<SpecValue>),
> {
    match v {
        SpecValue::Raw(b) => match json::spec_object_document(b) {
            Some(rm) => match (
                spec_get_str(rm, encode_utf8("id"@)),
                spec_get_str(rm, encode_utf8("key"@)),
                json::spec_obj_get(rm, encode_utf8("value"@)),
            ) {
                (Some(id), Some(key), Some(value)) => {
                    let doc = match json::spec_obj_get(rm, encode_utf8("doc"@)) {
                        Some(SpecValue::Null) => None,
                        Some(d) => Some(d),
                        None => None,
                    };
                    Some((id, key, value, doc))
                },
                _ => None,
            },
            None => None,
        },
        _ => None,
    }
}

/// The decoded frame of a whole view page: offset, total row count,
/// the optional update sequence, and the raw row values.
pub open spec fn spec_view_frame(body: Seq<u8>) -> Option<
    (usize, usize, Option<Seq<char>>, Seq<SpecValue>),
> {
    match json::spec_object_document(body) {
        Some(m) => {
            let upd = match json::spec_obj_get(m, encode_utf8("update_seq"@)) {
                None => Some(None),
                Some(SpecValue::Null) => Some(None),
                Some(SpecValue::Str(b)) => if valid_utf8(b) {
                    Some(Some(decode_utf8(b)))
                } else {
                    None
                },
                Some(_) => None,
            };
            let rows = match json::spec_obj_get(m, encode_utf8("rows"@)) {
                Some(SpecValue::Raw(b)) => match json::spec_parse_array(b, 0) {
                    Some((e, k)) => if json::spec_skip_ws(b, k) == b.len() {
                        Some(e)
                    } else {
                        None
                    },
                    None => None,
                },
                _ => None,
            };
            match (
                spec_get_usize(m, encode_utf8("offset"@)),
                spec_get_usize(m, encode_utf8("total_rows"@)),
                upd,
                rows,
            ) {
                (Some(off), Some(tot), Some(u), Some(rs)) => Some((off, tot, u, rs)),
                _ => None,
            }
        },
        None => None,
    }
}

/// The bytes a row's emitted value or document is decoded from: a
/// nested value's own span, a scalar's serialized form.
pub open spec fn spec_value_bytes(v: SpecValue) -> Seq<u8> {
    match v {
        SpecValue::Raw(b) => b,
        _ => json::spec_ser_value(v),
    }
}

/// The bytes handed to the row value's decoder.
fn value_bytes(v: &JsonValue) -> (r: Vec<u8>)
    ensures
        r@ == spec_value_bytes(v@),
{
    match v {
        JsonValue::Raw(b) => {
            let mut out: Vec<u8> = Vec::new();
            json::write_bytes(&mut out, b.as_slice());
            proof {
                assert(out@ =~= b@);
            }
            out
        },
        _ => {
            let mut out: Vec<u8> = Vec::new();
            json::write_value(&mut out, v);
            proof {
                assert(out@ =~= json::spec_ser_value(v@));
            }
            out
        },
    }
}

/// Decodes one view row.  The id and key are pinned by the row frame;
/// the emitted value and document are decoded by their own types.
fn parse_view_row<V: JsonDecode, T: JsonDecode>(v: &JsonValue) -> (r: Option<ViewRow<V, T>>)
    ensures
        spec_row_frame(v@) is None ==> r is None,
        r matches Some(row) ==> spec_row_frame(v@) matches Some(rf) && row.id@ == rf.0
            && row.key@ == rf.1 && (row.doc is Some ==> rf.3 is Some) && (rf.3 is None
            ==> row.doc is None),
{
    let b = match v {
        JsonValue::Raw(b) => b,
        _ => {
            return None;
        },
    };
    let rm = match json::parse_object_document(b) {
        Some(rm) => rm,
        None => {
            return None;
        },
    };
    let id = match get_str(&rm, "id") {
        Some(s) => s,
        None => {
            return None;
        },
    };
    let key = match get_str(&rm, "key") {
        Some(s) => s,
        None => {
            return None;
        },
    };
    let value_json = match json::obj_find(&rm, "value") {
        Some(w) => w,
        None => {
            return None;
        },
    };
    let vb = value_bytes(value_json);
    let value = match V::from_json_bytes(&vb) {
        Some(x) => x,
        None => {
            return None;
        },
    };
    let doc: Option<T> = match json::obj_find(&rm, "doc") {
        Some(JsonValue::Null) => None,
        Some(d) => {
            let db = value_bytes(d);
            match T::from_json_bytes(&db) {
                Some(x) => Some(x),
                None => {
                    return None;
                },
            }
        },
        None => None,
    };
    Some(ViewRow { id, key, value, doc })
}

/// True when a page matches the frame a body decodes to: the paging
/// metadata, the row count, and each row's id and key, in server
/// order.
pub open spec fn view_results_match_frame<V, T>(vr: &ViewResults<V, T>, body: Seq<u8>) -> bool {
    &&& spec_view_frame(body) matches Some(f)
    &&& vr.offset == spec_view_frame(body)->Some_0.0
    &&& vr.total_rows == spec_view_frame(body)->Some_0.1
    &&& (match vr.update_seq {
        Some(ref u) => Some(u@),
        None => None::<Seq<char>>,
    }) == spec_view_frame(body)->Some_0.2
    &&& vr.rows@.len() == spec_view_frame(body)->Some_0.3.len()
    &&& (forall|i: int|
        0 <= i < spec_view_frame(body)->Some_0.3.len() ==> ((#[trigger] spec_row_frame(
            spec_view_frame(body)->Some_0.3[i],
        )) matches Some(rf) && vr.rows@[i].id@ == rf.0 && vr.rows@[i].key@ == rf.1))
}

/// Decodes a whole view page.  The paging metadata and each row's id
/// and key are pinned by the frame; values and documents are decoded
/// by their own types, and any failure there fails the page.
pub fn parse_view_results<V: JsonDecode, T: JsonDecode>(body: &Vec<u8>) -> (r: Option<
    ViewResults<V, T>,
>)
    ensures
        spec_view_frame(body@) is None ==> r is None,
        r matches Some(vr) ==> view_results_match_frame(&vr, body@),
{
    let m = match json::parse_object_document(body) {
        Some(m) => m,
        None => {
            return None;
        },
    };
    let offset = match get_usize(&m, "offset") {
        Some(v) => v,
        None => {
            return None;
        },
    };
    let total_rows = match get_usize(&m, "total_rows") {
        Some(v) => v,
        None => {
            return None;
        },
    };
    let update_seq: Option<String> = match json::obj_find(&m, "update_seq") {
        None => None,
        Some(JsonValue::Null) => None,
        Some(JsonValue::Str(b)) => match string_from_utf8(b.as_slice()) {
            Some(s) => Some(s),
            None => {
                return None;
            },
        },
        Some(_) => {
            return None;
        },
    };
    let elems = match json::obj_find(&m, "rows") {
        Some(JsonValue::Raw(b)) => match json::parse_array_at(b, 0) {
            Some((e, k)) => {
                let t = json::skip_ws(b, k);
                if t == b.len() {
                    e
                } else {
                    return None;
                }
            },
            None => {
                return None;
            },
        },
        _ => {
            return None;
        },
    };
    let mut rows: Vec<ViewRow<V, T>> = Vec::new();
    let mut k: usize = 0;
    while k < elems.len()
        invariant
            k <= elems@.len(),
            rows@.len() == k as int,
            forall|i: int|
                0 <= i < k ==> ((#[trigger] spec_row_frame(json::elems_view(elems@)[i])) matches Some(
                    rf,
                ) && rows@[i].id@ == rf.0 && rows@[i].key@ == rf.1),
        decreases elems@.len() - k,
    {
        let row = match parse_view_row::<V, T>(&elems[k]) {
            Some(row) => row,
            None => {
                return None;
            },
        };
        rows.push(row);
        k = k + 1;
    }
    Some(ViewResults { offset, total_rows, update_seq, rows })
}

} // verus!
