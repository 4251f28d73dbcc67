//! Building requests: method, URL, headers, query string and body.

use crate::body::FutonBody;
use crate::credentials::{Credentials, SpecCredentials};
use crate::text::{all_ascii, ascii_chars, ascii_lower_byte, ascii_to_string, str_eq};
use vstd::prelude::*;
use vstd::string::StringExecFns;
use vstd::string::StringSliceAdditionalSpecFns;
use vstd::utf8::{encode_utf8, valid_utf8, decode_utf8};

verus! {

/// The HTTP methods the protocol uses: the standard verbs plus the
/// server's non-standard `COPY`.
#[derive(Clone, Copy, PartialEq, Eq, Structural, Debug)]
pub enum Method {
    Get,
    Put,
    Post,
    Delete,
    Head,
    Copy,
}

impl Method {
    /// The wire name of the method, as it appears on the request line.
    pub fn as_str(self) -> (r: &'static str)
        ensures
            r@ == self.view(),
    {
        match self {
            Method::Get => "GET",
            Method::Put => "PUT",
            Method::Post => "POST",
            Method::Delete => "DELETE",
            Method::Head => "HEAD",
            Method::Copy => "COPY",
        }
    }

    /// Parses a method name; an unknown name is a request error.
    pub fn parse(s: &str) -> (r: Result<Method, RequestError>)
        ensures
            r matches Ok(m) ==> s@ == m.view(),
            r is Err ==> (r matches Err(RequestError::Method)) && s@ != Method::Get.view() && s@
                != Method::Put.view() && s@ != Method::Post.view() && s@
                != Method::Delete.view() && s@ != Method::Head.view() && s@
                != Method::Copy.view(),
    {
        if str_eq(s, "GET") {
            Ok(Method::Get)
        } else if str_eq(s, "PUT") {
            Ok(Method::Put)
        } else if str_eq(s, "POST") {
            Ok(Method::Post)
        } else if str_eq(s, "DELETE") {
            Ok(Method::Delete)
        } else if str_eq(s, "HEAD") {
            Ok(Method::Head)
        } else if str_eq(s, "COPY") {
            Ok(Method::Copy)
        } else {
            Err(RequestError::Method)
        }
    }
}

impl View for Method {
    type V = Seq<char>;

    open spec fn view(&self) -> Seq<char> {
        match *self {
            Method::Get => "GET"@,
            Method::Put => "PUT"@,
            Method::Post => "POST"@,
            Method::Delete => "DELETE"@,
            Method::Head => "HEAD"@,
            Method::Copy => "COPY"@,
        }
    }
}

/// A failure to build a well-formed request.  Each case is a caller
/// fault, reported before anything reaches the network.
#[derive(Clone, Copy, PartialEq, Eq, Structural, Debug)]
pub enum RequestError {
    /// The base URL could not be parsed.
    UrlParse,
    /// The method name is not one the protocol uses.
    Method,
    /// A header name is not a valid HTTP token.
    InvalidHeaderName,
    /// A header value holds bytes HTTP forbids.
    InvalidHeaderValue,
    /// A body could not be serialized as JSON.
    Json,
}

// ---------------------------------------------------------------------
// Percent-encoding of path segments and query pairs.
// ---------------------------------------------------------------------
/// Bytes written as themselves in a URL; all others are escaped.
pub open spec fn url_unreserved(b: u8) -> bool {
    (0x41 <= b <= 0x5A) || (0x61 <= b <= 0x7A) || (0x30 <= b <= 0x39) || b == 0x2D || b == 0x5F
        || b == 0x2E || b == 0x7E
}

/// The uppercase hex digit for a value below 16.
pub open spec fn spec_hex_upper(n: u8) -> u8 {
    if n < 10 {
        (0x30 + n) as u8
    } else {
        (0x37 + n) as u8
    }
}

/// How one byte is written in a URL component.
pub open spec fn spec_pct_byte(b: u8) -> Seq<u8> {
    if url_unreserved(b) {
        seq![b]
    } else {
        seq![0x25, spec_hex_upper(b / 16), spec_hex_upper(b % 16)]
    }
}

/// The percent-encoded form of a byte sequence.
pub open spec fn spec_pct(bytes: Seq<u8>) -> Seq<u8>
    decreases bytes.len(),
{
    if bytes.len() == 0 {
        Seq::empty()
    } else {
        spec_pct_byte(bytes[0]) + spec_pct(bytes.drop_first())
    }
}

/// Percent-encoding distributes over appending one byte.
proof fn lemma_pct_push(a: Seq<u8>, b: u8)
    ensures
        spec_pct(a.push(b)) == spec_pct(a) + spec_pct_byte(b),
    decreases a.len(),
{
    if a.len() == 0 {
        assert(a.push(b).drop_first() =~= a);
        assert(spec_pct(a.push(b)) =~= spec_pct(a) + spec_pct_byte(b));
    } else {
        assert(a.push(b).drop_first() =~= a.drop_first().push(b));
        lemma_pct_push(a.drop_first(), b);
        assert(spec_pct(a.push(b)) =~= spec_pct(a) + spec_pct_byte(b));
    }
}

/// The percent-encoded form of a string, as characters.
pub open spec fn pct_chars(s: Seq<char>) -> Seq<char> {
    ascii_chars(spec_pct(encode_utf8(s)))
}

/// Percent-encodes a string for use as a path segment or query part.
pub fn percent_encode(s: &str) -> (r: String)
    ensures
        r@ == pct_chars(s@),
{
    let bytes = s.as_bytes();
    let mut out: Vec<u8> = Vec::new();
    let mut k: usize = 0;
    proof {
        assert(spec_pct(bytes@.take(0)) =~= Seq::<u8>::empty());
        assert(out@ =~= Seq::<u8>::empty());
    }
    while k < bytes.len()
        invariant
            k <= bytes@.len(),
            out@ == spec_pct(bytes@.take(k as int)),
            all_ascii(out@),
        decreases bytes@.len() - k,
    {
        let b = *vstd::slice::slice_index_get(bytes, k);
        let ghost out0 = out@;
        if (0x41 <= b && b <= 0x5A) || (0x61 <= b && b <= 0x7A) || (0x30 <= b && b <= 0x39) || b
            == 0x2D || b == 0x5F || b == 0x2E || b == 0x7E {
            out.push(b);
        } else {
            out.push(0x25);
            let hi = b / 16;
            let lo = b % 16;
            out.push(if hi < 10 { 0x30 + hi } else { 0x37 + hi });
            out.push(if lo < 10 { 0x30 + lo } else { 0x37 + lo });
        }
        proof {
            assert(out@ =~= out0 + spec_pct_byte(bytes@[k as int]));
            lemma_pct_push(bytes@.take(k as int), bytes@[k as int]);
            assert(bytes@.take(k + 1) =~= bytes@.take(k as int).push(bytes@[k as int]));
        }
        k = k + 1;
    }
    proof {
        assert(bytes@.take(bytes@.len() as int) =~= bytes@);
    }
    ascii_to_string(out.as_slice())
}

// ---------------------------------------------------------------------
// Header names and values.
// ---------------------------------------------------------------------
/// The bytes HTTP accepts in a header name (the token characters,
/// uppercase letters included; names are normalized to lowercase).
pub open spec fn header_name_byte_ok(b: u8) -> bool {
    (0x61 <= b <= 0x7A) || (0x41 <= b <= 0x5A) || (0x30 <= b <= 0x39) || b == 0x21 || b == 0x22
        || b == 0x23 || b == 0x24 || b == 0x25 || b == 0x26 || b == 0x27 || b == 0x2A || b == 0x2B
        || b == 0x2D || b == 0x2E || b == 0x5E || b == 0x5F || b == 0x60 || b == 0x7C || b == 0x7E
}

/// A valid header name: one to 65535 token bytes.
pub open spec fn valid_header_name(bytes: Seq<u8>) -> bool {
    &&& 1 <= bytes.len() <= 65535
    &&& forall|i: int| 0 <= i < bytes.len() ==> header_name_byte_ok(#[trigger] bytes[i])
}

/// A header name normalized to lowercase.
pub open spec fn normal_header_name(bytes: Seq<u8>) -> Seq<u8> {
    bytes.map_values(|b: u8| ascii_lower_byte(b))
}

/// A valid header value: visible bytes, space and tab.
pub open spec fn valid_header_value(bytes: Seq<u8>) -> bool {
    forall|i: int| 0 <= i < bytes.len() ==> (#[trigger] bytes[i] >= 32 && bytes[i] != 127 || bytes[i] == 9)
}

/// Checks and normalizes a header name.
pub fn check_header_name(s: &str) -> (r: Option<String>)
    ensures
        r is Some <==> valid_header_name(s.spec_bytes()),
        r matches Some(n) ==> n@ == ascii_chars(normal_header_name(s.spec_bytes())),
{
    let bytes = s.as_bytes();
    if bytes.len() == 0 || bytes.len() > 65535 {
        return None;
    }
    let mut out: Vec<u8> = Vec::new();
    let mut k: usize = 0;
    while k < bytes.len()
        invariant
            bytes@ == s.spec_bytes(),
            k <= bytes@.len(),
            out@.len() == k as int,
            forall|i: int| 0 <= i < k ==> header_name_byte_ok(#[trigger] bytes@[i]),
            forall|i: int| 0 <= i < k ==> #[trigger] out@[i] == ascii_lower_byte(bytes@[i]),
        decreases bytes@.len() - k,
    {
        let b = *vstd::slice::slice_index_get(bytes, k);
        let ok = (0x61 <= b && b <= 0x7A) || (0x41 <= b && b <= 0x5A) || (0x30 <= b && b <= 0x39)
            || b == 0x21 || b == 0x22 || b == 0x23 || b == 0x24 || b == 0x25 || b == 0x26 || b
            == 0x27 || b == 0x2A || b == 0x2B || b == 0x2D || b == 0x2E || b == 0x5E || b == 0x5F
            || b == 0x60 || b == 0x7C || b == 0x7E;
        if !ok {
            proof {
                assert(bytes@ == s.spec_bytes());
                assert(!header_name_byte_ok(s.spec_bytes()[k as int]));
                assert(!valid_header_name(s.spec_bytes()));
            }
            return None;
        }
        if 0x41 <= b && b <= 0x5A {
            out.push(b + 0x20);
        } else {
            out.push(b);
        }
        k = k + 1;
    }
    proof {
        assert(out@ =~= normal_header_name(bytes@));
        assert forall|i: int| 0 <= i < out@.len() implies #[trigger] out@[i] < 0x80 by {
            assert(header_name_byte_ok(bytes@[i]));
        }
    }
    Some(ascii_to_string(out.as_slice()))
}

/// Checks a header value.
pub fn check_header_value(s: &str) -> (r: bool)
    ensures
        r == valid_header_value(s.spec_bytes()),
{
    let bytes = s.as_bytes();
    let mut k: usize = 0;
    while k < bytes.len()
        invariant
            bytes@ == s.spec_bytes(),
            k <= bytes@.len(),
            forall|i: int|
                0 <= i < k ==> (#[trigger] bytes@[i] >= 32 && bytes@[i] != 127 || bytes@[i] == 9),
        decreases bytes@.len() - k,
    {
        let b = *vstd::slice::slice_index_get(bytes, k);
        if !(b >= 32 && b != 127 || b == 9) {
            proof {
                assert(bytes@ == s.spec_bytes());
                assert(!(s.spec_bytes()[k as int] >= 32 && s.spec_bytes()[k as int] != 127
                    || s.spec_bytes()[k as int] == 9));
                assert(!valid_header_value(s.spec_bytes()));
            }
            return false;
        }
        k = k + 1;
    }
    true
}

/// The content-negotiation constants are valid header text, so the
/// request pipeline's own header never fails validation.
pub proof fn lemma_accept_header_valid()
    ensures
        valid_header_name("accept".spec_bytes()),
        valid_header_value("application/json".spec_bytes()),
        normal_header_name("accept".spec_bytes()) == "accept".spec_bytes(),
        crate::text::ascii_chars("accept".spec_bytes()) == "accept"@,
{
    reveal_strlit("accept");
    reveal_strlit("application/json");
    crate::text::lemma_ascii_encode("accept"@);
    crate::text::lemma_ascii_encode("application/json"@);
    assert forall|i: int| 0 <= i < "accept".spec_bytes().len() implies header_name_byte_ok(
        #[trigger] "accept".spec_bytes()[i],
    ) by {
        assert("accept".spec_bytes()[i] == "accept"@[i] as u8);
    }
    assert forall|i: int|
        0 <= i < "application/json".spec_bytes().len() implies (
    #[trigger] "application/json".spec_bytes()[i] >= 32 && "application/json".spec_bytes()[i]
        != 127 || "application/json".spec_bytes()[i] == 9) by {
        assert("application/json".spec_bytes()[i] == "application/json"@[i] as u8);
    }
    assert(normal_header_name("accept".spec_bytes()) =~= "accept".spec_bytes()) by {
        assert forall|i: int|
            0 <= i < "accept".spec_bytes().len() implies crate::text::ascii_lower_byte(
            #[trigger] "accept".spec_bytes()[i],
        ) == "accept".spec_bytes()[i] by {
            assert("accept".spec_bytes()[i] == "accept"@[i] as u8);
        }
    }
    assert(crate::text::ascii_chars("accept".spec_bytes()) =~= "accept"@) by {
        assert forall|i: int|
            0 <= i < "accept".spec_bytes().len() implies (#[trigger] "accept".spec_bytes()[i])
                as char == "accept"@[i] by {
            assert("accept".spec_bytes()[i] == "accept"@[i] as u8);
            assert(("accept"@[i] as u32) < 0x80);
            vstd::utf8::char_u32_cast("accept"@[i], ("accept"@[i] as u32));
        }
    }
}

// ---------------------------------------------------------------------
// The request and its model.
// ---------------------------------------------------------------------
/// The mathematical model of a request.
pub struct RequestModel {
    /// The URL origin, `scheme://host[:port]`.
    pub base: Seq<char>,
    /// The path segments, in order; each is percent-encoded when the
    /// URL is rendered.
    pub segments: Seq<Seq<char>>,
    /// The query pairs, in order.
    pub query: Seq<(Seq<char>, Seq<char>)>,
    pub method: Method,
    pub credentials: SpecCredentials,
    /// The extra headers, in insertion order, names lowercased.
    pub headers: Seq<(Seq<char>, Seq<char>)>,
    pub body: Seq<u8>,
}

/// An immutable request: method, URL parts, headers, credentials and
/// byte body, assembled once per call.
pub struct FutonRequest {
    base: String,
    segments: Vec<String>,
    query: Vec<(String, String)>,
    method: Method,
    credentials: Credentials,
    headers: Vec<(String, String)>,
    body: FutonBody,
}

/// The model of a list of strings.
pub open spec fn strings_view(v: Seq<String>) -> Seq<Seq<char>> {
    Seq::new(v.len(), |i: int| v[i]@)
}

/// The model of a list of string pairs.
pub open spec fn pairs_view(v: Seq<(String, String)>) -> Seq<(Seq<char>, Seq<char>)> {
    Seq::new(v.len(), |i: int| (v[i].0@, v[i].1@))
}

impl View for FutonRequest {
    type V = RequestModel;

    closed spec fn view(&self) -> RequestModel {
        RequestModel {
            base: self.base@,
            segments: strings_view(self.segments@),
            query: pairs_view(self.query@),
            method: self.method,
            credentials: self.credentials@,
            headers: pairs_view(self.headers@),
            body: self.body@,
        }
    }
}

// ---------------------------------------------------------------------
// URL rendering.
// ---------------------------------------------------------------------
/// The rendered path: percent-encoded segments joined by slashes.
pub open spec fn spec_path(segments: Seq<Seq<char>>) -> Seq<char>
    decreases segments.len(),
{
    if segments.len() == 0 {
        Seq::empty()
    } else if segments.len() == 1 {
        pct_chars(segments[0])
    } else {
        spec_path(segments.drop_last()) + seq!['/'] + pct_chars(segments.last())
    }
}

/// One rendered query pair.
pub open spec fn spec_query_item(k: Seq<char>, v: Seq<char>) -> Seq<char> {
    pct_chars(k) + seq!['='] + pct_chars(v)
}

/// The rendered query pairs joined by ampersands.
pub open spec fn spec_query_string(q: Seq<(Seq<char>, Seq<char>)>) -> Seq<char>
    decreases q.len(),
{
    if q.len() == 0 {
        Seq::empty()
    } else if q.len() == 1 {
        spec_query_item(q[0].0, q[0].1)
    } else {
        spec_query_string(q.drop_last()) + seq!['&'] + spec_query_item(q.last().0, q.last().1)
    }
}

/// The full URL: origin, slash, path, and the query when present.
pub open spec fn spec_url(m: RequestModel) -> Seq<char> {
    m.base + seq!['/'] + spec_path(m.segments) + (if m.query.len() == 0 {
        Seq::<char>::empty()
    } else {
        seq!['?'] + spec_query_string(m.query)
    })
}

impl FutonRequest {
    /// A fresh GET request against a base URL, which must be a
    /// well-formed absolute URL with a host; its origin alone is
    /// kept.  A path in the base URL is deliberately dropped: every
    /// operation replaces the whole path anyway, and keeping only the
    /// origin means credentials or paths in the base can never leak
    /// into a request line.
    pub fn new(url: &str) -> (r: Result<Self, RequestError>)
        ensures
            r matches Ok(req) ==> crate::url_origin_of(url@) matches Some(o) && req@ == (
            RequestModel {
                base: o,
                segments: Seq::empty(),
                query: Seq::empty(),
                method: Method::Get,
                credentials: SpecCredentials::Empty,
                headers: Seq::empty(),
                body: Seq::empty(),
            }),
            r is Err ==> (r matches Err(RequestError::UrlParse)) && crate::url_origin_of(url@)
                is None,
    {
        match crate::url_origin(url) {
            Some(origin) => {
                let req = FutonRequest {
                    base: origin,
                    segments: Vec::new(),
                    query: Vec::new(),
                    method: Method::Get,
                    credentials: Credentials::Empty,
                    headers: Vec::new(),
                    body: FutonBody::empty(),
                };
                proof {
                    assert(strings_view(req.segments@) =~= Seq::<Seq<char>>::empty());
                    assert(pairs_view(req.query@) =~= Seq::<(Seq<char>, Seq<char>)>::empty());
                    assert(pairs_view(req.headers@) =~= Seq::<(Seq<char>, Seq<char>)>::empty());
                }
                Ok(req)
            },
            None => Err(RequestError::UrlParse),
        }
    }

    /// A fresh GET request against an origin that is already known to
    /// be well-formed: the one a validated `Futon` or `Database` holds.
    pub(crate) fn from_origin(origin: &str) -> (r: Self)
        ensures
            r@ == (RequestModel {
                base: origin@,
                segments: Seq::empty(),
                query: Seq::empty(),
                method: Method::Get,
                credentials: SpecCredentials::Empty,
                headers: Seq::empty(),
                body: Seq::empty(),
            }),
    {
        let req = FutonRequest {
            base: origin.to_owned(),
            segments: Vec::new(),
            query: Vec::new(),
            method: Method::Get,
            credentials: Credentials::Empty,
            headers: Vec::new(),
            body: FutonBody::empty(),
        };
        proof {
            assert(strings_view(req.segments@) =~= Seq::<Seq<char>>::empty());
            assert(pairs_view(req.query@) =~= Seq::<(Seq<char>, Seq<char>)>::empty());
            assert(pairs_view(req.headers@) =~= Seq::<(Seq<char>, Seq<char>)>::empty());
        }
        req
    }

    /// Sets the method.
    pub fn method(self, m: Method) -> (r: Self)
        ensures
            r@ == (RequestModel { method: m, ..self@ }),
    {
        let mut s = self;
        s.method = m;
        s
    }

    /// Sets the credentials.
    pub fn credentials(self, credentials: Credentials) -> (r: Self)
        ensures
            r@ == (RequestModel { credentials: credentials@, ..self@ }),
    {
        let mut s = self;
        s.credentials = credentials;
        s
    }

    /// Appends one query pair.
    pub fn query_param(self, key: &str, value: &str) -> (r: Self)
        ensures
            r@ == (RequestModel { query: self@.query.push((key@, value@)), ..self@ }),
    {
        let mut s = self;
        let ghost q0 = pairs_view(s.query@);
        s.query.push((key.to_owned(), value.to_owned()));
        proof {
            assert(pairs_view(s.query@) =~= q0.push((key@, value@)));
        }
        s
    }

    /// Appends query pairs in order.
    pub fn query_params(self, params: &Vec<(String, String)>) -> (r: Self)
        ensures
            r@ == (RequestModel { query: self@.query + pairs_view(params@), ..self@ }),
    {
        let mut s = self;
        let ghost q0 = pairs_view(s.query@);
        let mut k: usize = 0;
        proof {
            assert(pairs_view(s.query@) =~= q0 + pairs_view(params@).take(0));
        }
        while k < params.len()
            invariant
                k <= params@.len(),
                pairs_view(s.query@) == q0 + pairs_view(params@).take(k as int),
                s.base == self.base,
                s.segments == self.segments,
                s.method == self.method,
                s.credentials == self.credentials,
                s.headers == self.headers,
                s.body == self.body,
            decreases params@.len() - k,
        {
            let ghost qk = pairs_view(s.query@);
            let (key, value) = (&params[k].0, &params[k].1);
            s.query.push((key.clone(), value.clone()));
            proof {
                assert(pairs_view(s.query@) =~= qk.push((params@[k as int].0@, params@[k
                    as int].1@)));
                assert(pairs_view(params@).take(k + 1) =~= pairs_view(params@).take(
                    k as int,
                ).push((params@[k as int].0@, params@[k as int].1@)));
                assert(pairs_view(s.query@) =~= q0 + pairs_view(params@).take(k + 1));
            }
            k = k + 1;
        }
        proof {
            assert(pairs_view(params@).take(params@.len() as int) =~= pairs_view(params@));
        }
        s
    }

    /// Appends one header, validating its name and value.  The name is
    /// normalized to lowercase, as HTTP requires.
    pub fn header(self, key: &str, value: &str) -> (r: Result<Self, RequestError>)
        ensures
            r matches Ok(req) ==> valid_header_name(key.spec_bytes()) && valid_header_value(
                value.spec_bytes(),
            ) && req@ == (RequestModel {
                headers: self@.headers.push(
                    (ascii_chars(normal_header_name(key.spec_bytes())), value@),
                ),
                ..self@
            }),
            r matches Err(e) ==> (e == RequestError::InvalidHeaderName && !valid_header_name(
                key.spec_bytes(),
            ) || e == RequestError::InvalidHeaderValue && valid_header_name(key.spec_bytes())
                && !valid_header_value(value.spec_bytes())),
    {
        let name = match check_header_name(key) {
            Some(n) => n,
            None => {
                return Err(RequestError::InvalidHeaderName);
            },
        };
        if !check_header_value(value) {
            return Err(RequestError::InvalidHeaderValue);
        }
        let mut s = self;
        let ghost h0 = pairs_view(s.headers@);
        let ghost nv = name@;
        s.headers.push((name, value.to_owned()));
        proof {
            assert(pairs_view(s.headers@) =~= h0.push((nv, value@)));
        }
        Ok(s)
    }

    /// Sets the raw body.
    pub fn body(self, body: FutonBody) -> (r: Self)
        ensures
            r@ == (RequestModel { body: body@, ..self@ }),
    {
        let mut s = self;
        s.body = body;
        s
    }

    /// Sets a JSON body: the given serialized bytes, with the JSON
    /// content type announced.
    pub fn json(self, body: Vec<u8>) -> (r: Self)
        ensures
            r@ == (RequestModel {
                body: body@,
                headers: self@.headers.push(("content-type"@, "application/json"@)),
                ..self@
            }),
    {
        let mut s = self;
        let ghost h0 = pairs_view(s.headers@);
        s.body = FutonBody::from_bytes(body);
        s.headers.push(("content-type".to_owned(), "application/json".to_owned()));
        proof {
            assert(pairs_view(s.headers@) =~= h0.push(("content-type"@, "application/json"@)));
        }
        s
    }

    /// Replaces the path with one segment.
    pub fn path(self, path: &str) -> (r: Self)
        ensures
            r@ == (RequestModel { segments: seq![path@], ..self@ }),
    {
        let mut s = self;
        let mut segments: Vec<String> = Vec::new();
        segments.push(path.to_owned());
        s.segments = segments;
        proof {
            assert(strings_view(s.segments@) =~= seq![path@]);
        }
        s
    }

    /// Selects the database: the path becomes its name alone.
    pub fn database(self, db: &str) -> (r: Self)
        ensures
            r@ == (RequestModel { segments: seq![db@], ..self@ }),
    {
        self.path(db)
    }

    /// Appends a document id to the path and, when a revision is
    /// given, a `rev` query parameter.  A database segment must have
    /// been set first: a document URL without one is a caller fault.
    pub fn document(self, id: &str, rev: Option<&str>) -> (r: Self)
        requires
            self@.segments.len() >= 1,
        ensures
            r@ == (RequestModel {
                segments: self@.segments.push(id@),
                query: match rev {
                    Some(rv) => self@.query.push(("rev"@, rv@)),
                    None => self@.query,
                },
                ..self@
            }),
    {
        let mut s = self;
        let ghost segs0 = strings_view(s.segments@);
        let ghost q0 = pairs_view(s.query@);
        s.segments.push(id.to_owned());
        proof {
            assert(strings_view(s.segments@) =~= segs0.push(id@));
        }
        match rev {
            Some(rv) => {
                s.query.push(("rev".to_owned(), rv.to_owned()));
                proof {
                    assert(pairs_view(s.query@) =~= q0.push(("rev"@, rv@)));
                }
            },
            None => {},
        }
        s
    }

    /// Scopes a view query to a partition: the partition name is
    /// inserted in the path just before the view segment.
    pub fn partition(self, partition: &str) -> (r: Self)
        requires
            self@.segments.len() >= 1,
        ensures
            r@ == (RequestModel {
                segments: self@.segments.drop_last().push(partition@).push(
                    self@.segments.last(),
                ),
                ..self@
            }),
    {
        let mut s = self;
        let ghost segs0 = strings_view(s.segments@);
        let last = match s.segments.pop() {
            Some(l) => l,
            None => {
                proof {
                    assert(false);
                }
                partition.to_owned()
            },
        };
        let ghost lastv = last@;
        s.segments.push(partition.to_owned());
        s.segments.push(last);
        proof {
            assert(strings_view(s.segments@) =~= segs0.drop_last().push(partition@).push(
                segs0.last(),
            ));
        }
        s
    }

    /// The method, for sending.
    pub fn get_method(&self) -> (r: Method)
        ensures
            r == self@.method,
    {
        self.method
    }

    /// The credentials, for sending.
    pub fn get_credentials(&self) -> (r: &Credentials)
        ensures
            r@ == self@.credentials,
    {
        &self.credentials
    }

    /// The extra headers, in insertion order.
    pub fn get_headers(&self) -> (r: &Vec<(String, String)>)
        ensures
            pairs_view(r@) == self@.headers,
    {
        &self.headers
    }

    /// The body.
    pub fn get_body(&self) -> (r: &FutonBody)
        ensures
            r@ == self@.body,
    {
        &self.body
    }

    /// Unwraps the body for sending.
    pub fn into_body(self) -> (r: FutonBody)
        ensures
            r@ == self@.body,
    {
        self.body
    }

    /// The full URL the request addresses.
    pub fn url_string(&self) -> (r: String)
        ensures
            r@ == spec_url(self@),
    {
        let mut out = String::new();
        out.append(self.base.as_str());
        out.append("/");
        let mut k: usize = 0;
        proof {
            reveal_strlit("/");
            assert(out@ =~= self@.base + seq!['/'] + spec_path(self@.segments.take(0)));
        }
        while k < self.segments.len()
            invariant
                k <= self.segments@.len(),
                out@ == self@.base + seq!['/'] + spec_path(strings_view(self.segments@).take(
                    k as int,
                )),
            decreases self.segments@.len() - k,
        {
            if k > 0 {
                out.append("/");
            }
            let enc = percent_encode(self.segments[k].as_str());
            out.append(enc.as_str());
            proof {
                reveal_strlit("/");
                let segs = strings_view(self.segments@);
                assert(segs.take(k + 1).drop_last() =~= segs.take(k as int));
                assert(segs.take(k + 1).last() == segs[k as int]);
                if k == 0 {
                    assert(spec_path(segs.take(1)) =~= pct_chars(segs[0]));
                    assert(out@ =~= self@.base + seq!['/'] + spec_path(segs.take(1)));
                } else {
                    assert(spec_path(segs.take(k + 1)) =~= spec_path(segs.take(k as int))
                        + seq!['/'] + pct_chars(segs[k as int]));
                    assert(out@ =~= self@.base + seq!['/'] + spec_path(segs.take(k + 1)));
                }
            }
            k = k + 1;
        }
        proof {
            assert(strings_view(self.segments@).take(self.segments@.len() as int)
                =~= strings_view(self.segments@));
        }
        if self.query.len() > 0 {
            out.append("?");
            let mut j: usize = 0;
            proof {
                reveal_strlit("?");
                assert(out@ =~= self@.base + seq!['/'] + spec_path(self@.segments) + seq!['?']
                    + spec_query_string(self@.query.take(0)));
            }
            while j < self.query.len()
                invariant
                    j <= self.query@.len(),
                    self.query@.len() > 0,
                    out@ == self@.base + seq!['/'] + spec_path(self@.segments) + seq!['?']
                        + spec_query_string(pairs_view(self.query@).take(j as int)),
                decreases self.query@.len() - j,
            {
                if j > 0 {
                    out.append("&");
                }
                let enck = percent_encode(self.query[j].0.as_str());
                out.append(enck.as_str());
                out.append("=");
                let encv = percent_encode(self.query[j].1.as_str());
                out.append(encv.as_str());
                proof {
                    reveal_strlit("&");
                    reveal_strlit("=");
                    let q = pairs_view(self.query@);
                    assert(q.take(j + 1).drop_last() =~= q.take(j as int));
                    assert(q.take(j + 1).last() == q[j as int]);
                    if j == 0 {
                        assert(spec_query_string(q.take(1)) =~= spec_query_item(
                            q[0].0,
                            q[0].1,
                        ));
                        assert(out@ =~= self@.base + seq!['/'] + spec_path(self@.segments)
                            + seq!['?'] + spec_query_string(q.take(1)));
                    } else {
                        assert(spec_query_string(q.take(j + 1)) =~= spec_query_string(q.take(
                            j as int,
                        )) + seq!['&'] + spec_query_item(q[j as int].0, q[j as int].1));
                        assert(out@ =~= self@.base + seq!['/'] + spec_path(self@.segments)
                            + seq!['?'] + spec_query_string(q.take(j + 1)));
                    }
                }
                j = j + 1;
            }
            proof {
                assert(pairs_view(self.query@).take(self.query@.len() as int) =~= pairs_view(
                    self.query@,
                ));
                assert(out@ =~= spec_url(self@));
            }
        } else {
            proof {
                assert(out@ =~= spec_url(self@));
            }
        }
        out
    }
}

// ---------------------------------------------------------------------
// Diagnostic rendering.
// ---------------------------------------------------------------------
/// The rendered header lines.
pub open spec fn spec_header_lines(headers: Seq<(Seq<char>, Seq<char>)>) -> Seq<char>
    decreases headers.len(),
{
    if headers.len() == 0 {
        Seq::empty()
    } else {
        spec_header_lines(headers.drop_last()) + seq!['\n'] + headers.last().0 + seq![':', ' ']
            + headers.last().1
    }
}

/// The diagnostic rendering of a request.  The credentials line never
/// holds the secret: a fixed redaction marker stands in for it.
pub open spec fn spec_render(m: RequestModel) -> Seq<char> {
    m.method.view() + seq![' '] + spec_url(m) + (match m.credentials {
        SpecCredentials::Basic { .. } => "\nauthorization: Basic [REDACTED]"@,
        SpecCredentials::Empty => Seq::<char>::empty(),
    }) + spec_header_lines(m.headers) + (if m.body.len() > 0 && valid_utf8(m.body) {
        "\n\n"@ + decode_utf8(m.body)
    } else {
        Seq::<char>::empty()
    })
}

impl FutonRequest {
    /// Renders the request for diagnostics.  The Authorization secret
    /// is replaced by a fixed marker and never rendered.
    pub fn render(&self) -> (r: String)
        ensures
            r@ == spec_render(self@),
    {
        let mut out = String::new();
        out.append(self.method.as_str());
        out.append(" ");
        let url = self.url_string();
        out.append(url.as_str());
        match &self.credentials {
            Credentials::Basic { .. } => {
                out.append("\nauthorization: Basic [REDACTED]");
            },
            Credentials::Empty => {},
        }
        proof {
            reveal_strlit(" ");
            assert(out@ =~= self@.method.view() + seq![' '] + spec_url(self@) + (
            match self@.credentials {
                SpecCredentials::Basic { .. } => "\nauthorization: Basic [REDACTED]"@,
                SpecCredentials::Empty => Seq::<char>::empty(),
            }) + spec_header_lines(self@.headers.take(0)));
        }
        let ghost head = out@;
        let mut k: usize = 0;
        while k < self.headers.len()
            invariant
                k <= self.headers@.len(),
                out@ == head + spec_header_lines(pairs_view(self.headers@).take(k as int)),
                head == self@.method.view() + seq![' '] + spec_url(self@) + (
                match self@.credentials {
                    SpecCredentials::Basic { .. } => "\nauthorization: Basic [REDACTED]"@,
                    SpecCredentials::Empty => Seq::<char>::empty(),
                }),
            decreases self.headers@.len() - k,
        {
            out.append("\n");
            out.append(self.headers[k].0.as_str());
            out.append(": ");
            out.append(self.headers[k].1.as_str());
            proof {
                reveal_strlit("\n");
                reveal_strlit(": ");
                let h = pairs_view(self.headers@);
                assert(h.take(k + 1).drop_last() =~= h.take(k as int));
                assert(h.take(k + 1).last() == h[k as int]);
                assert(spec_header_lines(h.take(k + 1)) =~= spec_header_lines(h.take(k as int))
                    + seq!['\n'] + h[k as int].0 + seq![':', ' '] + h[k as int].1);
                assert(out@ =~= head + spec_header_lines(h.take(k + 1)));
            }
            k = k + 1;
        }
        proof {
            assert(pairs_view(self.headers@).take(self.headers@.len() as int) =~= pairs_view(
                self.headers@,
            ));
        }
        if !self.body.is_empty() {
            match self.body.text() {
                Some(t) => {
                    out.append("\n\n");
                    out.append(t.as_str());
                },
                None => {},
            }
        }
        proof {
            reveal_strlit("\n\n");
            assert(out@ =~= spec_render(self@));
        }
        out
    }
}

} // verus!
