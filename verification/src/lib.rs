//! A typed client for a CouchDB-style document database.
//!
//! The crate models the request/response pipeline of such a database:
//! building authenticated HTTP requests, interpreting status codes and
//! JSON error payloads, and enforcing the revision-token protocol that
//! the server uses for optimistic concurrency.

pub mod body;
pub mod client;
pub mod credentials;
pub mod db;
pub mod ddoc;
pub mod document;
pub mod error;
pub mod json;
pub mod laws;
pub mod meta;
pub mod params;
pub mod records;
pub mod request;
pub mod response;
pub mod text;

use vstd::prelude::*;

verus! {

/// The origin (`scheme://host[:port]`) of a URL string, when the
/// string is a well-formed URL with a real host.
pub uninterp spec fn url_origin_of(s: Seq<char>) -> Option<Seq<char>>;

/// The username part of a URL string, when the string parses.
pub uninterp spec fn url_username_of(s: Seq<char>) -> Option<Seq<char>>;

/// The password part of a URL string, when the string parses and one
/// is present.
pub uninterp spec fn url_password_of(s: Seq<char>) -> Option<Seq<char>>;

/// Extracts the origin of a URL.
///
/// Relies on `url::Url::parse` to accept exactly the well-formed
/// URLs, and on `Url::origin` for the `scheme://host[:port]` prefix;
/// a URL without a host (an opaque origin) yields nothing.
#[verifier::external_body]
pub(crate) fn url_origin(s: &str) -> (r: Option<String>)
    ensures
        (match r {
            Some(o) => Some(o@),
            None => None,
        }) == url_origin_of(s@),
{
    match url::Url::parse(s) {
        Ok(u) => {
            let origin = u.origin();
            match origin {
                url::Origin::Tuple(..) => Some(origin.ascii_serialization()),
                url::Origin::Opaque(_) => None,
            }
        },
        Err(_) => None,
    }
}

/// Extracts the username of a URL.
///
/// Relies on `url::Url::username`; an absent username is the empty
/// string, as the url crate documents.
#[verifier::external_body]
pub(crate) fn url_username(s: &str) -> (r: Option<String>)
    ensures
        (match r {
            Some(u) => Some(u@),
            None => None,
        }) == url_username_of(s@),
{
    match url::Url::parse(s) {
        Ok(u) => Some(u.username().to_owned()),
        Err(_) => None,
    }
}

/// Extracts the password of a URL.
///
/// Relies on `url::Url::password`.
#[verifier::external_body]
pub(crate) fn url_password(s: &str) -> (r: Option<String>)
    ensures
        (match r {
            Some(p) => Some(p@),
            None => None,
        }) == url_password_of(s@),
{
    match url::Url::parse(s) {
        Ok(u) => u.password().map(|p| p.to_owned()),
        Err(_) => None,
    }
}

/// The standard reason phrase of a status code, if it has one.
pub uninterp spec fn reason_phrase_of(status: u16) -> Option<Seq<char>>;

/// Looks up the standard reason phrase of a status code.
///
/// Relies on `http::StatusCode::from_u16` and `canonical_reason`: a
/// registered code yields its canonical phrase, any other yields
/// nothing.
#[verifier::external_body]
pub(crate) fn canonical_reason(status: u16) -> (r: Option<String>)
    ensures
        (match r {
            Some(p) => Some(p@),
            None => None,
        }) == reason_phrase_of(status),
{
    match http::StatusCode::from_u16(status) {
        Ok(s) => s.canonical_reason().map(|p| p.to_owned()),
        Err(_) => None,
    }
}

/// The credentials a URL's userinfo names: Basic exactly when both a
/// non-empty username and a password are present.
pub open spec fn spec_userinfo_credentials(
    username: Option<Seq<char>>,
    password: Option<Seq<char>>,
) -> credentials::SpecCredentials {
    match (username, password) {
        (Some(u), Some(p)) => {
            if u.len() > 0 {
                credentials::SpecCredentials::Basic { username: u, password: p }
            } else {
                credentials::SpecCredentials::Empty
            }
        },
        _ => credentials::SpecCredentials::Empty,
    }
}

/// Builds credentials from a URL's userinfo.
pub fn credentials_from_userinfo(username: Option<String>, password: Option<String>) -> (r:
    credentials::Credentials)
    ensures
        r@ == spec_userinfo_credentials(
            match username {
                Some(ref u) => Some(u@),
                None => None,
            },
            match password {
                Some(ref p) => Some(p@),
                None => None,
            },
        ),
{
    match (username, password) {
        (Some(u), Some(p)) => {
            if u.as_str().is_empty() {
                credentials::Credentials::Empty
            } else {
                credentials::Credentials::Basic { username: u, password: p }
            }
        },
        _ => credentials::Credentials::Empty,
    }
}

/// The client's entry point: one server, one set of credentials, one
/// injected transport.
pub struct Futon<C: client::Client> {
    client: C,
    url: String,
    credentials: credentials::Credentials,
}

impl<C: client::Client> Futon<C> {
    /// The origin addressed, as the contracts see it.
    pub closed spec fn url_view(&self) -> Seq<char> {
        self.url@
    }

    /// The credentials in use, as the contracts see it.
    pub closed spec fn credentials_view(&self) -> credentials::SpecCredentials {
        self.credentials@
    }

    /// A client of the server at the given URL, with the transport
    /// injected.  Credentials found in the URL's userinfo are taken
    /// up; the stored URL is the bare origin, so the secret never
    /// reappears in a request line.
    pub fn new(url: &str, transport: C) -> (r: error::FutonResult<Futon<C>>)
        ensures
            r matches Ok(f) ==> (url_origin_of(url@) matches Some(o) && f.url_view() == o
                && f.credentials_view() == spec_userinfo_credentials(
                url_username_of(url@),
                url_password_of(url@),
            )),
            r is Err ==> url_origin_of(url@) is None,
    {
        let origin = match url_origin(url) {
            Some(o) => o,
            None => {
                return Err(error::FutonError::Url(url.to_owned()));
            },
        };
        let credentials = credentials_from_userinfo(url_username(url), url_password(url));
        Ok(Futon { client: transport, url: origin, credentials })
    }

    /// A client with explicit credentials; any userinfo in the URL is
    /// discarded in their favour.
    pub fn new_with_credentials(
        url: &str,
        credentials: credentials::Credentials,
        transport: C,
    ) -> (r: error::FutonResult<Futon<C>>)
        ensures
            r matches Ok(f) ==> (url_origin_of(url@) matches Some(o) && f.url_view() == o
                && f.credentials_view() == credentials@),
            r is Err ==> url_origin_of(url@) is None,
    {
        let origin = match url_origin(url) {
            Some(o) => o,
            None => {
                return Err(error::FutonError::Url(url.to_owned()));
            },
        };
        Ok(Futon { client: transport, url: origin, credentials })
    }

    /// Server-level operations, carrying this client's origin and
    /// credentials.
    pub fn meta(&self) -> (r: meta::Meta<C>)
        ensures
            r.base_view() == self.url_view(),
            r.credentials_view() == self.credentials_view(),
    {
        meta::Meta::new(
            self.client.clone(),
            self.url.clone(),
            credentials::clone_credentials(&self.credentials),
        )
    }

    /// A handle on the named database, validated before any request
    /// and carrying this client's origin and credentials.
    pub fn db(&self, name: &str) -> (r: error::FutonResult<db::Database<C>>)
        ensures
            r matches Ok(d) ==> db::valid_db_name(name@) && d.name_view() == name@
                && d.base_view() == self.url_view() && d.credentials_view()
                == self.credentials_view(),
            r matches Err(e) ==> !db::valid_db_name(name@) && (e@ matches
                error::SpecFutonError::InvalidDatabaseName(n) && n == name@),
    {
        db::Database::new(
            self.client.clone(),
            self.url.clone(),
            name,
            credentials::clone_credentials(&self.credentials),
        )
    }
}

} // verus!
