//! Authentication credentials and their header rendering.

use crate::json::write_bytes;
use vstd::prelude::*;
use vstd::string::StringExecFns;
use vstd::utf8::encode_utf8;

verus! {

/// Zero or one authentication scheme.  The secret lives only as long
/// as the value; the crate never renders it in clear text outside the
/// Authorization header itself (diagnostic renderings substitute a
/// fixed marker, see `FutonRequest::render`).
#[derive(Clone, PartialEq, Eq)]
pub enum Credentials {
    Basic { username: String, password: String },
    Empty,
}

/// The mathematical model of [`Credentials`].
pub enum SpecCredentials {
    Basic { username: Seq<char>, password: Seq<char> },
    Empty,
}

impl View for Credentials {
    type V = SpecCredentials;

    open spec fn view(&self) -> SpecCredentials {
        match *self {
            Credentials::Basic { ref username, ref password } => SpecCredentials::Basic {
                username: username@,
                password: password@,
            },
            Credentials::Empty => SpecCredentials::Empty,
        }
    }
}

/// The result of a standard base64 rendering of the given bytes.
pub uninterp spec fn base64_of(bytes: Seq<u8>) -> Seq<char>;

/// Encodes bytes as base64.
///
/// Relies on `base64::encode`: the standard alphabet with padding, so
/// the output is four characters for every three input bytes begun.
#[verifier::external_body]
fn base64_encode(input: &Vec<u8>) -> (r: String)
    ensures
        r@ == base64_of(input@),
        r@.len() == 4 * ((input@.len() + 2) / 3),
{
    base64::encode(input)
}

/// The bytes that Basic authentication encodes: user, a colon, secret.
pub open spec fn basic_auth_input(username: Seq<char>, password: Seq<char>) -> Seq<u8> {
    encode_utf8(username) + seq![0x3Au8] + encode_utf8(password)
}

/// The value of the Authorization header for Basic credentials.
pub open spec fn basic_auth_value(username: Seq<char>, password: Seq<char>) -> Seq<char> {
    "Basic "@ + base64_of(basic_auth_input(username, password))
}

impl Credentials {
    /// Basic credentials for a username and password.
    pub fn basic(username: &str, password: &str) -> (r: Self)
        ensures
            r@ == (SpecCredentials::Basic { username: username@, password: password@ }),
    {
        Credentials::Basic { username: username.to_owned(), password: password.to_owned() }
    }

    /// No credentials.
    pub fn empty() -> (r: Self)
        ensures
            r@ is Empty,
    {
        Credentials::Empty
    }

    /// No credentials (the historical name).
    pub fn none() -> (r: Self)
        ensures
            r@ is Empty,
    {
        Credentials::Empty
    }

    /// The Authorization header these credentials add to a request:
    /// `Basic` with the base64 of `user:secret`, or nothing at all.
    pub fn header(&self) -> (r: Option<(String, String)>)
        ensures
            match self@ {
                SpecCredentials::Basic { username, password } => r matches Some(h) && h.0@
                    == "authorization"@ && h.1@ == basic_auth_value(username, password),
                SpecCredentials::Empty => r is None,
            },
    {
        match self {
            Credentials::Basic { username, password } => {
                let mut input: Vec<u8> = Vec::new();
                write_bytes(&mut input, username.as_str().as_bytes());
                input.push(0x3A);
                write_bytes(&mut input, password.as_str().as_bytes());
                proof {
                    assert(input@ =~= basic_auth_input(username@, password@));
                }
                let b64 = base64_encode(&input);
                let mut value = String::from_str("Basic ");
                value.append(b64.as_str());
                Some(("authorization".to_owned(), value))
            },
            Credentials::Empty => None,
        }
    }
}

impl Default for Credentials {
    /// Without a configured scheme there are no credentials.
    fn default() -> (r: Self)
        ensures
            r@ is Empty,
    {
        Credentials::Empty
    }
}

/// Duplicates credentials; the model is preserved.
pub fn clone_credentials(c: &Credentials) -> (r: Credentials)
    ensures
        r@ == c@,
{
    match c {
        Credentials::Basic { username, password } => Credentials::Basic {
            username: username.clone(),
            password: password.clone(),
        },
        Credentials::Empty => Credentials::Empty,
    }
}

} // verus!
