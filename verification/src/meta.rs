//! Server-level status and identity.

use crate::client::{json_request, Client};
use crate::credentials::{clone_credentials, Credentials};
use crate::error::{FutonError, FutonResult};
use crate::records::ServerInstanceInfo;
use crate::request::{FutonRequest, Method};
use vstd::prelude::*;

verus! {

/// Server-level operations: liveness and identity.
pub struct Meta<C: Client> {
    client: C,
    base: String,
    credentials: Credentials,
}

impl<C: Client> Meta<C> {
    /// The client the handle sends through, as the contracts see it.
    pub closed spec fn client_view(&self) -> C {
        self.client
    }

    /// The base origin, as the contracts see it.
    pub closed spec fn base_view(&self) -> Seq<char> {
        self.base@
    }

    /// The credentials, as the contracts see it.
    pub closed spec fn credentials_view(&self) -> crate::credentials::SpecCredentials {
        self.credentials@
    }

    /// Server-level operations against the given origin: the handle
    /// carries exactly the given client, base and credentials.
    pub fn new(client: C, base: String, credentials: Credentials) -> (r: Self)
        ensures
            r.client_view() == client,
            r.base_view() == base@,
            r.credentials_view() == credentials@,
    {
        Meta { client, base, credentials }
    }

    /// Whether the server answers its liveness endpoint with success:
    /// the answer is some response's status read by `is_success`.
    pub fn is_up(&self) -> (r: FutonResult<bool>)
        ensures
            r matches Ok(b) ==> exists|rm: crate::response::ResponseModel|
                b == (200 <= (#[trigger] rm.status) < 300),
            r matches Err(e) ==> e@ is Client,
    {
        let req = FutonRequest::from_origin(self.base.as_str()).credentials(
            clone_credentials(&self.credentials),
        ).path("_up").method(Method::Head);
        let mut client = self.client.clone();
        match client.call(req) {
            Ok(res) => {
                let b = res.is_success();
                proof {
                    assert(b == (200 <= res@.status < 300));
                }
                Ok(b)
            },
            Err(e) => Err(FutonError::Client(e)),
        }
    }

    /// The server's identity record, decoded from some successfully
    /// classified response.
    pub fn server_info(&self) -> (r: FutonResult<ServerInstanceInfo>)
        ensures
            r matches Ok(info) ==> exists|body: Seq<u8>|
                crate::client::success_body(body) && (#[trigger] crate::records::spec_server_info(
                    body,
                )) == Some(crate::records::server_info_view(&info)),
            r matches Err(e) ==> e@ is Json || crate::client::classified_error_of(e@),
    {
        let req = FutonRequest::from_origin(self.base.as_str()).credentials(
            clone_credentials(&self.credentials),
        );
        let mut client = self.client.clone();
        let body = match json_request(&mut client, req, Method::Get, None) {
            Ok(b) => b,
            Err(e) => {
                return Err(e);
            },
        };
        let out = match ServerInstanceInfo::parse(body.bytes()) {
            Some(info) => Ok(info),
            None => Err(FutonError::Json),
        };
        proof {
            assert(out matches Ok(info) ==> crate::records::spec_server_info(body@) == Some(
                crate::records::server_info_view(&info),
            ));
        }
        out
    }
}

} // verus!
