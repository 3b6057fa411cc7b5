//! The client: where requests are sent and with which credentials.

use vstd::prelude::*;

verus! {

/// Connection settings of one account: the service endpoint (such as
/// `oss-cn-hangzhou.aliyuncs.com`), the region that signatures are scoped to
/// (such as `cn-hangzhou`), and the access key pair.
#[derive(Debug, Clone)]
pub struct Client {
    endpoint: String,
    region: String,
    access_key_id: String,
    access_key_secret: String,
}

impl Client {
    pub closed spec fn spec_endpoint(&self) -> Seq<char> {
        self.endpoint@
    }

    pub closed spec fn spec_region(&self) -> Seq<char> {
        self.region@
    }

    pub closed spec fn spec_access_key_id(&self) -> Seq<char> {
        self.access_key_id@
    }

    pub closed spec fn spec_access_key_secret(&self) -> Seq<char> {
        self.access_key_secret@
    }

    pub fn new(endpoint: &str, region: &str, access_key_id: &str, access_key_secret: &str) -> (r:
        Client)
        ensures
            r.spec_endpoint() == endpoint@,
            r.spec_region() == region@,
            r.spec_access_key_id() == access_key_id@,
            r.spec_access_key_secret() == access_key_secret@,
    {
        Client {
            endpoint: endpoint.to_owned(),
            region: region.to_owned(),
            access_key_id: access_key_id.to_owned(),
            access_key_secret: access_key_secret.to_owned(),
        }
    }

    pub fn endpoint(&self) -> (r: &str)
        ensures
            r@ == self.spec_endpoint(),
    {
        self.endpoint.as_str()
    }

    pub fn region(&self) -> (r: &str)
        ensures
            r@ == self.spec_region(),
    {
        self.region.as_str()
    }

    pub(crate) fn access_key_id(&self) -> (r: &str)
        ensures
            r@ == self.spec_access_key_id(),
    {
        self.access_key_id.as_str()
    }

    pub(crate) fn access_key_secret(&self) -> (r: &str)
        ensures
            r@ == self.spec_access_key_secret(),
    {
        self.access_key_secret.as_str()
    }
}

} // verus!
