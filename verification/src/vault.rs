//! What the secret store answers to a login.

use vstd::prelude::*;

verus! {

/// The answer to a login: a lease and the token that it grants.
#[derive(Debug)]
pub struct VaultLogin {
    pub request_id: String,
    pub lease_id: String,
    pub renewable: bool,
    pub lease_duration: i64,
    pub auth: Auth,
}

/// The token that a login grants, and what it entitles to.
#[derive(Debug)]
pub struct Auth {
    pub client_token: String,
    pub accessor: String,
    pub policies: Vec<String>,
    pub token_policies: Vec<String>,
    pub metadata: Metadata,
    pub lease_duration: i64,
    pub renewable: bool,
    pub entity_id: String,
    pub token_type: String,
    pub orphan: bool,
}

/// Who has logged in.
#[derive(Debug)]
pub struct Metadata {
    pub org: String,
    pub username: String,
}

} // verus!
