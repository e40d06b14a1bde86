//! Requests and responses of the REST API.
use vstd::prelude::*;

verus! {

/// Request to create a token.
pub struct CreateRequest {
    pub decimals: u8,
    pub name: String,
    pub symbol: String,
    pub description: String,
    pub is_frozen: bool,
    pub environment: String,
}

/// The generated files of a token.
pub struct CreateResponse {
    pub token: String,
    pub move_toml: String,
    pub test_token: String,
}

/// Request to verify the contract of a repository.
pub struct VerifyUrlRequest {
    pub url: String,
}

/// Request to verify a contract's content.
pub struct VerifyRequest {
    pub content: String,
}

} // verus!
