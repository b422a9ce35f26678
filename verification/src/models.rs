//! The records that the GitHub API and the local token store exchange.
use vstd::prelude::*;

verus! {

/// One repository as the GitHub API lists it.
#[derive(Debug, Clone)]
pub struct Repo {
    /// `owner/name`.
    pub full_name: String,
    pub description: Option<String>,
    pub ssh_url: String,
    pub clone_url: String,
    pub archived: bool,
    pub fork: bool,
    pub private: bool,
    pub stargazers_count: u64,
    pub forks_count: u64,
    /// ISO 8601 time stamp, so that its text order is its time order.
    pub updated_at: String,
}

/// The authenticated user, as `GET /user` answers.
#[derive(Debug)]
pub struct GitHubUser {
    pub login: String,
}

/// What the local token file holds.
#[derive(Debug)]
pub struct StoredAuth {
    pub github_token: String,
}

/// The answer to the device-code request of the OAuth device flow.
#[derive(Debug)]
pub struct DeviceCodeResponse {
    pub device_code: String,
    pub user_code: String,
    pub verification_uri: String,
    pub expires_in: u64,
    pub interval: Option<u64>,
}

/// A successful answer to a token poll.
#[derive(Debug)]
pub struct TokenOkResponse {
    pub access_token: String,
    pub token_type: String,
    pub scope: String,
}

/// A refusing answer to a token poll.
#[derive(Debug)]
pub struct TokenErrResponse {
    pub error: String,
    pub error_description: Option<String>,
}

} // verus!
