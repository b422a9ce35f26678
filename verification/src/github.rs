//! The decisions around the GitHub API: the authorization header, the
//! check of the token against `/user`, and the paged, retried fetch of the
//! repository list.
use vstd::prelude::*;
use vstd::string::*;
use crate::models::Repo;
use crate::text::{chars_of, decimal, push_decimal, push_str_chars, string_of};
use reqwest::header::{HeaderValue, InvalidHeaderValue};

verus! {

broadcast use vstd::string::group_string_axioms;

/// The `Authorization` header value for a token.
pub fn authorization_value(token: &str) -> (v: String)
    ensures
        v@ == "Bearer "@ + token@,
{
    let mut v = String::from_str("Bearer ");
    v.append(token);
    v
}

/// A value of an HTTP header (`http`'s `HeaderValue`, as reqwest names it).
#[verifier::external_type_specification]
#[verifier::external_body]
pub struct ExHeaderValue(HeaderValue);

/// The error `HeaderValue::from_str` gives for a text that cannot stand in a
/// header.
#[verifier::external_type_specification]
#[verifier::external_body]
pub struct ExInvalidHeaderValue(InvalidHeaderValue);

/// A character that may stand in an HTTP header value: a tab, or any
/// character from the space on but DEL. (A character beyond ASCII is encoded
/// in bytes from 128 on, all of which may stand there.)
pub open spec fn header_char_ok(c: char) -> bool {
    c == '\t' || (c as u32 >= 32 && c as u32 != 127)
}

/// Every character of `s` may stand in an HTTP header value.
pub open spec fn header_value_ok(s: Seq<char>) -> bool {
    forall|i: int| 0 <= i < s.len() ==> header_char_ok(#[trigger] s[i])
}

/// Calls `HeaderValue::from_str`, which, as the `http` crate's source shows,
/// checks every byte of the text's UTF-8 encoding (a tab, or 32 to 255 but
/// 127) and gives `Ok` exactly when all of them pass. What the value holds
/// (the text's bytes) is left unsaid: the type is opaque here.
#[verifier::external_body]
fn header_value(s: &str) -> (r: Result<HeaderValue, InvalidHeaderValue>)
    ensures
        r is Ok <==> header_value_ok(s@),
{
    HeaderValue::from_str(s)
}

/// The `Authorization` header for a token: `Bearer ` and the token, refused
/// where a character of the token cannot stand in a header value.
pub fn authorization_header(token: &str) -> (r: Result<HeaderValue, GithubError>)
    ensures
        r is Ok <==> header_value_ok("Bearer "@ + token@),
        r is Err ==> r->Err_0 == GithubError::InvalidHeader,
{
    let v = authorization_value(token);
    match header_value(v.as_str()) {
        Ok(h) => Ok(h),
        Err(_) => Err(GithubError::InvalidHeader),
    }
}

/// Why a GitHub API call failed.
#[derive(Debug)]
pub enum GithubError {
    /// The repository list could not be requested.
    Unreachable { detail: String },
    /// `/user` could not be requested.
    UserUnreachable,
    /// The token was refused (401).
    Unauthorized,
    /// The repository list request answered with another error status.
    ApiError,
    /// `/user` answered with another error status.
    UserApiError,
    /// The repository list answer could not be read.
    BadResponse,
    /// The `/user` answer could not be read.
    UserBadResponse,
    /// The token cannot stand in the `Authorization` header.
    InvalidHeader,
}

/// The text a GitHub error is reported with.
pub open spec fn github_error_text(e: GithubError) -> Seq<char> {
    match e {
        GithubError::Unreachable { detail } => "Failed to contact GitHub API (DNS/proxy/firewall?). Details: "@ + detail@,
        GithubError::UserUnreachable => "Failed to contact https://api.github.com/user (network/DNS/proxy/firewall?)"@,
        GithubError::Unauthorized => "Authentication expired/invalid. Run `ghc login` again."@,
        GithubError::ApiError => "GitHub API returned an error"@,
        GithubError::UserApiError => "GitHub API returned an error for /user"@,
        GithubError::BadResponse => "Failed to parse GitHub API response"@,
        GithubError::UserBadResponse => "Failed to parse GitHub /user response"@,
        GithubError::InvalidHeader => "failed to parse header value"@,
    }
}

impl GithubError {
    /// The text that the error is reported with.
    pub fn message(&self) -> (m: String)
        ensures
            m@ == github_error_text(*self),
    {
        match self {
            GithubError::Unreachable { detail } => {
                let mut m = String::from_str("Failed to contact GitHub API (DNS/proxy/firewall?). Details: ");
                m.append(detail.as_str());
                m
            },
            GithubError::UserUnreachable => String::from_str(
                "Failed to contact https://api.github.com/user (network/DNS/proxy/firewall?)",
            ),
            GithubError::Unauthorized => String::from_str(
                "Authentication expired/invalid. Run `ghc login` again.",
            ),
            GithubError::ApiError => String::from_str("GitHub API returned an error"),
            GithubError::UserApiError => String::from_str("GitHub API returned an error for /user"),
            GithubError::BadResponse => String::from_str("Failed to parse GitHub API response"),
            GithubError::UserBadResponse => String::from_str("Failed to parse GitHub /user response"),
            GithubError::InvalidHeader => String::from_str("failed to parse header value"),
        }
    }
}

/// How a request to `/user` went.
#[derive(Clone, Copy, Debug, PartialEq, Eq, Structural)]
pub enum UserResponse {
    /// The request could not be sent or answered.
    SendFailed,
    /// The answer was 401.
    Unauthorized,
    /// The answer was another error status.
    ErrorStatus,
    /// The answer was not a user.
    Unparsable,
    /// The answer was the user.
    User,
}

/// Whether the token passed the `/user` check, and if not, why.
pub fn validate_token(r: UserResponse) -> (res: Result<(), GithubError>)
    ensures
        match r {
            UserResponse::SendFailed => res matches Err(GithubError::UserUnreachable),
            UserResponse::Unauthorized => res matches Err(GithubError::Unauthorized),
            UserResponse::ErrorStatus => res matches Err(GithubError::UserApiError),
            UserResponse::Unparsable => res matches Err(GithubError::UserBadResponse),
            UserResponse::User => res is Ok,
        },
{
    match r {
        UserResponse::SendFailed => Err(GithubError::UserUnreachable),
        UserResponse::Unauthorized => Err(GithubError::Unauthorized),
        UserResponse::ErrorStatus => Err(GithubError::UserApiError),
        UserResponse::Unparsable => Err(GithubError::UserBadResponse),
        UserResponse::User => Ok(()),
    }
}

// ------------------------------------------------------------------
// The repository fetch
// ------------------------------------------------------------------

/// The address of one page of the user's repositories: 100 per page, own
/// repositories only or also those of collaborations and organizations.
pub open spec fn repos_url_text(page: u32, owned_only: bool) -> Seq<char> {
    "https://api.github.com/user/repos?per_page=100&page="@ + decimal(page as nat) + if owned_only {
        "&affiliation=owner"@
    } else {
        "&affiliation=owner,collaborator,organization_member"@
    }
}

/// The address of page `page` of the user's repositories.
pub fn repos_url(page: u32, owned_only: bool) -> (url: String)
    ensures
        url@ == repos_url_text(page, owned_only),
{
    let mut v = chars_of("https://api.github.com/user/repos?per_page=100&page=");
    push_decimal(&mut v, page as u64);
    if owned_only {
        push_str_chars(&mut v, "&affiliation=owner");
    } else {
        push_str_chars(&mut v, "&affiliation=owner,collaborator,organization_member");
    }
    string_of(&v)
}

/// How a request for a page of repositories went.
pub enum FetchResponse {
    /// The request could not be sent or answered; `transient` for failures
    /// to connect, time-outs and request errors.
    SendFailed { transient: bool, detail: String },
    /// The answer was 401.
    Unauthorized,
    /// The answer was another error status.
    ErrorStatus,
    /// The answer was not a repository list.
    Unparsable,
    /// The answer was this page of repositories.
    Page { repos: Vec<Repo> },
}

/// What to do next in the fetch.
pub enum FetchStep {
    /// Request this address.
    Send { url: String },
    /// Wait this many milliseconds, then request this address again.
    Retry { delay_ms: u64, url: String },
    /// The fetch failed.
    Failed { error: GithubError },
    /// All pages are in.
    Done,
}

/// The most times one page is requested.
pub open spec fn max_attempts() -> u32 {
    3
}

/// The paged fetch of the repository list: the page being fetched, how many
/// times it has been requested, and the repositories of the earlier pages.
pub struct RepoFetch {
    owned_only: bool,
    page: u32,
    attempt: u32,
    repos: Vec<Repo>,
}

/// The fetch's state as values.
pub struct FetchState {
    pub owned_only: bool,
    pub page: u32,
    pub attempt: u32,
    pub repos: Seq<Repo>,
}

impl View for RepoFetch {
    type V = FetchState;

    closed spec fn view(&self) -> FetchState {
        FetchState { owned_only: self.owned_only, page: self.page, attempt: self.attempt, repos: self.repos@ }
    }
}

/// Pages count from 1, and a page is requested at least once and at most
/// three times.
pub open spec fn fetch_consistent(s: FetchState) -> bool {
    &&& s.page >= 1
    &&& 1 <= s.attempt <= max_attempts()
}

/// What an answer does to the fetch. A transient failure is retried after
/// 600 ms times the requests made so far, while fewer than three were made;
/// other failures end the fetch with their error. A non-empty page is kept
/// and the next page is requested; an empty page ends the fetch.
pub open spec fn fetch_transition(s: FetchState, r: FetchResponse, t: FetchState, step: FetchStep) -> bool {
    match r {
        FetchResponse::SendFailed { transient, detail } => if transient && s.attempt < max_attempts() {
            &&& t == FetchState { attempt: (s.attempt + 1) as u32, ..s }
            &&& step matches FetchStep::Retry { delay_ms, url }
            &&& delay_ms == 600 * s.attempt
            &&& url@ == repos_url_text(s.page, s.owned_only)
        } else {
            &&& t == s
            &&& step matches FetchStep::Failed { error: GithubError::Unreachable { detail: d } }
            &&& d == detail
        },
        FetchResponse::Unauthorized => t == s && (step matches FetchStep::Failed { error: GithubError::Unauthorized }),
        FetchResponse::ErrorStatus => t == s && (step matches FetchStep::Failed { error: GithubError::ApiError }),
        FetchResponse::Unparsable => t == s && (step matches FetchStep::Failed { error: GithubError::BadResponse }),
        FetchResponse::Page { repos } => if repos@.len() == 0 {
            t == s && step is Done
        } else {
            &&& t == FetchState { page: (s.page + 1) as u32, attempt: 1, repos: s.repos + repos@, ..s }
            &&& step matches FetchStep::Send { url }
            &&& url@ == repos_url_text(t.page, s.owned_only)
        },
    }
}

impl RepoFetch {
    /// The fetch holds together.
    pub open spec fn wf(&self) -> bool {
        fetch_consistent(self@)
    }

    /// Starts a fetch: the first page, requested once, and its address.
    pub fn start(owned_only: bool) -> (r: (RepoFetch, String))
        ensures
            r.0.wf(),
            r.0@ == (FetchState { owned_only, page: 1, attempt: 1, repos: Seq::empty() }),
            r.1@ == repos_url_text(1, owned_only),
    {
        let f = RepoFetch { owned_only, page: 1, attempt: 1, repos: Vec::new() };
        (f, repos_url(1, owned_only))
    }

    /// Takes in the answer to the last request.
    pub fn on_response(&mut self, r: FetchResponse) -> (step: FetchStep)
        requires
            old(self).wf(),
            r matches FetchResponse::Page { repos } && repos@.len() > 0 ==> old(self)@.page < u32::MAX,
        ensures
            final(self).wf(),
            fetch_transition(old(self)@, r, final(self)@, step),
    {
        match r {
            FetchResponse::SendFailed { transient, detail } => {
                if transient && self.attempt < 3 {
                    let delay_ms = 600 * (self.attempt as u64);
                    self.attempt = self.attempt + 1;
                    FetchStep::Retry { delay_ms, url: repos_url(self.page, self.owned_only) }
                } else {
                    FetchStep::Failed { error: GithubError::Unreachable { detail } }
                }
            },
            FetchResponse::Unauthorized => FetchStep::Failed { error: GithubError::Unauthorized },
            FetchResponse::ErrorStatus => FetchStep::Failed { error: GithubError::ApiError },
            FetchResponse::Unparsable => FetchStep::Failed { error: GithubError::BadResponse },
            FetchResponse::Page { repos } => {
                if repos.len() == 0 {
                    FetchStep::Done
                } else {
                    let mut batch = repos;
                    self.repos.append(&mut batch);
                    self.page = self.page + 1;
                    self.attempt = 1;
                    FetchStep::Send { url: repos_url(self.page, self.owned_only) }
                }
            },
        }
    }

    /// The page being fetched.
    pub fn page(&self) -> (p: u32)
        ensures
            p == self@.page,
    {
        self.page
    }

    /// The repositories of all pages taken in.
    pub fn into_repos(self) -> (v: Vec<Repo>)
        ensures
            v@ == self@.repos,
    {
        self.repos
    }
}

/// A page is requested at most three times: once three requests for it
/// have failed, a further failure ends the fetch, however transient.
pub proof fn lemma_retries_bounded(s: FetchState, r: FetchResponse, t: FetchState, step: FetchStep)
    requires
        fetch_consistent(s),
        s.attempt == max_attempts(),
        r is SendFailed,
        fetch_transition(s, r, t, step),
    ensures
        step is Failed,
        t == s,
{
}

/// Every answer keeps the fetch consistent, and the repositories taken in
/// only grow, page after page in the order they came.
pub proof fn lemma_fetch_keeps_pages(s: FetchState, r: FetchResponse, t: FetchState, step: FetchStep)
    requires
        fetch_consistent(s),
        r matches FetchResponse::Page { repos } && repos@.len() > 0 ==> s.page < u32::MAX,
        fetch_transition(s, r, t, step),
    ensures
        fetch_consistent(t),
        s.repos.is_prefix_of(t.repos),
        r matches FetchResponse::Page { repos } ==> t.repos == s.repos + repos@,
{
    assert(s.repos =~= t.repos.subrange(0, s.repos.len() as int));
}

/// Every request of a fetch asks for the repositories it was started for:
/// the next page after a full one, and the same page on a retry, both with
/// the affiliation chosen at the start (own repositories only, or also those
/// of collaborations and organizations), which no answer changes.
pub proof fn lemma_requests_keep_affiliation(s: FetchState, r: FetchResponse, t: FetchState, step: FetchStep)
    requires
        fetch_transition(s, r, t, step),
    ensures
        t.owned_only == s.owned_only,
        step matches FetchStep::Send { url } ==> url@ == repos_url_text((s.page + 1) as u32, s.owned_only),
        step matches FetchStep::Retry { url, .. } ==> url@ == repos_url_text(s.page, s.owned_only),
{
}

/// A retry asks for the same page again after 600 ms for every request of
/// it made so far, and counts one request more; the repositories taken in
/// stay as they were.
pub proof fn lemma_retry_backoff(s: FetchState, r: FetchResponse, t: FetchState, step: FetchStep)
    requires
        fetch_transition(s, r, t, step),
        step is Retry,
    ensures
        step->Retry_delay_ms == 600 * s.attempt,
        t.attempt == s.attempt + 1,
        t.page == s.page,
        t.repos == s.repos,
        r matches FetchResponse::SendFailed { transient, .. } && transient,
{
}

} // verus!
