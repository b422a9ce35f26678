//! Where the GitHub token comes from, and the decisions of the OAuth device
//! flow that obtains one.
use vstd::prelude::*;
use vstd::string::*;
use crate::models::DeviceCodeResponse;
use crate::text::{chars_of, string_of, trim_chars, trimmed, TrimSet};

verus! {

broadcast use vstd::string::group_string_axioms;

/// The OAuth client id that the program is registered with.
pub open spec fn default_client_id() -> Seq<char> {
    "Ov23liadwk2DQHKgANja"@
}

/// The placeholder that an unconfigured build carries as its client id.
pub open spec fn client_id_placeholder() -> Seq<char> {
    "PASTE_YOUR_CLIENT_ID_HERE"@
}

/// `Some` of the trimmed text where that is not empty.
pub open spec fn nonblank(v: Option<Seq<char>>) -> Option<Seq<char>> {
    match v {
        Some(t) => if trimmed(t, TrimSet::WhiteSpace).len() > 0 {
            Some(trimmed(t, TrimSet::WhiteSpace))
        } else {
            None
        },
        None => None,
    }
}

/// The characters of an optional text.
pub open spec fn opt_view(v: Option<&str>) -> Option<Seq<char>> {
    match v {
        Some(s) => Some(s@),
        None => None,
    }
}

/// The trimmed text of `v`, where it is not blank.
fn nonblank_text(v: Option<&str>) -> (r: Option<String>)
    ensures
        match r {
            Some(s) => nonblank(opt_view(v)) == Some(s@),
            None => nonblank(opt_view(v)) is None,
        },
{
    match v {
        Some(s) => {
            let t = trim_chars(&chars_of(s), TrimSet::WhiteSpace);
            if t.len() > 0 {
                Some(string_of(&t))
            } else {
                None
            }
        },
        None => None,
    }
}

/// The OAuth client id: the value of `GHC_GITHUB_CLIENT_ID` (given as
/// `env_value`), trimmed, where it is not blank; the registered id otherwise.
pub fn github_client_id(env_value: Option<&str>) -> (id: String)
    ensures
        id@ == match nonblank(opt_view(env_value)) {
            Some(t) => t,
            None => default_client_id(),
        },
{
    match nonblank_text(env_value) {
        Some(t) => t,
        None => String::from_str("Ov23liadwk2DQHKgANja"),
    }
}

/// Why no token could be had.
#[derive(Debug, Clone, Copy, PartialEq, Eq, Structural)]
pub enum AuthError {
    /// Neither the environment nor the token file holds a token.
    NotAuthenticated,
}

impl AuthError {
    /// The text that the error is reported with.
    pub fn message(&self) -> (m: &'static str)
        ensures
            m@ == "Not authenticated. Run `ghc login` or set GITHUB_TOKEN."@,
    {
        "Not authenticated. Run `ghc login` or set GITHUB_TOKEN."
    }
}

/// Whether `GITHUB_TOKEN` (given as `env_token`) holds a token: set, and
/// not blank. Where it does, neither the token nor the status needs the
/// token file.
pub fn env_token_set(env_token: Option<&str>) -> (b: bool)
    ensures
        b == nonblank(opt_view(env_token)) is Some,
{
    nonblank_text(env_token).is_some()
}

/// The token to use: `GITHUB_TOKEN` from the environment (`env_token`), else
/// the stored token, each trimmed and only where not blank.
pub fn resolve_token(env_token: Option<&str>, stored_token: Option<&str>) -> (r: Result<String, AuthError>)
    ensures
        match r {
            Ok(t) => Some(t@) == (match nonblank(opt_view(env_token)) {
                Some(e) => Some(e),
                None => nonblank(opt_view(stored_token)),
            }),
            Err(e) => e == AuthError::NotAuthenticated && nonblank(opt_view(env_token)) is None
                && nonblank(opt_view(stored_token)) is None,
        },
{
    if let Some(t) = nonblank_text(env_token) {
        return Ok(t);
    }
    if let Some(t) = nonblank_text(stored_token) {
        return Ok(t);
    }
    Err(AuthError::NotAuthenticated)
}

/// The auth status line: whether `GITHUB_TOKEN` is set (not blank), else
/// where the stored token is, else how to log in.
pub open spec fn auth_status_text(env_token: Option<Seq<char>>, stored_at: Option<Seq<char>>) -> Seq<char> {
    if nonblank(env_token) is Some {
        "Auth: GITHUB_TOKEN (env) is set."@
    } else {
        match stored_at {
            Some(p) => "Auth: stored token at "@ + p,
            None => "Auth: not logged in. Run `ghc login` or set GITHUB_TOKEN."@,
        }
    }
}

/// The auth status line for the environment's `GITHUB_TOKEN` and, where a
/// token is stored, the path of the token file.
pub fn auth_status(env_token: Option<&str>, stored_at: Option<&str>) -> (line: String)
    ensures
        line@ == auth_status_text(opt_view(env_token), opt_view(stored_at)),
{
    if nonblank_text(env_token).is_some() {
        return String::from_str("Auth: GITHUB_TOKEN (env) is set.");
    }
    match stored_at {
        Some(p) => {
            let mut line = String::from_str("Auth: stored token at ");
            line.append(p);
            line
        },
        None => String::from_str("Auth: not logged in. Run `ghc login` or set GITHUB_TOKEN."),
    }
}

// ------------------------------------------------------------------
// The device flow
// ------------------------------------------------------------------

/// Why a login failed.
#[derive(Debug)]
pub enum LoginError {
    /// No OAuth client id is configured.
    ClientIdMissing,
    /// The device code ran out before the user approved.
    TimedOut,
    /// The user denied access in the browser.
    AccessDenied,
    /// GitHub reports the device code expired.
    DeviceCodeExpired,
    /// GitHub reports another error.
    Failed { error: String, description: Option<String> },
}

/// The text a login error is reported with.
pub open spec fn login_error_text(e: LoginError) -> Seq<char> {
    match e {
        LoginError::ClientIdMissing => "OAuth client id is not configured. Set DEFAULT_GITHUB_CLIENT_ID in source or set GHC_GITHUB_CLIENT_ID for this session."@,
        LoginError::TimedOut => "Login timed out. Please run `ghc login` again."@,
        LoginError::AccessDenied => "Access denied in browser."@,
        LoginError::DeviceCodeExpired => "Device code expired. Please run `ghc login` again."@,
        LoginError::Failed { error, description } => "Login failed: "@ + error@ + match description {
            Some(d) => " ("@ + d@ + ")"@,
            None => Seq::empty(),
        },
    }
}

impl LoginError {
    /// The text that the error is reported with.
    pub fn message(&self) -> (m: String)
        ensures
            m@ == login_error_text(*self),
    {
        match self {
            LoginError::ClientIdMissing => String::from_str(
                "OAuth client id is not configured. Set DEFAULT_GITHUB_CLIENT_ID in source or set GHC_GITHUB_CLIENT_ID for this session.",
            ),
            LoginError::TimedOut => String::from_str("Login timed out. Please run `ghc login` again."),
            LoginError::AccessDenied => String::from_str("Access denied in browser."),
            LoginError::DeviceCodeExpired => String::from_str(
                "Device code expired. Please run `ghc login` again.",
            ),
            LoginError::Failed { error, description } => {
                let mut m = String::from_str("Login failed: ");
                m.append(error.as_str());
                match description {
                    Some(d) => {
                        m.append(" (");
                        m.append(d.as_str());
                        m.append(")");
                    },
                    None => {},
                }
                m
            },
        }
    }
}

/// The client id is usable: not blank and not the placeholder.
pub open spec fn client_id_usable(id: Seq<char>) -> bool {
    trimmed(id, TrimSet::WhiteSpace).len() > 0 && id != client_id_placeholder()
}

/// Refuses a client id that is blank or the placeholder.
pub fn check_client_id(id: &str) -> (r: Result<(), LoginError>)
    ensures
        r is Ok <==> client_id_usable(id@),
        r matches Err(e) ==> e is ClientIdMissing,
{
    let t = trim_chars(&chars_of(id), TrimSet::WhiteSpace);
    let placeholder = String::from_str("PASTE_YOUR_CLIENT_ID_HERE");
    let given = String::from_str(id);
    if t.len() == 0 || given == placeholder {
        Err(LoginError::ClientIdMissing)
    } else {
        Ok(())
    }
}

/// The lines that tell the user where to enter the code.
pub open spec fn instruction_lines(verification_uri: Seq<char>, user_code: Seq<char>) -> Seq<Seq<char>> {
    seq![
        "Open this URL in your browser:"@,
        verification_uri,
        "(If that doesn't open, use: https://github.com/login/device)"@,
        Seq::empty(),
        "And enter this code:"@,
        user_code,
        Seq::empty(),
    ]
}

/// The lines that tell the user where to enter the code of `dc`.
pub fn device_instructions(dc: &DeviceCodeResponse) -> (lines: Vec<String>)
    ensures
        lines@.map_values(|l: String| l@) == instruction_lines(dc.verification_uri@, dc.user_code@),
{
    let mut lines: Vec<String> = Vec::new();
    lines.push(String::from_str("Open this URL in your browser:"));
    lines.push(dc.verification_uri.clone());
    lines.push(String::from_str("(If that doesn't open, use: https://github.com/login/device)"));
    lines.push(String::new());
    lines.push(String::from_str("And enter this code:"));
    lines.push(dc.user_code.clone());
    lines.push(String::new());
    assert(lines@.map_values(|l: String| l@) =~= instruction_lines(dc.verification_uri@, dc.user_code@));
    lines
}

/// What a token poll answered.
pub enum PollResponse {
    /// The answer holds an access token.
    Token { access_token: String },
    /// The answer is an OAuth error.
    Refused { error: String, description: Option<String> },
    /// The answer is neither.
    Unreadable,
}

/// What happened at a turn of the polling loop.
pub enum PollEvent {
    /// The device code's lifetime had passed before the poll was due.
    DeadlinePassed,
    /// The poll was sent and answered.
    Answered(PollResponse),
}

/// What to do after a token poll.
pub enum PollAction {
    /// Store this token: the login succeeded.
    Store { token: String },
    /// Wait this many seconds, then poll again.
    Wait { seconds: u64 },
    /// The login failed.
    Fail { error: LoginError },
}

/// The polling state of a device flow: how long to wait between polls.
pub struct DeviceFlow {
    pub interval: u64,
}

/// The error code of a poll answer; an unreadable answer counts as
/// `unknown_error`.
pub open spec fn poll_error(r: PollResponse) -> Seq<char> {
    match r {
        PollResponse::Token { .. } => Seq::empty(),
        PollResponse::Refused { error, .. } => error@,
        PollResponse::Unreadable => "unknown_error"@,
    }
}

/// The description that comes with a poll error.
pub open spec fn poll_description(r: PollResponse) -> Option<String> {
    match r {
        PollResponse::Refused { description, .. } => description,
        _ => None,
    }
}

/// What a poll answer leads to: the token is stored; `authorization_pending`
/// waits the interval and `slow_down` five seconds more; `access_denied` and
/// `expired_token` fail with their own errors; any other error fails with its
/// code and description.
pub open spec fn poll_outcome(flow: DeviceFlow, r: PollResponse, a: PollAction) -> bool {
    match r {
        PollResponse::Token { access_token } => a == PollAction::Store { token: access_token },
        _ => {
            let e = poll_error(r);
            if e == "authorization_pending"@ {
                a == PollAction::Wait { seconds: flow.interval }
            } else if e == "slow_down"@ {
                a == PollAction::Wait { seconds: (flow.interval + 5) as u64 }
            } else if e == "access_denied"@ {
                a matches PollAction::Fail { error: LoginError::AccessDenied }
            } else if e == "expired_token"@ {
                a matches PollAction::Fail { error: LoginError::DeviceCodeExpired }
            } else {
                a matches PollAction::Fail { error: LoginError::Failed { error, description } }
                    && error@ == e && description == poll_description(r)
            }
        },
    }
}

impl DeviceFlow {
    /// The flow for a device code: polls every `interval` seconds, 5 where
    /// GitHub gives none.
    pub fn new(dc: &DeviceCodeResponse) -> (f: DeviceFlow)
        ensures
            f.interval == match dc.interval {
                Some(i) => i,
                None => 5,
            },
    {
        DeviceFlow {
            interval: match dc.interval {
                Some(i) => i,
                None => 5,
            },
        }
    }

    /// The action for a turn of the polling loop: a passed deadline fails
    /// the login, an answer leads where `poll_outcome` says.
    pub fn on_poll(&self, ev: PollEvent) -> (a: PollAction)
        requires
            ev matches PollEvent::Answered(r) && poll_error(r) == "slow_down"@ ==> self.interval
                <= u64::MAX - 5,
        ensures
            match ev {
                PollEvent::DeadlinePassed => a matches PollAction::Fail { error: LoginError::TimedOut },
                PollEvent::Answered(r) => poll_outcome(*self, r, a),
            },
    {
        let r = match ev {
            PollEvent::DeadlinePassed => {
                return PollAction::Fail { error: LoginError::TimedOut };
            },
            PollEvent::Answered(r) => r,
        };
        let ghost r0 = r;
        let (error, description) = match r {
            PollResponse::Token { access_token } => {
                return PollAction::Store { token: access_token };
            },
            PollResponse::Refused { error, description } => (error, description),
            PollResponse::Unreadable => (String::from_str("unknown_error"), None),
        };
        assert(error@ == poll_error(r0) && description == poll_description(r0));
        if error == String::from_str("authorization_pending") {
            PollAction::Wait { seconds: self.interval }
        } else if error == String::from_str("slow_down") {
            PollAction::Wait { seconds: self.interval + 5 }
        } else if error == String::from_str("access_denied") {
            PollAction::Fail { error: LoginError::AccessDenied }
        } else if error == String::from_str("expired_token") {
            PollAction::Fail { error: LoginError::DeviceCodeExpired }
        } else {
            PollAction::Fail { error: LoginError::Failed { error, description } }
        }
    }
}

/// Polling never runs faster than GitHub asks: every wait after an answer
/// is at least the interval, and after `slow_down` five seconds more.
pub proof fn lemma_waits_at_least_interval(flow: DeviceFlow, r: PollResponse, a: PollAction)
    requires
        poll_error(r) == "slow_down"@ ==> flow.interval <= u64::MAX - 5,
        poll_outcome(flow, r, a),
    ensures
        match a {
            PollAction::Wait { seconds } => seconds >= flow.interval && (poll_error(r) == "slow_down"@
                ==> seconds == flow.interval + 5),
            _ => true,
        },
{
    reveal_strlit("slow_down");
    reveal_strlit("authorization_pending");
    assert("slow_down"@ != "authorization_pending"@) by {
        assert("slow_down"@.len() != "authorization_pending"@.len());
    }
}

/// `authorization_pending` and `slow_down` keep the login polling, whatever
/// description comes with them: the first waits the interval, the second
/// five seconds more.
pub proof fn lemma_pending_keeps_polling(flow: DeviceFlow, error: String, description: Option<String>, a: PollAction)
    requires
        poll_outcome(flow, (PollResponse::Refused { error, description }), a),
        error@ == "authorization_pending"@ || error@ == "slow_down"@,
    ensures
        error@ == "authorization_pending"@ ==> a == (PollAction::Wait { seconds: flow.interval }),
        error@ == "slow_down"@ ==> a == (PollAction::Wait { seconds: (flow.interval + 5) as u64 }),
{
    reveal_strlit("slow_down");
    reveal_strlit("authorization_pending");
    assert("slow_down"@ != "authorization_pending"@) by {
        assert("slow_down"@.len() != "authorization_pending"@.len());
    }
}

/// A token in the answer is stored as it came; `access_denied` and
/// `expired_token` end the login with their own errors whatever the
/// description says; any other error code ends it with that code and the
/// description as they came; an answer that cannot be read counts as
/// `unknown_error`.
pub proof fn lemma_poll_answers(flow: DeviceFlow, r: PollResponse, a: PollAction)
    requires
        poll_outcome(flow, r, a),
    ensures
        r matches PollResponse::Token { access_token } ==> a == (PollAction::Store { token: access_token }),
        r matches PollResponse::Refused { error, .. } && error@ == "access_denied"@ ==> a == (PollAction::Fail {
            error: LoginError::AccessDenied,
        }),
        r matches PollResponse::Refused { error, .. } && error@ == "expired_token"@ ==> a == (PollAction::Fail {
            error: LoginError::DeviceCodeExpired,
        }),
        r is Refused && r->Refused_error@ != "authorization_pending"@ && r->Refused_error@ != "slow_down"@
            && r->Refused_error@ != "access_denied"@ && r->Refused_error@ != "expired_token"@ ==> (a matches PollAction::Fail {
            error: LoginError::Failed { error: e, description: d },
        } && e@ == r->Refused_error@ && d == r->Refused_description),
        r is Unreadable ==> (a matches PollAction::Fail { error: LoginError::Failed { error: e, description: None } }
            && e@ == "unknown_error"@),
{
    reveal_strlit("slow_down");
    reveal_strlit("authorization_pending");
    reveal_strlit("access_denied");
    reveal_strlit("expired_token");
    reveal_strlit("unknown_error");
    assert("access_denied"@ != "authorization_pending"@) by {
        assert("access_denied"@.len() != "authorization_pending"@.len());
    }
    assert("access_denied"@ != "slow_down"@) by {
        assert("access_denied"@.len() != "slow_down"@.len());
    }
    assert("expired_token"@ != "authorization_pending"@) by {
        assert("expired_token"@.len() != "authorization_pending"@.len());
    }
    assert("expired_token"@ != "slow_down"@) by {
        assert("expired_token"@.len() != "slow_down"@.len());
    }
    assert("expired_token"@ != "access_denied"@) by {
        assert("expired_token"@[0] != "access_denied"@[0]);
    }
    assert("unknown_error"@ != "authorization_pending"@) by {
        assert("unknown_error"@.len() != "authorization_pending"@.len());
    }
    assert("unknown_error"@ != "slow_down"@) by {
        assert("unknown_error"@.len() != "slow_down"@.len());
    }
    assert("unknown_error"@ != "access_denied"@) by {
        assert("unknown_error"@[0] != "access_denied"@[0]);
    }
    assert("unknown_error"@ != "expired_token"@) by {
        assert("unknown_error"@[0] != "expired_token"@[0]);
    }
}

} // verus!
