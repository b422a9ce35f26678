use ghc::auth::{
    auth_status, check_client_id, device_instructions, env_token_set, github_client_id,
    resolve_token, AuthError, DeviceFlow, LoginError, PollAction, PollEvent, PollResponse,
};
use ghc::models::DeviceCodeResponse;

fn dc(interval: Option<u64>) -> DeviceCodeResponse {
    DeviceCodeResponse {
        device_code: "dev".to_string(),
        user_code: "ABCD-1234".to_string(),
        verification_uri: "https://github.com/login/device".to_string(),
        expires_in: 900,
        interval,
    }
}

fn refused(error: &str, description: Option<&str>) -> PollEvent {
    PollEvent::Answered(PollResponse::Refused {
        error: error.to_string(),
        description: description.map(|d| d.to_string()),
    })
}

fn fail_message(a: PollAction) -> String {
    match a {
        PollAction::Fail { error } => error.message(),
        _ => panic!("expected a failure"),
    }
}

#[test]
fn client_id_from_environment_or_default() {
    assert_eq!(github_client_id(None), "Ov23liadwk2DQHKgANja");
    assert_eq!(github_client_id(Some("   ")), "Ov23liadwk2DQHKgANja");
    assert_eq!(github_client_id(Some(" my-id \n")), "my-id");
}

#[test]
fn client_id_check() {
    assert!(check_client_id("Ov23liadwk2DQHKgANja").is_ok());
    assert!(matches!(check_client_id(" \t"), Err(LoginError::ClientIdMissing)));
    assert!(matches!(
        check_client_id("PASTE_YOUR_CLIENT_ID_HERE"),
        Err(LoginError::ClientIdMissing)
    ));
    assert_eq!(
        LoginError::ClientIdMissing.message(),
        "OAuth client id is not configured. Set DEFAULT_GITHUB_CLIENT_ID in source or set GHC_GITHUB_CLIENT_ID for this session."
    );
}

#[test]
fn token_from_environment_wins() {
    assert_eq!(resolve_token(Some(" env "), Some("stored")).unwrap(), "env");
}

#[test]
fn token_falls_back_to_stored() {
    assert_eq!(resolve_token(None, Some(" stored\n")).unwrap(), "stored");
    assert_eq!(resolve_token(Some("  "), Some("stored")).unwrap(), "stored");
}

#[test]
fn no_token_is_an_error() {
    assert_eq!(resolve_token(None, None), Err(AuthError::NotAuthenticated));
    assert_eq!(resolve_token(Some(""), Some(" ")), Err(AuthError::NotAuthenticated));
    assert_eq!(
        AuthError::NotAuthenticated.message(),
        "Not authenticated. Run `ghc login` or set GITHUB_TOKEN."
    );
}

#[test]
fn env_token_presence() {
    assert!(env_token_set(Some("t")));
    assert!(!env_token_set(Some(" \t ")));
    assert!(!env_token_set(None));
}

#[test]
fn auth_status_lines() {
    assert_eq!(auth_status(Some("t"), Some("/x")), "Auth: GITHUB_TOKEN (env) is set.");
    assert_eq!(auth_status(Some(" "), Some("/cfg/auth.json")), "Auth: stored token at /cfg/auth.json");
    assert_eq!(
        auth_status(None, None),
        "Auth: not logged in. Run `ghc login` or set GITHUB_TOKEN."
    );
}

#[test]
fn device_instruction_lines() {
    assert_eq!(
        device_instructions(&dc(None)),
        vec![
            "Open this URL in your browser:".to_string(),
            "https://github.com/login/device".to_string(),
            "(If that doesn't open, use: https://github.com/login/device)".to_string(),
            String::new(),
            "And enter this code:".to_string(),
            "ABCD-1234".to_string(),
            String::new(),
        ]
    );
}

#[test]
fn device_flow_interval_defaults_to_five() {
    assert_eq!(DeviceFlow::new(&dc(None)).interval, 5);
    assert_eq!(DeviceFlow::new(&dc(Some(9))).interval, 9);
}

#[test]
fn poll_token_is_stored() {
    let f = DeviceFlow::new(&dc(None));
    let a = f.on_poll(PollEvent::Answered(PollResponse::Token {
        access_token: "gho_x".to_string(),
    }));
    assert!(matches!(a, PollAction::Store { token } if token == "gho_x"));
}

#[test]
fn poll_pending_and_slow_down_wait() {
    let f = DeviceFlow::new(&dc(Some(7)));
    assert!(matches!(
        f.on_poll(refused("authorization_pending", None)),
        PollAction::Wait { seconds: 7 }
    ));
    assert!(matches!(
        f.on_poll(refused("slow_down", None)),
        PollAction::Wait { seconds: 12 }
    ));
}

#[test]
fn poll_errors_fail() {
    let f = DeviceFlow::new(&dc(None));
    assert_eq!(fail_message(f.on_poll(refused("access_denied", None))), "Access denied in browser.");
    assert_eq!(
        fail_message(f.on_poll(refused("expired_token", None))),
        "Device code expired. Please run `ghc login` again."
    );
    assert_eq!(
        fail_message(f.on_poll(refused("incorrect_client_credentials", Some("bad id")))),
        "Login failed: incorrect_client_credentials (bad id)"
    );
    assert_eq!(
        fail_message(f.on_poll(PollEvent::Answered(PollResponse::Unreadable))),
        "Login failed: unknown_error"
    );
    assert_eq!(
        fail_message(f.on_poll(PollEvent::DeadlinePassed)),
        "Login timed out. Please run `ghc login` again."
    );
}
