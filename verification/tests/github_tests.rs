use ghc::github::{
    authorization_header, authorization_value, repos_url, validate_token, FetchResponse, FetchStep, GithubError,
    RepoFetch, UserResponse,
};
use ghc::models::Repo;

fn repo(name: &str) -> Repo {
    Repo {
        full_name: name.to_string(),
        description: None,
        ssh_url: String::new(),
        clone_url: String::new(),
        archived: false,
        fork: false,
        private: false,
        stargazers_count: 0,
        forks_count: 0,
        updated_at: String::new(),
    }
}

fn transient() -> FetchResponse {
    FetchResponse::SendFailed {
        transient: true,
        detail: "connection refused".to_string(),
    }
}

#[test]
fn bearer_header() {
    assert_eq!(authorization_value("abc"), "Bearer abc");
}

#[test]
fn repo_page_urls() {
    assert_eq!(
        repos_url(1, true),
        "https://api.github.com/user/repos?per_page=100&page=1&affiliation=owner"
    );
    assert_eq!(
        repos_url(12, false),
        "https://api.github.com/user/repos?per_page=100&page=12&affiliation=owner,collaborator,organization_member"
    );
}

#[test]
fn fetch_collects_pages_until_empty() {
    let (mut f, url) = RepoFetch::start(false);
    assert!(url.ends_with("page=1&affiliation=owner,collaborator,organization_member"));
    match f.on_response(FetchResponse::Page {
        repos: vec![repo("a"), repo("b")],
    }) {
        FetchStep::Send { url } => assert!(url.contains("&page=2&")),
        _ => panic!("expected the next page"),
    }
    assert_eq!(f.page(), 2);
    match f.on_response(FetchResponse::Page {
        repos: vec![repo("c")],
    }) {
        FetchStep::Send { url } => assert!(url.contains("&page=3&")),
        _ => panic!("expected the next page"),
    }
    assert!(matches!(
        f.on_response(FetchResponse::Page { repos: vec![] }),
        FetchStep::Done
    ));
    let names: Vec<String> = f.into_repos().into_iter().map(|r| r.full_name).collect();
    assert_eq!(names, vec!["a", "b", "c"]);
}

#[test]
fn fetch_retries_twice_with_growing_delay() {
    let (mut f, _) = RepoFetch::start(true);
    match f.on_response(transient()) {
        FetchStep::Retry { delay_ms, url } => {
            assert_eq!(delay_ms, 600);
            assert!(url.contains("&page=1&"));
        }
        _ => panic!("expected a retry"),
    }
    assert!(matches!(
        f.on_response(transient()),
        FetchStep::Retry { delay_ms: 1200, .. }
    ));
    match f.on_response(transient()) {
        FetchStep::Failed { error } => assert_eq!(
            error.message(),
            "Failed to contact GitHub API (DNS/proxy/firewall?). Details: connection refused"
        ),
        _ => panic!("expected a failure"),
    }
}

#[test]
fn fetch_retry_count_resets_per_page() {
    let (mut f, _) = RepoFetch::start(true);
    assert!(matches!(f.on_response(transient()), FetchStep::Retry { .. }));
    assert!(matches!(
        f.on_response(FetchResponse::Page {
            repos: vec![repo("a")]
        }),
        FetchStep::Send { .. }
    ));
    assert!(matches!(
        f.on_response(transient()),
        FetchStep::Retry { delay_ms: 600, .. }
    ));
}

#[test]
fn fetch_permanent_failures() {
    let (mut f, _) = RepoFetch::start(true);
    let e = f.on_response(FetchResponse::SendFailed {
        transient: false,
        detail: "bad url".to_string(),
    });
    assert!(matches!(e, FetchStep::Failed { error: GithubError::Unreachable { .. } }));
    for (resp, msg) in [
        (
            FetchResponse::Unauthorized,
            "Authentication expired/invalid. Run `ghc login` again.",
        ),
        (FetchResponse::ErrorStatus, "GitHub API returned an error"),
        (FetchResponse::Unparsable, "Failed to parse GitHub API response"),
    ] {
        let (mut f, _) = RepoFetch::start(false);
        match f.on_response(resp) {
            FetchStep::Failed { error } => assert_eq!(error.message(), msg),
            _ => panic!("expected a failure"),
        }
    }
}

#[test]
fn user_check_outcomes() {
    assert!(validate_token(UserResponse::User).is_ok());
    let msg = |r| validate_token(r).unwrap_err().message();
    assert_eq!(
        msg(UserResponse::SendFailed),
        "Failed to contact https://api.github.com/user (network/DNS/proxy/firewall?)"
    );
    assert_eq!(
        msg(UserResponse::Unauthorized),
        "Authentication expired/invalid. Run `ghc login` again."
    );
    assert_eq!(msg(UserResponse::ErrorStatus), "GitHub API returned an error for /user");
    assert_eq!(msg(UserResponse::Unparsable), "Failed to parse GitHub /user response");
}

#[test]
fn authorization_header_accepts_plain_token() {
    let h = authorization_header("gho_abc123").unwrap();
    assert_eq!(h, reqwest::header::HeaderValue::from_static("Bearer gho_abc123"));
    assert_eq!(h.to_str().unwrap(), "Bearer gho_abc123");
    let t = authorization_header("tab\tand spaces").unwrap();
    assert_eq!(t.as_bytes(), b"Bearer tab\tand spaces");
    assert!(authorization_header("caf\u{e9}").is_ok());
    assert_eq!(authorization_header("").unwrap().as_bytes(), b"Bearer ");
}

#[test]
fn authorization_header_refuses_control_characters() {
    for token in ["abc\n", "a\rb", "\u{7f}", "x\u{0}y", "\u{1b}[0m"] {
        let e = authorization_header(token).unwrap_err();
        assert!(matches!(e, GithubError::InvalidHeader));
        assert_eq!(e.message(), "failed to parse header value");
    }
}
