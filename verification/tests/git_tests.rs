use ghc::cli::CloneProtocol;
use ghc::exit_codes::ExitCode;
use ghc::git::{build_clone_url, clone_report, normalize_repo_spec, repo_clone_url, CloneRun};
use ghc::git_ops::clone_status;
use ghc::models::Repo;

fn norm(s: &str) -> Option<String> {
    normalize_repo_spec(s).ok()
}

#[test]
fn normalize_plain_owner_repo() {
    assert_eq!(norm("owner/repo").as_deref(), Some("owner/repo"));
    assert_eq!(norm("  owner/repo \n").as_deref(), Some("owner/repo"));
}

#[test]
fn normalize_https_url() {
    assert_eq!(norm("https://github.com/owner/repo").as_deref(), Some("owner/repo"));
    assert_eq!(norm("https://github.com/owner/repo.git").as_deref(), Some("owner/repo"));
    assert_eq!(norm("https://github.com/owner/repo/").as_deref(), Some("owner/repo"));
    assert_eq!(norm("\thttps://github.com/owner/repo.git  ").as_deref(), Some("owner/repo"));
}

#[test]
fn normalize_ssh_url() {
    assert_eq!(norm("git@github.com:owner/repo.git").as_deref(), Some("owner/repo"));
    assert_eq!(norm("git@github.com:owner/repo").as_deref(), Some("owner/repo"));
}

#[test]
fn normalize_strips_one_git_suffix_only() {
    assert_eq!(norm("https://github.com/o/r.git.git").as_deref(), Some("o/r.git"));
}

#[test]
fn normalize_url_rest_is_not_checked() {
    assert_eq!(norm("https://github.com/just-owner").as_deref(), Some("just-owner"));
}

#[test]
fn normalize_rejects_bad_specs() {
    for bad in ["repo", "a/b/c", "a b/c", "/b", "a/", "", "   ", "http://github.com/a/b"] {
        assert!(norm(bad).is_none(), "{bad:?} should be refused");
    }
}

#[test]
fn normalize_error_message_holds_trimmed_spec() {
    let e = normalize_repo_spec("  nope  ").unwrap_err();
    assert_eq!(e.spec, "nope");
    assert_eq!(
        e.message(),
        "Invalid repo spec: \"nope\". Expected \"owner/repo\" (or a GitHub URL)."
    );
}

#[test]
fn normalize_unicode_whitespace_is_trimmed() {
    assert_eq!(norm("\u{a0}\u{3000}owner/repo\u{2003}").as_deref(), Some("owner/repo"));
}

#[test]
fn clone_url_for_each_protocol() {
    assert_eq!(build_clone_url("o/r", CloneProtocol::Https), "https://github.com/o/r.git");
    assert_eq!(build_clone_url("o/r", CloneProtocol::Ssh), "git@github.com:o/r.git");
}

#[test]
fn clone_url_round_trips_through_normalize() {
    for o in ["owner/repo", "a/b", "x-y/z.git", "Org_1/some.repo"] {
        for p in [CloneProtocol::Https, CloneProtocol::Ssh] {
            assert_eq!(norm(&build_clone_url(o, p)).as_deref(), Some(o));
        }
    }
}

#[test]
fn owner_repo_names_itself() {
    for o in ["owner/repo", "a/b"] {
        assert_eq!(norm(o).as_deref(), Some(o));
    }
}

#[test]
fn ssh_prefix_takes_precedence_over_owner_repo() {
    assert_eq!(norm("git@github.com:x/y").as_deref(), Some("x/y"));
}

#[test]
fn protocol_from_flags() {
    assert_eq!(CloneProtocol::from_flags(false, false), CloneProtocol::Https);
    assert_eq!(CloneProtocol::from_flags(false, true), CloneProtocol::Https);
    assert_eq!(CloneProtocol::from_flags(true, false), CloneProtocol::Ssh);
    assert_eq!(CloneProtocol::from_flags(true, true), CloneProtocol::Ssh);
}

#[test]
fn clone_report_not_found() {
    let r = clone_report("https://github.com/a/b.git", CloneRun::NotFound, true);
    assert_eq!(r.result, Err(ExitCode::GitNotFound));
    assert_eq!(
        r.error_lines,
        vec!["Error: `git` was not found on PATH. Install Git and try again.".to_string()]
    );
}

#[test]
fn clone_report_spawn_failed() {
    let run = CloneRun::SpawnFailed {
        reason: "permission denied".to_string(),
    };
    let r = clone_report("u", run, false);
    assert_eq!(r.result, Err(ExitCode::GitCloneFailed));
    assert_eq!(
        r.error_lines,
        vec!["Error: failed to spawn `git clone`: permission denied".to_string()]
    );
}

#[test]
fn clone_report_success() {
    let run = CloneRun::Finished {
        success: true,
        code: Some(0),
    };
    let r = clone_report("u", run, true);
    assert_eq!(r.result, Ok(()));
    assert!(r.error_lines.is_empty());
}

#[test]
fn clone_report_failure_with_https_hint() {
    let run = CloneRun::Finished {
        success: false,
        code: Some(128),
    };
    let r = clone_report("https://github.com/a/b.git", run, true);
    assert_eq!(r.result, Err(ExitCode::GitCloneFailed));
    assert_eq!(
        r.error_lines,
        vec![
            String::new(),
            "Error: `git clone` failed (exit code 128).".to_string(),
            "Hint: for private repos, HTTPS may require credentials/token configured in Git."
                .to_string(),
        ]
    );
}

#[test]
fn clone_report_failure_with_ssh_hint_and_no_code() {
    let run = CloneRun::Finished {
        success: false,
        code: None,
    };
    let r = clone_report("git@github.com:a/b.git", run, true);
    assert_eq!(
        r.error_lines,
        vec![
            String::new(),
            "Error: `git clone` failed (exit code -1).".to_string(),
            "Hint: make sure your SSH key is added to GitHub and ssh-agent is running.".to_string(),
        ]
    );
}

#[test]
fn clone_report_failure_without_hint() {
    let run = CloneRun::Finished {
        success: false,
        code: Some(1),
    };
    let r = clone_report("https://x", run, false);
    assert_eq!(
        r.error_lines,
        vec![String::new(), "Error: `git clone` failed (exit code 1).".to_string()]
    );
}

#[test]
fn clone_status_messages() {
    assert_eq!(clone_status(true, Some(0)), Ok(()));
    assert_eq!(
        clone_status(false, Some(128)),
        Err("git clone failed with exit code Some(128)".to_string())
    );
    assert_eq!(
        clone_status(false, Some(-3)),
        Err(format!("git clone failed with exit code {:?}", Some(-3)))
    );
    assert_eq!(
        clone_status(false, None),
        Err("git clone failed with exit code None".to_string())
    );
}

#[test]
fn interactive_clone_url_follows_protocol() {
    let r = Repo {
        full_name: "o/r".to_string(),
        description: None,
        ssh_url: "git@github.com:o/r.git".to_string(),
        clone_url: "https://github.com/o/r.git".to_string(),
        archived: false,
        fork: false,
        private: false,
        stargazers_count: 0,
        forks_count: 0,
        updated_at: String::new(),
    };
    assert_eq!(repo_clone_url(&r, CloneProtocol::Ssh), "git@github.com:o/r.git");
    assert_eq!(repo_clone_url(&r, CloneProtocol::Https), "https://github.com/o/r.git");
}

#[test]
fn exit_code_numbers() {
    assert_eq!(ExitCode::Success.as_i32(), 0);
    assert_eq!(ExitCode::Usage.as_i32(), 2);
    assert_eq!(ExitCode::Auth.as_i32(), 10);
    assert_eq!(ExitCode::GithubApi.as_i32(), 11);
    assert_eq!(ExitCode::GitNotFound.as_i32(), 20);
    assert_eq!(ExitCode::GitCloneFailed.as_i32(), 21);
}
