//! Repository specs, clone URLs and what a `git clone` run means.
use vstd::prelude::*;
use vstd::string::*;
use crate::cli::CloneProtocol;
use crate::exit_codes::ExitCode;
use crate::models::Repo;
use crate::text::{
    chars_of, drop_leading, is_white_space, lemma_drop_leading, lemma_drop_trailing, push_signed_decimal,
    push_str_chars, signed_decimal, slice_chars, starts_with, ends_with, string_of, trim_chars, trimmed,
    TrimSet,
};

verus! {

broadcast use vstd::string::group_string_axioms;

/// The start of a GitHub HTTPS URL.
pub open spec fn https_prefix() -> Seq<char> {
    "https://github.com/"@
}

/// The start of a GitHub SSH URL.
pub open spec fn ssh_prefix() -> Seq<char> {
    "git@github.com:"@
}

/// The end of a repository URL.
pub open spec fn git_suffix() -> Seq<char> {
    ".git"@
}

/// `s` without one trailing `.git`, then without `/` at either end.
pub open spec fn without_git_suffix(s: Seq<char>) -> Seq<char> {
    let base = if git_suffix().is_suffix_of(s) {
        s.take(s.len() - git_suffix().len())
    } else {
        s
    };
    trimmed(base, TrimSet::Only('/'))
}

/// `s` is `owner/repo`: exactly one `/`, with text on both sides of it,
/// and no space anywhere.
pub open spec fn is_owner_repo_text(s: Seq<char>) -> bool {
    &&& exists|i: int|
        0 < i < s.len() - 1 && s[i] == '/' && forall|k: int|
            0 <= k < s.len() && k != i ==> #[trigger] s[k] != '/'
    &&& !s.contains(' ')
}

/// The `owner/repo` that a repository spec names, if it names one: the text
/// after a GitHub HTTPS or SSH URL prefix (without `.git` and outer `/`), or
/// the whole trimmed spec where it is `owner/repo` already.
pub open spec fn spec_normalize(input: Seq<char>) -> Option<Seq<char>> {
    let s = trimmed(input, TrimSet::WhiteSpace);
    if https_prefix().is_prefix_of(s) {
        Some(without_git_suffix(s.skip(https_prefix().len() as int)))
    } else if ssh_prefix().is_prefix_of(s) {
        Some(without_git_suffix(s.skip(ssh_prefix().len() as int)))
    } else if is_owner_repo_text(s) {
        Some(s)
    } else {
        None
    }
}

/// The clone URL of `owner_repo` for a protocol.
pub open spec fn clone_url_text(owner_repo: Seq<char>, proto: CloneProtocol) -> Seq<char> {
    match proto {
        CloneProtocol::Https => https_prefix() + owner_repo + git_suffix(),
        CloneProtocol::Ssh => ssh_prefix() + owner_repo + git_suffix(),
    }
}

/// A repository spec that names no repository.
#[derive(Debug)]
pub struct RepoSpecError {
    /// The spec, trimmed.
    pub spec: String,
}

impl RepoSpecError {
    /// The text that the error is reported with.
    pub fn message(&self) -> (m: String)
        ensures
            m@ == "Invalid repo spec: \""@ + self.spec@
                + "\". Expected \"owner/repo\" (or a GitHub URL)."@,
    {
        let mut m = String::from_str("Invalid repo spec: \"");
        m.append(self.spec.as_str());
        m.append("\". Expected \"owner/repo\" (or a GitHub URL).");
        m
    }
}

/// Turns a repository spec (`owner/repo`, `https://github.com/owner/repo(.git)`
/// or `git@github.com:owner/repo(.git)`, with white space around it) into
/// `owner/repo`.
pub fn normalize_repo_spec(input: &str) -> (r: Result<String, RepoSpecError>)
    ensures
        match r {
            Ok(s) => spec_normalize(input@) == Some(s@),
            Err(e) => spec_normalize(input@) is None && e.spec@ == trimmed(
                input@,
                TrimSet::WhiteSpace,
            ),
        },
{
    let all = chars_of(input);
    let s = trim_chars(&all, TrimSet::WhiteSpace);
    let https = chars_of("https://github.com/");
    if starts_with(&s, &https) {
        let rest = slice_chars(&s, https.len(), s.len());
        assert(rest@ == s@.skip(https_prefix().len() as int));
        let stripped = strip_git_suffix(&rest);
        return Ok(string_of(&stripped));
    }
    let ssh = chars_of("git@github.com:");
    if starts_with(&s, &ssh) {
        let rest = slice_chars(&s, ssh.len(), s.len());
        assert(rest@ == s@.skip(ssh_prefix().len() as int));
        let stripped = strip_git_suffix(&rest);
        return Ok(string_of(&stripped));
    }
    if is_owner_repo(&s) {
        return Ok(string_of(&s));
    }
    Err(RepoSpecError { spec: string_of(&s) })
}

/// `s` without one trailing `.git`, then without `/` at either end.
fn strip_git_suffix(s: &Vec<char>) -> (r: Vec<char>)
    ensures
        r@ == without_git_suffix(s@),
{
    let suffix = chars_of(".git");
    if ends_with(s, &suffix) {
        let base = slice_chars(s, 0, s.len() - suffix.len());
        assert(base@ =~= s@.take(s@.len() - git_suffix().len()));
        trim_chars(&base, TrimSet::Only('/'))
    } else {
        trim_chars(s, TrimSet::Only('/'))
    }
}

/// Whether `s` is `owner/repo`.
fn is_owner_repo(s: &Vec<char>) -> (r: bool)
    ensures
        r == is_owner_repo_text(s@),
{
    let n = s.len();
    let mut slashes: usize = 0;
    let mut first: usize = 0;
    let mut second: usize = 0;
    let mut space = false;
    let mut i: usize = 0;
    while i < n
        invariant
            i <= n == s.len(),
            slashes <= 2,
            slashes == 0 ==> forall|k: int| 0 <= k < i ==> s@[k] != '/',
            slashes == 1 ==> first < i && s@[first as int] == '/' && forall|k: int|
                0 <= k < i && k != first ==> s@[k] != '/',
            slashes == 2 ==> first < second < i && s@[first as int] == '/' && s@[second as int]
                == '/',
            space <==> exists|k: int| 0 <= k < i && s@[k] == ' ',
        decreases n - i,
    {
        let c = s[i];
        if c == '/' {
            if slashes == 0 {
                first = i;
                slashes = 1;
            } else if slashes == 1 {
                second = i;
                slashes = 2;
            }
        }
        if c == ' ' {
            space = true;
        }
        i = i + 1;
    }
    proof {
        if space {
            let k = choose|k: int| 0 <= k < n && s@[k] == ' ';
            assert(s@.contains(' '));
        } else {
            assert(!s@.contains(' '));
        }
        if slashes == 0 {
            assert forall|j: int| 0 < j < n - 1 implies s@[j] != '/' by {}
        }
        if slashes == 2 {
            assert forall|j: int|
                0 < j < n - 1 && s@[j] == '/' implies exists|k: int|
                0 <= k < n && k != j && #[trigger] s@[k] == '/' by {
                if j == first {
                    assert(s@[second as int] == '/');
                } else {
                    assert(s@[first as int] == '/');
                }
            }
        }
    }
    slashes == 1 && first > 0 && first + 1 < n && !space
}

/// The clone URL for `owner_repo`: `https://github.com/<owner_repo>.git` or
/// `git@github.com:<owner_repo>.git`.
pub fn build_clone_url(owner_repo: &str, proto: CloneProtocol) -> (url: String)
    ensures
        url@ == clone_url_text(owner_repo@, proto),
{
    let mut url = match proto {
        CloneProtocol::Https => String::from_str("https://github.com/"),
        CloneProtocol::Ssh => String::from_str("git@github.com:"),
    };
    url.append(owner_repo);
    url.append(".git");
    url
}

/// `owner/repo` comes back from its own clone URL, for either protocol.
pub proof fn lemma_normalize_clone_url(owner_repo: Seq<char>, proto: CloneProtocol)
    requires
        is_owner_repo_text(owner_repo),
    ensures
        spec_normalize(clone_url_text(owner_repo, proto)) == Some(owner_repo),
{
    reveal_strlit("https://github.com/");
    reveal_strlit("git@github.com:");
    reveal_strlit(".git");
    let o = owner_repo;
    let url = clone_url_text(o, proto);
    let prefix = match proto {
        CloneProtocol::Https => https_prefix(),
        CloneProtocol::Ssh => ssh_prefix(),
    };
    assert(url == prefix + o + git_suffix());
    // No white space at either end of the URL.
    assert(!is_white_space(url[0]));
    assert(drop_leading(url, TrimSet::WhiteSpace) == url) by {
        lemma_drop_leading(url, TrimSet::WhiteSpace, 0);
        assert(url.skip(0) =~= url);
    }
    assert(url.last() == 't');
    assert(trimmed(url, TrimSet::WhiteSpace) == url) by {
        lemma_drop_trailing(url, TrimSet::WhiteSpace, url.len() as int);
        assert(url.take(url.len() as int) =~= url);
    }
    // The prefix is found, and only the right one.
    assert(prefix.is_prefix_of(url)) by {
        assert(prefix =~= url.subrange(0, prefix.len() as int));
    }
    if proto == CloneProtocol::Ssh {
        assert(url[0] == 'g');
        assert(!https_prefix().is_prefix_of(url)) by {
            assert(https_prefix()[0] == 'h');
            if https_prefix().is_prefix_of(url) {
                assert(url.subrange(0, https_prefix().len() as int)[0] == url[0]);
            }
        }
    }
    let rest = url.skip(prefix.len() as int);
    assert(rest =~= o + git_suffix());
    assert(git_suffix().is_suffix_of(rest)) by {
        assert(git_suffix() =~= rest.subrange(
            (rest.len() - git_suffix().len()) as int,
            rest.len() as int,
        ));
    }
    let base = rest.take(rest.len() - git_suffix().len());
    assert(base =~= o);
    // `o` neither starts nor ends with `/`.
    let i = choose|i: int|
        0 < i < o.len() - 1 && o[i] == '/' && forall|k: int|
            0 <= k < o.len() && k != i ==> #[trigger] o[k] != '/';
    assert(o[0] != '/');
    assert(o[o.len() - 1] != '/');
    lemma_drop_leading(o, TrimSet::Only('/'), 0);
    assert(o.skip(0) =~= o);
    lemma_drop_trailing(o, TrimSet::Only('/'), o.len() as int);
    assert(o.take(o.len() as int) =~= o);
}

/// A spec that is already `owner/repo`, with no white space around it,
/// names itself (unless it begins like an SSH URL, which takes precedence).
pub proof fn lemma_normalize_owner_repo(s: Seq<char>)
    requires
        is_owner_repo_text(s),
        trimmed(s, TrimSet::WhiteSpace) == s,
        !ssh_prefix().is_prefix_of(s),
    ensures
        spec_normalize(s) == Some(s),
{
    reveal_strlit("https://github.com/");
    if https_prefix().is_prefix_of(s) {
        let i = choose|i: int|
            0 < i < s.len() - 1 && s[i] == '/' && forall|k: int|
                0 <= k < s.len() && k != i ==> #[trigger] s[k] != '/';
        assert(s.subrange(0, https_prefix().len() as int)[6] == s[6]);
        assert(s.subrange(0, https_prefix().len() as int)[7] == s[7]);
        assert(s[6] == '/' && s[7] == '/');
    }
}

/// How a `git clone` child process went.
pub enum CloneRun {
    /// `git` could not be found.
    NotFound,
    /// The process could not be started, for the reason given.
    SpawnFailed { reason: String },
    /// The process ran and ended; `code` is its exit code where it had one.
    Finished { success: bool, code: Option<i32> },
}

/// The result of a clone run and the lines to report on standard error.
pub struct CloneReport {
    pub result: Result<(), ExitCode>,
    pub error_lines: Vec<String>,
}

/// The exit code that a clone run ends with.
pub open spec fn clone_run_result(run: CloneRun) -> Result<(), ExitCode> {
    match run {
        CloneRun::NotFound => Err(ExitCode::GitNotFound),
        CloneRun::SpawnFailed { .. } => Err(ExitCode::GitCloneFailed),
        CloneRun::Finished { success, .. } => if success {
            Ok(())
        } else {
            Err(ExitCode::GitCloneFailed)
        },
    }
}

/// The exit code reported for a failed run: the process's own, or -1.
pub open spec fn reported_code(code: Option<i32>) -> int {
    match code {
        Some(c) => c as int,
        None => -1,
    }
}

/// The lines reported on standard error for a clone run of `url`; `hint`
/// adds a line of advice that depends on the protocol of the URL.
pub open spec fn clone_run_lines(url: Seq<char>, run: CloneRun, hint: bool) -> Seq<Seq<char>> {
    match run {
        CloneRun::NotFound => seq![
            "Error: `git` was not found on PATH. Install Git and try again."@,
        ],
        CloneRun::SpawnFailed { reason } => seq![
            "Error: failed to spawn `git clone`: "@ + reason@,
        ],
        CloneRun::Finished { success, code } => if success {
            seq![]
        } else {
            let failed = seq![
                Seq::empty(),
                "Error: `git clone` failed (exit code "@ + signed_decimal(reported_code(code))
                    + ")."@,
            ];
            if !hint {
                failed
            } else if "https://"@.is_prefix_of(url) {
                failed.push(
                    "Hint: for private repos, HTTPS may require credentials/token configured in Git."@,
                )
            } else {
                failed.push(
                    "Hint: make sure your SSH key is added to GitHub and ssh-agent is running."@,
                )
            }
        },
    }
}

/// What a `git clone` run of `url` means: the result that the program exits
/// with and the lines it reports on standard error.
pub fn clone_report(url: &str, run: CloneRun, hint: bool) -> (rep: CloneReport)
    ensures
        rep.result == clone_run_result(run),
        rep.error_lines@.map_values(|l: String| l@) == clone_run_lines(url@, run, hint),
{
    let ghost run0 = run;
    let mut lines: Vec<String> = Vec::new();
    let result = match run {
        CloneRun::NotFound => {
            lines.push(
                String::from_str("Error: `git` was not found on PATH. Install Git and try again."),
            );
            Err(ExitCode::GitNotFound)
        },
        CloneRun::SpawnFailed { reason } => {
            let mut l = String::from_str("Error: failed to spawn `git clone`: ");
            l.append(reason.as_str());
            lines.push(l);
            Err(ExitCode::GitCloneFailed)
        },
        CloneRun::Finished { success, code } => {
            if success {
                Ok(())
            } else {
                let c: i32 = match code {
                    Some(c) => c,
                    None => -1,
                };
                lines.push(String::new());
                let mut v = chars_of("Error: `git clone` failed (exit code ");
                push_signed_decimal(&mut v, c as i64);
                push_str_chars(&mut v, ").");
                lines.push(string_of(&v));
                if hint {
                    let u = chars_of(url);
                    let https = chars_of("https://");
                    if starts_with(&u, &https) {
                        lines.push(
                            String::from_str(
                                "Hint: for private repos, HTTPS may require credentials/token configured in Git.",
                            ),
                        );
                    } else {
                        lines.push(
                            String::from_str(
                                "Hint: make sure your SSH key is added to GitHub and ssh-agent is running.",
                            ),
                        );
                    }
                }
                Err(ExitCode::GitCloneFailed)
            }
        },
    };
    let rep = CloneReport { result, error_lines: lines };
    assert(rep.error_lines@.map_values(|l: String| l@) =~= clone_run_lines(url@, run0, hint));
    rep
}

/// The URL that interactive mode clones a chosen repository from: its SSH
/// URL or its HTTPS clone URL, as GitHub lists them.
pub fn repo_clone_url(repo: &Repo, proto: CloneProtocol) -> (url: String)
    ensures
        url@ == match proto {
            CloneProtocol::Ssh => repo.ssh_url@,
            CloneProtocol::Https => repo.clone_url@,
        },
{
    match proto {
        CloneProtocol::Ssh => repo.ssh_url.clone(),
        CloneProtocol::Https => repo.clone_url.clone(),
    }
}

} // verus!
