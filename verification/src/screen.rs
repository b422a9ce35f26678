//! The texts that the picker's screen shows: the search bar, the list title,
//! one line per repository, the details pane with its empty states, the key
//! line and the help overlay.
use vstd::prelude::*;
use vstd::string::*;
use crate::cli::SortBy;
use crate::models::Repo;
use crate::text::{
    chars_of, decimal, digit_char, push_all, push_decimal, push_str_chars, string_of, trim_chars, trimmed, TrimSet,
};
use crate::tui::{sort_label, Picker};

verus! {

broadcast use vstd::string::group_string_axioms;

/// `true` or `false`.
pub open spec fn bool_text(b: bool) -> Seq<char> {
    if b {
        "true"@
    } else {
        "false"@
    }
}

/// The label of a sort mode.
pub open spec fn sort_label_text(sort: SortBy) -> Seq<char> {
    match sort {
        SortBy::Updated => "updated"@,
        SortBy::Name => "name"@,
        SortBy::Stars => "stars"@,
    }
}

/// `text` where `cond` holds, nothing otherwise.
pub open spec fn text_if(cond: bool, text: Seq<char>) -> Seq<char> {
    if cond {
        text
    } else {
        Seq::empty()
    }
}

/// The search bar.
pub open spec fn search_line_text(query: Seq<char>) -> Seq<char> {
    "Search: "@ + query
}

/// The title of the list: rows shown, repositories in all, the sort mode,
/// whether archived repositories are hidden, and the help key.
pub open spec fn list_title_text(shown: nat, total: nat, sort: SortBy, include_archived: bool) -> Seq<char> {
    "Repositories ("@ + decimal(shown) + "/"@ + decimal(total) + ") • sort: "@ + sort_label_text(sort)
        + text_if(!include_archived, " • archived hidden"@) + " • ? help"@
}

/// One row of the list: the name, stars, forks and the private, fork and
/// archived marks.
pub open spec fn repo_line_text(r: Repo) -> Seq<char> {
    r.full_name@ + "  ★"@ + decimal(r.stargazers_count as nat) + "  forks:"@ + decimal(
        r.forks_count as nat,
    ) + text_if(r.private, "  🔒"@) + text_if(r.fork, "  ⑂"@) + text_if(r.archived, "  📦"@)
}

/// The details of one repository.
pub open spec fn repo_details_text(r: Repo) -> Seq<char> {
    let desc = match r.description {
        Some(d) => d@,
        None => "(no description)"@,
    };
    r.full_name@ + "\n\n"@ + desc + "\n\n★ "@ + decimal(r.stargazers_count as nat) + "\nforks: "@
        + decimal(r.forks_count as nat) + "\nupdated: "@ + r.updated_at@ + "\n\nprivate: "@
        + bool_text(r.private) + "\nfork: "@ + bool_text(r.fork) + "\narchived: "@ + bool_text(
        r.archived,
    )
}

/// What the details pane says when no row is shown.
pub open spec fn empty_details_text(query: Seq<char>, include_archived: bool) -> Seq<char> {
    let q = trimmed(query, TrimSet::WhiteSpace);
    if q.len() == 0 {
        if include_archived {
            "No repositories found for this account."@
        } else {
            "No repositories to show.\n\nArchived repositories are hidden.\nRun with --archived to include them."@
        }
    } else {
        "No matches for: \""@ + q
            + "\"\n\nTry a shorter query, or run with --archived if you expect archived repos."@
    }
}

/// One row of the list for repository `r`.
pub fn repo_line(r: &Repo) -> (line: String)
    ensures
        line@ == repo_line_text(*r),
{
    let mut v = chars_of(r.full_name.as_str());
    push_str_chars(&mut v, "  ★");
    push_decimal(&mut v, r.stargazers_count);
    push_str_chars(&mut v, "  forks:");
    push_decimal(&mut v, r.forks_count);
    let ghost before_marks = v@;
    if r.private {
        push_str_chars(&mut v, "  🔒");
    }
    let ghost after_private = v@;
    if r.fork {
        push_str_chars(&mut v, "  ⑂");
    }
    let ghost after_fork = v@;
    if r.archived {
        push_str_chars(&mut v, "  📦");
    }
    assert(v@ =~= before_marks + text_if(r.private, "  🔒"@) + text_if(r.fork, "  ⑂"@) + text_if(
        r.archived,
        "  📦"@,
    ));
    string_of(&v)
}

/// The details of repository `r`.
pub fn repo_details(r: &Repo) -> (text: String)
    ensures
        text@ == repo_details_text(*r),
{
    let mut v = chars_of(r.full_name.as_str());
    push_str_chars(&mut v, "\n\n");
    match &r.description {
        Some(d) => push_str_chars(&mut v, d.as_str()),
        None => push_str_chars(&mut v, "(no description)"),
    }
    push_str_chars(&mut v, "\n\n★ ");
    push_decimal(&mut v, r.stargazers_count);
    push_str_chars(&mut v, "\nforks: ");
    push_decimal(&mut v, r.forks_count);
    push_str_chars(&mut v, "\nupdated: ");
    push_str_chars(&mut v, r.updated_at.as_str());
    push_str_chars(&mut v, "\n\nprivate: ");
    push_str_chars(&mut v, bool_str(r.private));
    push_str_chars(&mut v, "\nfork: ");
    push_str_chars(&mut v, bool_str(r.fork));
    push_str_chars(&mut v, "\narchived: ");
    push_str_chars(&mut v, bool_str(r.archived));
    string_of(&v)
}

fn bool_str(b: bool) -> (s: &'static str)
    ensures
        s@ == bool_text(b),
{
    if b {
        "true"
    } else {
        "false"
    }
}

/// The key line below the list.
pub fn key_line() -> (s: &'static str)
    ensures
        s@ == "↑/↓ move • type to filter • Backspace • Enter clone • ? help • Esc quit • Ctrl+C quit"@,
{
    "↑/↓ move • type to filter • Backspace • Enter clone • ? help • Esc quit • Ctrl+C quit"
}

/// The lines of the help overlay.
pub open spec fn help_text_lines() -> Seq<Seq<char>> {
    seq![
        "Keyboard shortcuts"@,
        ""@,
        "  ↑/↓        move selection"@,
        "  type       filter repositories"@,
        "  Backspace  delete from query"@,
        "  Enter      clone selected repo"@,
        "  ?          toggle this help"@,
        "  Esc        close help / quit"@,
        "  Ctrl+C     quit"@,
        ""@,
        "Indicators"@,
        "  🔒 private    ⑂ fork    📦 archived"@,
    ]
}

/// The lines of the help overlay.
pub fn help_text() -> (lines: Vec<String>)
    ensures
        lines@.map_values(|l: String| l@) == help_text_lines(),
{
    let mut lines: Vec<String> = Vec::new();
    lines.push(String::from_str("Keyboard shortcuts"));
    lines.push(String::from_str(""));
    lines.push(String::from_str("  ↑/↓        move selection"));
    lines.push(String::from_str("  type       filter repositories"));
    lines.push(String::from_str("  Backspace  delete from query"));
    lines.push(String::from_str("  Enter      clone selected repo"));
    lines.push(String::from_str("  ?          toggle this help"));
    lines.push(String::from_str("  Esc        close help / quit"));
    lines.push(String::from_str("  Ctrl+C     quit"));
    lines.push(String::from_str(""));
    lines.push(String::from_str("Indicators"));
    lines.push(String::from_str("  🔒 private    ⑂ fork    📦 archived"));
    assert(lines@.map_values(|l: String| l@) =~= help_text_lines());
    lines
}

impl Picker {
    /// The search bar.
    pub fn search_line(&self) -> (s: String)
        ensures
            s@ == search_line_text(self@.query),
    {
        let mut v = chars_of("Search: ");
        let q = self.query();
        push_str_chars(&mut v, q.as_str());
        string_of(&v)
    }

    /// The title of the list.
    pub fn list_title(&self) -> (s: String)
        ensures
            s@ == list_title_text(
                self@.filtered.len(),
                self@.repos.len(),
                self@.sort,
                self@.include_archived,
            ),
    {
        let mut v = chars_of("Repositories (");
        push_decimal(&mut v, self.shown().len() as u64);
        push_str_chars(&mut v, "/");
        push_decimal(&mut v, self.repos().len() as u64);
        push_str_chars(&mut v, ") • sort: ");
        push_str_chars(&mut v, sort_label(self.sort()));
        let ghost before = v@;
        if !self.include_archived() {
            push_str_chars(&mut v, " • archived hidden");
        }
        assert(v@ =~= before + text_if(!self@.include_archived, " • archived hidden"@));
        push_str_chars(&mut v, " • ? help");
        string_of(&v)
    }

    /// The details pane: the selected repository, or why no row is shown.
    pub fn details_text(&self) -> (s: String)
        requires
            self.wf(),
        ensures
            s@ == (if self@.filtered.len() == 0 {
                empty_details_text(self@.query, self@.include_archived)
            } else {
                repo_details_text(self@.repos[self@.filtered[self@.selected as int] as int])
            }),
    {
        let shown = self.shown();
        if shown.len() == 0 {
            let q = self.query();
            let t = trim_chars(&chars_of(q.as_str()), TrimSet::WhiteSpace);
            if t.len() == 0 {
                if self.include_archived() {
                    String::from_str("No repositories found for this account.")
                } else {
                    String::from_str(
                        "No repositories to show.\n\nArchived repositories are hidden.\nRun with --archived to include them.",
                    )
                }
            } else {
                let mut v = chars_of("No matches for: \"");
                push_all(&mut v, &t);
                push_str_chars(
                    &mut v,
                    "\"\n\nTry a shorter query, or run with --archived if you expect archived repos.",
                );
                string_of(&v)
            }
        } else {
            let i = shown[self.selected()];
            proof {
                crate::tui::lemma_shown_in_range(self@);
            }
            repo_details(&self.repos()[i])
        }
    }
}

/// The decimal rendering of a number holds digits only.
proof fn lemma_decimal_digits(n: nat)
    ensures
        forall|i: int| 0 <= i < decimal(n).len() ==> '0' <= #[trigger] decimal(n)[i] <= '9',
    decreases n,
{
    let d = digit_char(n % 10);
    assert('0' <= d <= '9');
    if n >= 10 {
        lemma_decimal_digits(n / 10);
        assert(decimal(n) == decimal(n / 10).push(d));
    } else {
        assert(decimal(n) == seq![digit_char(n)]);
    }
}

/// A character occurs in two texts put together exactly when it occurs in
/// one of them.
proof fn lemma_contains_concat(a: Seq<char>, b: Seq<char>, x: char)
    ensures
        (a + b).contains(x) <==> a.contains(x) || b.contains(x),
{
    if (a + b).contains(x) {
        let i = choose|i: int| 0 <= i < (a + b).len() && (a + b)[i] == x;
        if i >= a.len() {
            assert(b[i - a.len()] == x);
        }
    }
    if a.contains(x) {
        let i = choose|i: int| 0 <= i < a.len() && a[i] == x;
        assert((a + b)[i] == x);
    }
    if b.contains(x) {
        let i = choose|i: int| 0 <= i < b.len() && b[i] == x;
        assert((a + b)[a.len() + i] == x);
    }
}

/// Each mark of a repository's row stands for its own flag: the lock shows
/// exactly for a private repository, the fork sign exactly for a fork and
/// the box exactly for an archived one (for a name that holds none of
/// them).
pub proof fn lemma_repo_line_marks(r: Repo)
    requires
        !r.full_name@.contains('\u{1F512}'),
        !r.full_name@.contains('\u{2442}'),
        !r.full_name@.contains('\u{1F4E6}'),
    ensures
        repo_line_text(r).contains('\u{1F512}') <==> r.private,
        repo_line_text(r).contains('\u{2442}') <==> r.fork,
        repo_line_text(r).contains('\u{1F4E6}') <==> r.archived,
{
    reveal_strlit("  ★");
    reveal_strlit("  forks:");
    reveal_strlit("  🔒");
    reveal_strlit("  ⑂");
    reveal_strlit("  📦");
    let stars = decimal(r.stargazers_count as nat);
    let forks = decimal(r.forks_count as nat);
    lemma_decimal_digits(r.stargazers_count as nat);
    lemma_decimal_digits(r.forks_count as nat);
    let a1 = r.full_name@ + "  ★"@;
    let a2 = a1 + stars;
    let a3 = a2 + "  forks:"@;
    let a4 = a3 + forks;
    let m1 = text_if(r.private, "  🔒"@);
    let m2 = text_if(r.fork, "  ⑂"@);
    let m3 = text_if(r.archived, "  📦"@);
    assert(repo_line_text(r) == a4 + m1 + m2 + m3);
    let marks = seq!['\u{1F512}', '\u{2442}', '\u{1F4E6}'];
    assert forall|k: int| 0 <= k < 3 implies {
        let x = #[trigger] marks[k];
        &&& !a4.contains(x)
        &&& m1.contains(x) <==> (k == 0 && r.private)
        &&& m2.contains(x) <==> (k == 1 && r.fork)
        &&& m3.contains(x) <==> (k == 2 && r.archived)
    } by {
        let x = marks[k];
        lemma_contains_concat(r.full_name@, "  ★"@, x);
        lemma_contains_concat(a1, stars, x);
        lemma_contains_concat(a2, "  forks:"@, x);
        lemma_contains_concat(a3, forks, x);
        if r.private {
            assert(m1[2] == '\u{1F512}');
        }
        if r.fork {
            assert(m2[2] == '\u{2442}');
        }
        if r.archived {
            assert(m3[2] == '\u{1F4E6}');
        }
    }
    assert forall|k: int| 0 <= k < 3 implies {
        let x = #[trigger] marks[k];
        repo_line_text(r).contains(x) <==> (a4.contains(x) || m1.contains(x) || m2.contains(x) || m3.contains(x))
    } by {
        let x = marks[k];
        lemma_contains_concat(a4, m1, x);
        lemma_contains_concat(a4 + m1, m2, x);
        lemma_contains_concat(a4 + m1 + m2, m3, x);
    }
    assert(marks[0] == '\u{1F512}');
    assert(marks[1] == '\u{2442}');
    assert(marks[2] == '\u{1F4E6}');
}

/// The details pane ends with three lines that give the private, fork and
/// archived flags of the repository, in that order, each as `true` or
/// `false`.
pub proof fn lemma_details_flags(r: Repo)
    ensures
        ({
            let text = repo_details_text(r);
            let flags = "\n\nprivate: "@ + bool_text(r.private) + "\nfork: "@ + bool_text(r.fork) + "\narchived: "@
                + bool_text(r.archived);
            &&& flags.len() <= text.len()
            &&& text.skip(text.len() - flags.len()) == flags
        }),
{
    let desc = match r.description {
        Some(d) => d@,
        None => "(no description)"@,
    };
    let head = r.full_name@ + "\n\n"@ + desc + "\n\n★ "@ + decimal(r.stargazers_count as nat) + "\nforks: "@
        + decimal(r.forks_count as nat) + "\nupdated: "@ + r.updated_at@;
    let flags = "\n\nprivate: "@ + bool_text(r.private) + "\nfork: "@ + bool_text(r.fork) + "\narchived: "@
        + bool_text(r.archived);
    assert(repo_details_text(r) =~= head + flags);
    assert((head + flags).skip(head.len() as int) =~= flags);
}

} // verus!
