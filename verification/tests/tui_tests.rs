use ghc::cli::SortBy;
use ghc::models::Repo;
use ghc::tui::{
    base_indices, filter_from_base, rows_matching, sort_indices, sort_label, Key, KeyPress, Picker, PickerStep,
};

fn repo(name: &str, desc: Option<&str>, archived: bool, stars: u64, updated: &str) -> Repo {
    Repo {
        full_name: name.to_string(),
        description: desc.map(|d| d.to_string()),
        ssh_url: format!("git@github.com:{name}.git"),
        clone_url: format!("https://github.com/{name}.git"),
        archived,
        fork: false,
        private: false,
        stargazers_count: stars,
        forks_count: 0,
        updated_at: updated.to_string(),
    }
}

fn sample() -> Vec<Repo> {
    vec![
        repo("me/beta", Some("A Rust TUI"), false, 5, "2024-03-01T00:00:00Z"),
        repo("me/alpha", None, true, 10, "2024-05-01T00:00:00Z"),
        repo("org/Gamma", Some("web thing"), false, 5, "2023-01-01T00:00:00Z"),
        repo("me/delta", Some("CLI tool"), false, 7, "2024-03-01T00:00:00Z"),
    ]
}

fn key(k: Key) -> KeyPress {
    KeyPress {
        key: k,
        ctrl: false,
        alt: false,
        press: true,
    }
}

#[test]
fn base_hides_archived_by_default() {
    let repos = sample();
    let base = base_indices(&repos, false, SortBy::Name);
    assert!(!base.contains(&1));
    assert_eq!(base.len(), 3);
    let all = base_indices(&repos, true, SortBy::Name);
    assert_eq!(all.len(), 4);
}

#[test]
fn base_sorted_by_name_ascending() {
    let repos = sample();
    // "me/alpha" < "me/beta" < "me/delta" < "org/Gamma" by code point.
    assert_eq!(base_indices(&repos, true, SortBy::Name), vec![1, 0, 3, 2]);
}

#[test]
fn base_sorted_by_update_newest_first_stable_on_ties() {
    let repos = sample();
    // 0 and 3 share a time stamp: they keep their order.
    assert_eq!(base_indices(&repos, true, SortBy::Updated), vec![1, 0, 3, 2]);
    assert_eq!(base_indices(&repos, false, SortBy::Updated), vec![0, 3, 2]);
}

#[test]
fn base_sorted_by_stars_most_first_stable_on_ties() {
    let repos = sample();
    assert_eq!(base_indices(&repos, true, SortBy::Stars), vec![1, 3, 0, 2]);
}

#[test]
fn sort_indices_matches_std_stable_sort() {
    let repos: Vec<Repo> = (0..40u64)
        .map(|i| {
            repo(
                &format!("n{}", (i * 7) % 11),
                None,
                false,
                (i * 13) % 5,
                &format!("2024-0{}-01", (i % 9) + 1),
            )
        })
        .collect();
    for sort in [SortBy::Updated, SortBy::Name, SortBy::Stars] {
        let mut mine: Vec<usize> = (0..repos.len()).rev().collect();
        let mut std_sorted = mine.clone();
        sort_indices(&repos, &mut mine, sort);
        match sort {
            SortBy::Updated => {
                std_sorted.sort_by(|&a, &b| repos[b].updated_at.cmp(&repos[a].updated_at))
            }
            SortBy::Name => std_sorted.sort_by(|&a, &b| repos[a].full_name.cmp(&repos[b].full_name)),
            SortBy::Stars => std_sorted
                .sort_by(|&a, &b| repos[b].stargazers_count.cmp(&repos[a].stargazers_count)),
        }
        assert_eq!(mine, std_sorted);
    }
}

#[test]
fn sort_of_nothing_is_nothing() {
    let repos = sample();
    let mut v: Vec<usize> = Vec::new();
    sort_indices(&repos, &mut v, SortBy::Stars);
    assert!(v.is_empty());
}

#[test]
fn filter_empty_or_blank_query_keeps_base() {
    let repos = sample();
    let base = vec![0, 2, 3];
    assert_eq!(filter_from_base(&repos, &base, ""), base);
    assert_eq!(filter_from_base(&repos, &base, "   \t"), base);
}

#[test]
fn filter_matches_name_and_description_ignoring_case() {
    let repos = sample();
    let base = vec![0, 1, 2, 3];
    assert_eq!(filter_from_base(&repos, &base, "GAMMA"), vec![2]);
    assert_eq!(filter_from_base(&repos, &base, "rust"), vec![0]);
    assert_eq!(filter_from_base(&repos, &base, "  me/ "), vec![0, 1, 3]);
    assert_eq!(filter_from_base(&repos, &base, "cli"), vec![3]);
    assert!(filter_from_base(&repos, &base, "zzz").is_empty());
}

#[test]
fn filter_keeps_base_order() {
    let repos = sample();
    let base = vec![3, 0, 1];
    assert_eq!(filter_from_base(&repos, &base, "me"), vec![3, 0, 1]);
}

#[test]
fn filter_uses_unicode_lowercase() {
    let repos = vec![repo("x/ÄÖÜ", None, false, 0, "")];
    assert_eq!(filter_from_base(&repos, &vec![0], "äöü"), vec![0]);
    let greek = vec![repo("x/ΟΔΟΣ", None, false, 0, "")];
    assert_eq!(filter_from_base(&greek, &vec![0], "οδος"), vec![0]);
    assert!(filter_from_base(&greek, &vec![0], "οδοσ").is_empty());
}

#[test]
fn sort_labels() {
    assert_eq!(sort_label(SortBy::Updated), "updated");
    assert_eq!(sort_label(SortBy::Name), "name");
    assert_eq!(sort_label(SortBy::Stars), "stars");
}

#[test]
fn picker_starts_on_first_row_with_initial_query() {
    let p = Picker::new(sample(), false, SortBy::Name, "beta".to_string());
    assert_eq!(p.shown(), &vec![0]);
    assert_eq!(p.selected(), 0);
    assert_eq!(p.query(), "beta");
    assert!(!p.show_help());
}

#[test]
fn picker_typing_then_backspace_restores_list() {
    let mut p = Picker::new(sample(), true, SortBy::Name, String::new());
    let before = p.shown().clone();
    assert_eq!(p.handle_key(key(Key::Down)), PickerStep::Redraw);
    assert_eq!(p.handle_key(key(Key::Char('g'))), PickerStep::Redraw);
    assert_eq!(p.query(), "g");
    assert_eq!(p.shown(), &vec![2]);
    assert_eq!(p.selected(), 0);
    assert_eq!(p.handle_key(key(Key::Backspace)), PickerStep::Redraw);
    assert_eq!(p.query(), "");
    assert_eq!(p.shown(), &before);
    assert_eq!(p.selected(), 0);
    assert_eq!(p.handle_key(key(Key::Backspace)), PickerStep::Unchanged);
}

#[test]
fn picker_help_toggles_and_blocks_other_keys() {
    let mut p = Picker::new(sample(), false, SortBy::Stars, String::new());
    assert_eq!(p.handle_key(key(Key::Char('?'))), PickerStep::Redraw);
    assert!(p.show_help());
    assert_eq!(p.handle_key(key(Key::Down)), PickerStep::Unchanged);
    assert_eq!(p.handle_key(key(Key::Char('x'))), PickerStep::Unchanged);
    assert_eq!(p.handle_key(key(Key::Enter)), PickerStep::Unchanged);
    assert_eq!(p.query(), "");
    assert_eq!(p.handle_key(key(Key::Char('?'))), PickerStep::Redraw);
    assert!(!p.show_help());
    assert_eq!(p.handle_key(key(Key::Char('?'))), PickerStep::Redraw);
    assert_eq!(p.handle_key(key(Key::Esc)), PickerStep::Redraw);
    assert!(!p.show_help());
}

#[test]
fn picker_ctrl_c_quits_even_in_help() {
    let mut p = Picker::new(sample(), false, SortBy::Stars, String::new());
    p.handle_key(key(Key::Char('?')));
    let ctrl_c = KeyPress {
        key: Key::Char('c'),
        ctrl: true,
        alt: false,
        press: true,
    };
    assert_eq!(p.handle_key(ctrl_c), PickerStep::Quit);
}

#[test]
fn picker_esc_quits() {
    let mut p = Picker::new(sample(), false, SortBy::Stars, String::new());
    assert_eq!(p.handle_key(key(Key::Esc)), PickerStep::Quit);
}

#[test]
fn picker_moves_within_bounds_and_chooses() {
    let mut p = Picker::new(sample(), false, SortBy::Stars, String::new());
    // Base by stars: 3 (7), 0 (5), 2 (5).
    assert_eq!(p.shown(), &vec![3, 0, 2]);
    assert_eq!(p.handle_key(key(Key::Up)), PickerStep::Unchanged);
    assert_eq!(p.handle_key(key(Key::Down)), PickerStep::Redraw);
    assert_eq!(p.handle_key(key(Key::Down)), PickerStep::Redraw);
    assert_eq!(p.handle_key(key(Key::Down)), PickerStep::Unchanged);
    assert_eq!(p.selected(), 2);
    assert_eq!(p.handle_key(key(Key::Up)), PickerStep::Redraw);
    assert_eq!(p.handle_key(key(Key::Enter)), PickerStep::Choose(0));
    let out = p.finish(Some(0));
    assert_eq!(out.selected.unwrap().full_name, "me/beta");
    assert_eq!(out.last_query, "");
}

#[test]
fn picker_enter_on_empty_list_quits() {
    let mut p = Picker::new(sample(), false, SortBy::Name, "nothing-matches".to_string());
    assert!(p.shown().is_empty());
    assert_eq!(p.handle_key(key(Key::Enter)), PickerStep::Quit);
    let out = p.finish(None);
    assert!(out.selected.is_none());
    assert_eq!(out.last_query, "nothing-matches");
}

#[test]
fn picker_ignores_modified_characters_and_other_keys() {
    let mut p = Picker::new(sample(), false, SortBy::Name, String::new());
    let alt_x = KeyPress {
        key: Key::Char('x'),
        ctrl: false,
        alt: true,
        press: true,
    };
    let ctrl_x = KeyPress {
        key: Key::Char('x'),
        ctrl: true,
        alt: false,
        press: true,
    };
    assert_eq!(p.handle_key(alt_x), PickerStep::Unchanged);
    assert_eq!(p.handle_key(ctrl_x), PickerStep::Unchanged);
    assert_eq!(p.handle_key(key(Key::Other)), PickerStep::Unchanged);
    assert_eq!(p.query(), "");
}

#[test]
fn picker_ignores_releases_and_repeats() {
    let mut p = Picker::new(sample(), false, SortBy::Name, String::new());
    let release = KeyPress {
        key: Key::Char('x'),
        ctrl: false,
        alt: false,
        press: false,
    };
    assert_eq!(p.handle_key(release), PickerStep::Unchanged);
    assert_eq!(p.query(), "");
    let release_esc = KeyPress {
        key: Key::Esc,
        ctrl: false,
        alt: false,
        press: false,
    };
    assert_eq!(p.handle_key(release_esc), PickerStep::Unchanged);
    // A key reported as press then release acts once.
    assert_eq!(p.handle_key(key(Key::Char('m'))), PickerStep::Redraw);
    assert_eq!(
        p.handle_key(KeyPress {
            key: Key::Char('m'),
            ctrl: false,
            alt: false,
            press: false
        }),
        PickerStep::Unchanged
    );
    assert_eq!(p.query(), "m");
}

#[test]
fn typed_query_fold() {
    let mut p = Picker::new(sample(), true, SortBy::Name, "ab".to_string());
    let events = [
        key(Key::Char('c')),
        key(Key::Char('?')),
        key(Key::Char('z')),
        key(Key::Esc),
        key(Key::Backspace),
        key(Key::Backspace),
        key(Key::Char('x')),
    ];
    for e in events {
        p.handle_key(e);
    }
    assert_eq!(p.finish(None).last_query, "ax");
}

#[test]
fn blank_query_looks_at_no_repository() {
    let repos = sample();
    let base = vec![0, 99, 7];
    assert_eq!(filter_from_base(&repos, &base, "  "), base);
}

#[test]
fn base_holds_each_listed_index_once() {
    let repos = sample();
    for inc in [false, true] {
        for sort in [SortBy::Updated, SortBy::Name, SortBy::Stars] {
            let mut b = base_indices(&repos, inc, sort);
            b.sort();
            let expected: Vec<usize> =
                (0..repos.len()).filter(|&i| inc || !repos[i].archived).collect();
            assert_eq!(b, expected);
        }
    }
}

#[test]
fn hiding_archived_commutes_with_sort() {
    let mut repos = sample();
    repos.push(repo("me/zeta", None, true, 5, "2024-03-01T00:00:00Z"));
    for sort in [SortBy::Updated, SortBy::Name, SortBy::Stars] {
        let all = base_indices(&repos, true, sort);
        let hidden: Vec<usize> = all.into_iter().filter(|&i| !repos[i].archived).collect();
        assert_eq!(base_indices(&repos, false, sort), hidden);
    }
}

#[test]
fn base_ties_in_index_order() {
    let repos: Vec<Repo> = (0..6u64).map(|i| repo(&format!("r{i}"), None, false, i % 2, "")).collect();
    let v = base_indices(&repos, false, SortBy::Stars);
    assert_eq!(v, vec![1, 3, 5, 0, 2, 4]);
    let v = base_indices(&repos, false, SortBy::Updated);
    assert_eq!(v, vec![0, 1, 2, 3, 4, 5]);
}

#[test]
fn refining_the_query_keeps_a_subsequence() {
    let repos = sample();
    let base = vec![3, 2, 1, 0];
    let wide = filter_from_base(&repos, &base, "me");
    let narrow = filter_from_base(&repos, &base, " ME/B ");
    assert_eq!(wide, vec![3, 1, 0]);
    assert_eq!(narrow, vec![0]);
    assert!(narrow.iter().all(|i| wide.contains(i)));
}

#[test]
fn rows_matching_names_and_descriptions() {
    let names = vec![
        "alice/rust-tools".to_string(),
        "bob/website".to_string(),
        "carol/notes".to_string(),
        "dave/rusty".to_string(),
    ];
    let descs = vec![
        "".to_string(),
        "written in rust".to_string(),
        "plain text".to_string(),
        "".to_string(),
    ];
    assert_eq!(rows_matching(&[0, 1, 2, 3], &names, &descs, "rust"), vec![0, 1, 3]);
    assert_eq!(rows_matching(&[3, 2, 1, 0], &names, &descs, "rust"), vec![3, 1, 0]);
    assert_eq!(rows_matching(&[2, 1], &names, &descs, "text"), vec![2]);
    assert_eq!(rows_matching(&[0, 1, 2, 3], &names, &descs, "go"), Vec::<usize>::new());
    assert_eq!(rows_matching(&[1, 2], &names, &descs, ""), vec![1, 2]);
    assert_eq!(rows_matching(&[], &names, &descs, "rust"), Vec::<usize>::new());
}
