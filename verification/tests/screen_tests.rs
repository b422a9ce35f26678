use ghc::cli::SortBy;
use ghc::layout::{centered_rect, screen_areas, Area};
use ghc::models::Repo;
use ghc::screen::{help_text, key_line, repo_details, repo_line};
use ghc::tui::{Key, KeyPress, Picker};
use ratatui::layout::{Constraint, Direction, Layout, Rect};

fn repo() -> Repo {
    Repo {
        full_name: "me/tool".to_string(),
        description: Some("Does things".to_string()),
        ssh_url: String::new(),
        clone_url: String::new(),
        archived: true,
        fork: true,
        private: true,
        stargazers_count: 1234,
        forks_count: 0,
        updated_at: "2024-01-02T03:04:05Z".to_string(),
    }
}

#[test]
fn repo_line_with_all_marks() {
    assert_eq!(repo_line(&repo()), "me/tool  ★1234  forks:0  🔒  ⑂  📦");
}

#[test]
fn repo_line_without_marks() {
    let mut r = repo();
    r.archived = false;
    r.fork = false;
    r.private = false;
    r.forks_count = 56;
    assert_eq!(repo_line(&r), "me/tool  ★1234  forks:56");
}

#[test]
fn repo_details_text() {
    assert_eq!(
        repo_details(&repo()),
        "me/tool\n\nDoes things\n\n★ 1234\nforks: 0\nupdated: 2024-01-02T03:04:05Z\n\nprivate: true\nfork: true\narchived: true"
    );
    let mut r = repo();
    r.description = None;
    r.private = false;
    assert!(repo_details(&r).starts_with("me/tool\n\n(no description)\n\n"));
    assert!(repo_details(&r).contains("private: false"));
}

#[test]
fn list_title_counts_and_marks() {
    let p = Picker::new(vec![repo()], false, SortBy::Stars, String::new());
    assert_eq!(p.list_title(), "Repositories (0/1) • sort: stars • archived hidden • ? help");
    let p = Picker::new(vec![repo()], true, SortBy::Updated, String::new());
    assert_eq!(p.list_title(), "Repositories (1/1) • sort: updated • ? help");
}

#[test]
fn search_line_shows_query() {
    let mut p = Picker::new(vec![repo()], true, SortBy::Name, "me".to_string());
    assert_eq!(p.search_line(), "Search: me");
    p.handle_key(KeyPress {
        key: Key::Char('/'),
        ctrl: false,
        alt: false,
        press: true,
    });
    assert_eq!(p.search_line(), "Search: me/");
}

#[test]
fn details_empty_states() {
    let p = Picker::new(vec![], true, SortBy::Name, String::new());
    assert_eq!(p.details_text(), "No repositories found for this account.");
    let p = Picker::new(vec![repo()], false, SortBy::Name, "  ".to_string());
    assert_eq!(
        p.details_text(),
        "No repositories to show.\n\nArchived repositories are hidden.\nRun with --archived to include them."
    );
    let p = Picker::new(vec![repo()], true, SortBy::Name, " xyz ".to_string());
    assert_eq!(
        p.details_text(),
        "No matches for: \"xyz\"\n\nTry a shorter query, or run with --archived if you expect archived repos."
    );
}

#[test]
fn details_of_selected_repo() {
    let p = Picker::new(vec![repo()], true, SortBy::Name, String::new());
    assert_eq!(p.details_text(), repo_details(&repo()));
}

#[test]
fn help_and_key_lines() {
    let lines = help_text();
    assert_eq!(lines.len(), 12);
    assert_eq!(lines[0], "Keyboard shortcuts");
    assert_eq!(lines[1], "");
    assert_eq!(lines[11], "  🔒 private    ⑂ fork    📦 archived");
    assert_eq!(
        key_line(),
        "↑/↓ move • type to filter • Backspace • Enter clone • ? help • Esc quit • Ctrl+C quit"
    );
}

fn ratatui_centered(px: u16, py: u16, r: Rect) -> Rect {
    let band = Layout::default()
        .direction(Direction::Vertical)
        .constraints([
            Constraint::Percentage((100 - py) / 2),
            Constraint::Percentage(py),
            Constraint::Percentage((100 - py) / 2),
        ])
        .split(r)[1];
    Layout::default()
        .direction(Direction::Horizontal)
        .constraints([
            Constraint::Percentage((100 - px) / 2),
            Constraint::Percentage(px),
            Constraint::Percentage((100 - px) / 2),
        ])
        .split(band)[1]
}

#[test]
fn centered_rect_matches_layout() {
    for (w, h) in [(100u16, 40u16), (80, 24), (7, 3), (200, 60)] {
        let area = Area {
            x: 1,
            y: 2,
            width: w,
            height: h,
        };
        let c = centered_rect(70, 60, area);
        let expected = ratatui_centered(70, 60, Rect::new(1, 2, w, h));
        assert_eq!((c.x, c.y, c.width, c.height), (expected.x, expected.y, expected.width, expected.height));
    }
}

#[test]
fn centered_rect_is_inside_and_smaller() {
    let area = Area {
        x: 0,
        y: 0,
        width: 100,
        height: 50,
    };
    let c = centered_rect(70, 60, area);
    assert_eq!((c.x, c.y, c.width, c.height), (15, 10, 70, 30));
}

#[test]
fn screen_areas_match_layout() {
    let r = Rect::new(0, 0, 120, 40);
    let outer = Layout::default()
        .direction(Direction::Vertical)
        .constraints([Constraint::Length(3), Constraint::Min(1), Constraint::Length(2)])
        .split(r);
    let middle = Layout::default()
        .direction(Direction::Horizontal)
        .constraints([Constraint::Percentage(60), Constraint::Percentage(40)])
        .split(outer[1]);
    let s = screen_areas(Area {
        x: 0,
        y: 0,
        width: 120,
        height: 40,
    });
    let t = |a: Area| Rect::new(a.x, a.y, a.width, a.height);
    assert_eq!(t(s.search), outer[0]);
    assert_eq!(t(s.keys), outer[2]);
    assert_eq!(t(s.list), middle[0]);
    assert_eq!(t(s.details), middle[1]);
    assert_eq!((s.search.height, s.keys.height, s.list.width, s.details.width), (3, 2, 72, 48));
}

#[test]
fn centered_rect_odd_percentages() {
    let area = Area {
        x: 0,
        y: 0,
        width: 100,
        height: 100,
    };
    let c = centered_rect(71, 59, area);
    assert_eq!((c.x, c.y, c.width, c.height), (14, 20, 71, 59));
    for (w, h) in [(100u16, 100u16), (81, 25), (13, 9)] {
        let c = centered_rect(71, 59, Area {
            x: 3,
            y: 4,
            width: w,
            height: h,
        });
        let expected = ratatui_centered(71, 59, Rect::new(3, 4, w, h));
        assert_eq!((c.x, c.y, c.width, c.height), (expected.x, expected.y, expected.width, expected.height));
    }
}

#[test]
fn screen_areas_rows() {
    let s = screen_areas(Area {
        x: 0,
        y: 0,
        width: 120,
        height: 40,
    });
    assert_eq!((s.search.y, s.search.height), (0, 3));
    assert_eq!((s.keys.y, s.keys.height), (38, 2));
    assert_eq!((s.list.y, s.list.height), (3, 35));
    assert_eq!((s.details.y, s.details.height), (3, 35));
    let small = screen_areas(Area {
        x: 5,
        y: 7,
        width: 30,
        height: 6,
    });
    assert_eq!((small.search.y, small.search.height), (7, 3));
    assert_eq!((small.list.y, small.list.height), (10, 1));
    assert_eq!((small.keys.y, small.keys.height), (11, 2));
}
