use repokai::browser::{App, Mode, Panel, ReadmeText, RepoSource, SortOrder};
use repokai::input::{Key, KeyOutcome, MouseKind, SubmitPlan};
use repokai::layout::{Area, PanelAreas};
use repokai::prompt::PromptKind;
use repokai::model::Repo;

fn repo(name: &str, private: bool) -> Repo {
    Repo {
        owner: "me".to_string(),
        name: name.to_string(),
        description: Some(format!("about {name}")),
        url: format!("https://github.com/me/{name}"),
        language: None,
        license: None,
        stars: 1,
        visibility: if private { "private" } else { "public" }.to_string(),
        last_updated: String::new(),
        readme: None,
    }
}

fn names(app: &App) -> Vec<String> {
    app.repos.iter().map(|r| r.name.clone()).collect()
}

fn area(x: u16, y: u16, width: u16, height: u16) -> Area {
    Area { x, y, width, height }
}

fn app_with(n: usize) -> App {
    let repos = (0..n).map(|i| repo(&format!("r{i}"), i % 2 == 0)).collect();
    let mut app = App::new(repos);
    app.set_areas(PanelAreas {
        repos: area(0, 0, 30, 7),
        info: area(30, 0, 70, 12),
        readme: area(30, 12, 70, 20),
    });
    app
}

#[test]
fn toggles_and_panels() {
    assert_eq!(SortOrder::Recent.toggle(), SortOrder::Alphabetical);
    assert_eq!(SortOrder::Alphabetical.label(), "a-z");
    assert_eq!(RepoSource::Mine.toggle(), RepoSource::Starred);
    assert_eq!(RepoSource::Starred.title(), "Starred \u{2605}");
    for p in [Panel::Repos, Panel::Info, Panel::Readme] {
        assert_eq!(p.next().prev(), p);
        assert_eq!(p.next().next().next(), p);
    }
}

#[test]
fn area_contains_and_inner() {
    let a = area(2, 3, 4, 5);
    assert!(a.contains(2, 3));
    assert!(a.contains(5, 7));
    assert!(!a.contains(6, 3));
    assert!(!a.contains(2, 8));
    assert_eq!(a.inner(), area(3, 4, 2, 3));
    assert_eq!(area(5, 5, 1, 9).inner(), area(0, 0, 0, 0));
    assert!(area(65530, 0, 100, 1).contains(65534, 0));
}

#[test]
fn alphabetical_sort_ignores_case_and_is_stable() {
    let mut app = App::new(vec![repo("beta", false), repo("Alpha", false), repo("alpha", true)]);
    let out = app.handle_key(Key::Char('s'), "/h");
    assert!(matches!(out, KeyOutcome::Continue));
    assert_eq!(app.sort_order, SortOrder::Alphabetical);
    assert_eq!(names(&app), vec!["Alpha", "alpha", "beta"]);
    app.handle_key(Key::Char('s'), "/h");
    assert_eq!(names(&app), vec!["beta", "Alpha", "alpha"]);
}

#[test]
fn list_navigation_selects_neighbours() {
    let mut app = app_with(3);
    assert!(matches!(app.handle_key(Key::Up, "/h"), KeyOutcome::Continue));
    assert!(matches!(app.handle_key(Key::Down, "/h"), KeyOutcome::SelectRepo(1)));
    let fetch = app.begin_select(2);
    assert_eq!(fetch, Some(("me".to_string(), "r2".to_string())));
    assert_eq!(app.readme_content.as_deref(), Some("Loading..."));
    assert!(app.readme_loading);
    assert!(matches!(app.handle_key(Key::Down, "/h"), KeyOutcome::Continue));
    app.finish_select(Some("# r2".to_string()));
    assert!(!app.readme_loading);
    assert_eq!(app.readme_content.as_deref(), Some("# r2"));
    assert_eq!(app.begin_select(9), None);
    assert_eq!(app.selected, 9);
}

#[test]
fn selection_scrolls_into_view() {
    let mut app = app_with(20);
    // 7 rows high: 5 rows inside the border
    app.begin_select(10);
    assert_eq!(app.repo_offset, 6);
    app.begin_select(2);
    assert_eq!(app.repo_offset, 2);
    app.scroll_repo_list(100);
    assert_eq!(app.repo_offset, 15);
    app.scroll_repo_list(-100);
    assert_eq!(app.repo_offset, 0);
}

#[test]
fn info_panel_moves_within_its_lines() {
    let mut app = app_with(2);
    app.handle_key(Key::Tab, "/h");
    assert_eq!(app.focused_panel, Panel::Info);
    for _ in 0..10 {
        app.handle_key(Key::Down, "/h");
    }
    assert_eq!(app.info_field, 7);
    app.handle_key(Key::Up, "/h");
    assert_eq!(app.info_field, 6);
    for _ in 0..4 {
        app.handle_key(Key::Up, "/h");
    }
    // the URL line opens the repository page
    assert!(matches!(app.handle_key(Key::Enter, "/h"), KeyOutcome::OpenUrl(u) if u == "https://github.com/me/r0"));
    app.handle_key(Key::BackTab, "/h");
    assert_eq!(app.focused_panel, Panel::Repos);
}

#[test]
fn readme_scrolls_within_its_lines() {
    let mut app = app_with(1);
    assert_eq!(app.readme_to_lay_out(0), None);
    assert_eq!(
        app.readme_to_lay_out(64),
        Some(ReadmeText::Plain("Press Enter to load README".to_string()))
    );
    app.finish_select(Some("text".to_string()));
    assert_eq!(app.readme_to_lay_out(64), Some(ReadmeText::Markdown("text".to_string())));
    app.readme_laid_out(64, 40);
    assert_eq!(app.readme_to_lay_out(64), None);
    // 20 rows high: 18 inside, so 17 lines may scroll away
    assert_eq!(app.max_readme_scroll(), 23);
    app.focused_panel = Panel::Readme;
    app.handle_key(Key::PageDown, "/h");
    assert_eq!(app.readme_scroll, 17);
    app.handle_key(Key::PageDown, "/h");
    assert_eq!(app.readme_scroll, 23);
    app.handle_key(Key::Char('k'), "/h");
    assert_eq!(app.readme_scroll, 20);
    app.readme_laid_out(80, 10);
    assert_eq!(app.readme_scroll, 0);
}

#[test]
fn j_and_k_scroll_the_readme_in_every_panel() {
    let mut app = app_with(3);
    app.finish_select(Some("text".to_string()));
    app.readme_laid_out(64, 40);
    for panel in [Panel::Repos, Panel::Info, Panel::Readme] {
        app.focused_panel = panel;
        app.readme_scroll = 0;
        app.info_field = 1;
        assert!(matches!(app.handle_key(Key::Char('j'), "/h"), KeyOutcome::Continue));
        assert!(matches!(app.handle_key(Key::Char('j'), "/h"), KeyOutcome::Continue));
        assert_eq!(app.readme_scroll, 6);
        assert!(matches!(app.handle_key(Key::Char('k'), "/h"), KeyOutcome::Continue));
        assert_eq!(app.readme_scroll, 3);
        app.handle_key(Key::Char('k'), "/h");
        app.handle_key(Key::Char('k'), "/h");
        assert_eq!(app.readme_scroll, 0);
        assert_eq!(app.selected, 0);
        assert_eq!(app.repo_offset, 0);
        assert_eq!(app.info_field, 1);
    }
    app.readme_scroll = 22;
    app.handle_key(Key::Char('j'), "/h");
    assert_eq!(app.readme_scroll, 23);
}

#[test]
fn mouse_focuses_and_picks() {
    let mut app = app_with(5);
    // row 3 on screen is the third row inside the list's border
    assert_eq!(app.handle_mouse(MouseKind::LeftDown, 4, 3), Some(2));
    assert_eq!(app.handle_mouse(MouseKind::LeftDown, 4, 1), None);
    assert_eq!(app.handle_mouse(MouseKind::LeftDown, 4, 6), None);
    let lines = app.info_layout(68);
    assert_eq!(lines, vec!["about r0".to_string()]);
    assert_eq!(app.info_rows, vec![0, 1, 2, 3, 4, 5, 6, 7]);
    assert_eq!(app.handle_mouse(MouseKind::LeftDown, 40, 3), None);
    assert_eq!(app.focused_panel, Panel::Info);
    assert_eq!(app.info_field, 2);
    app.handle_mouse(MouseKind::ScrollDown, 35, 15);
    assert_eq!(app.readme_scroll, 0);
}

#[test]
fn publish_prompt_flow() {
    let mut app = app_with(1);
    app.handle_key(Key::Char('p'), "/home/me");
    match &app.mode {
        Mode::Prompt(p) => {
            assert_eq!(p.kind, PromptKind::Publish);
            assert_eq!(p.fields.len(), 4);
            assert_eq!(p.fields[0].value, "~/");
        }
        _ => panic!("expected a prompt"),
    }
    for c in "proj".chars() {
        app.handle_key(Key::Char(c), "/home/me");
    }
    app.handle_key(Key::Down, "/home/me");
    for c in "name".chars() {
        app.handle_key(Key::Char(c), "/home/me");
    }
    app.handle_key(Key::Backspace, "/home/me");
    app.handle_key(Key::Tab, "/home/me");
    app.handle_key(Key::Tab, "/home/me");
    app.handle_key(Key::Char(' '), "/home/me");
    match app.handle_key(Key::Enter, "/home/me") {
        KeyOutcome::Run(SubmitPlan::Publish(o)) => {
            assert_eq!(o.local_path, "/home/me/proj");
            assert_eq!(o.name, "nam");
            assert_eq!(o.description, "");
            assert!(o.private);
        }
        _ => panic!("expected a publish"),
    }
    assert_eq!(app.status_line(), "Publishing...");
    app.finish_publish(Err("boom".to_string()));
    assert!(matches!(&app.mode, Mode::Message(m) if m == "Error: boom"));
    assert_eq!(app.status_msg, None);
    app.handle_key(Key::Char('x'), "/home/me");
    assert!(matches!(app.mode, Mode::Normal));
}

#[test]
fn publish_prompt_needs_a_name() {
    let mut app = app_with(1);
    app.handle_key(Key::Char('p'), "/home/me");
    assert!(matches!(app.handle_key(Key::Enter, "/home/me"), KeyOutcome::Continue));
    assert!(matches!(&app.mode, Mode::Message(m) if m == "Path and name are required"));
}

#[test]
fn clone_prompt_with_completions() {
    let mut app = app_with(1);
    app.handle_key(Key::Char('c'), "/home/me");
    app.handle_key(Key::Backspace, "/home/me");
    app.handle_key(Key::Backspace, "/home/me");
    match app.handle_key(Key::Tab, "/home/me") {
        KeyOutcome::Complete(v) => assert_eq!(v, "~/"),
        _ => panic!("expected a completion request"),
    }
    app.apply_completions(vec!["~/a/".to_string(), "~/b/".to_string()]);
    match &app.mode {
        Mode::Prompt(p) => {
            assert_eq!(p.fields[0].value, "~/a/");
            assert_eq!(p.fields[0].completion_index, Some(0));
        }
        _ => panic!("expected a prompt"),
    }
    app.handle_key(Key::Tab, "/home/me");
    app.handle_key(Key::Tab, "/home/me");
    app.handle_key(Key::BackTab, "/home/me");
    match app.handle_key(Key::Enter, "/home/me") {
        KeyOutcome::Run(SubmitPlan::Clone { url, destination }) => {
            assert_eq!(url, "https://github.com/me/r0.git");
            assert_eq!(destination, "/home/me/b/");
        }
        _ => panic!("expected a clone"),
    }
    app.finish_clone(Ok(()), "/home/me/b/");
    assert_eq!(app.status_msg, None);
    assert!(matches!(app.mode, Mode::Normal));
}

#[test]
fn edit_prompt_updates_settings() {
    let mut app = app_with(1);
    app.handle_key(Key::Char('e'), "/h");
    match &app.mode {
        Mode::Prompt(p) => {
            assert_eq!(p.fields[0].value, "about r0");
            assert!(p.fields[1].bool_val);
        }
        _ => panic!("expected a prompt"),
    }
    app.handle_key(Key::Char('!'), "/h");
    match app.handle_key(Key::Enter, "/h") {
        KeyOutcome::Run(SubmitPlan::Update { owner, name, opts }) => {
            assert_eq!(owner, "me");
            assert_eq!(name, "r0");
            assert_eq!(opts.description.as_deref(), Some("about r0!"));
            assert_eq!(opts.private, Some(true));
        }
        _ => panic!("expected an update"),
    }
    app.finish_update(Ok(vec![repo("z", false)]));
    assert_eq!(names(&app), vec!["z"]);
    assert_eq!(app.status_msg, None);
}

#[test]
fn switching_to_starred_loads_it_once() {
    let mut app = app_with(2);
    assert!(matches!(app.handle_key(Key::Char('v'), "/h"), KeyOutcome::FetchStarred));
    assert_eq!(app.status_msg.as_deref(), Some("Loading starred repos..."));
    assert!(matches!(app.starred_loaded(Vec::new()), KeyOutcome::Continue));
    assert!(app.repos.is_empty());
    assert_eq!(app.status_msg, None);
    assert!(matches!(app.handle_key(Key::Char('v'), "/h"), KeyOutcome::SelectRepo(0)));
    assert_eq!(names(&app), vec!["r0", "r1"]);
    assert!(matches!(app.handle_key(Key::Char('v'), "/h"), KeyOutcome::Continue));
    assert_eq!(app.source, RepoSource::Starred);
}

#[test]
fn refresh_keeps_selection_in_list() {
    let mut app = app_with(5);
    app.begin_select(4);
    assert!(matches!(app.handle_key(Key::Char('r'), "/h"), KeyOutcome::Refresh(RepoSource::Mine)));
    assert_eq!(app.status_msg.as_deref(), Some("Refreshing..."));
    app.refreshed(vec![repo("a", false), repo("b", false)]);
    assert_eq!(app.selected, 1);
    assert_eq!(app.status_msg, None);
    assert_eq!(app.mine.len(), 2);
}

#[test]
fn status_line_lists_keys() {
    let mut app = app_with(1);
    app.set_username("octo".to_string());
    assert_eq!(
        app.status_line(),
        " octo  \u{2502}  q:quit  Tab:panel  j/k:nav  Enter:readme  v:starred  s:sort  r:refresh  o:open  p:publish  c:clone  e:edit"
    );
    assert!(matches!(app.handle_key(Key::Char('q'), "/h"), KeyOutcome::Quit));
}
