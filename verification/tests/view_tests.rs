use repokai::browser::App;
use repokai::layout::{Area, PanelAreas};
use repokai::model::Repo;
use repokai::view::{
    checkbox, completion_counter, cursor, decimal, info_marker, info_values, lock_mark,
    padded_label, path_hint, row_padding, toggle_hint, visual_line_count,
};

fn repo(name: &str, private: bool) -> Repo {
    Repo {
        owner: "me".to_string(),
        name: name.to_string(),
        description: None,
        url: format!("https://github.com/me/{name}"),
        language: Some("Rust".to_string()),
        license: None,
        stars: 1234,
        visibility: if private { "private" } else { "public" }.to_string(),
        last_updated: "2024-01-01".to_string(),
        readme: None,
    }
}

#[test]
fn decimals() {
    assert_eq!(decimal(0), "0");
    assert_eq!(decimal(7), "7");
    assert_eq!(decimal(10), "10");
    assert_eq!(decimal(4096), "4096");
    assert_eq!(decimal(usize::MAX), usize::MAX.to_string());
}

#[test]
fn prompt_marks() {
    assert_eq!(checkbox(true), "[x]");
    assert_eq!(checkbox(false), "[ ]");
    assert_eq!(toggle_hint(true), "  Space:toggle");
    assert_eq!(toggle_hint(false), "");
    assert_eq!(path_hint(true, true), "  Tab:complete  Bksp:up dir");
    assert_eq!(path_hint(true, false), "");
    assert_eq!(cursor(true), "\u{2588}");
    assert_eq!(cursor(false), "");
    assert_eq!(completion_counter(0, 3), " (1/3)");
    assert_eq!(completion_counter(11, 12), " (12/12)");
}

#[test]
fn list_row_padding_and_lock() {
    let open = repo("demo", false);
    let closed = repo("demo", true);
    assert_eq!(lock_mark(&open), "");
    assert_eq!(lock_mark(&closed), " \u{f023}");
    // 20 columns: icon 2, name 4, lock 4 bytes
    assert_eq!(row_padding(20, &open), 14);
    assert_eq!(row_padding(20, &closed), 10);
    assert_eq!(row_padding(5, &closed), 0);
    assert_eq!(row_padding(6, &open), 0);
    assert_eq!(row_padding(7, &open), 1);
    assert_eq!(row_padding(30, &repo("é", false)), 26);
}

#[test]
fn info_panel_lines() {
    let v = info_values(&repo("demo", true));
    let expected = [
        ("Name", "demo"),
        ("Description", "No description"),
        ("URL", "https://github.com/me/demo"),
        ("Language", "Rust"),
        ("License", "None"),
        ("Stars", "\u{2605} 1234"),
        ("Visibility", "private"),
        ("Updated", "2024-01-01"),
    ];
    assert_eq!(v.len(), 8);
    for (got, want) in v.iter().zip(expected.iter()) {
        assert_eq!(got.0, want.0);
        assert_eq!(got.1, want.1);
    }
    assert_eq!(padded_label("URL"), "URL          ");
    assert_eq!(padded_label("Description"), "Description  ");
    assert_eq!(padded_label("A label longer"), "A label longer");
    assert_eq!(info_marker(true), "\u{25b6} ");
    assert_eq!(info_marker(false), "  ");
}

#[test]
fn plain_text_rows() {
    assert_eq!(visual_line_count("Hello World", 20), 1);
    assert_eq!(visual_line_count("Hello World", 10), 2);
    assert_eq!(visual_line_count("Hello World", 0), visual_line_count("Hello World", 1));
    let mut app = App::new(vec![repo("a", false)]);
    app.set_areas(PanelAreas {
        repos: Area { x: 0, y: 0, width: 30, height: 10 },
        info: Area { x: 30, y: 0, width: 70, height: 10 },
        readme: Area { x: 30, y: 10, width: 70, height: 6 },
    });
    app.readme_scroll = 50;
    app.lay_out_plain_readme(10, "one two three four five six seven eight nine ten");
    assert_eq!(app.readme_rendered_width, 10);
    assert!(app.readme_line_count >= 5);
    assert!(app.readme_scroll as u32 <= app.readme_line_count as u32);
}
