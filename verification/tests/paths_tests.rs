use repokai::paths::{
    backspace_path, completion_matches, completion_query, drop_last_char, expand_tilde,
    replace_first_exec, DirEntryInfo,
};

fn entry(name: &str, is_dir: bool) -> DirEntryInfo {
    DirEntryInfo { name: name.to_string(), is_dir }
}

#[test]
fn expand_tilde_replaces_leading_tilde_only() {
    assert_eq!(expand_tilde("~/code", "/home/me"), "/home/me/code");
    assert_eq!(expand_tilde("~", "/home/me"), "/home/me");
    assert_eq!(expand_tilde("/tmp/~x", "/home/me"), "/tmp/~x");
    assert_eq!(expand_tilde("", "/home/me"), "");
}

#[test]
fn completion_query_splits_directory_and_prefix() {
    assert_eq!(completion_query("~/", "/home/me"), ("/home/me/".to_string(), String::new()));
    assert_eq!(
        completion_query("~/Doc", "/home/me"),
        ("/home/me".to_string(), "Doc".to_string())
    );
    assert_eq!(completion_query("/usr/lo", "/h"), ("/usr".to_string(), "lo".to_string()));
    assert_eq!(completion_query("abc", "/h"), (String::new(), "abc".to_string()));
    assert_eq!(completion_query("/", "/h"), ("/".to_string(), String::new()));
}

#[test]
fn replace_first_replaces_one_occurrence() {
    assert_eq!(replace_first_exec("/home/me/home/me", "/home/me", "~"), "~/home/me");
    assert_eq!(replace_first_exec("abc", "x", "~"), "abc");
    assert_eq!(replace_first_exec("abc", "", "~"), "~abc");
}

#[test]
fn completions_are_filtered_joined_and_sorted() {
    let entries = vec![
        entry("Documents", true),
        entry("docs.txt", false),
        entry("Music", true),
        entry("dev", true),
    ];
    let m = completion_matches("~/do", "/home/me", "/home/me", "do", &entries);
    assert_eq!(m, vec!["~/docs.txt".to_string(), "~/Documents/".to_string()]);
    let m = completion_matches("/home/me/", "/home/me", "/home/me/", "", &entries);
    assert_eq!(
        m,
        vec![
            "/home/me/dev/".to_string(),
            "/home/me/docs.txt".to_string(),
            "/home/me/Documents/".to_string(),
            "/home/me/Music/".to_string(),
        ]
    );
}

#[test]
fn completions_with_same_lowercase_keep_directory_order() {
    let entries = vec![entry("B", false), entry("a", false), entry("b", false)];
    let m = completion_matches("/d/", "/h", "/d/", "", &entries);
    assert_eq!(m, vec!["/d/a".to_string(), "/d/B".to_string(), "/d/b".to_string()]);
}

#[test]
fn backspace_goes_up_a_directory() {
    assert_eq!(backspace_path("~/code/proj/"), "~/code/");
    assert_eq!(backspace_path("~/code//"), "~/");
    assert_eq!(backspace_path("abc/"), "abc");
    assert_eq!(backspace_path("~/cod"), "~/co");
    assert_eq!(backspace_path("/"), "");
    assert_eq!(backspace_path(""), "");
    assert_eq!(drop_last_char("é!"), "é");
}
