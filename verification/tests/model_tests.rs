use repokai::model::{map_repo, published_repo, PublishOptions, RepoRecord};

fn record() -> RepoRecord {
    RepoRecord {
        owner_login: Some("octo".to_string()),
        name: "hello".to_string(),
        description: Some("A repo".to_string()),
        html_url: Some("https://github.com/octo/hello".to_string()),
        language: Some("Rust".to_string()),
        license_name: Some("MIT License".to_string()),
        stargazers_count: Some(42),
        private: Some(true),
        updated_at: Some("2024-01-01 00:00:00 UTC".to_string()),
        clone_url: Some("https://github.com/octo/hello.git".to_string()),
    }
}

#[test]
fn map_repo_copies_fields() {
    let r = map_repo(&record());
    assert_eq!(r.owner, "octo");
    assert_eq!(r.name, "hello");
    assert_eq!(r.description.as_deref(), Some("A repo"));
    assert_eq!(r.url, "https://github.com/octo/hello");
    assert_eq!(r.language.as_deref(), Some("Rust"));
    assert_eq!(r.license.as_deref(), Some("MIT License"));
    assert_eq!(r.stars, 42);
    assert_eq!(r.visibility, "private");
    assert_eq!(r.last_updated, "2024-01-01 00:00:00 UTC");
    assert!(r.readme.is_none());
}

#[test]
fn map_repo_defaults_missing_fields() {
    let rec = RepoRecord {
        owner_login: None,
        name: "x".to_string(),
        description: None,
        html_url: None,
        language: None,
        license_name: None,
        stargazers_count: None,
        private: None,
        updated_at: None,
        clone_url: None,
    };
    let r = map_repo(&rec);
    assert_eq!(r.owner, "");
    assert_eq!(r.url, "");
    assert_eq!(r.stars, 0);
    assert_eq!(r.visibility, "public");
    assert_eq!(r.last_updated, "");
}

#[test]
fn published_repo_uses_requested_visibility_and_no_stars() {
    let opts = PublishOptions {
        local_path: "/tmp/x".to_string(),
        name: "hello".to_string(),
        description: "d".to_string(),
        private: false,
    };
    let r = published_repo(&record(), &opts);
    assert_eq!(r.stars, 0);
    assert_eq!(r.visibility, "public");
    assert_eq!(r.name, "hello");
}
