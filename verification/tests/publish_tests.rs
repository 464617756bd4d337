use repokai::api::{collect_page, create_request_body, update_request_body};
use repokai::command::CommandOutput;
use repokai::error::RepoKaiError;
use repokai::model::{PublishOptions, RepoRecord, UpdateRepoOptions};
use repokai::publish::{
    clone_command, clone_outcome, publish_add_remote, publish_create_body, publish_push,
    publish_remote_check, publish_result,
};

fn opts() -> PublishOptions {
    PublishOptions {
        local_path: "/home/me/proj".to_string(),
        name: "proj".to_string(),
        description: "My project".to_string(),
        private: true,
    }
}

fn output(success: bool, stdout: &str, stderr: &str) -> Result<CommandOutput, String> {
    Ok(CommandOutput {
        success,
        stdout: stdout.as_bytes().to_vec(),
        stderr: stderr.as_bytes().to_vec(),
    })
}

fn created() -> RepoRecord {
    RepoRecord {
        owner_login: Some("me".to_string()),
        name: "proj".to_string(),
        description: Some("My project".to_string()),
        html_url: Some("https://github.com/me/proj".to_string()),
        language: None,
        license_name: None,
        stargazers_count: Some(3),
        private: Some(true),
        updated_at: None,
        clone_url: Some("https://github.com/me/proj.git".to_string()),
    }
}

fn git_message(e: RepoKaiError) -> String {
    match e {
        RepoKaiError::Git(m) => m,
        other => panic!("expected a git error, got {other:?}"),
    }
}

#[test]
fn clone_refuses_busy_destination() {
    match clone_command("https://x/y.git", "/tmp/y", true) {
        Err(RepoKaiError::Path(m)) => assert_eq!(m, "/tmp/y already exists and is not empty"),
        _ => panic!("expected a path error"),
    }
}

#[test]
fn clone_runs_git_clone() {
    let c = clone_command("https://x/y.git", "/tmp/y", false).unwrap();
    assert_eq!(c.program, "git");
    assert_eq!(c.args, vec!["clone", "https://x/y.git", "/tmp/y"]);
    assert_eq!(c.dir, None);
}

#[test]
fn clone_outcome_reports_failures() {
    assert!(clone_outcome(output(true, "", "")).is_ok());
    assert_eq!(git_message(clone_outcome(output(false, "", "fatal: nope")).unwrap_err()), "clone failed: fatal: nope");
    assert_eq!(git_message(clone_outcome(Err("no git".to_string())).unwrap_err()), "no git");
}

#[test]
fn publish_needs_a_git_repository() {
    match publish_remote_check(&opts(), false) {
        Err(RepoKaiError::Path(m)) => assert_eq!(m, "/home/me/proj is not a git repository"),
        _ => panic!("expected a path error"),
    }
    let c = publish_remote_check(&opts(), true).unwrap();
    assert_eq!(c.args, vec!["remote", "get-url", "origin"]);
    assert_eq!(c.dir.as_deref(), Some("/home/me/proj"));
}

#[test]
fn publish_refuses_existing_origin() {
    let e = publish_create_body(&opts(), output(true, "git@github.com:me/old.git\n", "")).unwrap_err();
    assert_eq!(git_message(e), "origin remote already exists: git@github.com:me/old.git");
}

#[test]
fn publish_creation_body() {
    let body = publish_create_body(&opts(), output(false, "", "error: No such remote")).unwrap();
    assert_eq!(body.get("name").and_then(|v| v.as_str()), Some("proj"));
    assert_eq!(body.get("description").and_then(|v| v.as_str()), Some("My project"));
    assert_eq!(body.get("private").and_then(|v| v.as_bool()), Some(true));
    assert_eq!(body.get("auto_init").and_then(|v| v.as_bool()), Some(false));
    assert_eq!(body.len(), 4);
    assert_eq!(create_request_body(&opts()).len(), 4);
}

#[test]
fn publish_adds_remote_and_pushes() {
    let c = publish_add_remote(&opts(), &created());
    assert_eq!(c.args, vec!["remote", "add", "origin", "https://github.com/me/proj.git"]);
    let e = publish_push(&opts(), output(false, "", "boom")).unwrap_err();
    assert_eq!(git_message(e), "failed to add remote: boom");
    let p = publish_push(&opts(), output(true, "", "")).unwrap();
    assert_eq!(p.args, vec!["push", "-u", "origin", "--all"]);
    assert_eq!(p.dir.as_deref(), Some("/home/me/proj"));
    let e = publish_result(&opts(), &created(), output(false, "", "rejected")).unwrap_err();
    assert_eq!(git_message(e), "failed to push: rejected");
    let repo = publish_result(&opts(), &created(), output(true, "", "")).unwrap();
    assert_eq!(repo.stars, 0);
    assert_eq!(repo.visibility, "private");
    assert_eq!(repo.url, "https://github.com/me/proj");
}

#[test]
fn update_body_holds_only_what_changes() {
    let b = update_request_body(&UpdateRepoOptions { description: None, private: None });
    assert!(b.is_empty());
    let b = update_request_body(&UpdateRepoOptions {
        description: Some("new".to_string()),
        private: Some(false),
    });
    assert_eq!(b.get("description").and_then(|v| v.as_str()), Some("new"));
    assert_eq!(b.get("private").and_then(|v| v.as_bool()), Some(false));
    assert_eq!(b.len(), 2);
    let b = update_request_body(&UpdateRepoOptions { description: None, private: Some(true) });
    assert_eq!(b.len(), 1);
    assert_eq!(b.get("private").and_then(|v| v.as_bool()), Some(true));
}

#[test]
fn pages_are_collected_until_the_last() {
    let mut all = Vec::new();
    let page = vec![created(), created()];
    assert_eq!(collect_page(&mut all, 1, &page, true), Some(2));
    assert_eq!(all.len(), 2);
    assert_eq!(collect_page(&mut all, 2, &vec![created()], false), None);
    assert_eq!(all.len(), 3);
    assert_eq!(collect_page(&mut all, 3, &Vec::new(), true), None);
    assert_eq!(all.len(), 3);
    assert_eq!(all[2].stars, 3);
}
