use repokai::api::{decode_readme, readme_from_reply, readme_route, repo_route};
use repokai::error::RepoKaiError;

#[test]
fn decode_readme_ignores_whitespace() {
    let r = decode_readme(Some("aGVs\nbG8g\r\nd29y bGQ=".to_string())).unwrap();
    assert_eq!(r.as_deref(), Some("hello world"));
}

#[test]
fn decode_readme_without_content() {
    assert!(matches!(decode_readme(None), Ok(None)));
}

#[test]
fn decode_readme_errors() {
    assert!(matches!(decode_readme(Some("***".to_string())), Err(RepoKaiError::Base64(_))));
    assert!(matches!(decode_readme(Some("/w==".to_string())), Err(RepoKaiError::Utf8(_))));
}

#[test]
fn failed_request_means_no_readme() {
    assert!(matches!(readme_from_reply(None), Ok(None)));
    assert!(matches!(readme_from_reply(Some(None)), Ok(None)));
    let r = readme_from_reply(Some(Some("SGk=".to_string()))).unwrap();
    assert_eq!(r.as_deref(), Some("Hi"));
}

#[test]
fn routes() {
    assert_eq!(repo_route("octo", "hello"), "/repos/octo/hello");
    assert_eq!(readme_route("octo", "hello"), "/repos/octo/hello/readme");
}

#[test]
fn reply_with_bad_content_names_the_error() {
    assert!(matches!(readme_from_reply(Some(Some("***".to_string()))), Err(RepoKaiError::Base64(_))));
    assert!(matches!(readme_from_reply(Some(Some("/w==".to_string()))), Err(RepoKaiError::Utf8(_))));
}
