use repokai::command::CommandOutput;
use repokai::error::RepoKaiError;
use repokai::token::{
    first_token_source, gh_token, keychain_token, next_token_step, token_command, TokenNext,
    TokenProbe, TokenSource,
};

fn ran(success: bool, stdout: &str) -> Result<CommandOutput, String> {
    Ok(CommandOutput { success, stdout: stdout.as_bytes().to_vec(), stderr: Vec::new() })
}

#[test]
fn keychain_decodes_base64_entry() {
    // "ghp_abc" in Base64
    let r = keychain_token(ran(true, "go-keyring-base64:Z2hwX2FiYw==\n"));
    assert_eq!(r.unwrap(), "ghp_abc");
}

#[test]
fn keychain_accepts_plain_tokens() {
    assert_eq!(keychain_token(ran(true, "  ghp_xyz\n")).unwrap(), "ghp_xyz");
    assert_eq!(keychain_token(ran(true, "gho_1")).unwrap(), "gho_1");
    assert_eq!(keychain_token(ran(true, "github_pat_2")).unwrap(), "github_pat_2");
}

#[test]
fn keychain_rejects_other_values() {
    assert!(matches!(keychain_token(ran(true, "secret")), Err(RepoKaiError::MissingToken)));
    assert!(matches!(keychain_token(ran(false, "ghp_xyz")), Err(RepoKaiError::MissingToken)));
    assert!(matches!(
        keychain_token(Err("not found".to_string())),
        Err(RepoKaiError::MissingToken)
    ));
    assert!(matches!(
        keychain_token(ran(true, "go-keyring-base64:!!!")),
        Err(RepoKaiError::MissingToken)
    ));
    // valid Base64 of the byte 0xff, which is not UTF-8
    assert!(matches!(
        keychain_token(ran(true, "go-keyring-base64:/w==")),
        Err(RepoKaiError::MissingToken)
    ));
}

#[test]
fn gh_token_needs_success_and_output() {
    assert_eq!(gh_token(ran(true, "tok\n")), Some("tok".to_string()));
    assert_eq!(gh_token(ran(true, "  \n")), None);
    assert_eq!(gh_token(ran(false, "tok")), None);
    assert_eq!(gh_token(Err("no gh".to_string())), None);
}

#[test]
fn token_search_goes_through_sources_in_order() {
    let s = first_token_source();
    assert_eq!(s, TokenSource::Environment);
    let n = next_token_step(s, TokenProbe::Variable(None));
    let s = match n {
        TokenNext::Look(s) => s,
        _ => panic!("expected the keychain next"),
    };
    assert_eq!(s, TokenSource::Keychain);
    let cmd = token_command(s);
    assert_eq!(cmd.program, "security");
    assert_eq!(cmd.args, vec!["find-generic-password", "-s", "gh:github.com", "-a", "", "-w"]);
    let mut s = match next_token_step(s, TokenProbe::Ran(ran(false, ""))) {
        TokenNext::Look(s) => s,
        _ => panic!("expected the GitHub CLI next"),
    };
    let mut programs = Vec::new();
    loop {
        let cmd = token_command(s);
        programs.push(cmd.program.clone());
        assert_eq!(cmd.args, vec!["auth", "token"]);
        match next_token_step(s, TokenProbe::Ran(Err("missing".to_string()))) {
            TokenNext::Look(n) => s = n,
            TokenNext::Missing => break,
            TokenNext::Found(_) => panic!("nothing to find"),
        }
    }
    assert_eq!(programs, vec!["gh", "/opt/homebrew/bin/gh", "/usr/local/bin/gh"]);
}

#[test]
fn token_search_stops_at_first_token() {
    match next_token_step(TokenSource::Environment, TokenProbe::Variable(Some("".to_string()))) {
        TokenNext::Found(t) => assert_eq!(t, ""),
        _ => panic!("a set variable is the token"),
    }
    match next_token_step(TokenSource::GhCli(1), TokenProbe::Ran(ran(true, "abc\n"))) {
        TokenNext::Found(t) => assert_eq!(t, "abc"),
        _ => panic!("gh printed a token"),
    }
}
