use vstd::prelude::*;
use crate::codec::{base64_decode, base64_standard_decode, lossy_string, string_from_utf8, utf8_lossy};
use crate::command::{owned_strings, runs, CommandOutput, CommandSpec};
use crate::error::RepoKaiError;
use crate::text::{chars_of, copy_range, string_of, trim, trimmed};

verus! {

broadcast use vstd::string::group_string_axioms;

/// `s` begins with `p`.
pub open spec fn has_prefix(s: Seq<char>, p: Seq<char>) -> bool {
    p.len() <= s.len() && s.take(p.len() as int) == p
}

/// Whether `s` begins with `p`.
pub fn starts_with(s: &Vec<char>, p: &str) -> (r: bool)
    ensures
        r == has_prefix(s@, p@),
{
    let pv = chars_of(p);
    if pv.len() > s.len() {
        return false;
    }
    let mut i: usize = 0;
    while i < pv.len()
        invariant
            i <= pv.len() <= s.len(),
            pv@ == p@,
            s@.take(i as int) == pv@.take(i as int),
        decreases pv.len() - i,
    {
        if s[i] != pv[i] {
            assert(s@.take(pv@.len() as int)[i as int] != pv@[i as int]);
            return false;
        }
        assert(s@.take(i + 1) =~= s@.take(i as int).push(s@[i as int]));
        assert(pv@.take(i + 1) =~= pv@.take(i as int).push(pv@[i as int]));
        i = i + 1;
    }
    assert(pv@.take(pv.len() as int) =~= pv@);
    true
}

/// How the keychain entry of the GitHub CLI gives a token: a value marked as
/// Base64 is decoded (it must decode to UTF-8), and a plain value counts only
/// when it looks like a GitHub token.
pub open spec fn keychain_value_token(raw: Seq<char>) -> Option<Seq<char>> {
    if has_prefix(raw, "go-keyring-base64:"@) {
        match base64_standard_decode(raw.skip("go-keyring-base64:"@.len() as int)) {
            None => None,
            Some(bytes) => if vstd::utf8::valid_utf8(bytes) {
                Some(vstd::utf8::decode_utf8(bytes))
            } else {
                None
            },
        }
    } else if has_prefix(raw, "ghp_"@) || has_prefix(raw, "gho_"@) || has_prefix(
        raw,
        "github_pat_"@,
    ) {
        Some(raw)
    } else {
        None
    }
}

/// What a run of the keychain query yields: the token that its trimmed output
/// holds, when it ran and succeeded.
pub open spec fn keychain_run_token(run: Result<CommandOutput, String>) -> Option<Seq<char>> {
    match run {
        Err(_) => None,
        Ok(o) => if o.success {
            keychain_value_token(trimmed(utf8_lossy(o.stdout@)))
        } else {
            None
        },
    }
}

/// The token in the keychain output, or `MissingToken`.
pub fn keychain_token(run: Result<CommandOutput, String>) -> (r: Result<String, RepoKaiError>)
    ensures
        match keychain_run_token(run) {
            Some(t) => (r matches Ok(s) && s@ == t),
            None => (r matches Err(RepoKaiError::MissingToken)),
        },
{
    let output = match run {
        Err(_) => {
            return Err(RepoKaiError::MissingToken);
        },
        Ok(o) => o,
    };
    if !output.success {
        return Err(RepoKaiError::MissingToken);
    }
    let raw = trim(lossy_string(&output.stdout).as_str());
    let rv = chars_of(raw.as_str());
    if starts_with(&rv, "go-keyring-base64:") {
        let plen = chars_of("go-keyring-base64:").len();
        let encoded = string_of(&copy_range(&rv, plen, rv.len()));
        assert(encoded@ =~= raw@.skip("go-keyring-base64:"@.len() as int));
        match base64_decode(encoded.as_str()) {
            Err(_) => Err(RepoKaiError::MissingToken),
            Ok(bytes) => match string_from_utf8(bytes) {
                Err(_) => Err(RepoKaiError::MissingToken),
                Ok(s) => Ok(s),
            },
        }
    } else if starts_with(&rv, "ghp_") || starts_with(&rv, "gho_") || starts_with(
        &rv,
        "github_pat_",
    ) {
        Ok(raw)
    } else {
        Err(RepoKaiError::MissingToken)
    }
}

/// What a run of `gh auth token` yields: its trimmed output, when it ran,
/// succeeded and printed something.
pub open spec fn gh_run_token(run: Result<CommandOutput, String>) -> Option<Seq<char>> {
    match run {
        Err(_) => None,
        Ok(o) => if o.success && trimmed(utf8_lossy(o.stdout@)).len() > 0 {
            Some(trimmed(utf8_lossy(o.stdout@)))
        } else {
            None
        },
    }
}

/// The token that a run of `gh auth token` printed, if any.
pub fn gh_token(run: Result<CommandOutput, String>) -> (r: Option<String>)
    ensures
        match gh_run_token(run) {
            Some(t) => (r matches Some(s) && s@ == t),
            None => r is None,
        },
{
    match run {
        Err(_) => None,
        Ok(o) => {
            if !o.success {
                return None;
            }
            let t = trim(lossy_string(&o.stdout).as_str());
            if chars_of(t.as_str()).len() > 0 {
                Some(t)
            } else {
                None
            }
        },
    }
}

/// Where to look for a GitHub token, in the order of the search.
#[derive(Debug, Clone, Copy, PartialEq, Eq, Structural)]
pub enum TokenSource {
    /// The `GITHUB_TOKEN` environment variable.
    Environment,
    /// The macOS keychain entry of the GitHub CLI.
    Keychain,
    /// The GitHub CLI at the given place of the candidate list.
    GhCli(usize),
}

/// What looking at a source gave: the variable's value (`None` when it is not set
/// or not Unicode), or the run of the source's command (`Err`: it could not start).
pub enum TokenProbe {
    Variable(Option<String>),
    Ran(Result<CommandOutput, String>),
}

/// What the search does next.
pub enum TokenNext {
    Look(TokenSource),
    Found(String),
    Missing,
}

/// The places where the GitHub CLI is looked for, in order.
pub open spec fn gh_candidate(i: int) -> Seq<char> {
    if i == 0 {
        "gh"@
    } else if i == 1 {
        "/opt/homebrew/bin/gh"@
    } else {
        "/usr/local/bin/gh"@
    }
}

/// How many places the GitHub CLI is looked for.
pub open spec fn gh_candidates() -> nat {
    3
}

/// A source that the search can reach.
pub open spec fn valid_source(s: TokenSource) -> bool {
    s matches TokenSource::GhCli(i) ==> i < gh_candidates()
}

/// The source after `s`, or `None` after the last one.
pub open spec fn source_after(s: TokenSource) -> Option<TokenSource> {
    match s {
        TokenSource::Environment => Some(TokenSource::Keychain),
        TokenSource::Keychain => Some(TokenSource::GhCli(0)),
        TokenSource::GhCli(i) => if i + 1 < gh_candidates() {
            Some(TokenSource::GhCli((i + 1) as usize))
        } else {
            None
        },
    }
}

/// Where the search for a token begins.
pub fn first_token_source() -> (s: TokenSource)
    ensures
        s == TokenSource::Environment,
{
    TokenSource::Environment
}

/// The command that reads a token from a source other than the environment:
/// `security find-generic-password -s gh:github.com -a "" -w` for the keychain,
/// `<candidate> auth token` for the GitHub CLI.
pub fn token_command(source: TokenSource) -> (c: CommandSpec)
    requires
        valid_source(source),
        source != TokenSource::Environment,
    ensures
        source == TokenSource::Keychain ==> runs(
            c,
            "security"@,
            seq!["find-generic-password"@, "-s"@, "gh:github.com"@, "-a"@, ""@, "-w"@],
            None,
        ),
        source matches TokenSource::GhCli(i) ==> runs(
            c,
            gh_candidate(i as int),
            seq!["auth"@, "token"@],
            None,
        ),
{
    match source {
        TokenSource::GhCli(i) => {
            let program = if i == 0 {
                "gh".to_string()
            } else if i == 1 {
                "/opt/homebrew/bin/gh".to_string()
            } else {
                "/usr/local/bin/gh".to_string()
            };
            let args = owned_strings(&vec!["auth", "token"]);
            assert(args.deep_view() =~= seq!["auth"@, "token"@]);
            CommandSpec { program, args, dir: None }
        },
        _ => {
            let args = owned_strings(
                &vec!["find-generic-password", "-s", "gh:github.com", "-a", "", "-w"],
            );
            assert(args.deep_view() =~= seq![
                "find-generic-password"@,
                "-s"@,
                "gh:github.com"@,
                "-a"@,
                ""@,
                "-w"@,
            ]);
            CommandSpec { program: "security".to_string(), args, dir: None }
        },
    }
}

/// The token that a probe of a source yields.
pub open spec fn probe_token(source: TokenSource, probe: TokenProbe) -> Option<Seq<char>> {
    match (source, probe) {
        (TokenSource::Environment, TokenProbe::Variable(v)) => match v {
            Some(t) => Some(t@),
            None => None,
        },
        (TokenSource::Keychain, TokenProbe::Ran(run)) => keychain_run_token(run),
        (TokenSource::GhCli(_), TokenProbe::Ran(run)) => gh_run_token(run),
        _ => None,
    }
}

/// The probe fits the source: the environment is read, the others run.
pub open spec fn probe_fits(source: TokenSource, probe: TokenProbe) -> bool {
    source == TokenSource::Environment <==> probe is Variable
}

/// One step of the token search: the token, when the source yields one (a set
/// variable counts even when empty); else the next source; `Missing` after the last.
pub fn next_token_step(source: TokenSource, probe: TokenProbe) -> (r: TokenNext)
    requires
        valid_source(source),
        probe_fits(source, probe),
    ensures
        match probe_token(source, probe) {
            Some(t) => (r matches TokenNext::Found(s) && s@ == t),
            None => match source_after(source) {
                Some(n) => r == TokenNext::Look(n),
                None => r is Missing,
            },
        },
        r matches TokenNext::Look(n) ==> valid_source(n),
{
    let found = match probe {
        TokenProbe::Variable(v) => v,
        TokenProbe::Ran(run) => match source {
            TokenSource::Keychain => match keychain_token(run) {
                Ok(t) => Some(t),
                Err(_) => None,
            },
            _ => gh_token(run),
        },
    };
    match found {
        Some(t) => TokenNext::Found(t),
        None => match source {
            TokenSource::Environment => TokenNext::Look(TokenSource::Keychain),
            TokenSource::Keychain => TokenNext::Look(TokenSource::GhCli(0)),
            TokenSource::GhCli(i) => {
                if i + 1 < 3 {
                    TokenNext::Look(TokenSource::GhCli(i + 1))
                } else {
                    TokenNext::Missing
                }
            },
        },
    }
}

} // verus!

verus! {

/// How many sources the search may still look at after `s`.
pub open spec fn sources_left(s: TokenSource) -> int {
    match s {
        TokenSource::Environment => 4,
        TokenSource::Keychain => 3,
        TokenSource::GhCli(i) => 2 - i,
    }
}

/// The search for a token moves forward: every next source is one that can be
/// reached and has fewer sources after it, so the search ends after at most five
/// looks (environment, keychain, three places of the GitHub CLI).
pub proof fn lemma_token_search_ends(s: TokenSource)
    requires
        valid_source(s),
    ensures
        0 <= sources_left(s) <= 4,
        source_after(s) matches Some(n) ==> valid_source(n) && sources_left(n) < sources_left(s),
        source_after(s) is None ==> sources_left(s) == 0,
{
}

} // verus!

verus! {

/// The search looks, in order, at the environment, the keychain and the GitHub
/// CLI as `gh`, `/opt/homebrew/bin/gh` and `/usr/local/bin/gh`, and then stops.
pub proof fn lemma_token_search_order()
    ensures
        source_after(TokenSource::Environment) == Some(TokenSource::Keychain),
        source_after(TokenSource::Keychain) == Some(TokenSource::GhCli(0)),
        source_after(TokenSource::GhCli(0)) == Some(TokenSource::GhCli(1)),
        source_after(TokenSource::GhCli(1)) == Some(TokenSource::GhCli(2)),
        source_after(TokenSource::GhCli(2)) is None,
        gh_candidate(0) == "gh"@,
        gh_candidate(1) == "/opt/homebrew/bin/gh"@,
        gh_candidate(2) == "/usr/local/bin/gh"@,
{
}

/// A set `GITHUB_TOKEN` is the token, even when empty; an unset one (or one that
/// is not Unicode) yields none.
pub proof fn lemma_token_found_first(source: TokenSource, probe: TokenProbe)
    ensures
        source == TokenSource::Environment ==> (probe matches TokenProbe::Variable(Some(t))
            ==> probe_token(source, probe) == Some(t@)),
        probe matches TokenProbe::Variable(None) ==> probe_token(source, probe) is None,
{
}

/// A keychain value marked as Base64 gives what it decodes to; an unmarked value
/// is a token exactly when it starts like a GitHub token (`ghp_`, `gho_`,
/// `github_pat_`), and then it is the value itself.
pub proof fn lemma_keychain_value(raw: Seq<char>)
    ensures
        !has_prefix(raw, "go-keyring-base64:"@) ==> (keychain_value_token(raw) is Some <==> (
        has_prefix(raw, "ghp_"@) || has_prefix(raw, "gho_"@) || has_prefix(raw, "github_pat_"@))),
        !has_prefix(raw, "go-keyring-base64:"@) && keychain_value_token(raw) is Some
            ==> keychain_value_token(raw) == Some(raw),
        has_prefix(raw, "go-keyring-base64:"@) ==> (keychain_value_token(raw) matches Some(t)
            ==> exists|b: Seq<u8>|
            base64_standard_decode(raw.skip(18)) == Some(b) && vstd::utf8::valid_utf8(b) && t
                == vstd::utf8::decode_utf8(b)),
{
    reveal_strlit("go-keyring-base64:");
    if has_prefix(raw, "go-keyring-base64:"@) {
        if let Some(b) = base64_standard_decode(raw.skip(18)) {
            assert(base64_standard_decode(raw.skip(18)) == Some(b));
        }
    }
}

} // verus!
