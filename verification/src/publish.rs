use vstd::prelude::*;
use crate::api::{create_entries, create_request_body, json_entries, JsonObject};
use crate::codec::{lossy_string, utf8_lossy};
use crate::command::{concat, owned_strings, runs, CommandOutput, CommandSpec};
use crate::error::RepoKaiError;
use crate::model::{describes, published_repo, string_or_empty, text_or_empty, visibility_label, PublishOptions, Repo, RepoRecord};
use crate::text::{trim, trimmed};

verus! {

broadcast use vstd::string::group_string_axioms;

/// `r` is the `Git` error with message `m`.
pub open spec fn is_git_error(r: RepoKaiError, m: Seq<char>) -> bool {
    r matches RepoKaiError::Git(s) && s@ == m
}

/// `r` is the `Path` error with message `m`.
pub open spec fn is_path_error(r: RepoKaiError, m: Seq<char>) -> bool {
    r matches RepoKaiError::Path(s) && s@ == m
}

/// The error a failed run of a program gives: the reason it could not start, or
/// `prefix` followed by what it wrote to standard error.
pub open spec fn run_failure(run: Result<CommandOutput, String>, prefix: Seq<char>) -> Option<
    Seq<char>,
> {
    match run {
        Err(e) => Some(e@),
        Ok(o) => if o.success {
            None
        } else {
            Some(prefix + utf8_lossy(o.stderr@))
        },
    }
}

/// The `Git` error for a failed run, or `None` when it succeeded.
fn check_run(run: &Result<CommandOutput, String>, prefix: &str) -> (r: Option<RepoKaiError>)
    ensures
        match run_failure(*run, prefix@) {
            None => r is None,
            Some(m) => (r matches Some(e) && is_git_error(e, m)),
        },
{
    match run {
        Err(e) => Some(RepoKaiError::Git(e.clone())),
        Ok(o) => {
            if o.success {
                None
            } else {
                let err = lossy_string(&o.stderr);
                Some(RepoKaiError::Git(concat(prefix, err.as_str())))
            }
        },
    }
}

/// The `git clone` to run, unless the destination already exists with something
/// in it (a `Path` error then).
pub fn clone_command(url: &str, destination: &str, destination_in_use: bool) -> (r: Result<
    CommandSpec,
    RepoKaiError,
>)
    ensures
        destination_in_use ==> (r matches Err(e) && is_path_error(
            e,
            destination@ + " already exists and is not empty"@,
        )),
        !destination_in_use ==> (r matches Ok(c) && runs(
            c,
            "git"@,
            seq!["clone"@, url@, destination@],
            None,
        )),
{
    if destination_in_use {
        return Err(RepoKaiError::Path(concat(destination, " already exists and is not empty")));
    }
    let args = owned_strings(&vec!["clone", url, destination]);
    assert(args.deep_view() =~= seq!["clone"@, url@, destination@]);
    Ok(CommandSpec { program: "git".to_string(), args, dir: None })
}

/// The result of cloning, from the run of `git clone`: a `Git` error when it could
/// not start (with the reason) or failed (with what it wrote to standard error).
pub fn clone_outcome(run: Result<CommandOutput, String>) -> (r: Result<(), RepoKaiError>)
    ensures
        match run_failure(run, "clone failed: "@) {
            None => r is Ok,
            Some(m) => (r matches Err(e) && is_git_error(e, m)),
        },
{
    match check_run(&run, "clone failed: ") {
        Some(e) => Err(e),
        None => Ok(()),
    }
}

/// The first step of publishing: a `Path` error when the local path is not a git
/// repository, else the command that looks for an `origin` remote there.
pub fn publish_remote_check(opts: &PublishOptions, is_git_repo: bool) -> (r: Result<
    CommandSpec,
    RepoKaiError,
>)
    ensures
        !is_git_repo ==> (r matches Err(e) && is_path_error(
            e,
            opts.local_path@ + " is not a git repository"@,
        )),
        is_git_repo ==> (r matches Ok(c) && runs(
            c,
            "git"@,
            seq!["remote"@, "get-url"@, "origin"@],
            Some(opts.local_path@),
        )),
{
    if !is_git_repo {
        return Err(
            RepoKaiError::Path(concat(opts.local_path.as_str(), " is not a git repository")),
        );
    }
    let args = owned_strings(&vec!["remote", "get-url", "origin"]);
    assert(args.deep_view() =~= seq!["remote"@, "get-url"@, "origin"@]);
    Ok(CommandSpec { program: "git".to_string(), args, dir: Some(opts.local_path.clone()) })
}

/// The second step of publishing, from the run of the remote check: a `Git` error
/// when it could not start, or when it succeeded (an `origin` remote exists; the
/// message names it); else the body of the request that creates the repository.
pub fn publish_create_body(opts: &PublishOptions, check: Result<CommandOutput, String>) -> (r:
    Result<JsonObject, RepoKaiError>)
    ensures
        match check {
            Err(m) => (r matches Err(e) && is_git_error(e, m@)),
            Ok(o) => if o.success {
                (r matches Err(e) && is_git_error(
                    e,
                    "origin remote already exists: "@ + trimmed(utf8_lossy(o.stdout@)),
                ))
            } else {
                (r matches Ok(body) && json_entries(body) == create_entries(*opts))
            },
        },
{
    match check {
        Err(m) => Err(RepoKaiError::Git(m)),
        Ok(o) => {
            if o.success {
                let existing = trim(lossy_string(&o.stdout).as_str());
                Err(
                    RepoKaiError::Git(
                        concat("origin remote already exists: ", existing.as_str()),
                    ),
                )
            } else {
                Ok(create_request_body(opts))
            }
        },
    }
}

/// The third step of publishing, once GitHub created the repository: add it as
/// the `origin` remote of the local repository (by its clone URL, empty when the
/// reply has none).
pub fn publish_add_remote(opts: &PublishOptions, created: &RepoRecord) -> (c: CommandSpec)
    ensures
        runs(
            c,
            "git"@,
            seq!["remote"@, "add"@, "origin"@, text_or_empty(created.clone_url)],
            Some(opts.local_path@),
        ),
{
    let url = string_or_empty(&created.clone_url);
    let args = owned_strings(&vec!["remote", "add", "origin", url.as_str()]);
    assert(args.deep_view() =~= seq!["remote"@, "add"@, "origin"@, url@]);
    CommandSpec { program: "git".to_string(), args, dir: Some(opts.local_path.clone()) }
}

/// The fourth step of publishing, from the run that added the remote: a `Git`
/// error when it could not start or failed, else the push of all branches.
pub fn publish_push(opts: &PublishOptions, add_remote: Result<CommandOutput, String>) -> (r:
    Result<CommandSpec, RepoKaiError>)
    ensures
        match run_failure(add_remote, "failed to add remote: "@) {
            None => (r matches Ok(c) && runs(
                c,
                "git"@,
                seq!["push"@, "-u"@, "origin"@, "--all"@],
                Some(opts.local_path@),
            )),
            Some(m) => (r matches Err(e) && is_git_error(e, m)),
        },
{
    match check_run(&add_remote, "failed to add remote: ") {
        Some(e) => Err(e),
        None => {
            let args = owned_strings(&vec!["push", "-u", "origin", "--all"]);
            assert(args.deep_view() =~= seq!["push"@, "-u"@, "origin"@, "--all"@]);
            Ok(CommandSpec { program: "git".to_string(), args, dir: Some(opts.local_path.clone()) })
        },
    }
}

/// The last step of publishing, from the push: a `Git` error when it could not
/// start or failed, else the new repository (no stars, the visibility asked for).
pub fn publish_result(
    opts: &PublishOptions,
    created: &RepoRecord,
    push: Result<CommandOutput, String>,
) -> (r: Result<Repo, RepoKaiError>)
    ensures
        match run_failure(push, "failed to push: "@) {
            None => (r matches Ok(repo) && describes(repo, *created) && repo.stars == 0
                && repo.visibility@ == visibility_label(opts.private)),
            Some(m) => (r matches Err(e) && is_git_error(e, m)),
        },
{
    match check_run(&push, "failed to push: ") {
        Some(e) => Err(e),
        None => Ok(published_repo(created, opts)),
    }
}

} // verus!
