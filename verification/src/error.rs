use vstd::prelude::*;

verus! {

#[verifier::external_type_specification]
#[verifier::external_body]
pub struct ExOctocrabError(octocrab::Error);

#[verifier::external_type_specification]
#[verifier::external_body]
pub struct ExDecodeError(base64::DecodeError);

#[verifier::external_type_specification]
#[verifier::external_body]
pub struct ExFromUtf8Error(std::string::FromUtf8Error);

/// What can go wrong when talking to GitHub or to git.
#[derive(Debug)]
pub enum RepoKaiError {
    /// No GitHub token was found (in `GITHUB_TOKEN` or through `gh auth login`).
    MissingToken,
    /// The GitHub API failed.
    GitHub(octocrab::Error),
    /// Text that should be Base64 was not.
    Base64(base64::DecodeError),
    /// Bytes that should be UTF-8 were not.
    Utf8(std::string::FromUtf8Error),
    /// A git command could not run or failed.
    Git(String),
    /// A local path was not what the operation needs.
    Path(String),
}

} // verus!
