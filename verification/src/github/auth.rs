//! The GitHub token and login of the `gh` command line tool, read from its output.
use vstd::prelude::*;
use crate::text::{trim, trimmed};

verus! {

broadcast use vstd::string::group_string_axioms;

/// Why no GitHub token could be had from `gh`.
#[derive(Debug)]
pub enum AuthError {
    GhNotFound,
    NotAuthenticated,
    IoError(String),
}

/// The message shown for an `AuthError`.
pub open spec fn auth_error_text(e: AuthError) -> Seq<char> {
    match e {
        AuthError::GhNotFound => "gh CLI not found. Please install: https://cli.github.com"@,
        AuthError::NotAuthenticated => "Not authenticated with gh. Run: gh auth login"@,
        AuthError::IoError(msg) => "IO error: "@ + msg@,
    }
}

/// The short message the sidebar commands report for an `AuthError`.
pub open spec fn auth_error_short_text(e: AuthError) -> Seq<char> {
    match e {
        AuthError::GhNotFound => "gh CLI not found"@,
        AuthError::NotAuthenticated => "Not authenticated with gh"@,
        AuthError::IoError(msg) => "IO error: "@ + msg@,
    }
}

impl AuthError {
    /// The message of the error, as its `Display` writes it.
    pub fn message(&self) -> (s: String)
        ensures
            s@ == auth_error_text(*self),
    {
        let mut s = String::new();
        match self {
            AuthError::GhNotFound => s.append(
                "gh CLI not found. Please install: https://cli.github.com",
            ),
            AuthError::NotAuthenticated => s.append("Not authenticated with gh. Run: gh auth login"),
            AuthError::IoError(msg) => {
                s.append("IO error: ");
                s.append(msg.as_str());
            },
        }
        s
    }

    /// The short message the sidebar commands report.
    pub fn short_message(&self) -> (s: String)
        ensures
            s@ == auth_error_short_text(*self),
    {
        let mut s = String::new();
        match self {
            AuthError::GhNotFound => s.append("gh CLI not found"),
            AuthError::NotAuthenticated => s.append("Not authenticated with gh"),
            AuthError::IoError(msg) => {
                s.append("IO error: ");
                s.append(msg.as_str());
            },
        }
        s
    }
}

/// The token that `gh auth token` printed: its output trimmed. A failed run, or an output
/// of white space only, means that `gh` is not authenticated.
pub fn token_from_output(success: bool, stdout: &str) -> (r: Result<String, AuthError>)
    ensures
        match r {
            Ok(t) => success && t@ == trimmed(stdout@) && t@.len() > 0,
            Err(e) => e is NotAuthenticated && (!success || trimmed(stdout@).len() == 0),
        },
{
    if !success {
        return Err(AuthError::NotAuthenticated);
    }
    let token = trim(stdout);
    if token.as_str().is_empty() {
        return Err(AuthError::NotAuthenticated);
    }
    Ok(token)
}

/// The login that `gh api user --jq .login` printed: its output trimmed. A failed run gives
/// its trimmed stderr as the error; an empty login an error of its own.
pub fn login_from_output(success: bool, stdout: &str, stderr: &str) -> (r: Result<String, String>)
    ensures
        match r {
            Ok(login) => success && login@ == trimmed(stdout@) && login@.len() > 0,
            Err(msg) => if !success {
                msg@ == trimmed(stderr@)
            } else {
                trimmed(stdout@).len() == 0 && msg@
                    == "Failed to determine authenticated GitHub login"@
            },
        },
{
    if !success {
        return Err(trim(stderr));
    }
    let login = trim(stdout);
    if login.as_str().is_empty() {
        return Err(String::from_str("Failed to determine authenticated GitHub login"));
    }
    Ok(login)
}

} // verus!
