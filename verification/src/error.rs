//! What can go wrong, and the message for each.

use vstd::prelude::*;

verus! {

/// Why a fetch did not produce the text of a file.
pub enum FetchFailure {
    /// The request did not get an answer; the text says why.
    Transport(String),
    /// The answer carried a status that is no success, given with its text.
    Status(u16, String),
    /// The body of the answer could not be read as text.
    Body(String),
}

impl FetchFailure {
    /// The text of the underlying cause.
    pub open spec fn cause(self) -> Seq<char> {
        match self {
            FetchFailure::Transport(text) => text@,
            FetchFailure::Status(_, text) => text@,
            FetchFailure::Body(text) => text@,
        }
    }
}

/// The errors of the library and of the format.
pub enum GitHubError {
    /// `addFormat` was called with fewer than two arguments.
    MissingArguments,
    /// The library has no function of this name.
    UnknownFunction(String),
    /// The file could not be fetched.
    Fetch(FetchFailure),
}

/// The message of `MissingArguments`: the call shape that is asked for.
pub open spec fn missing_arguments_text() -> Seq<char> {
    "GitHub.addFormat requires at least 2 parameters: GitHub.addFormat(owner: str, repo: str, repo_id?: str, headers?: vec)"@
}

/// The message of `UnknownFunction` for the function `name`.
pub open spec fn unknown_function_text(name: Seq<char>) -> Seq<char> {
    "Could not execute '"@ + name + "' in the GitHub library"@
}

impl GitHubError {
    /// The message of this error.
    pub open spec fn message_text(self) -> Seq<char> {
        match self {
            GitHubError::MissingArguments => missing_arguments_text(),
            GitHubError::UnknownFunction(name) => unknown_function_text(name@),
            GitHubError::Fetch(failure) => failure.cause(),
        }
    }

    /// The message of this error: for `MissingArguments` the call shape, for
    /// `UnknownFunction` the name that was asked for, for `Fetch` the text of
    /// the underlying cause, unchanged.
    pub fn message(&self) -> (r: String)
        ensures
            r@ == self.message_text(),
    {
        match self {
            GitHubError::MissingArguments => {
                "GitHub.addFormat requires at least 2 parameters: GitHub.addFormat(owner: str, repo: str, repo_id?: str, headers?: vec)".to_owned()
            },
            GitHubError::UnknownFunction(name) => {
                let mut r = "Could not execute '".to_owned();
                r.append(name.as_str());
                r.append("' in the GitHub library");
                r
            },
            GitHubError::Fetch(FetchFailure::Transport(text)) => text.clone(),
            GitHubError::Fetch(FetchFailure::Status(_, text)) => text.clone(),
            GitHubError::Fetch(FetchFailure::Body(text)) => text.clone(),
        }
    }
}

} // verus!
