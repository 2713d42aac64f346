//! The format: one repository, addressed by owner and name, whose files are
//! fetched over HTTPS and handed to the host as text.

use crate::agent::build_agent;
use crate::error::FetchFailure;
use crate::error::GitHubError;
use crate::headers::pairs_of;
use crate::headers::put;
use crate::headers::Headers;
use ureq::Agent;
use vstd::prelude::*;

verus! {

/// Seconds a single read from the connection may take.
pub const READ_TIMEOUT_SECS: u64 = 3;

/// Seconds a single write to the connection may take.
pub const WRITE_TIMEOUT_SECS: u64 = 3;

/// The headers every format starts with: raw content is asked for, and the
/// version of the API is fixed.
pub open spec fn default_headers() -> Seq<(Seq<char>, Seq<char>)> {
    seq![
        ("Accept"@, "application/vnd.github.raw+json"@),
        ("X-GitHub-Api-Version"@, "2022-11-28"@),
    ]
}

/// A format as contracts see it.
pub struct FormatView {
    /// The repository ID: the format answers to `github:` followed by it.
    pub repo_id: Seq<char>,
    /// The owner of the repository.
    pub owner: Seq<char>,
    /// The name of the repository.
    pub repo: Seq<char>,
    /// The headers sent with every request, in order of first insertion.
    pub headers: Seq<(Seq<char>, Seq<char>)>,
}

impl FormatView {
    /// The format a new `GitHubFormat` stands for.
    pub open spec fn initial(repo: Seq<char>, owner: Seq<char>) -> FormatView {
        FormatView { repo_id: repo, owner: owner, repo: repo, headers: default_headers() }
    }

    /// The identifier under which the host knows the format.
    pub open spec fn identifier(self) -> Seq<char> {
        "github:"@ + self.repo_id
    }

    /// The address of the file at `path`; `path` goes in as it is.
    pub open spec fn url(self, path: Seq<char>) -> Seq<char> {
        "https://api.github.com/repos/"@ + self.owner + "/"@ + self.repo + "/contents/"@ + path
    }

    /// The request for the file at `path`.
    pub open spec fn request(self, path: Seq<char>) -> RequestView {
        RequestView { url: self.url(path), headers: self.headers }
    }
}

/// A GET request as contracts see it.
pub struct RequestView {
    /// The address.
    pub url: Seq<char>,
    /// The headers, in the order in which they are set.
    pub headers: Seq<(Seq<char>, Seq<char>)>,
}

/// A GET request for the embedding code to send: one attempt, no retry.
pub struct FetchRequest {
    /// The address.
    pub url: String,
    /// The headers to set, in this order.
    pub headers: Vec<(String, String)>,
}

impl View for FetchRequest {
    type V = RequestView;

    open spec fn view(&self) -> RequestView {
        RequestView { url: self.url@, headers: pairs_of(self.headers@) }
    }
}

/// What the embedding code reports to `get` and `file_import`.
pub enum FetchEvent {
    /// Nothing has happened yet.
    Begin,
    /// The request was sent: the text of the body, or why there is none.
    Received(Result<String, FetchFailure>),
}

/// What `get` asks for next.
pub enum FetchStep {
    /// Send this request and come back with `FetchEvent::Received`.
    Send(FetchRequest),
    /// The fetch is over, with the text of the file or the error.
    Finish(Result<String, GitHubError>),
}

/// A string for the host to import under a name, by the importer of an
/// extension.
pub struct StringImport {
    /// The process on whose behalf the import runs.
    pub pid: String,
    /// The extension that selects the host's importer.
    pub extension: String,
    /// The text to import.
    pub contents: String,
    /// The name to bind the import to.
    pub as_name: String,
}

/// What `file_import` asks for next.
pub enum ImportStep {
    /// Send this request and come back with `FetchEvent::Received`.
    Send(FetchRequest),
    /// Hand this to the host's string import; its outcome is the outcome of
    /// the file import.
    Import(StringImport),
    /// The import is over: the file could not be fetched.
    Fail(GitHubError),
}

/// Files of one GitHub repository as a format of the host.
pub struct GitHubFormat {
    /// The repository ID: with `formata` the format is `github:formata`.
    pub repo_id: String,
    /// The owner of the repository.
    pub owner: String,
    /// The name of the repository.
    pub repo: String,
    /// The headers sent with every request.
    pub headers: Headers,
    /// The client handle the requests go through.
    pub agent: Agent,
}

impl View for GitHubFormat {
    type V = FormatView;

    open spec fn view(&self) -> FormatView {
        FormatView {
            repo_id: self.repo_id@,
            owner: self.owner@,
            repo: self.repo@,
            headers: self.headers.pairs(),
        }
    }
}

impl GitHubFormat {
    /// A format for the repository `repo` of `owner`, answering to the name of
    /// the repository, with the default headers and a client handle whose
    /// reads and writes time out after `READ_TIMEOUT_SECS` and
    /// `WRITE_TIMEOUT_SECS`.
    pub fn new(repo: &str, owner: &str) -> (r: GitHubFormat)
        ensures
            r@ == FormatView::initial(repo@, owner@),
    {
        let mut headers = Headers::new();
        headers.insert("Accept".to_owned(), "application/vnd.github.raw+json".to_owned());
        headers.insert("X-GitHub-Api-Version".to_owned(), "2022-11-28".to_owned());
        proof {
            reveal_strlit("Accept");
            reveal_strlit("X-GitHub-Api-Version");
            let first = put(Seq::empty(), "Accept"@, "application/vnd.github.raw+json"@);
            assert(first =~= seq![("Accept"@, "application/vnd.github.raw+json"@)]);
            assert(first[0].0.len() != "X-GitHub-Api-Version"@.len());
            assert(headers.pairs() =~= default_headers());
        }
        GitHubFormat {
            repo_id: repo.to_owned(),
            owner: owner.to_owned(),
            repo: repo.to_owned(),
            headers,
            agent: build_agent(READ_TIMEOUT_SECS, WRITE_TIMEOUT_SECS),
        }
    }

    /// The identifier under which the host knows this format: `github:`
    /// followed by the repository ID.
    pub fn format(&self) -> (r: String)
        ensures
            r@ == self@.identifier(),
    {
        let mut r = "github:".to_owned();
        r.append(self.repo_id.as_str());
        r
    }

    /// The address of the file at `path` in this repository. `path` is
    /// neither escaped nor checked.
    pub fn url(&self, path: &str) -> (r: String)
        ensures
            r@ == self@.url(path@),
    {
        let mut r = "https://api.github.com/repos/".to_owned();
        r.append(self.owner.as_str());
        r.append("/");
        r.append(self.repo.as_str());
        r.append("/contents/");
        r.append(path);
        r
    }

    /// One step of fetching the text of the file at `file_path`. At `Begin`
    /// it asks for the request to be sent: the address of the file with every
    /// header of the format. Once the request was sent it ends: with the text
    /// of the body, or with `GitHubError::Fetch` around the failure.
    pub fn get(&self, file_path: &str, event: FetchEvent) -> (step: FetchStep)
        ensures
            match event {
                FetchEvent::Begin => step matches FetchStep::Send(request) && request@
                    == self@.request(file_path@),
                FetchEvent::Received(Ok(body)) => step matches FetchStep::Finish(Ok(text)) && text
                    == body,
                FetchEvent::Received(Err(failure)) => step matches FetchStep::Finish(
                    Err(GitHubError::Fetch(cause)),
                ) && cause == failure,
            },
    {
        match event {
            FetchEvent::Begin => FetchStep::Send(
                FetchRequest { url: self.url(file_path), headers: self.headers.to_vec() },
            ),
            FetchEvent::Received(Ok(body)) => FetchStep::Finish(Ok(body)),
            FetchEvent::Received(Err(failure)) => FetchStep::Finish(
                Err(GitHubError::Fetch(failure)),
            ),
        }
    }

    /// One step of importing the file at `full_path`. At `Begin` it asks for
    /// the request of `get` to be sent. With the text of the body it asks the
    /// host to import that text, under `as_name` and by the importer of
    /// `extension`, for the process `pid`, all three unchanged. With a failure
    /// it ends in `GitHubError::Fetch`. The declared format plays no part.
    pub fn file_import(
        &self,
        pid: &str,
        format: &str,
        full_path: &str,
        extension: &str,
        as_name: &str,
        event: FetchEvent,
    ) -> (step: ImportStep)
        ensures
            match event {
                FetchEvent::Begin => step matches ImportStep::Send(request) && request@
                    == self@.request(full_path@),
                FetchEvent::Received(Ok(body)) => step matches ImportStep::Import(job) && job.pid@
                    == pid@ && job.extension@ == extension@ && job.contents == body && job.as_name@
                    == as_name@,
                FetchEvent::Received(Err(failure)) => step matches ImportStep::Fail(
                    GitHubError::Fetch(cause),
                ) && cause == failure,
            },
    {
        match self.get(full_path, event) {
            FetchStep::Send(request) => ImportStep::Send(request),
            FetchStep::Finish(Ok(contents)) => ImportStep::Import(
                StringImport {
                    pid: pid.to_owned(),
                    extension: extension.to_owned(),
                    contents,
                    as_name: as_name.to_owned(),
                },
            ),
            FetchStep::Finish(Err(error)) => ImportStep::Fail(error),
        }
    }
}

} // verus!
