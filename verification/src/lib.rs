//! A verified core for importing files of a GitHub repository as a document format.

pub mod agent;
pub mod error;
pub mod format;
pub mod headers;
pub mod library;
pub mod registry;
pub mod value;

pub use error::GitHubError;
pub use format::GitHubFormat;
pub use library::GitHubLibrary;
