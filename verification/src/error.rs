//! Error values of the library.

use vstd::prelude::*;

use crate::text::concat;

verus! {

/// Errors reported by the library.
#[derive(Debug)]
pub enum ReleasaurusError {
    /// Invalid command line arguments.
    InvalidArgs(String),
    /// Invalid configuration.
    InvalidConfig(String),
    /// No base branch was configured.
    BaseBranchNotConfigured,
    /// A forge operation failed.
    ForgeError(String),
    /// A release pull request was merged but not tagged yet.
    PendingRelease { branch: String, pr_number: u64 },
    /// The repository URL cannot be used.
    InvalidRemoteUrl(String),
    /// The repository URL could not be parsed.
    GitUrlError(String),
    /// A git operation failed.
    GitError(String),
    /// A network request failed.
    NetworkError(String),
    /// Authentication is not possible.
    AuthenticationError(String),
    /// The forge's API rate limit was exceeded.
    RateLimitExceeded,
    /// A version or prerelease identifier is not valid semver.
    InvalidVersion(String),
    /// A changelog template could not be rendered.
    TemplateError(String),
    /// A TOML document could not be read.
    TomlParseError(String),
    /// A regular expression could not be compiled.
    RegexError(String),
    /// A value could not be read from its structured form.
    JsonParseError(String),
    /// Any other failure.
    Other(String),
}

/// The content of an error: its kind and its text.
pub enum ErrorView {
    InvalidArgs(Seq<char>),
    InvalidConfig(Seq<char>),
    BaseBranchNotConfigured,
    ForgeError(Seq<char>),
    PendingRelease { branch: Seq<char>, pr_number: u64 },
    InvalidRemoteUrl(Seq<char>),
    GitUrlError(Seq<char>),
    GitError(Seq<char>),
    NetworkError(Seq<char>),
    AuthenticationError(Seq<char>),
    RateLimitExceeded,
    InvalidVersion(Seq<char>),
    TemplateError(Seq<char>),
    TomlParseError(Seq<char>),
    RegexError(Seq<char>),
    JsonParseError(Seq<char>),
    Other(Seq<char>),
}

impl View for ReleasaurusError {
    type V = ErrorView;

    open spec fn view(&self) -> ErrorView {
        match self {
            ReleasaurusError::InvalidArgs(m) => ErrorView::InvalidArgs(m@),
            ReleasaurusError::InvalidConfig(m) => ErrorView::InvalidConfig(m@),
            ReleasaurusError::BaseBranchNotConfigured => ErrorView::BaseBranchNotConfigured,
            ReleasaurusError::ForgeError(m) => ErrorView::ForgeError(m@),
            ReleasaurusError::PendingRelease { branch, pr_number } =>
                ErrorView::PendingRelease { branch: branch@, pr_number: *pr_number },
            ReleasaurusError::InvalidRemoteUrl(m) => ErrorView::InvalidRemoteUrl(m@),
            ReleasaurusError::GitUrlError(m) => ErrorView::GitUrlError(m@),
            ReleasaurusError::GitError(m) => ErrorView::GitError(m@),
            ReleasaurusError::NetworkError(m) => ErrorView::NetworkError(m@),
            ReleasaurusError::AuthenticationError(m) => ErrorView::AuthenticationError(m@),
            ReleasaurusError::RateLimitExceeded => ErrorView::RateLimitExceeded,
            ReleasaurusError::InvalidVersion(m) => ErrorView::InvalidVersion(m@),
            ReleasaurusError::TemplateError(m) => ErrorView::TemplateError(m@),
            ReleasaurusError::TomlParseError(m) => ErrorView::TomlParseError(m@),
            ReleasaurusError::RegexError(m) => ErrorView::RegexError(m@),
            ReleasaurusError::JsonParseError(m) => ErrorView::JsonParseError(m@),
            ReleasaurusError::Other(m) => ErrorView::Other(m@),
        }
    }
}

/// The content of a result: the view of its value or of its error.
pub open spec fn result_view<T: View>(r: Result<T, ReleasaurusError>) -> Result<T::V, ErrorView> {
    match r {
        Ok(v) => Ok(v@),
        Err(e) => Err(e@),
    }
}

impl ReleasaurusError {
    /// A forge error carrying `msg`.
    pub fn forge(msg: String) -> (r: Self)
        ensures
            r == ReleasaurusError::ForgeError(msg),
    {
        ReleasaurusError::ForgeError(msg)
    }

    /// An invalid-configuration error carrying `msg`.
    pub fn invalid_config(msg: String) -> (r: Self)
        ensures
            r == ReleasaurusError::InvalidConfig(msg),
    {
        ReleasaurusError::InvalidConfig(msg)
    }

    /// A pending-release error for `branch` and pull request `pr_number`.
    pub fn pending_release(branch: String, pr_number: u64) -> (r: Self)
        ensures
            r == (ReleasaurusError::PendingRelease { branch, pr_number }),
    {
        ReleasaurusError::PendingRelease { branch, pr_number }
    }

    /// Whether this is an invalid-configuration error.
    pub fn is_invalid_config(&self) -> (r: bool)
        ensures
            r == (self is InvalidConfig),
    {
        matches!(self, ReleasaurusError::InvalidConfig(_))
    }

    /// The human readable message of this error.
    pub fn message(&self) -> (r: String)
        ensures
            r@ == spec_message(self@),
    {
        match self {
            ReleasaurusError::InvalidArgs(m) => concat("Invalid arguments: ", m.as_str()),
            ReleasaurusError::InvalidConfig(m) => concat("Invalid configuration: ", m.as_str()),
            ReleasaurusError::BaseBranchNotConfigured => "Base branch not configured".to_owned(),
            ReleasaurusError::ForgeError(m) => concat("Forge operation failed: ", m.as_str()),
            ReleasaurusError::PendingRelease { branch, pr_number } => {
                let a = concat("Found pending release (PR #", crate::text::u64_to_string(*pr_number).as_str());
                let b = concat(a.as_str(), ") on branch '");
                let c = concat(b.as_str(), branch.as_str());
                concat(c.as_str(), "' that has not been tagged yet: cannot continue, must finish previous release first")
            },
            ReleasaurusError::InvalidRemoteUrl(m) => concat("Invalid git remote URL: ", m.as_str()),
            ReleasaurusError::GitUrlError(m) => concat("Git URL parse error: ", m.as_str()),
            ReleasaurusError::GitError(m) => concat("Git operation failed: ", m.as_str()),
            ReleasaurusError::NetworkError(m) => concat("Network request failed: ", m.as_str()),
            ReleasaurusError::AuthenticationError(m) => concat("API authentication failed: ", m.as_str()),
            ReleasaurusError::RateLimitExceeded => "API rate limit exceeded".to_owned(),
            ReleasaurusError::InvalidVersion(m) => concat("Invalid version format: ", m.as_str()),
            ReleasaurusError::TemplateError(m) => concat("Template rendering failed: ", m.as_str()),
            ReleasaurusError::TomlParseError(m) => concat("TOML parse error: ", m.as_str()),
            ReleasaurusError::RegexError(m) => concat("Regular expression error: ", m.as_str()),
            ReleasaurusError::JsonParseError(m) => concat("JSON parse error: ", m.as_str()),
            ReleasaurusError::Other(m) => m.clone(),
        }
    }
}

/// The message of an error: a fixed text per kind followed by its detail.
pub open spec fn spec_message(e: ErrorView) -> Seq<char> {
    match e {
        ErrorView::InvalidArgs(m) => "Invalid arguments: "@ + m,
        ErrorView::InvalidConfig(m) => "Invalid configuration: "@ + m,
        ErrorView::BaseBranchNotConfigured => "Base branch not configured"@,
        ErrorView::ForgeError(m) => "Forge operation failed: "@ + m,
        ErrorView::PendingRelease { branch, pr_number } =>
            "Found pending release (PR #"@ + crate::text::decimal(pr_number as nat)
                + ") on branch '"@ + branch
                + "' that has not been tagged yet: cannot continue, must finish previous release first"@,
        ErrorView::InvalidRemoteUrl(m) => "Invalid git remote URL: "@ + m,
        ErrorView::GitUrlError(m) => "Git URL parse error: "@ + m,
        ErrorView::GitError(m) => "Git operation failed: "@ + m,
        ErrorView::NetworkError(m) => "Network request failed: "@ + m,
        ErrorView::AuthenticationError(m) => "API authentication failed: "@ + m,
        ErrorView::RateLimitExceeded => "API rate limit exceeded"@,
        ErrorView::InvalidVersion(m) => "Invalid version format: "@ + m,
        ErrorView::TemplateError(m) => "Template rendering failed: "@ + m,
        ErrorView::TomlParseError(m) => "TOML parse error: "@ + m,
        ErrorView::RegexError(m) => "Regular expression error: "@ + m,
        ErrorView::JsonParseError(m) => "JSON parse error: "@ + m,
        ErrorView::Other(m) => m,
    }
}

} // verus!
