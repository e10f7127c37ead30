//! The library's error type.
use vstd::prelude::*;
use vstd::std_specs::convert::FromSpecImpl;

verus! {

/// Everything that can go wrong in the library, each with the text that
/// explains it.
#[derive(Debug, PartialEq, Eq)]
pub enum GitMindError {
    /// The configuration file could not be read; holds its path.
    ConfigNotFound(String),
    /// The configuration file is not valid; holds the parser's message.
    ConfigParseError(String),
    /// The section for the named provider is absent from the configuration.
    MissingProviderConfig(String),
    /// The model's HTTP API answered with a failure; holds the answer's body.
    LlmApiError(String),
    /// No builder is registered under the given name.
    ProviderNotFound(String),
    /// A repository operation failed.
    GitError(String),
    /// A network operation failed.
    HttpError(String),
    /// An input or output operation failed.
    IoError(String),
    /// The terminal dialog failed.
    UiError(String),
    /// The clipboard could not be used.
    ClipboardError(String),
    /// Any other failure, with its message.
    Generic(String),
    /// A failure whose text is its message alone, with no heading.
    Plain(String),
}

/// The mathematical model of a `GitMindError`: its variant and its text.
pub enum ErrorView {
    ConfigNotFound(Seq<char>),
    ConfigParseError(Seq<char>),
    MissingProviderConfig(Seq<char>),
    LlmApiError(Seq<char>),
    ProviderNotFound(Seq<char>),
    GitError(Seq<char>),
    HttpError(Seq<char>),
    IoError(Seq<char>),
    UiError(Seq<char>),
    ClipboardError(Seq<char>),
    Generic(Seq<char>),
    Plain(Seq<char>),
}

impl View for GitMindError {
    type V = ErrorView;

    open spec fn view(&self) -> ErrorView {
        match self {
            GitMindError::ConfigNotFound(s) => ErrorView::ConfigNotFound(s@),
            GitMindError::ConfigParseError(s) => ErrorView::ConfigParseError(s@),
            GitMindError::MissingProviderConfig(s) => ErrorView::MissingProviderConfig(s@),
            GitMindError::LlmApiError(s) => ErrorView::LlmApiError(s@),
            GitMindError::ProviderNotFound(s) => ErrorView::ProviderNotFound(s@),
            GitMindError::GitError(s) => ErrorView::GitError(s@),
            GitMindError::HttpError(s) => ErrorView::HttpError(s@),
            GitMindError::IoError(s) => ErrorView::IoError(s@),
            GitMindError::UiError(s) => ErrorView::UiError(s@),
            GitMindError::ClipboardError(s) => ErrorView::ClipboardError(s@),
            GitMindError::Generic(s) => ErrorView::Generic(s@),
            GitMindError::Plain(s) => ErrorView::Plain(s@),
        }
    }
}

/// The text that explains an error, as the program shows it to its user.
pub open spec fn error_text(e: ErrorView) -> Seq<char> {
    match e {
        ErrorView::ConfigNotFound(d) => "Could not find or read config file at "@ + d,
        ErrorView::ConfigParseError(d) => "Failed to parse .gitmind.toml config file: "@ + d,
        ErrorView::MissingProviderConfig(d) => "Provider config section is missing: "@ + d,
        ErrorView::LlmApiError(d) => "LLM API returned an error: "@ + d,
        ErrorView::ProviderNotFound(d) => "No provider registered for strategy: "@ + d,
        ErrorView::GitError(d) => "Git error: "@ + d,
        ErrorView::HttpError(d) => "Network error: "@ + d,
        ErrorView::IoError(d) => "IO error: "@ + d,
        ErrorView::UiError(d) => "UI error: "@ + d,
        ErrorView::ClipboardError(d) => "Clipboard error: "@ + d,
        ErrorView::Generic(d) => "Generic error: "@ + d,
        ErrorView::Plain(d) => d,
    }
}

/// Whether `r` is the outcome `o`: the same text on success, the same
/// error on failure.
pub open spec fn outcome_is(r: Result<String, GitMindError>, o: Result<Seq<char>, ErrorView>) -> bool {
    match (r, o) {
        (Ok(m), Ok(t)) => m@ == t,
        (Err(e), Err(v)) => e@ == v,
        _ => false,
    }
}

/// `prefix` followed by `detail`.
pub fn prefixed(prefix: &str, detail: &str) -> (r: String)
    ensures
        r@ == prefix@ + detail@,
{
    let mut r = String::from_str(prefix);
    r.append(detail);
    r
}

impl GitMindError {
    /// The text that explains this error.
    pub fn message(&self) -> (r: String)
        ensures
            r@ == error_text(self@),
    {
        match self {
            GitMindError::ConfigNotFound(d) => prefixed("Could not find or read config file at ", d.as_str()),
            GitMindError::ConfigParseError(d) => prefixed("Failed to parse .gitmind.toml config file: ", d.as_str()),
            GitMindError::MissingProviderConfig(d) => prefixed("Provider config section is missing: ", d.as_str()),
            GitMindError::LlmApiError(d) => prefixed("LLM API returned an error: ", d.as_str()),
            GitMindError::ProviderNotFound(d) => prefixed("No provider registered for strategy: ", d.as_str()),
            GitMindError::GitError(d) => prefixed("Git error: ", d.as_str()),
            GitMindError::HttpError(d) => prefixed("Network error: ", d.as_str()),
            GitMindError::IoError(d) => prefixed("IO error: ", d.as_str()),
            GitMindError::UiError(d) => prefixed("UI error: ", d.as_str()),
            GitMindError::ClipboardError(d) => prefixed("Clipboard error: ", d.as_str()),
            GitMindError::Generic(d) => prefixed("Generic error: ", d.as_str()),
            GitMindError::Plain(d) => d.clone(),
        }
    }
}

impl From<String> for GitMindError {
    fn from(s: String) -> (r: GitMindError) {
        GitMindError::Generic(s)
    }
}

impl FromSpecImpl<String> for GitMindError {
    open spec fn obeys_from_spec() -> bool {
        true
    }

    open spec fn from_spec(s: String) -> GitMindError {
        GitMindError::Generic(s)
    }
}

} // verus!
