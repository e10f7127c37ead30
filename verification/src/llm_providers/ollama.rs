//! A provider for local Ollama instances.
use vstd::prelude::*;
use crate::config::{GitMindConfig, system_prompt_for};
use crate::error::{ErrorView, GitMindError, outcome_is, prefixed};
use crate::llm::{ApiReply, CommitContext, Provider, combine_prompt, prompt_with_diff};
use crate::text::{is_outer_trim, lemma_trimmed_is_outer_trim, strip_trailing, trim, trim_end_matches_char, trimmed};

verus! {

/// A provider for local Ollama instances.
pub struct OllamaProvider {
    pub host: String,
    pub model: String,
    /// The instructions given to the model.
    pub prompt: String,
}

/// The body of a request to `/api/generate`.
pub struct OllamaRequest {
    pub model: String,
    pub prompt: String,
    /// Whether the answer is streamed; always false, to get it whole.
    pub stream: bool,
}

/// The decoded body of a successful answer.
pub struct OllamaResponse {
    pub response: String,
}

/// The URL of the generate endpoint: the host without trailing slashes,
/// then `/api/generate`.
pub open spec fn generate_url(host: Seq<char>) -> Seq<char> {
    strip_trailing(host, '/') + "/api/generate"@
}

/// The commit message, or the error, that an answer gives: a failure status
/// is an error that quotes the body; otherwise the response, trimmed.
pub open spec fn ollama_reply_outcome(reply: ApiReply<OllamaResponse>) -> Result<Seq<char>, ErrorView> {
    match reply {
        ApiReply::Rejected(text) => Err(ErrorView::Plain("Ollama API error: "@ + text@)),
        ApiReply::Accepted(resp) => Ok(trimmed(resp.response@)),
    }
}

/// What `build_ollama` gives for a configuration: the `[ollama]` settings
/// with the configuration's system prompt, or an error when it is missing.
pub open spec fn ollama_built(c: GitMindConfig, r: Result<Provider, GitMindError>) -> bool {
    match c.ollama {
        Some(o) => r matches Ok(Provider::Ollama(p)) && p.host@ == o.base_url@
            && p.model@ == o.model@ && p.prompt@ == system_prompt_for(c),
        None => r matches Err(e) && e@ == ErrorView::Plain(
            "Ollama config section is missing from .gitmind.toml"@,
        ),
    }
}

impl OllamaProvider {
    pub fn new(host: String, model: String, prompt: String) -> (r: Self)
        ensures
            r.host == host,
            r.model == model,
            r.prompt == prompt,
    {
        OllamaProvider { host, model, prompt }
    }

    /// The URL that requests are sent to.
    pub fn endpoint(&self) -> (r: String)
        ensures
            r@ == generate_url(self.host@),
    {
        let mut url = trim_end_matches_char(self.host.as_str(), '/');
        url.append("/api/generate");
        url
    }

    /// The request that asks for a commit message for `context`: one prompt
    /// that holds the instructions and the diff, not streamed.
    pub fn request_body(&self, context: &CommitContext) -> (r: OllamaRequest)
        ensures
            r.model@ == self.model@,
            r.prompt@ == prompt_with_diff(self.prompt@, context.diff@),
            !r.stream,
    {
        OllamaRequest {
            model: self.model.clone(),
            prompt: combine_prompt(self.prompt.as_str(), context.diff.as_str()),
            stream: false,
        }
    }

    /// The commit message in an answer of the API.
    pub fn commit_from_reply(reply: ApiReply<OllamaResponse>) -> (r: Result<String, GitMindError>)
        ensures
            outcome_is(r, ollama_reply_outcome(reply)),
    {
        match reply {
            ApiReply::Rejected(text) => Err(GitMindError::Plain(prefixed("Ollama API error: ", text.as_str()))),
            ApiReply::Accepted(resp) => Ok(trim(resp.response.as_str())),
        }
    }
}

/// Builds the Ollama provider from the `[ollama]` section.
pub fn build_ollama(config: &GitMindConfig) -> (r: Result<Provider, GitMindError>)
    ensures
        ollama_built(*config, r),
{
    let o_conf = match &config.ollama {
        Some(o) => o,
        None => {
            return Err(GitMindError::Plain(String::from_str("Ollama config section is missing from .gitmind.toml")));
        },
    };
    let client = OllamaProvider::new(o_conf.base_url.clone(), o_conf.model.clone(), config.get_system_prompt());
    Ok(Provider::Ollama(client))
}

/// The message in an accepted answer is the response with its outer
/// whitespace, and only that, taken off: a contiguous part of the response,
/// inner newlines and all.
pub proof fn lemma_accepted_reply_is_outer_trim(resp: OllamaResponse)
    ensures
        ollama_reply_outcome(ApiReply::Accepted(resp)) matches Ok(t) && is_outer_trim(resp.response@, t),
{
    lemma_trimmed_is_outer_trim(resp.response@);
}

} // verus!
