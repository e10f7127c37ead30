//! A provider for AvalAI-compatible APIs.
use vstd::prelude::*;
use crate::config::{GitMindConfig, system_prompt_for};
use crate::error::{ErrorView, GitMindError, outcome_is};
use crate::llm::{ApiReply, CommitContext, Provider};
use crate::text::{is_outer_trim, lemma_trimmed_is_outer_trim, trim, trimmed};

verus! {

/// A provider for AvalAI-compatible APIs.
pub struct AvalAiProvider {
    pub base_url: String,
    pub api_key: String,
    pub model: String,
    /// The instructions given to the model.
    pub prompt: String,
}

/// The body of a request: the model, the instructions and the diff.
pub struct AvalAiRequest {
    pub model: String,
    pub instructions: String,
    pub input: String,
}

/// The decoded body of a successful answer.
pub struct AvalAiResponse {
    pub output: Vec<Output>,
}

pub struct Output {
    pub content: Vec<Content>,
}

pub struct Content {
    pub text: String,
}

/// The commit message, or the error, that an answer of the API gives: a
/// failure status is an API error with the body's text; otherwise the text
/// of the first content of the first output, trimmed, where both exist.
pub open spec fn avalai_reply_outcome(reply: ApiReply<AvalAiResponse>) -> Result<Seq<char>, ErrorView> {
    match reply {
        ApiReply::Rejected(text) => Err(ErrorView::LlmApiError(text@)),
        ApiReply::Accepted(resp) => if resp.output@.len() == 0 {
            Err(ErrorView::Generic("LLM returned an empty output list"@))
        } else if resp.output@[0].content@.len() == 0 {
            Err(ErrorView::Generic("LLM returned an empty content list"@))
        } else {
            Ok(trimmed(resp.output@[0].content@[0].text@))
        },
    }
}

/// What `build_avalai` gives for a configuration: the `[avalai]` settings
/// with the configuration's system prompt, or a missing-section error.
pub open spec fn avalai_built(c: GitMindConfig, r: Result<Provider, GitMindError>) -> bool {
    match c.avalai {
        Some(a) => r matches Ok(Provider::AvalAi(p)) && p.base_url@ == a.base_url@
            && p.api_key@ == a.api_key@ && p.model@ == a.model@
            && p.prompt@ == system_prompt_for(c),
        None => r matches Err(e) && e@ == ErrorView::MissingProviderConfig("avalai"@),
    }
}

impl AvalAiProvider {
    pub fn new(base_url: String, api_key: String, model: String, prompt: String) -> (r: Self)
        ensures
            r.base_url == base_url,
            r.api_key == api_key,
            r.model == model,
            r.prompt == prompt,
    {
        AvalAiProvider { base_url, api_key, model, prompt }
    }

    /// The request that asks for a commit message for `context`.
    pub fn request_body(&self, context: &CommitContext) -> (r: AvalAiRequest)
        ensures
            r.model@ == self.model@,
            r.instructions@ == self.prompt@,
            r.input@ == context.diff@,
    {
        AvalAiRequest {
            model: self.model.clone(),
            instructions: self.prompt.clone(),
            input: context.diff.clone(),
        }
    }

    /// The commit message in an answer of the API.
    pub fn commit_from_reply(reply: ApiReply<AvalAiResponse>) -> (r: Result<String, GitMindError>)
        ensures
            outcome_is(r, avalai_reply_outcome(reply)),
    {
        match reply {
            ApiReply::Rejected(text) => Err(GitMindError::LlmApiError(text)),
            ApiReply::Accepted(resp) => {
                if resp.output.len() == 0 {
                    return Err(GitMindError::Generic(String::from_str("LLM returned an empty output list")));
                }
                let first = &resp.output[0];
                if first.content.len() == 0 {
                    return Err(GitMindError::Generic(String::from_str("LLM returned an empty content list")));
                }
                Ok(trim(first.content[0].text.as_str()))
            },
        }
    }
}

/// Builds the AvalAI provider from the `[avalai]` section.
pub fn build_avalai(config: &GitMindConfig) -> (r: Result<Provider, GitMindError>)
    ensures
        avalai_built(*config, r),
{
    let o_conf = match &config.avalai {
        Some(a) => a,
        None => {
            return Err(GitMindError::MissingProviderConfig(String::from_str("avalai")));
        },
    };
    let client = AvalAiProvider::new(
        o_conf.base_url.clone(),
        o_conf.api_key.clone(),
        o_conf.model.clone(),
        config.get_system_prompt(),
    );
    Ok(Provider::AvalAi(client))
}

/// The message in an answer with an output and a content is the first
/// content's text with its outer whitespace, and only that, taken off.
pub proof fn lemma_accepted_reply_is_outer_trim(resp: AvalAiResponse)
    requires
        resp.output@.len() > 0,
        resp.output@[0].content@.len() > 0,
    ensures
        avalai_reply_outcome(ApiReply::Accepted(resp)) matches Ok(t) && is_outer_trim(
            resp.output@[0].content@[0].text@,
            t,
        ),
{
    lemma_trimmed_is_outer_trim(resp.output@[0].content@[0].text@);
}

} // verus!
