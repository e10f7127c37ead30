//! A provider for OpenAI-compatible APIs.
use vstd::prelude::*;
use crate::config::GitMindConfig;
use crate::error::{ErrorView, GitMindError, outcome_is, prefixed};
use crate::llm::{ApiReply, CommitContext, Provider, SYSTEM_PROMPT};
use crate::text::{is_outer_trim, lemma_trimmed_is_outer_trim, trim, trimmed};

verus! {

/// A provider for OpenAI-compatible APIs.
pub struct OpenAiProvider {
    pub base_url: String,
    pub api_key: String,
    pub model: String,
}

/// The body of a chat request.
pub struct OpenAiRequest {
    pub model: String,
    pub messages: Vec<Message>,
}

/// One message of a chat request.
pub struct Message {
    pub role: String,
    pub content: String,
}

/// The decoded body of a successful answer.
pub struct OpenAiResponse {
    pub choices: Vec<Choice>,
}

pub struct Choice {
    pub message: ResponseMessage,
}

pub struct ResponseMessage {
    pub content: String,
}

/// The commit message, or the error, that an answer gives: a failure status
/// is an error that quotes the body; otherwise the first choice's content,
/// trimmed, where there is a choice.
pub open spec fn openai_reply_outcome(reply: ApiReply<OpenAiResponse>) -> Result<Seq<char>, ErrorView> {
    match reply {
        ApiReply::Rejected(text) => Err(ErrorView::Plain("LLM API error: "@ + text@)),
        ApiReply::Accepted(resp) => if resp.choices@.len() == 0 {
            Err(ErrorView::Plain("LLM returned an empty choice list"@))
        } else {
            Ok(trimmed(resp.choices@[0].message.content@))
        },
    }
}

/// What `build_openai` gives for a configuration: the `[openai]` settings,
/// or an error when they are missing.
pub open spec fn openai_built(c: GitMindConfig, r: Result<Provider, GitMindError>) -> bool {
    match c.openai {
        Some(o) => r matches Ok(Provider::OpenAi(p)) && p.base_url@ == o.base_url@
            && p.api_key@ == o.api_key@ && p.model@ == o.model@,
        None => r matches Err(e) && e@ == ErrorView::Plain(
            "OpenAI config section is missing from .gitmind.toml"@,
        ),
    }
}

impl OpenAiProvider {
    pub fn new(base_url: String, api_key: String, model: String) -> (r: Self)
        ensures
            r.base_url == base_url,
            r.api_key == api_key,
            r.model == model,
    {
        OpenAiProvider { base_url, api_key, model }
    }

    /// The request that asks for a commit message for `context`: a system
    /// message with the fixed instructions, then a user message with the diff.
    pub fn request_body(&self, context: &CommitContext) -> (r: OpenAiRequest)
        ensures
            r.model@ == self.model@,
            r.messages@.len() == 2,
            r.messages@[0].role@ == "system"@,
            r.messages@[0].content@ == SYSTEM_PROMPT@,
            r.messages@[1].role@ == "user"@,
            r.messages@[1].content@ == context.diff@,
    {
        let mut messages: Vec<Message> = Vec::new();
        messages.push(Message { role: String::from_str("system"), content: String::from_str(SYSTEM_PROMPT) });
        messages.push(Message { role: String::from_str("user"), content: context.diff.clone() });
        OpenAiRequest { model: self.model.clone(), messages }
    }

    /// The commit message in an answer of the API.
    pub fn commit_from_reply(reply: ApiReply<OpenAiResponse>) -> (r: Result<String, GitMindError>)
        ensures
            outcome_is(r, openai_reply_outcome(reply)),
    {
        match reply {
            ApiReply::Rejected(text) => Err(GitMindError::Plain(prefixed("LLM API error: ", text.as_str()))),
            ApiReply::Accepted(resp) => {
                if resp.choices.len() == 0 {
                    return Err(GitMindError::Plain(String::from_str("LLM returned an empty choice list")));
                }
                Ok(trim(resp.choices[0].message.content.as_str()))
            },
        }
    }
}

/// Builds the OpenAI provider from the `[openai]` section.
pub fn build_openai(config: &GitMindConfig) -> (r: Result<Provider, GitMindError>)
    ensures
        openai_built(*config, r),
{
    let o_conf = match &config.openai {
        Some(o) => o,
        None => {
            return Err(GitMindError::Plain(String::from_str("OpenAI config section is missing from .gitmind.toml")));
        },
    };
    let client = OpenAiProvider::new(o_conf.base_url.clone(), o_conf.api_key.clone(), o_conf.model.clone());
    Ok(Provider::OpenAi(client))
}

/// The message in an answer with choices is the first choice's content with
/// its outer whitespace, and only that, taken off.
pub proof fn lemma_accepted_reply_is_outer_trim(resp: OpenAiResponse)
    requires
        resp.choices@.len() > 0,
    ensures
        openai_reply_outcome(ApiReply::Accepted(resp)) matches Ok(t) && is_outer_trim(
            resp.choices@[0].message.content@,
            t,
        ),
{
    lemma_trimmed_is_outer_trim(resp.choices@[0].message.content@);
}

} // verus!
