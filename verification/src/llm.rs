//! What every provider shares: the context sent to the model, the prompt
//! that combines instructions with a diff, and the answer of an HTTP API.
use vstd::prelude::*;
use crate::config::GitMindConfig;
use crate::error::{ErrorView, GitMindError};
use crate::llm_providers::avalai::{AvalAiProvider, avalai_built, build_avalai};
use crate::llm_providers::cli::{GenericCliProvider, build_cli, cli_built};
use crate::llm_providers::ollama::{OllamaProvider, build_ollama, ollama_built};
use crate::llm_providers::openai::{OpenAiProvider, build_openai, openai_built};
use crate::text::same_text;

verus! {

/// The instructions that the OpenAI-compatible provider sends as its system message.
pub const SYSTEM_PROMPT: &'static str = "You are a senior software engineer. Generate a conventional git commit message based on the provided diff. Rules: Maximum 128 characters title, explain WHY not WHAT, return ONLY the commit message (e.g., 'feat: add login').";

/// The context we send to the LLM.
pub struct CommitContext {
    pub diff: String,
}

/// What an HTTP API answered: a failure status with the body's text, or a
/// success whose body was decoded into `T`.
pub enum ApiReply<T> {
    Rejected(String),
    Accepted(T),
}

/// A prompt that gives the model its instructions and then the diff.
pub open spec fn prompt_with_diff(instructions: Seq<char>, diff: Seq<char>) -> Seq<char> {
    instructions + "\n\nCode Diff:\n"@ + diff
}

/// The instructions followed by the diff, under a "Code Diff:" heading.
pub fn combine_prompt(instructions: &str, diff: &str) -> (r: String)
    ensures
        r@ == prompt_with_diff(instructions@, diff@),
{
    let mut r = String::from_str(instructions);
    r.append("\n\nCode Diff:\n");
    r.append(diff);
    r
}

/// A provider built from the configuration, ready to ask for a commit message.
pub enum Provider {
    Ollama(OllamaProvider),
    AvalAi(AvalAiProvider),
    OpenAi(OpenAiProvider),
    Cli(GenericCliProvider),
}

/// A way of building a provider from the configuration.
#[derive(Clone, Copy, Debug, PartialEq, Eq, Structural)]
pub enum ProviderBuilder {
    Ollama,
    AvalAi,
    OpenAi,
    Cli,
}

/// What building with `b` gives for configuration `c`.
pub open spec fn built_by(b: ProviderBuilder, c: GitMindConfig, r: Result<Provider, GitMindError>) -> bool {
    match b {
        ProviderBuilder::Ollama => ollama_built(c, r),
        ProviderBuilder::AvalAi => avalai_built(c, r),
        ProviderBuilder::OpenAi => openai_built(c, r),
        ProviderBuilder::Cli => cli_built(c, r),
    }
}

impl ProviderBuilder {
    /// Builds the provider from the configuration.
    pub fn build(&self, config: &GitMindConfig) -> (r: Result<Provider, GitMindError>)
        ensures
            built_by(*self, *config, r),
    {
        match self {
            ProviderBuilder::Ollama => build_ollama(config),
            ProviderBuilder::AvalAi => build_avalai(config),
            ProviderBuilder::OpenAi => build_openai(config),
            ProviderBuilder::Cli => build_cli(config),
        }
    }
}

/// The builder that the latest registration under `name` gave, if any.
pub open spec fn latest_builder(entries: Seq<(String, ProviderBuilder)>, name: Seq<char>) -> Option<ProviderBuilder>
    decreases entries.len(),
{
    if entries.len() == 0 {
        None
    } else if entries.last().0@ == name {
        Some(entries.last().1)
    } else {
        latest_builder(entries.drop_last(), name)
    }
}

/// What `get_active_provider` gives when `registered` maps names to
/// builders: the registered builder's result, or a not-found error that
/// names the strategy.
pub open spec fn active_provider_built(
    registered: Map<Seq<char>, ProviderBuilder>,
    c: GitMindConfig,
    r: Result<Provider, GitMindError>,
) -> bool {
    if registered.contains_key(c.active_provider@) {
        built_by(registered[c.active_provider@], c, r)
    } else {
        r matches Err(e) && e@ == ErrorView::ProviderNotFound(c.active_provider@)
    }
}

/// Builders registered by name.
pub struct ProviderRegistry {
    builders: Vec<(String, ProviderBuilder)>,
}

impl View for ProviderRegistry {
    type V = Map<Seq<char>, ProviderBuilder>;

    /// Each registered name, with the builder that was registered under it last.
    closed spec fn view(&self) -> Map<Seq<char>, ProviderBuilder> {
        Map::new(
            |k: Seq<char>| latest_builder(self.builders@, k).is_some(),
            |k: Seq<char>| latest_builder(self.builders@, k).unwrap(),
        )
    }
}

impl ProviderRegistry {
    /// A registry with no builder.
    pub fn new() -> (r: Self)
        ensures
            r@ == Map::<Seq<char>, ProviderBuilder>::empty(),
    {
        let r = ProviderRegistry { builders: Vec::new() };
        assert(r@ == Map::<Seq<char>, ProviderBuilder>::empty());
        r
    }

    /// Registers `builder` under `name`, replacing any earlier one.
    pub fn register(&mut self, name: &str, builder: ProviderBuilder)
        ensures
            final(self)@ == old(self)@.insert(name@, builder),
    {
        self.builders.push((String::from_str(name), builder));
        let ghost entries = self.builders@;
        assert(entries.drop_last() == old(self).builders@);
        assert(self@ == old(self)@.insert(name@, builder));
    }

    /// The builder registered under `name`, if any.
    fn lookup(&self, name: &str) -> (r: Option<ProviderBuilder>)
        ensures
            r == latest_builder(self.builders@, name@),
    {
        let mut i: usize = self.builders.len();
        assert(self.builders@.take(i as int) == self.builders@);
        while i > 0
            invariant
                i <= self.builders.len(),
                latest_builder(self.builders@, name@) == latest_builder(
                    self.builders@.take(i as int),
                    name@,
                ),
            decreases i,
        {
            let ghost pre = self.builders@.take(i as int);
            assert(pre.drop_last() == self.builders@.take(i - 1));
            assert(pre.last() == self.builders@[i - 1]);
            if same_text(self.builders[i - 1].0.as_str(), name) {
                return Some(self.builders[i - 1].1);
            }
            i = i - 1;
        }
        None
    }

    /// Builds the provider that the configuration's `active_provider` names.
    pub fn get_active_provider(&self, config: &GitMindConfig) -> (r: Result<Provider, GitMindError>)
        ensures
            active_provider_built(self@, *config, r),
    {
        match self.lookup(config.active_provider.as_str()) {
            Some(builder) => builder.build(config),
            None => Err(GitMindError::ProviderNotFound(config.active_provider.clone())),
        }
    }
}

/// A read gives back the latest write: after registering `b` under a
/// name, the name resolves to `b`, and every other name resolves as before.
pub proof fn lemma_register_then_resolve(
    registered: Map<Seq<char>, ProviderBuilder>,
    name: Seq<char>,
    b: ProviderBuilder,
    other: Seq<char>,
)
    ensures
        registered.insert(name, b).contains_key(name),
        registered.insert(name, b)[name] == b,
        other != name ==> (registered.insert(name, b).contains_key(other) == registered.contains_key(other)),
        other != name && registered.contains_key(other) ==> registered.insert(name, b)[other] == registered[other],
{
}

/// The active provider is built by the builder registered last under its
/// name: registering `b` under `active_provider` makes the result exactly
/// what `b` builds, whatever was registered before.
pub proof fn lemma_active_provider_uses_latest(
    registered: Map<Seq<char>, ProviderBuilder>,
    b: ProviderBuilder,
    c: GitMindConfig,
    r: Result<Provider, GitMindError>,
)
    ensures
        active_provider_built(registered.insert(c.active_provider@, b), c, r) == built_by(b, c, r),
{
}

/// The prompt holds the whole diff: it is the instructions, then the
/// thirteen characters of the heading, then every character of the diff.
pub proof fn lemma_prompt_holds_whole_diff(instructions: Seq<char>, diff: Seq<char>)
    ensures
        prompt_with_diff(instructions, diff).len() == instructions.len() + 13 + diff.len(),
        prompt_with_diff(instructions, diff).take(instructions.len() as int) == instructions,
        prompt_with_diff(instructions, diff).skip(instructions.len() + 13int) == diff,
{
    reveal_strlit("\n\nCode Diff:\n");
    let p = prompt_with_diff(instructions, diff);
    assert(p.take(instructions.len() as int) == instructions);
    assert(p.skip(instructions.len() + 13int) == diff);
}

} // verus!
