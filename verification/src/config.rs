//! The configuration read from `.gitmind.toml`, and the system prompt that
//! is built from it.
use vstd::prelude::*;
use crate::text::{join_strings, join_with, occurs_at, occurs_in, same_text, views};

verus! {

/// The whole configuration file.
pub struct GitMindConfig {
    /// Which provider strategy to build.
    pub active_provider: String,
    /// Facts about the project that are added to the system prompt.
    pub project: Option<ProjectConfig>,
    /// Settings of a local Ollama instance.
    pub ollama: Option<OllamaConfig>,
    /// Settings of an AvalAI-compatible API.
    pub avalai: Option<AvalAiConfig>,
    /// Settings of an OpenAI-compatible API.
    pub openai: Option<OpenAiConfig>,
    /// The `[cli]` table: command strings by tool name, in the file's order.
    pub cli: Option<Vec<(String, String)>>,
    /// The instructions given to the model.
    pub system_prompt: String,
}

/// The `[project]` table.
pub struct ProjectConfig {
    pub languages: Option<Vec<String>>,
    pub additional_info: Option<String>,
    pub author_name: Option<String>,
    pub ignored_extensions: Option<Vec<String>>,
}

/// The `[ollama]` table.
pub struct OllamaConfig {
    pub base_url: String,
    pub model: String,
}

/// The `[avalai]` table.
pub struct AvalAiConfig {
    pub base_url: String,
    pub api_key: String,
    pub model: String,
}

/// The `[openai]` table.
pub struct OpenAiConfig {
    pub base_url: String,
    pub api_key: String,
    pub model: String,
}

/// The sentences that describe a project: its languages, its author and
/// any additional information, in that order, each present only when set.
pub open spec fn project_context(p: ProjectConfig) -> Seq<char> {
    let langs = match p.languages {
        Some(l) => "The project uses these languages: "@ + join_with(views(l@), ", "@) + ". "@,
        None => Seq::<char>::empty(),
    };
    let author = match p.author_name {
        Some(a) => "The author's name is "@ + a@ + ". "@,
        None => Seq::<char>::empty(),
    };
    let info = match p.additional_info {
        Some(i) => "Additional context: "@ + i@ + ". "@,
        None => Seq::<char>::empty(),
    };
    langs + author + info
}

/// The system prompt of a configuration: its own prompt, followed by the
/// project's sentences when there is a `[project]` table.
pub open spec fn system_prompt_for(c: GitMindConfig) -> Seq<char> {
    match c.project {
        Some(p) => c.system_prompt@ + project_context(p),
        None => c.system_prompt@,
    }
}

/// The command string that the `[cli]` table gives for `name`: the first
/// entry with that key.
pub open spec fn cli_command_for(entries: Seq<(String, String)>, name: Seq<char>) -> Option<Seq<char>>
    decreases entries.len(),
{
    if entries.len() == 0 {
        None
    } else if entries[0].0@ == name {
        Some(entries[0].1@)
    } else {
        cli_command_for(entries.drop_first(), name)
    }
}

/// Whether no two entries of the `[cli]` table share a name, as in the
/// file's table, whose keys are distinct.
pub open spec fn distinct_names(entries: Seq<(String, String)>) -> bool {
    forall|i: int, j: int| 0 <= i < j < entries.len() ==> entries[i].0@ != entries[j].0@
}

/// With distinct names, the lookup is that of a map: each entry's name gives
/// that entry's command string, and a name that no entry has gives nothing.
pub proof fn lemma_cli_lookup_is_map_lookup(entries: Seq<(String, String)>, i: int, name: Seq<char>)
    requires
        distinct_names(entries),
        0 <= i < entries.len(),
    ensures
        cli_command_for(entries, entries[i].0@) == Some(entries[i].1@),
        (forall|j: int| 0 <= j < entries.len() ==> entries[j].0@ != name) ==> cli_command_for(
            entries,
            name,
        ).is_none(),
    decreases entries.len(),
{
    lemma_cli_lookup_absent(entries, name);
    if i > 0 {
        let rest = entries.drop_first();
        assert(entries[0].0@ != entries[i].0@);
        assert(rest[i - 1] == entries[i]);
        assert(distinct_names(rest)) by {
            assert forall|a: int, b: int| 0 <= a < b < rest.len() implies rest[a].0@ != rest[b].0@ by {
                assert(rest[a] == entries[a + 1]);
                assert(rest[b] == entries[b + 1]);
            }
        }
        lemma_cli_lookup_is_map_lookup(rest, i - 1, name);
    }
}

proof fn lemma_cli_lookup_absent(entries: Seq<(String, String)>, name: Seq<char>)
    ensures
        (forall|j: int| 0 <= j < entries.len() ==> entries[j].0@ != name) ==> cli_command_for(
            entries,
            name,
        ).is_none(),
    decreases entries.len(),
{
    if entries.len() > 0 {
        lemma_cli_lookup_absent(entries.drop_first(), name);
        if forall|j: int| 0 <= j < entries.len() ==> entries[j].0@ != name {
            assert(entries[0].0@ != name);
            assert forall|j: int| 0 <= j < entries.drop_first().len() implies entries.drop_first()[j].0@ != name by {
                assert(entries.drop_first()[j] == entries[j + 1]);
            }
        }
    }
}

/// The command string that `entries` gives for `name`, if any.
pub fn find_cli_command(entries: &Vec<(String, String)>, name: &str) -> (r: Option<String>)
    ensures
        match r {
            Some(c) => cli_command_for(entries@, name@) == Some(c@),
            None => cli_command_for(entries@, name@).is_none(),
        },
{
    let mut i: usize = 0;
    assert(entries@.skip(0) == entries@);
    while i < entries.len()
        invariant
            i <= entries.len(),
            cli_command_for(entries@, name@) == cli_command_for(entries@.skip(i as int), name@),
        decreases entries.len() - i,
    {
        assert(entries@.skip(i as int).drop_first() == entries@.skip(i + 1));
        if same_text(entries[i].0.as_str(), name) {
            return Some(entries[i].1.clone());
        }
        i = i + 1;
    }
    None
}

impl GitMindConfig {
    /// The system prompt with the project's context added.
    pub fn get_system_prompt(&self) -> (r: String)
        ensures
            r@ == system_prompt_for(*self),
    {
        let mut system_prompt = self.system_prompt.clone();
        if let Some(project) = &self.project {
            let ghost base = system_prompt@;
            if let Some(langs) = &project.languages {
                system_prompt.append("The project uses these languages: ");
                let joined = join_strings(langs, ", ");
                system_prompt.append(joined.as_str());
                system_prompt.append(". ");
            }
            let ghost after_langs = system_prompt@;
            if let Some(author) = &project.author_name {
                system_prompt.append("The author's name is ");
                system_prompt.append(author.as_str());
                system_prompt.append(". ");
            }
            let ghost after_author = system_prompt@;
            if let Some(info) = &project.additional_info {
                system_prompt.append("Additional context: ");
                system_prompt.append(info.as_str());
                system_prompt.append(". ");
            }
            assert(system_prompt@ == base + project_context(*project));
        }
        system_prompt
    }
}

/// The system prompt always begins with the configured prompt, and is that
/// prompt alone when the configuration has no `[project]` table.
pub proof fn lemma_system_prompt_extends_base(c: GitMindConfig)
    ensures
        c.system_prompt@.is_prefix_of(system_prompt_for(c)),
        c.project.is_none() ==> system_prompt_for(c) == c.system_prompt@,
{
    match c.project {
        Some(p) => {
            assert(system_prompt_for(c).take(c.system_prompt@.len() as int) == c.system_prompt@);
        },
        None => {},
    }
}

/// Whether `s` ends with `t`.
pub open spec fn ends_with(s: Seq<char>, t: Seq<char>) -> bool {
    t.len() <= s.len() && s.skip(s.len() - t.len()) == t
}

/// The three sentences about a project do not depend on each other: the
/// prompt starts with the configured prompt; the sentence for additional
/// context ends it whenever that context is set, whatever else is set; the
/// author's sentence ends it when no context is set; the languages' sentence
/// ends it when neither is; and without any of them the prompt is the
/// configured prompt alone. Each set sentence occurs in the prompt.
pub proof fn lemma_project_sentences(c: GitMindConfig)
    ensures
        c.system_prompt@.is_prefix_of(system_prompt_for(c)),
        c.project matches Some(p) ==> {
            let prompt = system_prompt_for(c);
            let langs_sentence = |l: Vec<String>|
                "The project uses these languages: "@ + join_with(views(l@), ", "@) + ". "@;
            &&& p.additional_info matches Some(i) ==> ends_with(
                prompt,
                "Additional context: "@ + i@ + ". "@,
            )
            &&& p.additional_info is None ==> (p.author_name matches Some(a) ==> ends_with(
                prompt,
                "The author's name is "@ + a@ + ". "@,
            ))
            &&& p.additional_info is None && p.author_name is None ==> (p.languages matches Some(
                l,
            ) ==> ends_with(prompt, langs_sentence(l)))
            &&& p.additional_info is None && p.author_name is None && p.languages is None
                ==> prompt == c.system_prompt@
            &&& p.author_name matches Some(a) ==> occurs_in(prompt, "The author's name is "@ + a@ + ". "@)
            &&& p.languages matches Some(l) ==> occurs_in(prompt, langs_sentence(l))
        },
        c.project is None ==> system_prompt_for(c) == c.system_prompt@,
{
    lemma_system_prompt_extends_base(c);
    if let Some(p) = c.project {
        let prompt = system_prompt_for(c);
        let base = c.system_prompt@;
        let langs = match p.languages {
            Some(l) => "The project uses these languages: "@ + join_with(views(l@), ", "@) + ". "@,
            None => Seq::<char>::empty(),
        };
        let author = match p.author_name {
            Some(a) => "The author's name is "@ + a@ + ". "@,
            None => Seq::<char>::empty(),
        };
        let info = match p.additional_info {
            Some(i) => "Additional context: "@ + i@ + ". "@,
            None => Seq::<char>::empty(),
        };
        assert(prompt == base + langs + author + info);
        assert(prompt.skip(prompt.len() - info.len()) == info);
        if p.additional_info is None {
            assert(info == Seq::<char>::empty());
            assert(prompt == base + langs + author);
            assert(prompt.skip(prompt.len() - author.len()) == author);
            if p.author_name is None {
                assert(author == Seq::<char>::empty());
                assert(prompt == base + langs);
                assert(prompt.skip(prompt.len() - langs.len()) == langs);
                if p.languages is None {
                    assert(prompt == base);
                }
            }
        }
        if p.author_name is Some {
            let k: int = (base.len() + langs.len()) as int;
            assert(prompt.subrange(k, k + author.len()) == author);
            assert(occurs_at(prompt, author, k));
        }
        if p.languages is Some {
            let k = base.len() as int;
            assert(prompt.subrange(k, k + langs.len()) == langs);
            assert(occurs_at(prompt, langs, k));
        }
    }
}

} // verus!
