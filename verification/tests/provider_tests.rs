use gitmind::config::{AvalAiConfig, GitMindConfig, OllamaConfig, OpenAiConfig, ProjectConfig};
use gitmind::error::GitMindError;
use gitmind::git::{select_changed_files, FileStatus, StatusEntry};
use gitmind::llm::{ApiReply, CommitContext, Provider, ProviderBuilder, ProviderRegistry, SYSTEM_PROMPT};
use gitmind::llm_providers::avalai::{build_avalai, AvalAiProvider, AvalAiResponse, Content, Output};
use gitmind::llm_providers::cli::{build_cli, finish_invocation, parse_command_string, CliOutcome, GenericCliProvider};
use gitmind::llm_providers::ollama::{build_ollama, OllamaProvider, OllamaResponse};
use gitmind::llm_providers::openai::{build_openai, Choice, OpenAiProvider, OpenAiResponse, ResponseMessage};

fn base_config(active: &str) -> GitMindConfig {
    GitMindConfig {
        active_provider: active.to_string(),
        project: None,
        ollama: None,
        avalai: None,
        openai: None,
        cli: None,
        system_prompt: "Write a commit message. ".to_string(),
    }
}

fn empty_project() -> ProjectConfig {
    ProjectConfig { languages: None, additional_info: None, author_name: None, ignored_extensions: None }
}

#[test]
fn system_prompt_without_project_is_the_configured_prompt() {
    let c = base_config("ollama");
    assert_eq!(c.get_system_prompt(), "Write a commit message. ");
}

#[test]
fn system_prompt_with_full_project() {
    let mut c = base_config("ollama");
    c.project = Some(ProjectConfig {
        languages: Some(vec!["Rust".to_string(), "TOML".to_string()]),
        additional_info: Some("CLI tool".to_string()),
        author_name: Some("Ada".to_string()),
        ignored_extensions: Some(vec!["lock".to_string()]),
    });
    assert_eq!(
        c.get_system_prompt(),
        "Write a commit message. The project uses these languages: Rust, TOML. The author's name is Ada. Additional context: CLI tool. "
    );
}

#[test]
fn system_prompt_with_partial_project() {
    let mut c = base_config("ollama");
    let mut p = empty_project();
    p.author_name = Some("Ada".to_string());
    c.project = Some(p);
    assert_eq!(c.get_system_prompt(), "Write a commit message. The author's name is Ada. ");
    let mut c2 = base_config("ollama");
    c2.project = Some(empty_project());
    assert_eq!(c2.get_system_prompt(), "Write a commit message. ");
}

#[test]
fn parse_splits_on_spaces() {
    assert_eq!(parse_command_string("gemini -p $prompt"), vec!["gemini", "-p", "$prompt"]);
}

#[test]
fn parse_keeps_quoted_spaces() {
    assert_eq!(
        parse_command_string("\"/opt/my tools/llm\" --prompt \"$prompt\""),
        vec!["/opt/my tools/llm", "--prompt", "$prompt"]
    );
}

#[test]
fn parse_drops_empty_pieces() {
    assert_eq!(parse_command_string("  a   b  "), vec!["a", "b"]);
    assert!(parse_command_string("").is_empty());
    assert!(parse_command_string("    ").is_empty());
    assert!(parse_command_string("\"\"").is_empty());
}

#[test]
fn parse_joins_quoted_middle() {
    assert_eq!(parse_command_string("a\"b c\"d e"), vec!["ab cd", "e"]);
}

#[test]
fn parse_unclosed_quote_runs_to_end() {
    assert_eq!(parse_command_string("x \"y z"), vec!["x", "y z"]);
}

#[test]
fn parse_without_quotes_matches_split() {
    let s = " tool  --flag value ";
    let expected: Vec<&str> = s.split(' ').filter(|a| !a.is_empty()).collect();
    assert_eq!(parse_command_string(s), expected);
}

#[test]
fn cli_invocation_substitutes_prompt() {
    let p = GenericCliProvider::new("llm -q \"--in=$prompt\" -v".to_string(), "SYS".to_string());
    let inv = p.prepare_invocation(&CommitContext { diff: "D".to_string() }).unwrap();
    assert_eq!(inv.executable, "llm");
    assert_eq!(inv.args, vec!["-q", "--in=SYS\n\nCode Diff:\nD", "-v"]);
}

#[test]
fn cli_invocation_of_empty_command_fails() {
    let p = GenericCliProvider::new("   ".to_string(), "SYS".to_string());
    match p.prepare_invocation(&CommitContext { diff: "D".to_string() }) {
        Err(e) => assert_eq!(e, GitMindError::Generic("CLI command string is empty".to_string())),
        Ok(_) => panic!("expected an error"),
    }
}

#[test]
fn cli_output_is_trimmed() {
    let r = finish_invocation(CliOutcome::Finished {
        success: true,
        stdout: b"  feat: add login\n".to_vec(),
        stderr: Vec::new(),
    });
    assert_eq!(r, Ok("feat: add login".to_string()));
}

#[test]
fn cli_failure_quotes_stderr() {
    let r = finish_invocation(CliOutcome::Finished {
        success: false,
        stdout: Vec::new(),
        stderr: b"boom".to_vec(),
    });
    assert_eq!(r, Err(GitMindError::Generic("CLI tool error: boom".to_string())));
}

#[test]
fn cli_invalid_utf8_is_reported() {
    let r = finish_invocation(CliOutcome::Finished {
        success: true,
        stdout: vec![0xff, 0x41],
        stderr: Vec::new(),
    });
    let expected = format!("Invalid UTF-8 in stdout: {}", String::from_utf8(vec![0xff, 0x41]).unwrap_err());
    assert_eq!(r, Err(GitMindError::Generic(expected)));
}

#[test]
fn cli_not_started_is_reported() {
    let r = finish_invocation(CliOutcome::NotStarted("no such file".to_string()));
    assert_eq!(r, Err(GitMindError::Generic("Failed to execute generic cli: no such file".to_string())));
}

#[test]
fn build_cli_needs_a_name() {
    match build_cli(&base_config("cli")) {
        Err(e) => assert_eq!(
            e,
            GitMindError::Generic("No CLI name specified. Use active_provider = 'cli:name'".to_string())
        ),
        Ok(_) => panic!("expected an error"),
    }
}

#[test]
fn build_cli_needs_the_section() {
    match build_cli(&base_config("cli:gemini")) {
        Err(e) => assert_eq!(e, GitMindError::MissingProviderConfig("cli".to_string())),
        Ok(_) => panic!("expected an error"),
    }
}

#[test]
fn build_cli_needs_the_entry() {
    let mut c = base_config("cli:gemini");
    c.cli = Some(vec![("mytool".to_string(), "mytool -p $prompt".to_string())]);
    match build_cli(&c) {
        Err(e) => assert_eq!(e, GitMindError::Generic("No configuration found for cli 'gemini'".to_string())),
        Ok(_) => panic!("expected an error"),
    }
}

#[test]
fn build_cli_takes_the_named_entry() {
    let mut c = base_config("cli:gemini:ignored");
    c.cli = Some(vec![
        ("mytool".to_string(), "mytool -p $prompt".to_string()),
        ("gemini".to_string(), "gemini -p $prompt".to_string()),
    ]);
    match build_cli(&c) {
        Ok(Provider::Cli(p)) => {
            assert_eq!(p.command_string, "gemini -p $prompt");
            assert_eq!(p.system_prompt, "Write a commit message. ");
        },
        _ => panic!("expected the cli provider"),
    }
}

#[test]
fn build_avalai_uses_section_and_prompt() {
    let mut c = base_config("avalai");
    assert_eq!(
        build_avalai(&c).err().unwrap(),
        GitMindError::MissingProviderConfig("avalai".to_string())
    );
    c.avalai = Some(AvalAiConfig {
        base_url: "https://api.avalai.ir/v1/responses".to_string(),
        api_key: "SECRET-REDACTED".to_string(),
        model: "gpt-4o".to_string(),
    });
    match build_avalai(&c) {
        Ok(Provider::AvalAi(p)) => {
            assert_eq!(p.base_url, "https://api.avalai.ir/v1/responses");
            assert_eq!(p.api_key, "SECRET-REDACTED");
            assert_eq!(p.model, "gpt-4o");
            assert_eq!(p.prompt, "Write a commit message. ");
            let req = p.request_body(&CommitContext { diff: "diff".to_string() });
            assert_eq!(req.model, "gpt-4o");
            assert_eq!(req.instructions, "Write a commit message. ");
            assert_eq!(req.input, "diff");
        },
        _ => panic!("expected the avalai provider"),
    }
}

#[test]
fn avalai_reply_takes_first_text() {
    let resp = AvalAiResponse {
        output: vec![
            Output { content: vec![Content { text: "  fix: typo \n".to_string() }, Content { text: "x".to_string() }] },
            Output { content: vec![] },
        ],
    };
    assert_eq!(AvalAiProvider::commit_from_reply(ApiReply::Accepted(resp)), Ok("fix: typo".to_string()));
}

#[test]
fn avalai_reply_errors() {
    assert_eq!(
        AvalAiProvider::commit_from_reply(ApiReply::Accepted(AvalAiResponse { output: vec![] })),
        Err(GitMindError::Generic("LLM returned an empty output list".to_string()))
    );
    assert_eq!(
        AvalAiProvider::commit_from_reply(ApiReply::Accepted(AvalAiResponse { output: vec![Output { content: vec![] }] })),
        Err(GitMindError::Generic("LLM returned an empty content list".to_string()))
    );
    assert_eq!(
        AvalAiProvider::commit_from_reply(ApiReply::Rejected("quota".to_string())),
        Err(GitMindError::LlmApiError("quota".to_string()))
    );
}

#[test]
fn build_ollama_uses_section_and_prompt() {
    let mut c = base_config("ollama");
    assert_eq!(
        build_ollama(&c).err().unwrap(),
        GitMindError::Plain("Ollama config section is missing from .gitmind.toml".to_string())
    );
    c.ollama = Some(OllamaConfig { base_url: "http://localhost:11434/".to_string(), model: "llama3".to_string() });
    match build_ollama(&c) {
        Ok(Provider::Ollama(p)) => {
            assert_eq!(p.host, "http://localhost:11434/");
            assert_eq!(p.model, "llama3");
            assert_eq!(p.endpoint(), "http://localhost:11434/api/generate");
            let req = p.request_body(&CommitContext { diff: "+x".to_string() });
            assert_eq!(req.prompt, "Write a commit message. \n\nCode Diff:\n+x");
            assert_eq!(req.model, "llama3");
            assert!(!req.stream);
        },
        _ => panic!("expected the ollama provider"),
    }
}

#[test]
fn ollama_endpoint_without_slash() {
    let p = OllamaProvider::new("http://h:1".to_string(), "m".to_string(), "p".to_string());
    assert_eq!(p.endpoint(), "http://h:1/api/generate");
}

#[test]
fn ollama_reply() {
    assert_eq!(
        OllamaProvider::commit_from_reply(ApiReply::Accepted(OllamaResponse { response: "\nchore: bump\n".to_string() })),
        Ok("chore: bump".to_string())
    );
    assert_eq!(
        OllamaProvider::commit_from_reply(ApiReply::Rejected("model not found".to_string())),
        Err(GitMindError::Plain("Ollama API error: model not found".to_string()))
    );
}

#[test]
fn build_openai_and_request() {
    let mut c = base_config("openai");
    assert_eq!(
        build_openai(&c).err().unwrap(),
        GitMindError::Plain("OpenAI config section is missing from .gitmind.toml".to_string())
    );
    c.openai = Some(OpenAiConfig {
        base_url: "https://api.openai.com/v1/chat/completions".to_string(),
        api_key: "SECRET-REDACTED".to_string(),
        model: "gpt-4o-mini".to_string(),
    });
    match build_openai(&c) {
        Ok(Provider::OpenAi(p)) => {
            assert_eq!(p.model, "gpt-4o-mini");
            let req = p.request_body(&CommitContext { diff: "d".to_string() });
            assert_eq!(req.messages.len(), 2);
            assert_eq!(req.messages[0].role, "system");
            assert_eq!(req.messages[0].content, SYSTEM_PROMPT);
            assert_eq!(req.messages[1].role, "user");
            assert_eq!(req.messages[1].content, "d");
        },
        _ => panic!("expected the openai provider"),
    }
}

#[test]
fn openai_reply() {
    let resp = OpenAiResponse { choices: vec![Choice { message: ResponseMessage { content: " docs: readme ".to_string() } }] };
    assert_eq!(OpenAiProvider::commit_from_reply(ApiReply::Accepted(resp)), Ok("docs: readme".to_string()));
    assert_eq!(
        OpenAiProvider::commit_from_reply(ApiReply::Accepted(OpenAiResponse { choices: vec![] })),
        Err(GitMindError::Plain("LLM returned an empty choice list".to_string()))
    );
    assert_eq!(
        OpenAiProvider::commit_from_reply(ApiReply::Rejected("bad key".to_string())),
        Err(GitMindError::Plain("LLM API error: bad key".to_string()))
    );
}

#[test]
fn registry_reports_unknown_strategy() {
    let reg = ProviderRegistry::new();
    match reg.get_active_provider(&base_config("ollama")) {
        Err(e) => {
            assert_eq!(e, GitMindError::ProviderNotFound("ollama".to_string()));
            assert_eq!(e.message(), "No provider registered for strategy: ollama");
        },
        Ok(_) => panic!("expected an error"),
    }
}

#[test]
fn registry_builds_registered_strategy() {
    let mut reg = ProviderRegistry::new();
    reg.register("ollama", ProviderBuilder::Ollama);
    reg.register("avalai", ProviderBuilder::AvalAi);
    let mut c = base_config("ollama");
    c.ollama = Some(OllamaConfig { base_url: "http://h".to_string(), model: "m".to_string() });
    assert!(matches!(reg.get_active_provider(&c), Ok(Provider::Ollama(_))));
    let c2 = base_config("avalai");
    assert_eq!(
        reg.get_active_provider(&c2).err().unwrap(),
        GitMindError::MissingProviderConfig("avalai".to_string())
    );
}

#[test]
fn registry_latest_registration_wins() {
    let mut reg = ProviderRegistry::new();
    reg.register("main", ProviderBuilder::Ollama);
    reg.register("main", ProviderBuilder::OpenAi);
    let c = base_config("main");
    assert_eq!(
        reg.get_active_provider(&c).err().unwrap(),
        GitMindError::Plain("OpenAI config section is missing from .gitmind.toml".to_string())
    );
}

#[test]
fn error_messages() {
    assert_eq!(
        GitMindError::ConfigNotFound("/repo/.gitmind.toml".to_string()).message(),
        "Could not find or read config file at /repo/.gitmind.toml"
    );
    assert_eq!(GitMindError::LlmApiError("x".to_string()).message(), "LLM API returned an error: x");
    assert_eq!(GitMindError::MissingProviderConfig("cli".to_string()).message(), "Provider config section is missing: cli");
    assert_eq!(GitMindError::Generic("y".to_string()).message(), "Generic error: y");
    assert_eq!(
        GitMindError::Plain("Ollama API error: down".to_string()).message(),
        "Ollama API error: down"
    );
    assert_eq!(GitMindError::from("z".to_string()), GitMindError::Generic("z".to_string()));
}

fn status(new: bool, wt_modified: bool, ignored: bool) -> FileStatus {
    FileStatus {
        index_new: new,
        index_modified: false,
        index_deleted: false,
        index_renamed: false,
        index_typechange: false,
        wt_new: false,
        wt_modified,
        wt_deleted: false,
        wt_typechange: false,
        wt_renamed: false,
        wt_unreadable: false,
        ignored,
        conflicted: false,
    }
}

#[test]
fn changed_files_keep_changed_entries_with_paths() {
    let entries = vec![
        StatusEntry { status: status(true, false, false), path: Some("src/a.rs".to_string()) },
        StatusEntry { status: status(false, false, true), path: Some("target/x".to_string()) },
        StatusEntry { status: status(false, true, false), path: None },
        StatusEntry { status: status(false, true, false), path: Some("README.md".to_string()) },
    ];
    assert_eq!(select_changed_files(&entries), vec!["src/a.rs", "README.md"]);
    assert!(select_changed_files(&Vec::new()).is_empty());
}
