# gitmind

A library that turns staged changes into the requests that ask a language
model for a commit message, and turns the model's answers back into a
message, with every step stated as a contract and proved.

- `src/text.rs`: trimming, splitting, joining and replacing text.
- `src/config.rs`: the configuration and the system prompt built from it.
- `src/error.rs`: the error type and the text that explains each error.
- `src/git.rs`: which entries of a repository's status list count as changed.
- `src/llm.rs`: the commit context, the provider registry and the builders.
- `src/llm_providers/`: the Ollama, AvalAI, OpenAI and command-line providers:
  their requests, and what their answers mean.
- `app/`: the command-line program, which reads files, talks to the
  repository, sends the HTTP requests and runs the tools.
