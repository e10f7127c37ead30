//! A provider that runs a command-line tool named in the configuration.
use vstd::prelude::*;
use crate::config::{
    GitMindConfig, cli_command_for, distinct_names, find_cli_command, lemma_cli_lookup_is_map_lookup,
    system_prompt_for,
};
use crate::llm_providers::avalai::avalai_built;
use crate::llm_providers::ollama::ollama_built;
use crate::error::{ErrorView, GitMindError, prefixed};
use crate::llm::{CommitContext, Provider, combine_prompt, prompt_with_diff};
use vstd::utf8::{decode_utf8, valid_utf8};
use crate::text::{
    chars_of, lemma_filter_push, lemma_replace_whole, lemma_split_on_append_free, occurs_in, contains_text, lemma_replace_absent, lemma_split_on_nonempty, push_char,
    replace_all, replace_text, split_char, split_on, trim, trimmed, views,
};

verus! {

/// The state of the scan that cuts a command string into arguments.
pub struct ArgScan {
    /// The arguments completed so far.
    pub args: Seq<Seq<char>>,
    /// The argument being read.
    pub current: Seq<char>,
    /// Whether an odd number of double quotes has been read.
    pub in_quotes: bool,
}

/// One step of the scan: a double quote toggles quoting and is dropped, a
/// space outside quotes ends a non-empty argument, any other character is
/// added to the current argument.
pub open spec fn scan_char(st: ArgScan, c: char) -> ArgScan {
    if c == '"' {
        ArgScan { args: st.args, current: st.current, in_quotes: !st.in_quotes }
    } else if c == ' ' && !st.in_quotes {
        if st.current.len() > 0 {
            ArgScan { args: st.args.push(st.current), current: Seq::<char>::empty(), in_quotes: st.in_quotes }
        } else {
            st
        }
    } else {
        ArgScan { args: st.args, current: st.current.push(c), in_quotes: st.in_quotes }
    }
}

/// The state after scanning all of `s` from the start.
pub open spec fn scan_command(s: Seq<char>) -> ArgScan
    decreases s.len(),
{
    if s.len() == 0 {
        ArgScan { args: Seq::<Seq<char>>::empty(), current: Seq::<char>::empty(), in_quotes: false }
    } else {
        scan_char(scan_command(s.drop_last()), s.last())
    }
}

/// The arguments of a command string: the completed arguments of the scan,
/// followed by the last one if it is not empty.
pub open spec fn command_args(s: Seq<char>) -> Seq<Seq<char>> {
    let st = scan_command(s);
    if st.current.len() > 0 {
        st.args.push(st.current)
    } else {
        st.args
    }
}

/// Splits a command string into arguments at spaces, keeping the spaces
/// that stand between double quotes, so that paths with spaces survive.
pub fn parse_command_string(cmd: &str) -> (args: Vec<String>)
    ensures
        views(args@) == command_args(cmd@),
{
    let v = chars_of(cmd);
    let mut args: Vec<String> = Vec::new();
    let mut current_arg = String::new();
    let mut in_quotes = false;
    let mut i: usize = 0;
    assert(v@.take(0) == Seq::<char>::empty());
    assert(views(args@) == Seq::<Seq<char>>::empty());
    while i < v.len()
        invariant
            v@ == cmd@,
            i <= v.len(),
            scan_command(v@.take(i as int)) == (ArgScan {
                args: views(args@),
                current: current_arg@,
                in_quotes,
            }),
        decreases v.len() - i,
    {
        let c = v[i];
        assert(v@.take(i + 1).drop_last() == v@.take(i as int));
        assert(v@.take(i + 1).last() == c);
        match c {
            '"' => {
                in_quotes = !in_quotes;
            },
            ' ' if !in_quotes => {
                if !current_arg.as_str().is_empty() {
                    let ghost old_args = views(args@);
                    args.push(current_arg);
                    current_arg = String::new();
                    assert(views(args@) == old_args.push(views(args@).last()));
                }
            },
            _ => {
                push_char(&mut current_arg, c);
            },
        }
        i = i + 1;
    }
    assert(v@.take(v.len() as int) == v@);
    if !current_arg.as_str().is_empty() {
        let ghost old_args = views(args@);
        args.push(current_arg);
        assert(views(args@) == old_args.push(views(args@).last()));
    }
    args
}

/// Every argument that the scan has completed is non-empty and holds no
/// double quote, and neither does the argument being read.
proof fn lemma_scan_clean(s: Seq<char>)
    ensures
        forall|i: int|
            0 <= i < scan_command(s).args.len() ==> #[trigger] scan_command(s).args[i].len() > 0
                && !scan_command(s).args[i].contains('"'),
        !scan_command(s).current.contains('"'),
    decreases s.len(),
{
    if s.len() > 0 {
        lemma_scan_clean(s.drop_last());
        let st = scan_command(s.drop_last());
        let c = s.last();
        if c != '"' && !(c == ' ' && !st.in_quotes) {
            assert forall|j: int| 0 <= j < st.current.push(c).len() implies st.current.push(c)[j] != '"' by {
                if j < st.current.len() {
                    assert(st.current.push(c)[j] == st.current[j]);
                    assert(st.current.contains(st.current[j]));
                }
            }
        }
    }
}

/// Each argument of a command string is non-empty and holds no double quote.
pub proof fn lemma_command_args_clean(s: Seq<char>)
    ensures
        forall|i: int|
            0 <= i < command_args(s).len() ==> #[trigger] command_args(s)[i].len() > 0
                && !command_args(s)[i].contains('"'),
{
    lemma_scan_clean(s);
}

/// The test that keeps non-empty fields.
pub open spec fn non_empty() -> spec_fn(Seq<char>) -> bool {
    |a: Seq<char>| a.len() > 0
}

/// The test for a double quote.
pub open spec fn is_quote() -> spec_fn(char) -> bool {
    |c: char| c == '"'
}

/// The test for any character but a double quote.
pub open spec fn not_quote() -> spec_fn(char) -> bool {
    |c: char| c != '"'
}

/// Whether position `i` of `s` stands inside quotes: an odd number of double
/// quotes comes before it.
pub open spec fn quoted_at(s: Seq<char>, i: int) -> bool {
    s.take(i).filter(is_quote()).len() % 2 == 1
}

/// The pieces of `s` between the spaces that stand outside quotes.
pub open spec fn cut_at_unquoted_spaces(s: Seq<char>) -> Seq<Seq<char>>
    decreases s.len(),
{
    if s.len() == 0 {
        seq![Seq::<char>::empty()]
    } else {
        let front = cut_at_unquoted_spaces(s.drop_last());
        if s.last() == ' ' && !quoted_at(s, s.len() - 1) {
            front.push(Seq::<char>::empty())
        } else {
            front.update(front.len() - 1, front.last().push(s.last()))
        }
    }
}

/// The arguments of a command string, said directly: cut it at the spaces
/// that have an even number of double quotes before them, delete the double
/// quotes, and keep the pieces that are not empty.
pub open spec fn unquoted_pieces(s: Seq<char>) -> Seq<Seq<char>> {
    cut_at_unquoted_spaces(s).map_values(|p: Seq<char>| p.filter(not_quote())).filter(non_empty())
}

proof fn lemma_cut_nonempty(s: Seq<char>)
    ensures
        cut_at_unquoted_spaces(s).len() >= 1,
    decreases s.len(),
{
    if s.len() > 0 {
        lemma_cut_nonempty(s.drop_last());
    }
}

proof fn lemma_scan_is_cut(s: Seq<char>)
    ensures
        scan_command(s).in_quotes == (s.filter(is_quote()).len() % 2 == 1),
        scan_command(s).current == cut_at_unquoted_spaces(s).last().filter(not_quote()),
        scan_command(s).args == cut_at_unquoted_spaces(s).drop_last().map_values(
            |p: Seq<char>| p.filter(not_quote()),
        ).filter(non_empty()),
    decreases s.len(),
{
    let rq = |p: Seq<char>| p.filter(not_quote());
    lemma_cut_nonempty(s);
    if s.len() == 0 {
        reveal(Seq::filter);
        assert(cut_at_unquoted_spaces(s).drop_last() == Seq::<Seq<char>>::empty());
        assert(cut_at_unquoted_spaces(s).drop_last().map_values(rq) == Seq::<Seq<char>>::empty());
    } else {
        let t = s.drop_last();
        let c = s.last();
        lemma_scan_is_cut(t);
        lemma_cut_nonempty(t);
        let f = cut_at_unquoted_spaces(t);
        let st = scan_command(t);
        assert(s == t.push(c));
        assert(s.take(s.len() - 1) == t);
        lemma_filter_push(t, c, is_quote());
        assert(f == f.drop_last().push(f.last()));
        lemma_filter_push(f.last(), c, not_quote());
        if c == ' ' && !st.in_quotes {
            let g = cut_at_unquoted_spaces(s);
            assert(g == f.push(Seq::<char>::empty()));
            assert(g.drop_last() == f);
            reveal(Seq::filter);
            assert(g.last().filter(not_quote()) == Seq::<char>::empty());
            assert(f.map_values(rq) == f.drop_last().map_values(rq).push(rq(f.last())));
            lemma_filter_push(f.drop_last().map_values(rq), rq(f.last()), non_empty());
            if st.current.len() == 0 {
                assert(st.current == Seq::<char>::empty());
            }
        } else {
            let g = cut_at_unquoted_spaces(s);
            assert(g.drop_last() == f.drop_last());
            assert(g.last() == f.last().push(c));
        }
    }
}

/// The scan says what `unquoted_pieces` says: cutting at unquoted spaces,
/// deleting the quotes and dropping empty pieces gives the arguments.
pub proof fn lemma_command_args_are_unquoted_pieces(s: Seq<char>)
    ensures
        command_args(s) == unquoted_pieces(s),
{
    let rq = |p: Seq<char>| p.filter(not_quote());
    lemma_scan_is_cut(s);
    lemma_cut_nonempty(s);
    let g = cut_at_unquoted_spaces(s);
    assert(g == g.drop_last().push(g.last()));
    assert(g.map_values(rq) == g.drop_last().map_values(rq).push(rq(g.last())));
    lemma_filter_push(g.drop_last().map_values(rq), rq(g.last()), non_empty());
}

/// Without double quotes the scan is a split at spaces: the current
/// argument is the last field, and the completed ones are the non-empty
/// fields before it.
proof fn lemma_scan_unquoted(s: Seq<char>)
    requires
        !s.contains('"'),
    ensures
        !scan_command(s).in_quotes,
        scan_command(s).current == split_on(s, ' ').last(),
        scan_command(s).args == split_on(s, ' ').drop_last().filter(non_empty()),
    decreases s.len(),
{
    lemma_split_on_nonempty(s, ' ');
    if s.len() == 0 {
        reveal(Seq::filter);
        assert(split_on(s, ' ').drop_last() == Seq::<Seq<char>>::empty());
    } else {
        let t = s.drop_last();
        let c = s.last();
        assert(!t.contains('"')) by {
            if t.contains('"') {
                let k = choose|k: int| 0 <= k < t.len() && t[k] == '"';
                assert(s[k] == '"');
            }
        }
        assert(s[s.len() - 1] == c);
        lemma_scan_unquoted(t);
        lemma_split_on_nonempty(t, ' ');
        let st = scan_command(t);
        let f = split_on(t, ' ');
        assert(f == f.drop_last().push(f.last()));
        if c == ' ' {
            assert(split_on(s, ' ') == f.push(Seq::<char>::empty()));
            assert(split_on(s, ' ').drop_last() == f);
            lemma_filter_push(f.drop_last(), f.last(), non_empty());
            if st.current.len() == 0 {
                assert(st.current == Seq::<char>::empty());
            }
        } else {
            assert(split_on(s, ' ').drop_last() == f.drop_last());
        }
    }
}

/// A command string without double quotes is cut at its spaces, and the
/// empty pieces are dropped: the arguments are those of
/// `split(' ').filter(|a| !a.is_empty())`.
pub proof fn lemma_unquoted_command_is_split(s: Seq<char>)
    requires
        !s.contains('"'),
    ensures
        command_args(s) == split_on(s, ' ').filter(non_empty()),
{
    lemma_scan_unquoted(s);
    lemma_split_on_nonempty(s, ' ');
    let f = split_on(s, ' ');
    assert(f == f.drop_last().push(f.last()));
    lemma_filter_push(f.drop_last(), f.last(), non_empty());
}

proof fn lemma_scan_inside_quotes(s: Seq<char>)
    requires
        !s.contains('"'),
    ensures
        scan_command(seq!['"'] + s) == (ArgScan {
            args: Seq::<Seq<char>>::empty(),
            current: s,
            in_quotes: true,
        }),
    decreases s.len(),
{
    let q = seq!['"'] + s;
    if s.len() == 0 {
        assert(s == Seq::<char>::empty());
        assert(q == seq!['"']);
        assert(q.drop_last() == Seq::<char>::empty());
        assert(q.last() == '"');
        assert(scan_command(q.drop_last()) == scan_command(Seq::<char>::empty()));
        assert(scan_command(q) == scan_char(scan_command(q.drop_last()), q.last()));
    } else {
        let t = s.drop_last();
        assert(!t.contains('"')) by {
            if t.contains('"') {
                let k = choose|k: int| 0 <= k < t.len() && t[k] == '"';
                assert(s[k] == '"');
            }
        }
        assert(s[s.len() - 1] == s.last());
        assert(s.last() != '"');
        lemma_scan_inside_quotes(t);
        assert(q.drop_last() == seq!['"'] + t);
        assert(q.last() == s.last());
        assert(t.push(s.last()) == s);
        assert(scan_command(q) == scan_char(scan_command(q.drop_last()), q.last()));
    }
}

/// A double-quoted argument is kept whole, spaces included: quoting a
/// non-empty text without double quotes gives that text as the only argument.
pub proof fn lemma_quoted_argument_kept(s: Seq<char>)
    requires
        s.len() > 0,
        !s.contains('"'),
    ensures
        command_args(seq!['"'] + s + seq!['"']) == seq![s],
{
    lemma_scan_inside_quotes(s);
    let q = seq!['"'] + s + seq!['"'];
    assert(q.drop_last() == seq!['"'] + s);
    assert(q.last() == '"');
}

/// A provider that shells out to the command-line tool named in the configuration.
pub struct GenericCliProvider {
    /// The command line, with `$prompt` where the prompt goes.
    pub command_string: String,
    /// The instructions given to the model.
    pub system_prompt: String,
}

/// The program to run and the arguments to give it.
pub struct CliInvocation {
    pub executable: String,
    pub args: Vec<String>,
}

/// How running the tool went: it could not be started (with the reason), or
/// it finished with a success flag and what it wrote.
pub enum CliOutcome {
    NotStarted(String),
    Finished { success: bool, stdout: Vec<u8>, stderr: Vec<u8> },
}

/// The arguments after the program, each with every `$prompt` replaced by the prompt.
pub open spec fn substituted_args(args: Seq<Seq<char>>, prompt: Seq<char>) -> Seq<Seq<char>> {
    args.map_values(|a: Seq<char>| replace_all(a, "$prompt"@, prompt))
}

/// What `String::from_utf8_lossy` makes of the bytes: the text they encode,
/// with U+FFFD in place of each invalid sequence.
pub uninterp spec fn utf8_lossy_text(bytes: Seq<u8>) -> Seq<char>;

/// The message of the error that `String::from_utf8` gives for bytes that
/// are not valid UTF-8, which says where the encoding breaks.
pub uninterp spec fn utf8_error_message(bytes: Seq<u8>) -> Seq<char>;

/// Calls `String::from_utf8_lossy`. The result is its text for these bytes
/// (`utf8_lossy_text`); on valid UTF-8 that is the text the bytes encode.
/// How invalid sequences are replaced is left unsaid.
#[verifier::external_body]
fn decode_utf8_lossy(bytes: &Vec<u8>) -> (r: String)
    ensures
        r@ == utf8_lossy_text(bytes@),
        valid_utf8(bytes@) ==> r@ == decode_utf8(bytes@),
{
    String::from_utf8_lossy(bytes.as_slice()).into_owned()
}

/// Calls `String::from_utf8`, turning its error into the error's message:
/// it succeeds exactly on valid UTF-8, with the text the bytes encode; the
/// error's message is named (`utf8_error_message`), not spelled out.
#[verifier::external_body]
fn decode_utf8_bytes(bytes: Vec<u8>) -> (r: Result<String, String>)
    ensures
        match r {
            Ok(t) => valid_utf8(bytes@) && t@ == decode_utf8(bytes@),
            Err(m) => !valid_utf8(bytes@) && m@ == utf8_error_message(bytes@),
        },
{
    match String::from_utf8(bytes) {
        Ok(t) => Ok(t),
        Err(e) => Err(e.to_string()),
    }
}

impl GenericCliProvider {
    pub fn new(command_string: String, system_prompt: String) -> (r: Self)
        ensures
            r.command_string == command_string,
            r.system_prompt == system_prompt,
    {
        GenericCliProvider { command_string, system_prompt }
    }

    /// The program and arguments to run for `context`: the first argument of
    /// the command string is the program; in the others every `$prompt`
    /// becomes the system prompt followed by the diff. An empty command
    /// string is an error.
    pub fn prepare_invocation(&self, context: &CommitContext) -> (r: Result<CliInvocation, GitMindError>)
        ensures
            match r {
                Ok(inv) => {
                    let args = command_args(self.command_string@);
                    &&& args.len() > 0
                    &&& inv.executable@ == args[0]
                    &&& views(inv.args@) == substituted_args(
                        args.drop_first(),
                        prompt_with_diff(self.system_prompt@, context.diff@),
                    )
                },
                Err(e) => {
                    &&& command_args(self.command_string@).len() == 0
                    &&& e@ == ErrorView::Generic("CLI command string is empty"@)
                },
            },
    {
        let full_prompt = combine_prompt(self.system_prompt.as_str(), context.diff.as_str());
        let parsed_args = parse_command_string(self.command_string.as_str());
        if parsed_args.len() == 0 {
            return Err(GitMindError::Generic(String::from_str("CLI command string is empty")));
        }
        let executable = parsed_args[0].clone();
        let ghost args = views(parsed_args@);
        let mut final_args: Vec<String> = Vec::new();
        let mut i: usize = 1;
        proof {
            reveal_strlit("$prompt");
        }
        assert(substituted_args(args.subrange(1, 1), full_prompt@) == Seq::<Seq<char>>::empty());
        assert(views(final_args@) == Seq::<Seq<char>>::empty());
        while i < parsed_args.len()
            invariant
                args == views(parsed_args@),
                1 <= i <= parsed_args.len(),
                "$prompt"@.len() > 0,
                views(final_args@) == substituted_args(args.subrange(1, i as int), full_prompt@),
            decreases parsed_args.len() - i,
        {
            let arg = &parsed_args[i];
            let ghost before = views(final_args@);
            if contains_text(arg.as_str(), "$prompt") {
                final_args.push(replace_text(arg.as_str(), "$prompt", full_prompt.as_str()));
            } else {
                proof {
                    lemma_replace_absent(arg@, "$prompt"@, full_prompt@);
                }
                final_args.push(arg.clone());
            }
            assert(views(final_args@) == before.push(views(final_args@).last()));
            assert(args.subrange(1, i + 1) == args.subrange(1, i as int).push(args[i as int]));
            i = i + 1;
        }
        assert(args.subrange(1, parsed_args.len() as int) == args.drop_first());
        Ok(CliInvocation { executable, args: final_args })
    }
}

/// The commit message in the tool's decoded output: the output trimmed, or,
/// where the output is not valid UTF-8, an error that quotes the decoder.
pub fn cli_reply_text(decoded: Result<String, String>) -> (r: Result<String, GitMindError>)
    ensures
        match decoded {
            Ok(t) => r matches Ok(m) && m@ == trimmed(t@),
            Err(msg) => r matches Err(e) && e@ == ErrorView::Generic(
                "Invalid UTF-8 in stdout: "@ + msg@,
            ),
        },
{
    match decoded {
        Ok(t) => Ok(trim(t.as_str())),
        Err(msg) => Err(GitMindError::Generic(prefixed("Invalid UTF-8 in stdout: ", msg.as_str()))),
    }
}

/// The commit message, or the error, that a run of the tool gives.
pub fn finish_invocation(outcome: CliOutcome) -> (r: Result<String, GitMindError>)
    ensures
        match outcome {
            CliOutcome::NotStarted(reason) => r matches Err(e) && e@ == ErrorView::Generic(
                "Failed to execute generic cli: "@ + reason@,
            ),
            CliOutcome::Finished { success, stdout, stderr } => if !success {
                r matches Err(e) && e@ == ErrorView::Generic(
                    "CLI tool error: "@ + utf8_lossy_text(stderr@),
                )
            } else {
                if valid_utf8(stdout@) {
                    r matches Ok(m) && m@ == trimmed(decode_utf8(stdout@))
                } else {
                    r matches Err(e) && e@ == ErrorView::Generic(
                        "Invalid UTF-8 in stdout: "@ + utf8_error_message(stdout@),
                    )
                }
            },
        },
{
    match outcome {
        CliOutcome::NotStarted(reason) => Err(
            GitMindError::Generic(prefixed("Failed to execute generic cli: ", reason.as_str())),
        ),
        CliOutcome::Finished { success, stdout, stderr } => {
            if !success {
                let text = decode_utf8_lossy(&stderr);
                Err(GitMindError::Generic(prefixed("CLI tool error: ", text.as_str())))
            } else {
                cli_reply_text(decode_utf8_bytes(stdout))
            }
        },
    }
}

/// The outcome of building the command-line provider: the tool's name is
/// the second `:`-separated field of `active_provider`, and its command
/// string is the `[cli]` entry of that name.
pub open spec fn cli_build_outcome(c: GitMindConfig) -> Result<Seq<char>, ErrorView> {
    let parts = split_on(c.active_provider@, ':');
    if parts.len() < 2 {
        Err(ErrorView::Generic("No CLI name specified. Use active_provider = 'cli:name'"@))
    } else if c.cli.is_none() {
        Err(ErrorView::MissingProviderConfig("cli"@))
    } else {
        match cli_command_for(c.cli.unwrap()@, parts[1]) {
            Some(cmd) => Ok(cmd),
            None => Err(ErrorView::Generic("No configuration found for cli '"@ + parts[1] + "'"@)),
        }
    }
}

/// What `build_cli` gives for a configuration: a provider with the chosen
/// command string and the configuration's system prompt, or the error.
pub open spec fn cli_built(c: GitMindConfig, r: Result<Provider, GitMindError>) -> bool {
    match cli_build_outcome(c) {
        Ok(cmd) => r matches Ok(Provider::Cli(p)) && p.command_string@ == cmd
            && p.system_prompt@ == system_prompt_for(c),
        Err(ev) => r matches Err(e) && e@ == ev,
    }
}

/// Builds the command-line provider that the configuration names.
pub fn build_cli(config: &GitMindConfig) -> (r: Result<Provider, GitMindError>)
    ensures
        cli_built(*config, r),
{
    let parts = split_char(config.active_provider.as_str(), ':');
    if parts.len() < 2 {
        return Err(GitMindError::Generic(String::from_str("No CLI name specified. Use active_provider = 'cli:name'")));
    }
    let cli_name = &parts[1];
    assert(cli_name@ == split_on(config.active_provider@, ':')[1]);
    let cli_map = match &config.cli {
        Some(m) => m,
        None => {
            return Err(GitMindError::MissingProviderConfig(String::from_str("cli")));
        },
    };
    let command_string = match find_cli_command(cli_map, cli_name.as_str()) {
        Some(c) => c,
        None => {
            let mut msg = String::from_str("No configuration found for cli '");
            msg.append(cli_name.as_str());
            msg.append("'");
            return Err(GitMindError::Generic(msg));
        },
    };
    let client = GenericCliProvider::new(command_string, config.get_system_prompt());
    Ok(Provider::Cli(client))
}

/// An argument that is exactly `$prompt` becomes the whole prompt, and an
/// argument without `$prompt` is passed on as it is.
pub proof fn lemma_prompt_placeholder(prompt: Seq<char>, arg: Seq<char>)
    ensures
        substituted_args(seq!["$prompt"@], prompt) == seq![prompt],
        !occurs_in(arg, "$prompt"@) ==> substituted_args(seq![arg], prompt) == seq![arg],
{
    reveal_strlit("$prompt");
    lemma_replace_whole("$prompt"@, prompt);
    if !occurs_in(arg, "$prompt"@) {
        lemma_replace_absent(arg, "$prompt"@, prompt);
    }
}

/// The tool's name is what follows `cli:` in `active_provider`: with
/// `active_provider` equal to `cli:` and a name without `:`, and a `[cli]`
/// table with distinct names that has an entry of that name, the built
/// provider runs that entry's command string with the configuration's full
/// system prompt.
pub proof fn lemma_cli_uses_named_entry(
    c: GitMindConfig,
    name: Seq<char>,
    i: int,
    r: Result<Provider, GitMindError>,
)
    requires
        c.active_provider@ == "cli:"@ + name,
        !name.contains(':'),
        c.cli matches Some(entries) && distinct_names(entries@) && 0 <= i < entries@.len()
            && entries@[i].0@ == name,
        cli_built(c, r),
    ensures
        r matches Ok(Provider::Cli(p)) && p.command_string@ == c.cli.unwrap()@[i].1@
            && p.system_prompt@ == system_prompt_for(c),
{
    reveal_strlit("cli:");
    let entries = c.cli.unwrap()@;
    let head = "cli:"@;
    assert(head == seq!['c', 'l', 'i', ':']);
    assert(head.drop_last() == seq!['c', 'l', 'i']);
    assert(seq!['c', 'l', 'i'].drop_last() == seq!['c', 'l']);
    assert(seq!['c', 'l'].drop_last() == seq!['c']);
    assert(seq!['c'].drop_last() == Seq::<char>::empty());
    let e = Seq::<char>::empty();
    assert(split_on(e, ':') == seq![e]);
    assert(seq!['c'].last() == 'c');
    assert(e.push('c') == seq!['c']);
    assert(split_on(seq!['c'], ':') == seq![e].update(0, e.push('c')));
    assert(seq![e].update(0, e.push('c')) == seq![seq!['c']]);
    assert(seq!['c', 'l'].last() == 'l');
    assert(seq!['c'].push('l') == seq!['c', 'l']);
    assert(split_on(seq!['c', 'l'], ':') == seq![seq!['c']].update(0, seq!['c'].push('l')));
    assert(seq![seq!['c']].update(0, seq!['c'].push('l')) == seq![seq!['c', 'l']]);
    assert(seq!['c', 'l', 'i'].last() == 'i');
    assert(seq!['c', 'l'].push('i') == seq!['c', 'l', 'i']);
    assert(split_on(seq!['c', 'l', 'i'], ':') == seq![seq!['c', 'l']].update(0, seq!['c', 'l'].push('i')));
    assert(seq![seq!['c', 'l']].update(0, seq!['c', 'l'].push('i')) == seq![seq!['c', 'l', 'i']]);
    assert(head.last() == ':');
    assert(split_on(head, ':') == seq![seq!['c', 'l', 'i']].push(e));
    assert(seq![seq!['c', 'l', 'i']].push(e) == seq![seq!['c', 'l', 'i'], e]);
    lemma_split_on_append_free(head, name, ':');
    assert(Seq::<char>::empty() + name == name);
    assert(split_on(c.active_provider@, ':')[1] == name);
    lemma_cli_lookup_is_map_lookup(entries, i, name);
}

/// Every provider that carries a system prompt carries the configuration's
/// full one: the configured prompt followed by the project's sentences.
pub proof fn lemma_built_providers_carry_full_prompt(c: GitMindConfig, r: Result<Provider, GitMindError>)
    ensures
        cli_built(c, r) && r is Ok ==> (r matches Ok(Provider::Cli(p)) && p.system_prompt@
            == system_prompt_for(c)),
        ollama_built(c, r) && r is Ok ==> (r matches Ok(Provider::Ollama(p)) && p.prompt@
            == system_prompt_for(c)),
        avalai_built(c, r) && r is Ok ==> (r matches Ok(Provider::AvalAi(p)) && p.prompt@
            == system_prompt_for(c)),
{
}

} // verus!
