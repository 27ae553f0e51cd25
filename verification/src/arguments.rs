//! The command lines of the two programs, which `clap` reads.

use crate::text::{concat3, same_text, to_chars};
use clap::builder::{NonEmptyStringValueParser, Resettable, StyledStr, ValueParser};
use clap::ArgAction;
use vstd::prelude::*;

verus! {

/// A command that `clap` reads words for.
#[verifier::external_type_specification]
#[verifier::external_body]
pub struct ExCommand(clap::Command);

/// What `clap` found in words.
#[verifier::external_type_specification]
#[verifier::external_body]
pub struct ExMatches(clap::ArgMatches);

/// How an option is given.
#[derive(Debug, Clone, Copy, PartialEq, Eq, Structural)]
pub enum OptionKind {
    /// By its name alone.
    Flag,
    /// With a value, at most once.
    Value,
    /// With a value, which cannot be left out.
    RequiredValue,
    /// With a value, any number of times.
    Values,
    /// With a path, which is not empty, at most once.
    Path,
    /// With a path, which is not empty and cannot be left out.
    RequiredPath,
}

/// The command of that name, without options.
pub uninterp spec fn plain_command(name: Seq<char>, about: Seq<char>) -> clap::Command;

/// The command with one more option.
pub uninterp spec fn with_option(
    command: clap::Command,
    long: Seq<char>,
    short: Option<char>,
    kind: OptionKind,
    value_name: Seq<char>,
    help: Option<Seq<char>>,
    default: Option<Seq<char>>,
) -> clap::Command;

/// The command with one more command under it.
pub uninterp spec fn with_subcommand(command: clap::Command, below: clap::Command) -> clap::Command;

/// The command, under which one of its commands has to be chosen.
pub uninterp spec fn requiring_subcommand(command: clap::Command) -> clap::Command;

/// The name of a command.
pub uninterp spec fn command_name(command: clap::Command) -> Seq<char>;

/// The long names of a command's options, with the one that asks for help.
pub uninterp spec fn command_longs(command: clap::Command) -> Set<Seq<char>>;

/// The short names of a command's options, with the one that asks for help.
pub uninterp spec fn command_shorts(command: clap::Command) -> Set<char>;

/// The names of the commands under a command, with the one that shows help.
pub uninterp spec fn command_below(command: clap::Command) -> Set<Seq<char>>;

/// `clap::Command::new` and `clap::Command::about`. Help is the only option of the new
/// command, and the only command under it.
#[verifier::external_body]
fn new_command(name: &'static str, about: &'static str) -> (r: clap::Command)
    ensures
        r == plain_command(name@, about@),
        command_name(r) == name@,
        command_longs(r) == set!["help"@],
        command_shorts(r) == set!['h'],
        command_below(r) == set!["help"@],
{
    clap::Command::new(name).about(about)
}

/// The text, where there is one.
pub open spec fn shown(text: Option<&'static str>) -> Option<Seq<char>> {
    match text {
        Some(text) => Some(text@),
        None => None,
    }
}

/// `clap::Command::arg` with an option that is called by its long name. A path is a text
/// that `clap` does not take where it is empty. `clap` does not take two options of one
/// name, nor a name that starts with a hyphen.
#[verifier::external_body]
fn add_option(
    command: clap::Command,
    long: &'static str,
    short: Option<char>,
    kind: OptionKind,
    value_name: &'static str,
    help: Option<String>,
    default: Option<&'static str>,
) -> (r: clap::Command)
    requires
        long@.len() > 0 && long@[0] != '-',
        !command_longs(command).contains(long@),
        short matches Some(c) ==> c != '-' && !command_shorts(command).contains(c),
        default is Some ==> kind == OptionKind::Value || kind == OptionKind::Path,
        default matches Some(value) ==> value@.len() > 0,
    ensures
        r == with_option(command, long@, short, kind, value_name@, help.deep_view(), shown(default)),
        command_name(r) == command_name(command),
        command_longs(r) == command_longs(command).insert(long@),
        command_shorts(r) == match short {
            Some(c) => command_shorts(command).insert(c),
            None => command_shorts(command),
        },
        command_below(r) == command_below(command),
{
    let (action, parser) = match kind {
        OptionKind::Flag => (ArgAction::SetTrue, ValueParser::bool()),
        OptionKind::Values => (ArgAction::Append, ValueParser::string()),
        OptionKind::Path | OptionKind::RequiredPath => (
            ArgAction::Set,
            ValueParser::new(NonEmptyStringValueParser::new()),
        ),
        _ => (ArgAction::Set, ValueParser::string()),
    };
    let required = matches!(kind, OptionKind::RequiredValue | OptionKind::RequiredPath);
    let arg = clap::Arg::new(long).long(long).short(short).action(action).required(required);
    let help = Resettable::from(help.map(StyledStr::from));
    command.arg(arg.value_parser(parser).value_name(value_name).help(help).default_value(default))
}

/// `clap::Command::subcommand`. `clap` does not take two of one name.
#[verifier::external_body]
fn add_subcommand(command: clap::Command, below: clap::Command) -> (r: clap::Command)
    requires
        !command_below(command).contains(command_name(below)),
    ensures
        r == with_subcommand(command, below),
        command_name(r) == command_name(command),
        command_longs(r) == command_longs(command),
        command_shorts(r) == command_shorts(command),
        command_below(r) == command_below(command).insert(command_name(below)),
{
    command.subcommand(below)
}

/// `clap::Command::subcommand_required`, with help where nothing is given.
#[verifier::external_body]
fn require_subcommand(command: clap::Command) -> (r: clap::Command)
    ensures
        r == requiring_subcommand(command),
        command_name(r) == command_name(command),
        command_longs(r) == command_longs(command),
        command_shorts(r) == command_shorts(command),
        command_below(r) == command_below(command),
{
    command.subcommand_required(true).arg_required_else_help(true)
}

/// Why words were refused, or that help was asked for.
#[derive(Debug, PartialEq, Eq)]
pub struct ArgumentsError {
    pub message: String,
    /// Whether the message is an error, and not the help that was asked for.
    pub is_error: bool,
}

/// The model of an [`ArgumentsError`].
pub struct ArgumentsErrorModel {
    pub message: Seq<char>,
    pub is_error: bool,
}

impl DeepView for ArgumentsError {
    type V = ArgumentsErrorModel;

    open spec fn deep_view(&self) -> ArgumentsErrorModel {
        ArgumentsErrorModel { message: self.message@, is_error: self.is_error }
    }
}

/// What `clap` makes of words.
pub uninterp spec fn words_outcome(command: clap::Command, words: Seq<Seq<char>>) -> Result<
    clap::ArgMatches,
    ArgumentsErrorModel,
>;

/// `clap::Command::try_get_matches_from`: what comes out depends on the command and on
/// the words alone, for no option is read from the environment.
#[verifier::external_body]
fn read_words(command: clap::Command, words: &Vec<String>) -> (r: Result<
    clap::ArgMatches,
    ArgumentsError,
>)
    ensures
        match r {
            Ok(matches) => words_outcome(command, words.deep_view()) == Ok::<
                clap::ArgMatches,
                ArgumentsErrorModel,
            >(matches),
            Err(error) => words_outcome(command, words.deep_view()) == Err::<
                clap::ArgMatches,
                ArgumentsErrorModel,
            >(error.deep_view()),
        },
{
    match command.try_get_matches_from(words) {
        Ok(matches) => Ok(matches),
        Err(error) => Err(
            ArgumentsError { message: error.to_string(), is_error: error.use_stderr() },
        ),
    }
}

/// How `clap` says that an option was given no value.
pub uninterp spec fn no_value_message(command: clap::Command, option: Seq<char>) -> Seq<char>;

/// The text of a `clap::Error` of the kind `InvalidValue` for an option, written as in the
/// usage, whose value is empty.
#[verifier::external_body]
fn no_value_text(command: &clap::Command, option: &str) -> (r: String)
    ensures
        r@ == no_value_message(*command, option@),
{
    let mut error = clap::Error::new(clap::error::ErrorKind::InvalidValue).with_cmd(command);
    let named = clap::error::ContextValue::String(option.to_owned());
    let empty = clap::error::ContextValue::String(String::new());
    error.insert(clap::error::ContextKind::InvalidArg, named);
    error.insert(clap::error::ContextKind::InvalidValue, empty);
    error.to_string()
}

/// Whether a flag was given.
pub uninterp spec fn given_flag(matches: clap::ArgMatches, long: Seq<char>) -> bool;

/// The values that an option was given, or has by default.
pub uninterp spec fn given_values(matches: clap::ArgMatches, long: Seq<char>) -> Seq<Seq<char>>;

/// The command that was chosen, and what was found for it.
pub uninterp spec fn given_subcommand(matches: clap::ArgMatches) -> Option<
    (Seq<char>, clap::ArgMatches),
>;

/// `clap::ArgMatches::try_get_one` of a flag. One that the command does not have was not
/// given.
#[verifier::external_body]
fn flag_in(matches: &clap::ArgMatches, long: &str) -> (r: bool)
    ensures
        r == given_flag(*matches, long@),
{
    matches.try_get_one::<bool>(long).ok().flatten().copied().unwrap_or_default()
}

/// `clap::ArgMatches::try_get_many` of an option. One that the command does not have has
/// no values.
#[verifier::external_body]
fn values_in(matches: &clap::ArgMatches, long: &str) -> (r: Vec<String>)
    ensures
        r.deep_view() == given_values(*matches, long@),
{
    let values = matches.try_get_many::<String>(long).ok().flatten().unwrap_or_default();
    values.cloned().collect()
}

/// `clap::ArgMatches::subcommand`.
#[verifier::external_body]
fn subcommand_in(matches: &clap::ArgMatches) -> (r: Option<(String, clap::ArgMatches)>)
    ensures
        match r {
            Some((name, below)) => given_subcommand(*matches) == Some((name@, below)),
            None => given_subcommand(*matches) is None,
        },
{
    matches.subcommand().map(|(name, below)| (name.to_owned(), below.clone()))
}

/// The only value of an option, where it has one.
pub open spec fn given_value(matches: clap::ArgMatches, long: Seq<char>) -> Option<Seq<char>> {
    if given_values(matches, long).len() > 0 {
        Some(given_values(matches, long)[0])
    } else {
        None
    }
}

fn value_in(matches: &clap::ArgMatches, long: &str) -> (r: Option<String>)
    ensures
        r.deep_view() == given_value(*matches, long@),
{
    let values = values_in(matches, long);
    if values.len() > 0 {
        Some(values[0].clone())
    } else {
        None
    }
}

/// The configuration file of the runner, where no other is given.
pub const DEFAULT_RUNNER_CONFIG_PATH: &'static str = ".oxydra/runner.toml";

/// What is to be done with the catalog of models.
#[derive(Debug, Clone, Copy, PartialEq, Eq, Structural)]
pub enum CatalogAction {
    Fetch { pinned: bool },
    Verify,
    Show,
}

/// What the runner is to do.
#[derive(Debug, Clone, Copy, PartialEq, Eq, Structural)]
pub enum CliCommand {
    Catalog { action: CatalogAction },
    Start,
    Stop,
    Status,
    Restart,
}

/// The command line of the runner.
#[derive(Debug, PartialEq, Eq)]
pub struct CliArgs {
    pub config_path: String,
    pub user_id: Option<String>,
    pub insecure: bool,
    pub tui: bool,
    pub probe: bool,
    pub daemon: bool,
    pub env_vars: Vec<String>,
    pub env_file: Option<String>,
    pub command: Option<CliCommand>,
}

/// The model of [`CliArgs`].
pub struct CliArgsModel {
    pub config_path: Seq<char>,
    pub user_id: Option<Seq<char>>,
    pub insecure: bool,
    pub tui: bool,
    pub probe: bool,
    pub daemon: bool,
    pub env_vars: Seq<Seq<char>>,
    pub env_file: Option<Seq<char>>,
    pub command: Option<CliCommand>,
}

impl DeepView for CliArgs {
    type V = CliArgsModel;

    open spec fn deep_view(&self) -> CliArgsModel {
        CliArgsModel {
            config_path: self.config_path@,
            user_id: self.user_id.deep_view(),
            insecure: self.insecure,
            tui: self.tui,
            probe: self.probe,
            daemon: self.daemon,
            env_vars: self.env_vars.deep_view(),
            env_file: self.env_file.deep_view(),
            command: self.command,
        }
    }
}

/// The command that was chosen, by the words that chose it.
pub open spec fn command_of(
    chosen: Option<Seq<char>>,
    below: Option<Seq<char>>,
    pinned: bool,
) -> Option<CliCommand> {
    match chosen {
        None => None,
        Some(name) => if name == "start"@ {
            Some(CliCommand::Start)
        } else if name == "stop"@ {
            Some(CliCommand::Stop)
        } else if name == "status"@ {
            Some(CliCommand::Status)
        } else if name == "restart"@ {
            Some(CliCommand::Restart)
        } else if name == "catalog"@ {
            match below {
                None => None,
                Some(action) => if action == "fetch"@ {
                    Some(CliCommand::Catalog { action: CatalogAction::Fetch { pinned } })
                } else if action == "verify"@ {
                    Some(CliCommand::Catalog { action: CatalogAction::Verify })
                } else if action == "show"@ {
                    Some(CliCommand::Catalog { action: CatalogAction::Show })
                } else {
                    None
                },
            }
        } else {
            None
        },
    }
}

/// The command that was chosen, by the words that chose it: `catalog` with what is to be
/// done with the catalog, or what is to be done with the runner.
pub fn chosen_command(chosen: Option<&str>, below: Option<&str>, pinned: bool) -> (r: Option<
    CliCommand,
>)
    ensures
        r == command_of(
            match chosen {
                Some(name) => Some(name@),
                None => None,
            },
            match below {
                Some(name) => Some(name@),
                None => None,
            },
            pinned,
        ),
{
    let name = match chosen {
        Some(name) => name,
        None => {
            return None;
        },
    };
    if same_text(name, "start") {
        Some(CliCommand::Start)
    } else if same_text(name, "stop") {
        Some(CliCommand::Stop)
    } else if same_text(name, "status") {
        Some(CliCommand::Status)
    } else if same_text(name, "restart") {
        Some(CliCommand::Restart)
    } else if same_text(name, "catalog") {
        match below {
            None => None,
            Some(action) => if same_text(action, "fetch") {
                Some(CliCommand::Catalog { action: CatalogAction::Fetch { pinned } })
            } else if same_text(action, "verify") {
                Some(CliCommand::Catalog { action: CatalogAction::Verify })
            } else if same_text(action, "show") {
                Some(CliCommand::Catalog { action: CatalogAction::Show })
            } else {
                None
            },
        }
    } else {
        None
    }
}

/// What is done with the catalog.
pub open spec fn catalog_command() -> clap::Command {
    let fetch = with_option(
        plain_command("fetch"@, "Fetch model catalog and write to user cache"@),
        "pinned"@,
        None,
        OptionKind::Flag,
        "PINNED"@,
        Some("Fetch from the pinned snapshot URL instead of models.dev"@),
        None,
    );
    let verify = plain_command(
        "verify"@,
        "Verify that the resolved catalog (cached or pinned) has a valid schema"@,
    );
    let show = plain_command("show"@, "Display summary of pinned catalog"@);
    requiring_subcommand(
        with_subcommand(
            with_subcommand(
                with_subcommand(
                    plain_command("catalog"@, "Model catalog governance commands"@),
                    fetch,
                ),
                verify,
            ),
            show,
        ),
    )
}

/// The options of the runner.
pub open spec fn runner_options() -> clap::Command {
    let named = plain_command("runner"@, "Oxydra runner control CLI"@);
    let config = with_option(
        named,
        "config"@,
        Some('c'),
        OptionKind::Path,
        "CONFIG_PATH"@,
        None,
        Some(".oxydra/runner.toml"@),
    );
    let user = with_option(config, "user"@, Some('u'), OptionKind::Value, "USER_ID"@, None, None);
    let insecure = with_option(user, "insecure"@, None, OptionKind::Flag, "INSECURE"@, None, None);
    let tui = with_option(insecure, "tui"@, None, OptionKind::Flag, "TUI"@, None, None);
    let probe = with_option(
        tui,
        "probe"@,
        None,
        OptionKind::Flag,
        "PROBE"@,
        Some(
            "Print gateway connection metadata and exit without launching the interactive TUI. Only meaningful with --tui"@,
        ),
        None,
    );
    let daemon = with_option(probe, "daemon"@, None, OptionKind::Flag, "DAEMON"@, None, None);
    let env = with_option(
        daemon,
        "env"@,
        Some('e'),
        OptionKind::Values,
        "ENV_VARS"@,
        Some(
            "Inject an environment variable into the guest container (KEY=VALUE). Can be repeated. Only effective for Container and MicroVM tiers"@,
        ),
        None,
    );
    with_option(
        env,
        "env-file"@,
        None,
        OptionKind::Path,
        "ENV_FILE"@,
        Some(
            "Read environment variables from a file (one KEY=VALUE per line). Lines starting with '#' and blank lines are ignored. Only effective for Container and MicroVM tiers"@,
        ),
        None,
    )
}

/// The runner's command line.
pub open spec fn runner_command() -> clap::Command {
    let catalog = with_subcommand(runner_options(), catalog_command());
    let start = with_subcommand(
        catalog,
        plain_command("start"@, "Start the runner daemon (launch sandbox + control socket)"@),
    );
    let stop = with_subcommand(start, plain_command("stop"@, "Stop a running runner daemon"@));
    let status = with_subcommand(
        stop,
        plain_command("status"@, "Show the status of a running runner daemon"@),
    );
    with_subcommand(
        status,
        plain_command("restart"@, "Restart the runner daemon (stop then start)"@),
    )
}

/// Words that differ in length or at some place.
proof fn lemma_names_differ()
    ensures
        "help"@.len() == 4,
        "config"@.len() == 6 && "config"@[0] == 'c',
        "user"@.len() == 4 && "user"@[0] == 'u',
        "insecure"@.len() == 8 && "insecure"@[0] == 'i',
        "tui"@.len() == 3 && "tui"@[0] == 't',
        "probe"@.len() == 5 && "probe"@[0] == 'p',
        "daemon"@.len() == 6 && "daemon"@[0] == 'd',
        "env"@.len() == 3 && "env"@[0] == 'e',
        "env-file"@.len() == 8 && "env-file"@[0] == 'e',
        "pinned"@.len() == 6 && "pinned"@[0] == 'p',
        "help"@[0] == 'h',
        "fetch"@.len() == 5 && "fetch"@[0] == 'f',
        "verify"@.len() == 6 && "verify"@[0] == 'v',
        "show"@.len() == 4 && "show"@[0] == 's',
        "catalog"@.len() == 7 && "catalog"@[0] == 'c',
        "start"@.len() == 5 && "start"@[0] == 's',
        "stop"@.len() == 4 && "stop"@[0] == 's',
        "status"@.len() == 6 && "status"@[0] == 's',
        "restart"@.len() == 7 && "restart"@[0] == 'r',
        "user-id"@.len() == 7 && "user-id"@[0] == 'u',
        "workspace-root"@.len() == 14 && "workspace-root"@[0] == 'w',
        "bootstrap-stdin"@.len() == 15 && "bootstrap-stdin"@[0] == 'b',
        "bootstrap-file"@.len() == 14 && "bootstrap-file"@[0] == 'b',
        "gateway-bind"@.len() == 12 && "gateway-bind"@[0] == 'g',
        ".oxydra/runner.toml"@.len() == 19,
        "127.0.0.1:0"@.len() == 11,
{
    reveal_strlit("help");
    reveal_strlit("config");
    reveal_strlit("user");
    reveal_strlit("insecure");
    reveal_strlit("tui");
    reveal_strlit("probe");
    reveal_strlit("daemon");
    reveal_strlit("env");
    reveal_strlit("env-file");
    reveal_strlit("pinned");
    reveal_strlit("fetch");
    reveal_strlit("verify");
    reveal_strlit("show");
    reveal_strlit("catalog");
    reveal_strlit("start");
    reveal_strlit("stop");
    reveal_strlit("status");
    reveal_strlit("restart");
    reveal_strlit("user-id");
    reveal_strlit("workspace-root");
    reveal_strlit("bootstrap-stdin");
    reveal_strlit("bootstrap-file");
    reveal_strlit("gateway-bind");
    reveal_strlit(".oxydra/runner.toml");
    reveal_strlit("127.0.0.1:0");
}

fn build_catalog_command() -> (r: clap::Command)
    ensures
        r == catalog_command(),
        command_name(r) == "catalog"@,
{
    proof {
        lemma_names_differ();
    }
    let fetch = new_command("fetch", "Fetch model catalog and write to user cache");
    let fetch = add_option(
        fetch,
        "pinned",
        None,
        OptionKind::Flag,
        "PINNED",
        Some("Fetch from the pinned snapshot URL instead of models.dev".to_owned()),
        None,
    );
    let verify = new_command(
        "verify",
        "Verify that the resolved catalog (cached or pinned) has a valid schema",
    );
    let show = new_command("show", "Display summary of pinned catalog");
    let catalog = new_command("catalog", "Model catalog governance commands");
    let catalog = add_subcommand(catalog, fetch);
    let catalog = add_subcommand(catalog, verify);
    let catalog = add_subcommand(catalog, show);
    require_subcommand(catalog)
}

fn build_runner_options() -> (r: clap::Command)
    ensures
        r == runner_options(),
        command_below(r) == set!["help"@],
{
    proof {
        lemma_names_differ();
    }
    let command = new_command("runner", "Oxydra runner control CLI");
    let command = add_option(
        command,
        "config",
        Some('c'),
        OptionKind::Path,
        "CONFIG_PATH",
        None,
        Some(DEFAULT_RUNNER_CONFIG_PATH),
    );
    let command = add_option(command, "user", Some('u'), OptionKind::Value, "USER_ID", None, None);
    let command = add_option(command, "insecure", None, OptionKind::Flag, "INSECURE", None, None);
    let command = add_option(command, "tui", None, OptionKind::Flag, "TUI", None, None);
    let command = add_option(
        command,
        "probe",
        None,
        OptionKind::Flag,
        "PROBE",
        Some(
            "Print gateway connection metadata and exit without launching the interactive TUI. Only meaningful with --tui".to_owned(),
        ),
        None,
    );
    let command = add_option(command, "daemon", None, OptionKind::Flag, "DAEMON", None, None);
    let command = add_option(
        command,
        "env",
        Some('e'),
        OptionKind::Values,
        "ENV_VARS",
        Some(
            "Inject an environment variable into the guest container (KEY=VALUE). Can be repeated. Only effective for Container and MicroVM tiers".to_owned(),
        ),
        None,
    );
    add_option(
        command,
        "env-file",
        None,
        OptionKind::Path,
        "ENV_FILE",
        Some(
            "Read environment variables from a file (one KEY=VALUE per line). Lines starting with '#' and blank lines are ignored. Only effective for Container and MicroVM tiers".to_owned(),
        ),
        None,
    )
}

fn build_runner_command() -> (r: clap::Command)
    ensures
        r == runner_command(),
{
    proof {
        lemma_names_differ();
    }
    let command = build_runner_options();
    let command = add_subcommand(command, build_catalog_command());
    let start = new_command("start", "Start the runner daemon (launch sandbox + control socket)");
    let command = add_subcommand(command, start);
    let stop = new_command("stop", "Stop a running runner daemon");
    let command = add_subcommand(command, stop);
    let status = new_command("status", "Show the status of a running runner daemon");
    let command = add_subcommand(command, status);
    let restart = new_command("restart", "Restart the runner daemon (stop then start)");
    add_subcommand(command, restart)
}

/// What the runner is told by what was found in its command line.
pub open spec fn runner_args(matches: clap::ArgMatches) -> CliArgsModel {
    let chosen = given_subcommand(matches);
    let below = match chosen {
        Some((_, inner)) => given_subcommand(inner),
        None => None,
    };
    CliArgsModel {
        config_path: match given_value(matches, "config"@) {
            Some(path) => path,
            None => ".oxydra/runner.toml"@,
        },
        user_id: given_value(matches, "user"@),
        insecure: given_flag(matches, "insecure"@),
        tui: given_flag(matches, "tui"@),
        probe: given_flag(matches, "probe"@),
        daemon: given_flag(matches, "daemon"@),
        env_vars: given_values(matches, "env"@),
        env_file: given_value(matches, "env-file"@),
        command: command_of(
            match chosen {
                Some((name, _)) => Some(name),
                None => None,
            },
            match below {
                Some((name, _)) => Some(name),
                None => None,
            },
            match below {
                Some((_, innermost)) => given_flag(innermost, "pinned"@),
                None => false,
            },
        ),
    }
}

impl CliArgs {
    /// Reads the runner's command line, whose first word is the program's name.
    pub fn try_parse_from(words: Vec<String>) -> (r: Result<Self, ArgumentsError>)
        ensures
            match words_outcome(runner_command(), words.deep_view()) {
                Ok(matches) => r matches Ok(args) && args.deep_view() == runner_args(matches),
                Err(error) => r matches Err(e) && e.deep_view() == error,
            },
    {
        let matches = match read_words(build_runner_command(), &words) {
            Ok(matches) => matches,
            Err(error) => {
                return Err(error);
            },
        };
        let command = match subcommand_in(&matches) {
            None => chosen_command(None, None, false),
            Some((name, inner)) => match subcommand_in(&inner) {
                None => chosen_command(Some(name.as_str()), None, false),
                Some((action, innermost)) => chosen_command(
                    Some(name.as_str()),
                    Some(action.as_str()),
                    flag_in(&innermost, "pinned"),
                ),
            },
        };
        Ok(
            CliArgs {
                config_path: match value_in(&matches, "config") {
                    Some(path) => path,
                    None => DEFAULT_RUNNER_CONFIG_PATH.to_owned(),
                },
                user_id: value_in(&matches, "user"),
                insecure: flag_in(&matches, "insecure"),
                tui: flag_in(&matches, "tui"),
                probe: flag_in(&matches, "probe"),
                daemon: flag_in(&matches, "daemon"),
                env_vars: values_in(&matches, "env"),
                env_file: value_in(&matches, "env-file"),
                command,
            },
        )
    }
}

/// Where a guest's gateway listens, where nothing else is given.
pub const DEFAULT_GATEWAY_BIND_ADDRESS: &'static str = "127.0.0.1:0";

/// The command line of a guest.
#[derive(Debug, PartialEq, Eq)]
pub struct OxydraVmArgs {
    pub user_id: String,
    pub workspace_root: String,
    pub bootstrap_stdin: bool,
    pub bootstrap_file: Option<String>,
    pub gateway_bind: String,
}

/// The model of [`OxydraVmArgs`].
pub struct OxydraVmArgsModel {
    pub user_id: Seq<char>,
    pub workspace_root: Seq<char>,
    pub bootstrap_stdin: bool,
    pub bootstrap_file: Option<Seq<char>>,
    pub gateway_bind: Seq<char>,
}

impl DeepView for OxydraVmArgs {
    type V = OxydraVmArgsModel;

    open spec fn deep_view(&self) -> OxydraVmArgsModel {
        OxydraVmArgsModel {
            user_id: self.user_id@,
            workspace_root: self.workspace_root@,
            bootstrap_stdin: self.bootstrap_stdin,
            bootstrap_file: self.bootstrap_file.deep_view(),
            gateway_bind: self.gateway_bind@,
        }
    }
}

/// What the help says of the variable that may name the file with the start-up data.
pub open spec fn variable_note(bootstrap_variable: Option<Seq<char>>) -> Seq<char> {
    "[env: OXYDRA_BOOTSTRAP_FILE="@ + or_empty(bootstrap_variable) + "]"@
}

/// A guest's command line. It is whole where nothing may be missing from it.
pub open spec fn vm_command(bootstrap_variable: Option<Seq<char>>, whole: bool) -> clap::Command {
    let named = plain_command("oxydra-vm"@, "Oxydra VM process runtime"@);
    let user = with_option(
        named,
        "user-id"@,
        None,
        if whole {
            OptionKind::RequiredValue
        } else {
            OptionKind::Value
        },
        "USER_ID"@,
        None,
        None,
    );
    let root = with_option(
        user,
        "workspace-root"@,
        None,
        if whole {
            OptionKind::RequiredPath
        } else {
            OptionKind::Path
        },
        "WORKSPACE_ROOT"@,
        None,
        None,
    );
    let stdin = with_option(
        root,
        "bootstrap-stdin"@,
        None,
        OptionKind::Flag,
        "BOOTSTRAP_STDIN"@,
        None,
        None,
    );
    let file = with_option(
        stdin,
        "bootstrap-file"@,
        None,
        OptionKind::Path,
        "BOOTSTRAP_FILE"@,
        Some(variable_note(bootstrap_variable)),
        None,
    );
    with_option(
        file,
        "gateway-bind"@,
        None,
        OptionKind::Value,
        "GATEWAY_BIND"@,
        None,
        Some("127.0.0.1:0"@),
    )
}

fn build_vm_command(bootstrap_variable: &Option<String>, whole: bool) -> (r: clap::Command)
    ensures
        r == vm_command(bootstrap_variable.deep_view(), whole),
{
    proof {
        lemma_names_differ();
    }
    let note = match bootstrap_variable {
        Some(path) => concat3("[env: OXYDRA_BOOTSTRAP_FILE=", path.as_str(), "]"),
        None => concat3("[env: OXYDRA_BOOTSTRAP_FILE=", "", "]"),
    };
    proof {
        reveal_strlit("");
        assert(""@ =~= Seq::empty());
        assert(Some(note).deep_view() == Some(variable_note(bootstrap_variable.deep_view())));
    }
    let (user, root) = if whole {
        (OptionKind::RequiredValue, OptionKind::RequiredPath)
    } else {
        (OptionKind::Value, OptionKind::Path)
    };
    let command = new_command("oxydra-vm", "Oxydra VM process runtime");
    let command = add_option(command, "user-id", None, user, "USER_ID", None, None);
    let command = add_option(command, "workspace-root", None, root, "WORKSPACE_ROOT", None, None);
    let command = add_option(
        command,
        "bootstrap-stdin",
        None,
        OptionKind::Flag,
        "BOOTSTRAP_STDIN",
        None,
        None,
    );
    let command = add_option(
        command,
        "bootstrap-file",
        None,
        OptionKind::Path,
        "BOOTSTRAP_FILE",
        Some(note),
        None,
    );
    add_option(
        command,
        "gateway-bind",
        None,
        OptionKind::Value,
        "GATEWAY_BIND",
        None,
        Some(DEFAULT_GATEWAY_BIND_ADDRESS),
    )
}

/// The value, or nothing where there is none.
pub open spec fn or_empty(value: Option<Seq<char>>) -> Seq<char> {
    match value {
        Some(value) => value,
        None => Seq::empty(),
    }
}

/// What a guest is told by what was found in its command line, and by the variable that
/// may name the file with its start-up data.
pub open spec fn vm_args(matches: clap::ArgMatches, bootstrap_variable: Option<Seq<char>>) ->
    OxydraVmArgsModel {
    OxydraVmArgsModel {
        user_id: or_empty(given_value(matches, "user-id"@)),
        workspace_root: or_empty(given_value(matches, "workspace-root"@)),
        bootstrap_stdin: given_flag(matches, "bootstrap-stdin"@),
        bootstrap_file: match given_value(matches, "bootstrap-file"@) {
            Some(path) => Some(path),
            None => bootstrap_variable,
        },
        gateway_bind: match given_value(matches, "gateway-bind"@) {
            Some(address) => address,
            None => "127.0.0.1:0"@,
        },
    }
}

/// Whether the variable that names the file with the start-up data counts, and is empty.
pub open spec fn names_no_file(
    matches: clap::ArgMatches,
    bootstrap_variable: Option<Seq<char>>,
) -> bool {
    &&& given_value(matches, "bootstrap-file"@) is None
    &&& bootstrap_variable matches Some(path) && path.len() == 0
}

/// Why a variable that counts and is empty is refused.
pub open spec fn empty_variable(bootstrap_variable: Option<Seq<char>>) -> ArgumentsErrorModel {
    ArgumentsErrorModel {
        message: no_value_message(
            vm_command(bootstrap_variable, true),
            "--bootstrap-file <BOOTSTRAP_FILE>"@,
        ),
        is_error: true,
    }
}

/// What a guest is told, or why its command line is refused. A word that makes no sense
/// is refused first, then an empty variable that counts, and then a command line from
/// which something is missing.
pub open spec fn vm_outcome(words: Seq<Seq<char>>, bootstrap_variable: Option<Seq<char>>) -> Result<
    OxydraVmArgsModel,
    ArgumentsErrorModel,
> {
    match words_outcome(vm_command(bootstrap_variable, true), words) {
        Ok(matches) => if names_no_file(matches, bootstrap_variable) {
            Err(empty_variable(bootstrap_variable))
        } else {
            Ok(vm_args(matches, bootstrap_variable))
        },
        Err(error) => match words_outcome(vm_command(bootstrap_variable, false), words) {
            Ok(matches) => if names_no_file(matches, bootstrap_variable) {
                Err(empty_variable(bootstrap_variable))
            } else {
                Err(error)
            },
            Err(_) => Err(error),
        },
    }
}

/// Whether the variable that names the file with the start-up data counts, and is empty.
fn no_file_named(matches: &clap::ArgMatches, bootstrap_variable: &Option<String>) -> (r: bool)
    ensures
        r == names_no_file(*matches, bootstrap_variable.deep_view()),
{
    match bootstrap_variable {
        Some(path) => value_in(matches, "bootstrap-file").is_none() && to_chars(
            path.as_str(),
        ).len() == 0,
        None => false,
    }
}

fn empty_variable_error(bootstrap_variable: &Option<String>) -> (r: ArgumentsError)
    ensures
        r.deep_view() == empty_variable(bootstrap_variable.deep_view()),
{
    let command = build_vm_command(bootstrap_variable, true);
    let message = no_value_text(&command, "--bootstrap-file <BOOTSTRAP_FILE>");
    ArgumentsError { message, is_error: true }
}

fn text_or_empty(value: Option<String>) -> (r: String)
    ensures
        r@ == or_empty(value.deep_view()),
{
    match value {
        Some(value) => value,
        None => {
            let empty = String::new();
            proof {
                assert(empty@ =~= Seq::empty());
            }
            empty
        },
    }
}

impl OxydraVmArgs {
    /// Reads a guest's command line, whose first word is the program's name. The file
    /// with the start-up data may also be named by a variable of the environment, which
    /// counts where the command line names none. It is refused where it then is empty, even
    /// where something is missing from the command line.
    pub fn try_parse_from(words: Vec<String>, bootstrap_variable: Option<String>) -> (r: Result<
        Self,
        ArgumentsError,
    >)
        ensures
            match vm_outcome(words.deep_view(), bootstrap_variable.deep_view()) {
                Ok(told) => r matches Ok(args) && args.deep_view() == told,
                Err(error) => r matches Err(e) && e.deep_view() == error,
            },
    {
        let matches = match read_words(build_vm_command(&bootstrap_variable, true), &words) {
            Ok(matches) => matches,
            Err(error) => {
                let partial = read_words(build_vm_command(&bootstrap_variable, false), &words);
                if let Ok(matches) = partial {
                    if no_file_named(&matches, &bootstrap_variable) {
                        return Err(empty_variable_error(&bootstrap_variable));
                    }
                }
                return Err(error);
            },
        };
        if no_file_named(&matches, &bootstrap_variable) {
            return Err(empty_variable_error(&bootstrap_variable));
        }
        let bootstrap_file = match value_in(&matches, "bootstrap-file") {
            Some(path) => Some(path),
            None => bootstrap_variable,
        };
        Ok(
            OxydraVmArgs {
                user_id: text_or_empty(value_in(&matches, "user-id")),
                workspace_root: text_or_empty(value_in(&matches, "workspace-root")),
                bootstrap_stdin: flag_in(&matches, "bootstrap-stdin"),
                bootstrap_file,
                gateway_bind: match value_in(&matches, "gateway-bind") {
                    Some(address) => address,
                    None => DEFAULT_GATEWAY_BIND_ADDRESS.to_owned(),
                },
            },
        )
    }
}

/// Each option of the runner is read under its own name: what was found under the name is
/// what the runner is told, and the configuration file has a place of its own where none is
/// given.
pub proof fn law_runner_is_told_what_was_found(
    words: Vec<String>,
    r: Result<CliArgs, ArgumentsError>,
    matches: clap::ArgMatches,
)
    requires
        call_ensures(CliArgs::try_parse_from, (words,), r),
        words_outcome(runner_command(), words.deep_view()) == Ok::<
            clap::ArgMatches,
            ArgumentsErrorModel,
        >(matches),
    ensures
        r is Ok,
        ({
            let args = r->Ok_0;
            &&& args.insecure == given_flag(matches, "insecure"@)
            &&& args.tui == given_flag(matches, "tui"@)
            &&& args.probe == given_flag(matches, "probe"@)
            &&& args.daemon == given_flag(matches, "daemon"@)
            &&& args.env_vars.deep_view() == given_values(matches, "env"@)
            &&& given_values(matches, "config"@).len() > 0 ==> args.config_path@ == given_values(
                matches,
                "config"@,
            )[0]
            &&& given_values(matches, "config"@).len() == 0 ==> args.config_path@
                == ".oxydra/runner.toml"@
            &&& args.user_id is Some <==> given_values(matches, "user"@).len() > 0
            &&& args.user_id matches Some(user) ==> user@ == given_values(matches, "user"@)[0]
            &&& args.env_file is Some <==> given_values(matches, "env-file"@).len() > 0
            &&& args.env_file matches Some(path) ==> path@ == given_values(matches, "env-file"@)[0]
            &&& given_subcommand(matches) is None ==> args.command is None
        }),
{
}

/// A command line that makes no sense is refused with what the parser says.
pub proof fn law_refused_words_are_reported(
    words: Vec<String>,
    r: Result<CliArgs, ArgumentsError>,
    error: ArgumentsErrorModel,
)
    requires
        call_ensures(CliArgs::try_parse_from, (words,), r),
        words_outcome(runner_command(), words.deep_view()) == Err::<
            clap::ArgMatches,
            ArgumentsErrorModel,
        >(error),
    ensures
        r matches Err(told) && told.message@ == error.message && told.is_error == error.is_error,
{
}

/// Each command is chosen by its own word, and only the catalog takes another word; no other
/// word chooses anything.
pub proof fn law_words_choose_commands(
    chosen: &str,
    below: Option<&str>,
    pinned: bool,
    r: Option<CliCommand>,
    none: Option<CliCommand>,
)
    requires
        call_ensures(chosen_command, (Some(chosen), below, pinned), r),
        call_ensures(chosen_command, (None, below, pinned), none),
    ensures
        none is None,
        chosen@ == "start"@ ==> r == Some(CliCommand::Start),
        chosen@ == "stop"@ ==> r == Some(CliCommand::Stop),
        chosen@ == "status"@ ==> r == Some(CliCommand::Status),
        chosen@ == "restart"@ ==> r == Some(CliCommand::Restart),
        chosen@ == "catalog"@ ==> (below matches Some(word) ==> {
            &&& word@ == "fetch"@ ==> r == Some(
                CliCommand::Catalog { action: CatalogAction::Fetch { pinned } },
            )
            &&& word@ == "verify"@ ==> r == Some(
                CliCommand::Catalog { action: CatalogAction::Verify },
            )
            &&& word@ == "show"@ ==> r == Some(CliCommand::Catalog { action: CatalogAction::Show })
        }),
        r == Some(CliCommand::Start) ==> chosen@ == "start"@,
        r == Some(CliCommand::Stop) ==> chosen@ == "stop"@,
        r == Some(CliCommand::Status) ==> chosen@ == "status"@,
        r == Some(CliCommand::Restart) ==> chosen@ == "restart"@,
{
    lemma_names_differ();
    reveal_strlit("start");
    reveal_strlit("stop");
    reveal_strlit("status");
    reveal_strlit("restart");
    reveal_strlit("catalog");
    reveal_strlit("fetch");
    reveal_strlit("verify");
    reveal_strlit("show");
}

/// Each option of a guest is read under its own name; the file with its start-up data may
/// also be named by a variable, which counts where the command line names none.
pub proof fn law_guest_is_told_what_was_found(
    words: Vec<String>,
    variable: Option<String>,
    r: Result<OxydraVmArgs, ArgumentsError>,
    matches: clap::ArgMatches,
)
    requires
        call_ensures(OxydraVmArgs::try_parse_from, (words, variable), r),
        words_outcome(vm_command(variable.deep_view(), true), words.deep_view()) == Ok::<
            clap::ArgMatches,
            ArgumentsErrorModel,
        >(matches),
    ensures
        r is Err <==> given_values(matches, "bootstrap-file"@).len() == 0 && (
        variable matches Some(path) && path@.len() == 0),
        r matches Ok(args) ==> {
            &&& args.bootstrap_stdin == given_flag(matches, "bootstrap-stdin"@)
            &&& given_values(matches, "user-id"@).len() > 0 ==> args.user_id@ == given_values(
                matches,
                "user-id"@,
            )[0]
            &&& given_values(matches, "workspace-root"@).len() > 0 ==> args.workspace_root@
                == given_values(matches, "workspace-root"@)[0]
            &&& given_values(matches, "gateway-bind"@).len() > 0 ==> args.gateway_bind@
                == given_values(matches, "gateway-bind"@)[0]
            &&& given_values(matches, "gateway-bind"@).len() == 0 ==> args.gateway_bind@
                == "127.0.0.1:0"@
            &&& given_values(matches, "bootstrap-file"@).len() > 0 ==> (
            args.bootstrap_file matches Some(path) && path@ == given_values(
                matches,
                "bootstrap-file"@,
            )[0])
            &&& given_values(matches, "bootstrap-file"@).len() == 0
                ==> args.bootstrap_file.deep_view() == variable.deep_view()
        },
{
}

} // verus!
