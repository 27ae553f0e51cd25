//! What the runner's program does with its command line, and what it prints.

use crate::arguments::{CatalogAction, CliArgs, CliCommand};
use crate::control::{RunnerControlResponse, RunnerControlTransportError};
use crate::gateway::RunnerTuiConnection;
use crate::paths;
use crate::paths::join_path;
use crate::sandbox;
use crate::sandbox::{
    RunnerError, SandboxTier, StartupDegradedReason, StartupDegradedReasonCode,
};
use crate::startup::RunnerStartup;
use crate::text;
use crate::text::{concat, concat3, concat4, concat5, decimal_text, split_once, split_text, trim};
use crate::text_map;
use crate::text_map::TextMap;
use vstd::prelude::*;

verus! {

/// The program of the terminal.
pub const TUI_BINARY_NAME: &'static str = "oxydra-tui";

/// For how long the runner waits for a guest's gateway, in milliseconds.
pub const GATEWAY_ENDPOINT_WAIT_MILLIS: u64 = 30000;

/// For how long the runner waits for another to be gone, in milliseconds.
pub const SOCKET_REMOVAL_WAIT_MILLIS: u64 = 10000;

/// What can go wrong in the runner's program.
#[derive(Debug, PartialEq, Eq)]
pub enum CliError {
    Arguments(String),
    Runner(RunnerError),
    ControlTransport(RunnerControlTransportError),
    Catalog { message: String },
    TuiBinaryNotFound { binary: String },
    TuiLaunchFailed { binary: String, message: String },
    GatewayEndpointTimeout { path: String, timeout_secs: u64 },
    InvalidEnvVar { value: String },
    EnvFileRead { path: String, message: String },
    ServerNotRunning { user_id: String },
    ServerStopTimeout { user_id: String, socket_path: String, timeout_secs: u64 },
}

impl CliError {
    pub open spec fn text(self) -> Seq<char> {
        match self {
            CliError::Arguments(message) => message@,
            CliError::Runner(error) => sandbox::error_text(error),
            CliError::ControlTransport(error) => error.text(),
            CliError::Catalog { message } => message@,
            CliError::TuiBinaryNotFound { binary } => "`"@ + binary@
                + "` was not found in PATH. Install it with `cargo install --path crates/tui` or ensure it is on your PATH."@,
            CliError::TuiLaunchFailed { binary, message } => "failed to launch `"@ + binary@
                + "`: "@ + message@,
            CliError::GatewayEndpointTimeout { path, timeout_secs } =>
                "timed out waiting for gateway endpoint marker at `"@ + path@ + "` after "@
                + text::decimal(timeout_secs as nat)
                + "s; the oxydra-vm process may not have started correctly"@,
            CliError::InvalidEnvVar { value } => "invalid --env value `"@ + value@
                + "`: expected KEY=VALUE format"@,
            CliError::EnvFileRead { path, message } => "failed to read --env-file `"@ + path@
                + "`: "@ + message@,
            CliError::ServerNotRunning { user_id } => "no running server found for user `"@
                + user_id@ + "`; start one with `runner start`"@,
            CliError::ServerStopTimeout { user_id, socket_path, timeout_secs } =>
                "timed out waiting for server to stop for user `"@ + user_id@
                + "`; the control socket at `"@ + socket_path@ + "` still exists after "@ + (
            text::decimal(timeout_secs as nat) + "s"@),
        }
    }

    /// How the error reads.
    pub fn to_text(&self) -> (r: String)
        ensures
            r@ == self.text(),
    {
        match self {
            CliError::Arguments(message) => message.clone(),
            CliError::Runner(error) => error.to_text(),
            CliError::ControlTransport(error) => error.to_text(),
            CliError::Catalog { message } => message.clone(),
            CliError::TuiBinaryNotFound { binary } => concat3(
                "`",
                binary.as_str(),
                "` was not found in PATH. Install it with `cargo install --path crates/tui` or ensure it is on your PATH.",
            ),
            CliError::TuiLaunchFailed { binary, message } => concat4(
                "failed to launch `",
                binary.as_str(),
                "`: ",
                message.as_str(),
            ),
            CliError::GatewayEndpointTimeout { path, timeout_secs } => concat5(
                "timed out waiting for gateway endpoint marker at `",
                path.as_str(),
                "` after ",
                decimal_text(*timeout_secs).as_str(),
                "s; the oxydra-vm process may not have started correctly",
            ),
            CliError::InvalidEnvVar { value } => concat3(
                "invalid --env value `",
                value.as_str(),
                "`: expected KEY=VALUE format",
            ),
            CliError::EnvFileRead { path, message } => concat4(
                "failed to read --env-file `",
                path.as_str(),
                "`: ",
                message.as_str(),
            ),
            CliError::ServerNotRunning { user_id } => concat3(
                "no running server found for user `",
                user_id.as_str(),
                "`; start one with `runner start`",
            ),
            CliError::ServerStopTimeout { user_id, socket_path, timeout_secs } => {
                let mut out = concat5(
                    "timed out waiting for server to stop for user `",
                    user_id.as_str(),
                    "`; the control socket at `",
                    socket_path.as_str(),
                    "` still exists after ",
                );
                out.append(concat(decimal_text(*timeout_secs).as_str(), "s").as_str());
                out
            },
        }
    }
}

/// A key and its value, where a text has the form `KEY=VALUE`.
pub open spec fn env_entry(entry: Seq<char>) -> Option<(Seq<char>, Seq<char>)> {
    match text::split_once_at(entry, '=') {
        Some((key, value)) => if key.len() > 0 {
            Some((key, value))
        } else {
            None
        },
        None => None,
    }
}

/// Takes a text of the form `KEY=VALUE` apart.
pub fn parse_env_entry(entry: &str) -> (r: Result<(String, String), CliError>)
    ensures
        match env_entry(entry@) {
            Some((key, value)) => r matches Ok((k, v)) && k@ == key && v@ == value,
            None => r matches Err(CliError::InvalidEnvVar { value }) && value@ == entry@,
        },
{
    match split_once(entry, '=') {
        Some((key, value)) => if key.as_str().is_empty() {
            Err(CliError::InvalidEnvVar { value: entry.to_owned() })
        } else {
            Ok((key, value))
        },
        None => Err(CliError::InvalidEnvVar { value: entry.to_owned() }),
    }
}

/// A line of a file of variables that counts: not empty, and no comment.
pub open spec fn counts(line: Seq<char>) -> bool {
    text::trimmed(line).len() > 0 && text::trimmed(line)[0] != '#'
}

/// The variables in the lines of a file, in order.
pub open spec fn file_entries(lines: Seq<Seq<char>>) -> Seq<Seq<char>>
    decreases lines.len(),
{
    if lines.len() == 0 {
        Seq::empty()
    } else if counts(lines.last()) {
        file_entries(lines.drop_last()).push(text::trimmed(lines.last()))
    } else {
        file_entries(lines.drop_last())
    }
}

/// All variables, those of the command line behind those of the file.
pub open spec fn all_entries(file: Option<Seq<char>>, cli: Seq<Seq<char>>) -> Seq<Seq<char>> {
    match file {
        Some(content) => file_entries(text::split(content, '\n')) + cli,
        None => cli,
    }
}

/// Every text has the form `KEY=VALUE`.
pub open spec fn are_env_entries(entries: Seq<Seq<char>>) -> bool {
    forall|i: int| 0 <= i < entries.len() ==> env_entry(#[trigger] entries[i]) is Some
}

/// What the variables come to: of several with one key the last counts.
pub open spec fn env_map(entries: Seq<Seq<char>>) -> Map<Seq<char>, Seq<char>>
    decreases entries.len(),
{
    if entries.len() == 0 {
        Map::empty()
    } else {
        match env_entry(entries.last()) {
            Some((key, value)) => env_map(entries.drop_last()).insert(key, value),
            None => env_map(entries.drop_last()),
        }
    }
}

/// Texts of the form `KEY=VALUE`, one for each key, in the order of the keys.
pub open spec fn lists_map(texts: Seq<Seq<char>>, map: Map<Seq<char>, Seq<char>>) -> bool {
    exists|keys: Seq<Seq<char>>|
        {
            &&& #[trigger] text_map::is_sorted(keys)
            &&& keys.len() == texts.len()
            &&& forall|key: Seq<char>| #[trigger] keys.contains(key) <==> map.dom().contains(key)
            &&& forall|i: int|
                0 <= i < texts.len() ==> #[trigger] texts[i] == keys[i] + "="@ + map[keys[i]]
        }
}

/// A file of variables, as far as it could be read.
pub struct EnvFile {
    pub path: String,
    pub content: Result<String, String>,
}

/// A map of texts holds that.
pub open spec fn holds_map(map: TextMap<String>, model: Map<Seq<char>, Seq<char>>) -> bool {
    &&& map.well_formed()
    &&& map@.dom() == model.dom()
    &&& forall|key: Seq<char>| #[trigger] model.dom().contains(key) ==> map@[key]@ == model[key]
}

fn add_entry(seen: &mut TextMap<String>, entry: &str, Ghost(before): Ghost<Seq<Seq<char>>>) -> (r:
    Result<(), CliError>)
    requires
        holds_map(*old(seen), env_map(before)),
    ensures
        match r {
            Ok(()) => env_entry(entry@) is Some && holds_map(
                *final(seen),
                env_map(before.push(entry@)),
            ),
            Err(error) => env_entry(entry@) is None && (error matches CliError::InvalidEnvVar {
                value,
            } && value@ == entry@),
        },
{
    proof {
        assert(before.push(entry@).drop_last() =~= before);
    }
    match parse_env_entry(entry) {
        Ok((key, value)) => {
            let ghost k = key@;
            seen.insert(key, value);
            proof {
                assert(seen@.dom() =~= env_map(before.push(entry@)).dom());
            }
            Ok(())
        },
        Err(error) => Err(error),
    }
}

fn add_file(seen: &mut TextMap<String>, content: &str) -> (r: Result<(), CliError>)
    requires
        holds_map(*old(seen), env_map(Seq::empty())),
    ensures
        ({
            let entries = file_entries(text::split(content@, '\n'));
            match r {
                Ok(()) => are_env_entries(entries) && holds_map(*final(seen), env_map(entries)),
                Err(error) => is_first_bad(entries, error),
            }
        }),
{
    let lines = split_text(content, '\n');
    let ghost parts = lines.deep_view();
    let mut i: usize = 0;
    proof {
        assert(parts.take(0) =~= Seq::empty());
    }
    while i < lines.len()
        invariant
            i <= lines.len(),
            parts == lines.deep_view(),
            parts == text::split(content@, '\n'),
            are_env_entries(file_entries(parts.take(i as int))),
            holds_map(*seen, env_map(file_entries(parts.take(i as int)))),
        decreases lines.len() - i,
    {
        let ghost done = file_entries(parts.take(i as int));
        proof {
            assert(parts.take(i as int + 1).drop_last() =~= parts.take(i as int));
            assert(parts.take(i as int + 1).last() == lines@[i as int]@);
        }
        let line = trim(lines[i].as_str());
        let chars = text::to_chars(line.as_str());
        if chars.len() > 0 && chars[0] != '#' {
            match add_entry(seen, line.as_str(), Ghost(done)) {
                Ok(()) => {},
                Err(error) => {
                    proof {
                        lemma_file_prefix(parts, i as int + 1);
                        let entries = file_entries(parts);
                        let upto = file_entries(parts.take(i as int + 1));
                        assert(upto == done.push(line@));
                        assert forall|k: int| 0 <= k < done.len() implies env_entry(
                            #[trigger] entries[k],
                        ) is Some by {
                            assert(entries[k] == upto[k]);
                            assert(upto[k] == done[k]);
                        }
                        assert(entries[done.len() as int] == upto[done.len() as int]);
                        assert(first_bad_at(entries, done.len() as int));
                    }
                    return Err(error);
                },
            }
        }
        i += 1;
    }
    proof {
        assert(parts.take(i as int) =~= parts);
    }
    Ok(())
}

proof fn lemma_file_prefix(lines: Seq<Seq<char>>, n: int)
    requires
        0 <= n <= lines.len(),
    ensures
        file_entries(lines.take(n)).len() <= file_entries(lines).len(),
        forall|i: int|
            0 <= i < file_entries(lines.take(n)).len() ==> #[trigger] file_entries(lines)[i]
                == file_entries(lines.take(n))[i],
    decreases lines.len() - n,
{
    if n == lines.len() {
        assert(lines.take(n) =~= lines);
    } else {
        lemma_file_prefix(lines, n + 1);
        assert(lines.take(n + 1).drop_last() =~= lines.take(n));
        let shorter = file_entries(lines.take(n));
        let longer = file_entries(lines.take(n + 1));
        assert forall|i: int| 0 <= i < shorter.len() implies #[trigger] file_entries(lines)[i]
            == shorter[i] by {
            assert(longer[i] == shorter[i]);
        }
    }
}

/// The first text that does not have the form `KEY=VALUE` stands there.
pub open spec fn first_bad_at(entries: Seq<Seq<char>>, i: int) -> bool {
    &&& 0 <= i < entries.len()
    &&& env_entry(entries[i]) is None
    &&& forall|k: int| 0 <= k < i ==> env_entry(#[trigger] entries[k]) is Some
}

/// The error names the first text that does not have the form `KEY=VALUE`.
pub open spec fn is_first_bad(entries: Seq<Seq<char>>, error: CliError) -> bool {
    exists|i: int| #[trigger]
        first_bad_at(entries, i) && (error matches CliError::InvalidEnvVar { value } && value@
            == entries[i])
}

fn listed(seen: TextMap<String>, Ghost(model): Ghost<Map<Seq<char>, Seq<char>>>) -> (r: Vec<String>)
    requires
        holds_map(seen, model),
    ensures
        lists_map(r.deep_view(), model),
{
    let ghost keys = text_map::keys_of(seen.entries@);
    let mut out: Vec<String> = Vec::new();
    let mut i: usize = 0;
    proof {
        assert forall|key: Seq<char>| #[trigger] keys.contains(key) <==> model.dom().contains(
            key,
        ) by {
            assert(seen@.dom().contains(key) == keys.contains(key));
        }
    }
    while i < seen.entries.len()
        invariant
            i <= seen.entries.len(),
            out.len() == i,
            holds_map(seen, model),
            keys == text_map::keys_of(seen.entries@),
            forall|key: Seq<char>| #[trigger] keys.contains(key) <==> model.dom().contains(key),
            forall|k: int|
                0 <= k < i ==> (#[trigger] out@[k])@ == keys[k] + "="@ + model[keys[k]],
        decreases seen.entries.len() - i,
    {
        proof {
            text_map::lemma_at(seen.entries@, i as int);
            assert(keys[i as int] == seen.entries@[i as int].0@);
            assert(keys.contains(keys[i as int]));
        }
        out.push(concat3(seen.entries[i].0.as_str(), "=", seen.entries[i].1.as_str()));
        i += 1;
    }
    proof {
        let texts = out.deep_view();
        assert forall|k: int| 0 <= k < texts.len() implies #[trigger] texts[k] == keys[k] + "="@
            + model[keys[k]] by {
            assert(out@[k]@ == keys[k] + "="@ + model[keys[k]]);
        }
        assert(text_map::is_sorted(keys));
    }
    out
}

/// The variables of a file and of the command line, one for each key, in the order of
/// the keys. Those of the command line take the place of those of the file. The first
/// text that is no variable is refused.
pub fn parse_extra_env_vars(cli_env: &Vec<String>, env_file: Option<EnvFile>) -> (r: Result<
    Vec<String>,
    CliError,
>)
    ensures
        match env_file {
            Some(EnvFile { path, content: Err(cause) }) => r matches Err(
                CliError::EnvFileRead { path: p, message },
            ) && p == path && message == cause,
            _ => {
                let entries = all_entries(
                    match env_file {
                        Some(EnvFile { path: _, content: Ok(content) }) => Some(content@),
                        _ => None,
                    },
                    cli_env.deep_view(),
                );
                match r {
                    Ok(texts) => are_env_entries(entries) && lists_map(
                        texts.deep_view(),
                        env_map(entries),
                    ),
                    Err(error) => is_first_bad(entries, error),
                }
            },
        },
{
    let mut seen: TextMap<String> = TextMap::new();
    let ghost mut first: Seq<Seq<char>> = Seq::empty();
    proof {
        assert(seen@.dom() =~= env_map(first).dom());
    }
    let ghost cli = cli_env.deep_view();
    match env_file {
        Some(file) => match file.content {
            Err(message) => {
                return Err(CliError::EnvFileRead { path: file.path, message });
            },
            Ok(content) => {
                proof {
                    first = file_entries(text::split(content@, '\n'));
                }
                match add_file(&mut seen, content.as_str()) {
                    Ok(()) => {},
                    Err(error) => {
                        proof {
                            let i = choose|i: int| #[trigger]
                                first_bad_at(first, i) && (error matches CliError::InvalidEnvVar {
                                    value,
                                } && value@ == first[i]);
                            let entries = first + cli;
                            assert forall|k: int| 0 <= k < i implies env_entry(
                                #[trigger] entries[k],
                            ) is Some by {
                                assert(entries[k] == first[k]);
                            }
                            assert(first_bad_at(entries, i));
                        }
                        return Err(error);
                    },
                }
            },
        },
        None => {},
    }
    let ghost entries = first + cli;
    proof {
        assert(Seq::<Seq<char>>::empty() + cli =~= cli);
        assert(first + cli.take(0) =~= first);
    }
    let mut i: usize = 0;
    while i < cli_env.len()
        invariant
            i <= cli_env.len(),
            cli == cli_env.deep_view(),
            entries == first + cli,
            are_env_entries(first + cli.take(i as int)),
            holds_map(seen, env_map(first + cli.take(i as int))),
            entries == all_entries(
                match env_file {
                    Some(EnvFile { path: _, content: Ok(content) }) => Some(content@),
                    _ => None,
                },
                cli_env.deep_view(),
            ),
            !(env_file matches Some(EnvFile { path: _, content: Err(_) })),
        decreases cli_env.len() - i,
    {
        let ghost done = first + cli.take(i as int);
        match add_entry(&mut seen, cli_env[i].as_str(), Ghost(done)) {
            Ok(()) => {},
            Err(error) => {
                proof {
                    let at = done.len() as int;
                    assert forall|k: int| 0 <= k < at implies env_entry(
                        #[trigger] entries[k],
                    ) is Some by {
                        assert(entries[k] == done[k]);
                    }
                    assert(entries[at] == cli_env@[i as int]@);
                    assert(first_bad_at(entries, at));
                }
                return Err(error);
            },
        }
        proof {
            assert(first + cli.take(i as int + 1) =~= done.push(cli_env@[i as int]@));
        }
        i += 1;
    }
    proof {
        assert(cli.take(i as int) =~= cli);
    }
    Ok(listed(seen, Ghost(env_map(entries))))
}

/// A variable of the command line counts, whatever the file says.
pub proof fn law_command_line_wins(file: Seq<Seq<char>>, cli: Seq<Seq<char>>, key: Seq<char>)
    requires
        env_map(cli).dom().contains(key),
    ensures
        env_map(file + cli).dom().contains(key),
        env_map(file + cli)[key] == env_map(cli)[key],
    decreases cli.len(),
{
    if cli.len() > 0 {
        assert((file + cli).drop_last() =~= file + cli.drop_last());
        assert((file + cli).last() == cli.last());
        match env_entry(cli.last()) {
            Some((k, _)) => {
                if k != key {
                    law_command_line_wins(file, cli.drop_last(), key);
                }
            },
            None => {
                law_command_line_wins(file, cli.drop_last(), key);
            },
        }
    }
}

/// Which user is meant: the one that is given, or the only one that is configured.
pub fn resolve_user_id(user_id: Option<String>, users: &TextMap<String>) -> (r: Result<
    String,
    CliError,
>)
    ensures
        match user_id {
            Some(given) => r == Ok::<String, CliError>(given),
            None => if users.entries@.len() == 1 {
                r matches Ok(only) && only@ == users.entries@[0].0@
            } else if users.entries@.len() == 0 {
                r matches Err(CliError::Arguments(message)) && message@
                    == "no users are configured in runner config; add [users.<id>] or pass --user"@
            } else {
                r matches Err(CliError::Arguments(message)) && message@
                    == "multiple users configured; pass --user <user_id>"@
            },
        },
{
    match user_id {
        Some(given) => Ok(given),
        None => if users.entries.len() == 1 {
            Ok(users.entries[0].0.clone())
        } else if users.entries.len() == 0 {
            Err(
                CliError::Arguments(
                    "no users are configured in runner config; add [users.<id>] or pass --user".to_owned(),
                ),
            )
        } else {
            Err(
                CliError::Arguments("multiple users configured; pass --user <user_id>".to_owned()),
            )
        },
    }
}

/// What is done with a running or a new server.
#[derive(Debug, Clone, Copy, PartialEq, Eq, Structural)]
pub enum LifecycleAction {
    Start,
    Stop,
    Status,
    Restart,
}

/// What the runner's program does.
#[derive(Debug, Clone, Copy, PartialEq, Eq, Structural)]
pub enum RunMode {
    Catalog { action: CatalogAction },
    Lifecycle { lifecycle: LifecycleAction },
    /// Connect a terminal, or only print what it would connect to.
    Connect { probe: bool },
    /// Start the user, and stay to be controlled if so.
    Session { daemon: bool },
}

pub open spec fn mode_of(
    command: Option<CliCommand>,
    tui: bool,
    probe: bool,
    daemon: bool,
) -> RunMode {
    match command {
        Some(CliCommand::Catalog { action }) => RunMode::Catalog { action },
        Some(CliCommand::Start) => RunMode::Lifecycle { lifecycle: LifecycleAction::Start },
        Some(CliCommand::Stop) => RunMode::Lifecycle { lifecycle: LifecycleAction::Stop },
        Some(CliCommand::Status) => RunMode::Lifecycle { lifecycle: LifecycleAction::Status },
        Some(CliCommand::Restart) => RunMode::Lifecycle { lifecycle: LifecycleAction::Restart },
        None => if tui {
            RunMode::Connect { probe }
        } else {
            RunMode::Session { daemon }
        },
    }
}

/// What the runner's program does: a command goes before everything else, and a
/// terminal before a session.
pub fn run_mode(args: &CliArgs) -> (r: RunMode)
    ensures
        r == mode_of(args.command, args.tui, args.probe, args.daemon),
{
    match args.command {
        Some(CliCommand::Catalog { action }) => RunMode::Catalog { action },
        Some(CliCommand::Start) => RunMode::Lifecycle { lifecycle: LifecycleAction::Start },
        Some(CliCommand::Stop) => RunMode::Lifecycle { lifecycle: LifecycleAction::Stop },
        Some(CliCommand::Status) => RunMode::Lifecycle { lifecycle: LifecycleAction::Status },
        Some(CliCommand::Restart) => RunMode::Lifecycle { lifecycle: LifecycleAction::Restart },
        None => if args.tui {
            RunMode::Connect { probe: args.probe }
        } else {
            RunMode::Session { daemon: args.daemon }
        },
    }
}

/// How the verification of the catalog ends.
pub fn handle_catalog_verified(valid: bool) -> (r: Result<(), CliError>)
    ensures
        r is Ok <==> valid,
        r matches Err(error) ==> error matches CliError::Arguments(message) && message@
            == "catalog verification failed: schema is invalid or catalog is empty"@,
{
    if valid {
        Ok(())
    } else {
        Err(
            CliError::Arguments(
                "catalog verification failed: schema is invalid or catalog is empty".to_owned(),
            ),
        )
    }
}

pub open spec fn tier_name(tier: SandboxTier) -> Seq<char> {
    match tier {
        SandboxTier::MicroVm => "MicroVm"@,
        SandboxTier::Container => "Container"@,
        SandboxTier::Process => "Process"@,
    }
}

fn tier_text(tier: SandboxTier) -> (r: &'static str)
    ensures
        r@ == tier_name(tier),
{
    match tier {
        SandboxTier::MicroVm => "MicroVm",
        SandboxTier::Container => "Container",
        SandboxTier::Process => "Process",
    }
}

pub open spec fn code_name(code: StartupDegradedReasonCode) -> Seq<char> {
    match code {
        StartupDegradedReasonCode::InsecureProcessTier => "InsecureProcessTier"@,
        StartupDegradedReasonCode::ProcessHardeningLimited => "ProcessHardeningLimited"@,
        StartupDegradedReasonCode::SidecarUnavailable => "SidecarUnavailable"@,
        StartupDegradedReasonCode::SidecarEndpointInvalid => "SidecarEndpointInvalid"@,
        StartupDegradedReasonCode::SidecarTransportUnsupported => "SidecarTransportUnsupported"@,
        StartupDegradedReasonCode::RuntimeShutdown => "RuntimeShutdown"@,
    }
}

fn code_text(code: StartupDegradedReasonCode) -> (r: &'static str)
    ensures
        r@ == code_name(code),
{
    match code {
        StartupDegradedReasonCode::InsecureProcessTier => "InsecureProcessTier",
        StartupDegradedReasonCode::ProcessHardeningLimited => "ProcessHardeningLimited",
        StartupDegradedReasonCode::SidecarUnavailable => "SidecarUnavailable",
        StartupDegradedReasonCode::SidecarEndpointInvalid => "SidecarEndpointInvalid",
        StartupDegradedReasonCode::SidecarTransportUnsupported => "SidecarTransportUnsupported",
        StartupDegradedReasonCode::RuntimeShutdown => "RuntimeShutdown",
    }
}

pub open spec fn truth(value: bool) -> Seq<char> {
    if value {
        "true"@
    } else {
        "false"@
    }
}

fn truth_text(value: bool) -> (r: &'static str)
    ensures
        r@ == truth(value),
{
    if value {
        "true"
    } else {
        "false"
    }
}

/// A line for each reason.
pub open spec fn reason_lines(reasons: Seq<sandbox::ReasonModel>) -> Seq<Seq<char>> {
    Seq::new(
        reasons.len(),
        |i: int| "degraded_reason="@ + code_name(reasons[i].code) + ":"@ + reasons[i].detail,
    )
}

/// A line for each warning.
pub open spec fn warning_lines(warnings: Seq<Seq<char>>) -> Seq<Seq<char>> {
    Seq::new(warnings.len(), |i: int| "warning="@ + warnings[i])
}

fn push_reasons(lines: &mut Vec<String>, reasons: &Vec<StartupDegradedReason>)
    ensures
        final(lines).deep_view() == old(lines).deep_view() + reason_lines(reasons.deep_view()),
{
    let ghost start = lines.deep_view();
    let ghost all = reason_lines(reasons.deep_view());
    let mut i: usize = 0;
    proof {
        assert(start + all.take(0) =~= start);
    }
    while i < reasons.len()
        invariant
            i <= reasons.len(),
            all == reason_lines(reasons.deep_view()),
            lines.deep_view() == start + all.take(i as int),
        decreases reasons.len() - i,
    {
        let ghost before = lines.deep_view();
        lines.push(
            concat4(
                "degraded_reason=",
                code_text(reasons[i].code),
                ":",
                reasons[i].detail.as_str(),
            ),
        );
        proof {
            assert(lines.deep_view() =~= before.push(all[i as int]));
            assert(start + all.take(i as int + 1) =~= before.push(all[i as int]));
        }
        i += 1;
    }
    proof {
        assert(all.take(i as int) =~= all);
    }
}

fn push_warnings(lines: &mut Vec<String>, warnings: &Vec<String>)
    ensures
        final(lines).deep_view() == old(lines).deep_view() + warning_lines(warnings.deep_view()),
{
    let ghost start = lines.deep_view();
    let ghost all = warning_lines(warnings.deep_view());
    let mut i: usize = 0;
    proof {
        assert(start + all.take(0) =~= start);
    }
    while i < warnings.len()
        invariant
            i <= warnings.len(),
            all == warning_lines(warnings.deep_view()),
            lines.deep_view() == start + all.take(i as int),
        decreases warnings.len() - i,
    {
        let ghost before = lines.deep_view();
        lines.push(concat("warning=", warnings[i].as_str()));
        proof {
            assert(lines.deep_view() =~= before.push(all[i as int]));
            assert(start + all.take(i as int + 1) =~= before.push(all[i as int]));
        }
        i += 1;
    }
    proof {
        assert(all.take(i as int) =~= all);
    }
}

/// What is printed of a user who was started.
pub open spec fn startup_lines(startup: RunnerStartup) -> Seq<Seq<char>> {
    seq![
        "user_id="@ + startup.user_id@,
        "sandbox_tier="@ + tier_name(startup.sandbox_tier),
        "workspace_root="@ + startup.workspace.root@,
        "shell_available="@ + truth(startup.shell_available),
        "browser_available="@ + truth(startup.browser_available),
        "sidecar_available="@ + truth(startup.startup_status.sidecar_available),
    ] + reason_lines(startup.startup_status.degraded_reasons.deep_view()) + warning_lines(
        startup.warnings.deep_view(),
    )
}

/// What is printed of a user who was started.
pub fn print_startup_info(startup: &RunnerStartup) -> (r: Vec<String>)
    ensures
        r.deep_view() == startup_lines(*startup),
{
    let mut lines = vec![
        concat("user_id=", startup.user_id.as_str()),
        concat("sandbox_tier=", tier_text(startup.sandbox_tier)),
        concat("workspace_root=", startup.workspace.root.as_str()),
        concat("shell_available=", truth_text(startup.shell_available)),
        concat("browser_available=", truth_text(startup.browser_available)),
        concat("sidecar_available=", truth_text(startup.startup_status.sidecar_available)),
    ];
    proof {
        assert(lines.deep_view() =~= seq![
            "user_id="@ + startup.user_id@,
            "sandbox_tier="@ + tier_name(startup.sandbox_tier),
            "workspace_root="@ + startup.workspace.root@,
            "shell_available="@ + truth(startup.shell_available),
            "browser_available="@ + truth(startup.browser_available),
            "sidecar_available="@ + truth(startup.startup_status.sidecar_available),
        ]);
    }
    push_reasons(&mut lines, &startup.startup_status.degraded_reasons);
    push_warnings(&mut lines, &startup.warnings);
    lines
}

/// What is printed in place of connecting a terminal.
pub fn connection_lines(connection: &RunnerTuiConnection) -> (r: Vec<String>)
    ensures
        r.deep_view() == seq![
            "mode=tui"@,
            "user_id="@ + connection.user_id@,
            "gateway_endpoint="@ + connection.gateway_endpoint@,
            "session_id="@ + connection.session_id@,
            "workspace_root="@ + connection.workspace.root@,
        ],
{
    let lines = vec![
        "mode=tui".to_owned(),
        concat("user_id=", connection.user_id.as_str()),
        concat("gateway_endpoint=", connection.gateway_endpoint.as_str()),
        concat("session_id=", connection.session_id.as_str()),
        concat("workspace_root=", connection.workspace.root.as_str()),
    ];
    proof {
        assert(lines.deep_view() =~= seq![
            "mode=tui"@,
            "user_id="@ + connection.user_id@,
            "gateway_endpoint="@ + connection.gateway_endpoint@,
            "session_id="@ + connection.session_id@,
            "workspace_root="@ + connection.workspace.root@,
        ]);
    }
    lines
}

/// What a failed call to a server means: nobody listens, or the call failed.
pub fn control_failure(user_id: &str, error: RunnerControlTransportError) -> (r: CliError)
    ensures
        match error {
            RunnerControlTransportError::Transport { refused: true, .. } => r
                matches CliError::ServerNotRunning { user_id: u } && u@ == user_id@,
            _ => r == CliError::ControlTransport(error),
        },
{
    if error.is_connection_refused() {
        CliError::ServerNotRunning { user_id: user_id.to_owned() }
    } else {
        CliError::ControlTransport(error)
    }
}

/// An optional line.
pub open spec fn line_if(label: Seq<char>, value: Option<Seq<char>>) -> Seq<Seq<char>> {
    match value {
        Some(value) => seq![label + value],
        None => Seq::empty(),
    }
}

fn push_if(lines: &mut Vec<String>, label: &str, value: &Option<String>)
    ensures
        final(lines).deep_view() == old(lines).deep_view() + line_if(label@, value.deep_view()),
{
    let ghost start = lines.deep_view();
    if let Some(value) = value {
        lines.push(concat(label, value.as_str()));
    }
    proof {
        assert(lines.deep_view() =~= start + line_if(label@, value.deep_view()));
    }
}

/// What is printed of a server's answer to a request to stop.
pub open spec fn stop_outcome(
    response: RunnerControlResponse,
    outcome: Result<Vec<String>, CliError>,
) -> bool {
    match response {
        RunnerControlResponse::ShutdownStatus(status) => outcome matches Ok(lines)
            && lines.deep_view() == seq![
            "user_id="@ + status.user_id@,
            "shutdown="@ + truth(status.shutdown),
        ] + (if status.already_stopped {
            seq!["already_stopped=true"@]
        } else {
            Seq::empty()
        }) + line_if("message="@, status.message.deep_view()),
        RunnerControlResponse::Error(error) => outcome matches Err(CliError::Arguments(message))
            && message@ == "server reported error: "@ + error.message@,
        _ => outcome matches Err(CliError::Arguments(message)) && message@
            == "unexpected response to shutdown request"@,
    }
}

/// How a request to stop a server ends.
pub fn server_stop(
    user_id: &str,
    response: Option<Result<RunnerControlResponse, RunnerControlTransportError>>,
) -> (r: Result<Vec<String>, CliError>)
    ensures
        match response {
            None => r matches Err(CliError::ServerNotRunning { user_id: u }) && u@ == user_id@,
            Some(Err(RunnerControlTransportError::Transport { refused: true, .. })) => r
                matches Err(CliError::ServerNotRunning { user_id: u }) && u@ == user_id@,
            Some(Err(error)) => r == Err::<Vec<String>, CliError>(CliError::ControlTransport(error)),
            Some(Ok(response)) => stop_outcome(response, r),
        },
{
    let response = match response {
        None => {
            return Err(CliError::ServerNotRunning { user_id: user_id.to_owned() });
        },
        Some(Err(error)) => {
            return Err(control_failure(user_id, error));
        },
        Some(Ok(response)) => response,
    };
    match response {
        RunnerControlResponse::ShutdownStatus(status) => {
            let mut lines = vec![
                concat("user_id=", status.user_id.as_str()),
                concat("shutdown=", truth_text(status.shutdown)),
            ];
            if status.already_stopped {
                lines.push("already_stopped=true".to_owned());
            }
            proof {
                assert(lines.deep_view() =~= seq![
                    "user_id="@ + status.user_id@,
                    "shutdown="@ + truth(status.shutdown),
                ] + (if status.already_stopped {
                    seq!["already_stopped=true"@]
                } else {
                    Seq::empty()
                }));
            }
            push_if(&mut lines, "message=", &status.message);
            Ok(lines)
        },
        RunnerControlResponse::Error(error) => Err(
            CliError::Arguments(concat("server reported error: ", error.message.as_str())),
        ),
        _ => Err(CliError::Arguments("unexpected response to shutdown request".to_owned())),
    }
}

/// The process of a guest, as a text.
pub open spec fn pid_text(pid: Option<u32>) -> Option<Seq<char>> {
    match pid {
        Some(pid) => Some(text::decimal(pid as nat)),
        None => None,
    }
}

/// What is printed of a server's answer to a health check.
pub open spec fn status_outcome(
    response: RunnerControlResponse,
    outcome: Result<Vec<String>, CliError>,
) -> bool {
    match response {
        RunnerControlResponse::HealthStatus(status) => outcome matches Ok(lines)
            && lines.deep_view() == seq![
            "user_id="@ + status.user_id@,
            "healthy="@ + truth(status.healthy),
            "sandbox_tier="@ + tier_name(status.sandbox_tier),
            "shell_available="@ + truth(status.shell_available),
            "browser_available="@ + truth(status.browser_available),
            "sidecar_available="@ + truth(status.startup_status.sidecar_available),
            "shutdown="@ + truth(status.shutdown),
        ] + line_if("message="@, status.message.deep_view()) + line_if(
            "log_dir="@,
            status.log_dir.deep_view(),
        ) + line_if("runtime_pid="@, pid_text(status.runtime_pid)) + line_if(
            "runtime_container_name="@,
            status.runtime_container_name.deep_view(),
        ) + reason_lines(status.startup_status.degraded_reasons.deep_view()),
        RunnerControlResponse::Error(error) => outcome matches Err(CliError::Arguments(message))
            && message@ == "server reported error: "@ + error.message@,
        _ => outcome matches Err(CliError::Arguments(message)) && message@
            == "unexpected response to health check request"@,
    }
}

/// How a request for the state of a server ends.
pub fn server_status(
    user_id: &str,
    response: Option<Result<RunnerControlResponse, RunnerControlTransportError>>,
) -> (r: Result<Vec<String>, CliError>)
    ensures
        match response {
            None => r matches Err(CliError::ServerNotRunning { user_id: u }) && u@ == user_id@,
            Some(Err(RunnerControlTransportError::Transport { refused: true, .. })) => r
                matches Err(CliError::ServerNotRunning { user_id: u }) && u@ == user_id@,
            Some(Err(error)) => r == Err::<Vec<String>, CliError>(CliError::ControlTransport(error)),
            Some(Ok(response)) => status_outcome(response, r),
        },
{
    let response = match response {
        None => {
            return Err(CliError::ServerNotRunning { user_id: user_id.to_owned() });
        },
        Some(Err(error)) => {
            return Err(control_failure(user_id, error));
        },
        Some(Ok(response)) => response,
    };
    match response {
        RunnerControlResponse::HealthStatus(status) => {
            let mut lines = vec![
                concat("user_id=", status.user_id.as_str()),
                concat("healthy=", truth_text(status.healthy)),
                concat("sandbox_tier=", tier_text(status.sandbox_tier)),
                concat("shell_available=", truth_text(status.shell_available)),
                concat("browser_available=", truth_text(status.browser_available)),
                concat("sidecar_available=", truth_text(status.startup_status.sidecar_available)),
                concat("shutdown=", truth_text(status.shutdown)),
            ];
            proof {
                assert(lines.deep_view() =~= seq![
                    "user_id="@ + status.user_id@,
                    "healthy="@ + truth(status.healthy),
                    "sandbox_tier="@ + tier_name(status.sandbox_tier),
                    "shell_available="@ + truth(status.shell_available),
                    "browser_available="@ + truth(status.browser_available),
                    "sidecar_available="@ + truth(status.startup_status.sidecar_available),
                    "shutdown="@ + truth(status.shutdown),
                ]);
            }
            push_if(&mut lines, "message=", &status.message);
            push_if(&mut lines, "log_dir=", &status.log_dir);
            let pid = match status.runtime_pid {
                Some(pid) => Some(decimal_text(pid as u64)),
                None => None,
            };
            push_if(&mut lines, "runtime_pid=", &pid);
            push_if(&mut lines, "runtime_container_name=", &status.runtime_container_name);
            push_reasons(&mut lines, &status.startup_status.degraded_reasons);
            Ok(lines)
        },
        RunnerControlResponse::Error(error) => Err(
            CliError::Arguments(concat("server reported error: ", error.message.as_str())),
        ),
        _ => Err(CliError::Arguments("unexpected response to health check request".to_owned())),
    }
}

/// What is said before a restart goes on.
#[derive(Debug, PartialEq, Eq)]
pub enum RestartNotice {
    Nothing,
    /// On the output.
    Said(String),
    /// Among the errors.
    Warned(String),
}

/// What is said of the server that a restart stops. Whatever came of it, the restart
/// goes on.
pub fn server_restart(response: Result<RunnerControlResponse, RunnerControlTransportError>) -> (r:
    RestartNotice)
    ensures
        match response {
            Ok(RunnerControlResponse::ShutdownStatus(status)) => if status.shutdown {
                r matches RestartNotice::Said(line) && line@ == "stopped previous server for user `"@
                    + status.user_id@ + "`"@
            } else {
                r is Nothing
            },
            Ok(RunnerControlResponse::Error(error)) => r matches RestartNotice::Warned(line)
                && line@ == "warning: shutdown reported error: "@ + error.message@
                + "; proceeding with restart"@,
            Ok(_) => r is Nothing,
            Err(RunnerControlTransportError::Transport { refused: true, .. }) => r is Nothing,
            Err(error) => r matches RestartNotice::Warned(line) && line@
                == "warning: could not connect to running server: "@ + error.text()
                + "; proceeding with restart"@,
        },
{
    match response {
        Ok(RunnerControlResponse::ShutdownStatus(status)) => if status.shutdown {
            RestartNotice::Said(
                concat3("stopped previous server for user `", status.user_id.as_str(), "`"),
            )
        } else {
            RestartNotice::Nothing
        },
        Ok(RunnerControlResponse::Error(error)) => RestartNotice::Warned(
            concat3(
                "warning: shutdown reported error: ",
                error.message.as_str(),
                "; proceeding with restart",
            ),
        ),
        Ok(_) => RestartNotice::Nothing,
        Err(error) => if error.is_connection_refused() {
            RestartNotice::Nothing
        } else {
            let text = error.to_text();
            RestartNotice::Warned(
                concat3(
                    "warning: could not connect to running server: ",
                    text.as_str(),
                    "; proceeding with restart",
                ),
            )
        },
    }
}

/// What to do about a control socket that another runner leaves.
#[derive(Debug, Clone, Copy, PartialEq, Eq, Structural)]
pub enum SocketWait {
    /// It is gone.
    Gone,
    /// Look again in a moment.
    Again,
    /// Remove it.
    Remove,
}

/// What to do about a control socket that another runner leaves: it is waited for, and
/// then removed.
pub fn wait_for_socket_removal(present: bool, elapsed_millis: u64) -> (r: SocketWait)
    ensures
        r == if !present {
            SocketWait::Gone
        } else if elapsed_millis >= SOCKET_REMOVAL_WAIT_MILLIS {
            SocketWait::Remove
        } else {
            SocketWait::Again
        },
{
    if !present {
        SocketWait::Gone
    } else if elapsed_millis >= SOCKET_REMOVAL_WAIT_MILLIS {
        SocketWait::Remove
    } else {
        SocketWait::Again
    }
}

/// Whether a control socket that had to be removed is gone.
pub fn socket_removed(present: bool, user_id: &str, socket_path: &str) -> (r: Result<(), CliError>)
    ensures
        r is Ok <==> !present,
        r matches Err(error) ==> error matches CliError::ServerStopTimeout {
            user_id: u,
            socket_path: p,
            timeout_secs,
        } && u@ == user_id@ && p@ == socket_path@ && timeout_secs == 10,
{
    if present {
        Err(
            CliError::ServerStopTimeout {
                user_id: user_id.to_owned(),
                socket_path: socket_path.to_owned(),
                timeout_secs: 10,
            },
        )
    } else {
        Ok(())
    }
}

/// What to do while a guest has not left the address of its gateway.
#[derive(Debug, PartialEq, Eq)]
pub enum EndpointWait {
    Found(String),
    /// Look again in a moment.
    Again,
    TimedOut(CliError),
}

/// What to do about the address of a gateway, given what was read of it, if anything.
pub fn wait_for_gateway_endpoint(
    ipc_dir: &str,
    content: Option<&str>,
    elapsed_millis: u64,
) -> (r: EndpointWait)
    ensures
        if content matches Some(raw) && text::trimmed(raw@).len() > 0 {
            r matches EndpointWait::Found(endpoint) && endpoint@ == text::trimmed(content->0@)
        } else if elapsed_millis >= GATEWAY_ENDPOINT_WAIT_MILLIS {
            r matches EndpointWait::TimedOut(CliError::GatewayEndpointTimeout { path, timeout_secs })
                && path@ == paths::joined_path(ipc_dir@, "gateway-endpoint"@) && timeout_secs == 30
        } else {
            r is Again
        },
{
    if let Some(raw) = content {
        let endpoint = trim(raw);
        if !endpoint.as_str().is_empty() {
            return EndpointWait::Found(endpoint);
        }
    }
    if elapsed_millis >= GATEWAY_ENDPOINT_WAIT_MILLIS {
        EndpointWait::TimedOut(
            CliError::GatewayEndpointTimeout {
                path: join_path(ipc_dir, "gateway-endpoint"),
                timeout_secs: 30,
            },
        )
    } else {
        EndpointWait::Again
    }
}

/// Where the terminal's program may be, directory by directory.
pub fn tui_candidates(directories: &Vec<String>) -> (r: Vec<String>)
    ensures
        r@.len() == directories@.len(),
        forall|i: int|
            0 <= i < r@.len() ==> (#[trigger] r@[i])@ == paths::joined_path(
                directories@[i]@,
                "oxydra-tui"@,
            ),
{
    let mut out: Vec<String> = Vec::new();
    let mut i: usize = 0;
    while i < directories.len()
        invariant
            i <= directories.len(),
            out.len() == i,
            forall|k: int|
                0 <= k < i ==> (#[trigger] out@[k])@ == paths::joined_path(
                    directories@[k]@,
                    "oxydra-tui"@,
                ),
        decreases directories.len() - i,
    {
        out.push(join_path(directories[i].as_str(), TUI_BINARY_NAME));
        i += 1;
    }
    out
}

/// The terminal's program: the first candidate that is there.
pub fn which_tui_binary(candidates: Vec<(String, bool)>) -> (r: Result<String, CliError>)
    ensures
        match r {
            Ok(path) => exists|i: int|
                {
                    &&& 0 <= i < candidates@.len()
                    &&& (#[trigger] candidates@[i]).1
                    &&& candidates@[i].0@ == path@
                    &&& forall|k: int| 0 <= k < i ==> !(#[trigger] candidates@[k]).1
                },
            Err(error) => {
                &&& forall|k: int| 0 <= k < candidates@.len() ==> !(#[trigger] candidates@[k]).1
                &&& error matches CliError::TuiBinaryNotFound { binary } && binary@
                    == "oxydra-tui"@
            },
        },
{
    let mut i: usize = 0;
    while i < candidates.len()
        invariant
            i <= candidates.len(),
            forall|k: int| 0 <= k < i ==> !(#[trigger] candidates@[k]).1,
        decreases candidates.len() - i,
    {
        if candidates[i].1 {
            return Ok(candidates[i].0.clone());
        }
        i += 1;
    }
    Err(CliError::TuiBinaryNotFound { binary: TUI_BINARY_NAME.to_owned() })
}

/// What the terminal's program is called with.
pub fn tui_arguments(gateway_endpoint: &str, user_id: &str) -> (r: Vec<String>)
    ensures
        r.deep_view() == seq![
            "--gateway-endpoint"@,
            gateway_endpoint@,
            "--user"@,
            user_id@,
        ],
{
    let r = vec![
        "--gateway-endpoint".to_owned(),
        gateway_endpoint.to_owned(),
        "--user".to_owned(),
        user_id.to_owned(),
    ];
    proof {
        assert(r.deep_view() =~= seq![
            "--gateway-endpoint"@,
            gateway_endpoint@,
            "--user"@,
            user_id@,
        ]);
    }
    r
}

/// A number with its sign.
pub open spec fn signed(n: int) -> Seq<char> {
    if n < 0 {
        "-"@ + text::decimal((-n) as nat)
    } else {
        text::decimal(n as nat)
    }
}

fn signed_text(n: i32) -> (r: String)
    ensures
        r@ == signed(n as int),
{
    if n < 0 {
        let magnitude: u64 = (-(n as i64)) as u64;
        concat("-", decimal_text(magnitude).as_str())
    } else {
        decimal_text(n as u64)
    }
}

/// How the end of the terminal's program is reported. A program that a signal ended has
/// no code.
pub fn tui_exit(success: bool, code: Option<i32>) -> (r: Result<(), CliError>)
    ensures
        r is Ok <==> success,
        r matches Err(error) ==> error matches CliError::Arguments(message) && message@
            == "oxydra-tui exited with "@ + match code {
            Some(code) => signed(code as int),
            None => "signal"@,
        },
{
    if success {
        return Ok(());
    }
    let how = match code {
        Some(code) => signed_text(code),
        None => "signal".to_owned(),
    };
    Err(CliError::Arguments(concat("oxydra-tui exited with ", how.as_str())))
}

/// A variable is its key, which is not empty, and its value, around the first equals sign;
/// any other text is refused as it is.
pub proof fn law_variables_are_keys_and_values(
    entry: &str,
    r: Result<(String, String), CliError>,
    key: Seq<char>,
    value: Seq<char>,
)
    requires
        call_ensures(parse_env_entry, (entry,), r),
    ensures
        entry@ == key + "="@ + value && !key.contains('=') && key.len() > 0 ==> (r matches Ok((k, v))
            && k@ == key && v@ == value),
        r matches Err(error) ==> (error matches CliError::InvalidEnvVar { value: refused }
            && refused@ == entry@),
{
    reveal_strlit("=");
    assert("="@ =~= seq!['=']);
    if entry@ == key + "="@ + value && !key.contains('=') && key.len() > 0 {
        text::law_split_once(key, '=', value);
        assert(entry@ == key + seq!['='] + value);
    }
}

proof fn lemma_last_entry_counts(entries: Seq<Seq<char>>, i: int)
    requires
        0 <= i < entries.len(),
        env_entry(entries[i]) is Some,
        forall|k: int|
            i < k < entries.len() ==> (env_entry(#[trigger] entries[k]) matches Some((other, _))
                ==> other != (env_entry(entries[i])->0).0),
    ensures
        env_map(entries).dom().contains((env_entry(entries[i])->0).0),
        env_map(entries)[(env_entry(entries[i])->0).0] == (env_entry(entries[i])->0).1,
    decreases entries.len(),
{
    if i < entries.len() - 1 {
        let rest = entries.drop_last();
        assert(rest[i] == entries[i]);
        assert forall|k: int| i < k < rest.len() implies (env_entry(#[trigger] rest[k]) matches Some(
            (other, _),
        ) ==> other != (env_entry(rest[i])->0).0) by {
            assert(rest[k] == entries[k]);
        }
        lemma_last_entry_counts(rest, i);
        assert(entries.last() == entries[entries.len() - 1]);
    }
}

/// Every variable of the command line is given to the guests as it stands there, unless a
/// later one on the command line has the same key.
pub proof fn law_command_line_variables_are_given(
    cli_env: Vec<String>,
    env_file: Option<EnvFile>,
    r: Result<Vec<String>, CliError>,
    i: int,
    key: Seq<char>,
    value: Seq<char>,
) -> (at: int)
    requires
        call_ensures(parse_extra_env_vars, (&cli_env, env_file), r),
        r is Ok,
        0 <= i < cli_env@.len(),
        cli_env@[i]@ == key + "="@ + value,
        !key.contains('='),
        key.len() > 0,
        forall|k: int|
            i < k < cli_env@.len() ==> (env_entry((#[trigger] cli_env@[k])@) matches Some(
                (other, _),
            ) ==> other != key),
    ensures
        0 <= at < r->Ok_0@.len(),
        r->Ok_0@[at]@ == key + "="@ + value,
{
    reveal_strlit("=");
    assert("="@ =~= seq!['=']);
    text::law_split_once(key, '=', value);
    text::lemma_list(cli_env);
    let cli = cli_env.deep_view();
    let file = match env_file {
        Some(EnvFile { path: _, content: Ok(content) }) => Some(content@),
        _ => None,
    };
    let entries = all_entries(file, cli);
    let offset = entries.len() - cli.len();
    assert(entries[offset + i] == cli_env@[i]@);
    assert(cli_env@[i]@ == key + seq!['='] + value);
    assert forall|k: int| offset + i < k < entries.len() implies (env_entry(
        #[trigger] entries[k],
    ) matches Some((other, _)) ==> other != (env_entry(entries[offset + i])->0).0) by {
        assert(entries[k] == cli_env@[k - offset]@);
    }
    lemma_last_entry_counts(entries, offset + i);
    let map = env_map(entries);
    let texts = r->Ok_0.deep_view();
    text::lemma_list(r->Ok_0);
    let keys = choose|keys: Seq<Seq<char>>|
        {
            &&& #[trigger] text_map::is_sorted(keys)
            &&& keys.len() == texts.len()
            &&& forall|k: Seq<char>| #[trigger] keys.contains(k) <==> map.dom().contains(k)
            &&& forall|j: int|
                0 <= j < texts.len() ==> #[trigger] texts[j] == keys[j] + "="@ + map[keys[j]]
        };
    assert(keys.contains(key));
    let at = choose|at: int| 0 <= at < keys.len() && keys[at] == key;
    assert(texts[at] == keys[at] + "="@ + map[keys[at]]);
    at
}

proof fn lemma_file_entry(lines: Seq<Seq<char>>, i: int) -> (at: int)
    requires
        0 <= i < lines.len(),
        counts(lines[i]),
    ensures
        0 <= at < file_entries(lines).len(),
        file_entries(lines)[at] == text::trimmed(lines[i]),
    decreases lines.len(),
{
    if i == lines.len() - 1 {
        file_entries(lines.drop_last()).len() as int
    } else {
        lemma_file_entry(lines.drop_last(), i)
    }
}

/// Every line of a file of variables counts that is neither empty nor a comment, without
/// the white space around it: where one of them is no variable, the file is refused.
pub proof fn law_lines_of_a_file_count(
    path: String,
    content: String,
    r: Result<Vec<String>, CliError>,
    cli_env: Vec<String>,
    i: int,
)
    requires
        call_ensures(
            parse_extra_env_vars,
            (&cli_env, Some(EnvFile { path, content: Ok(content) })),
            r,
        ),
        0 <= i < text::split(content@, '\n').len(),
        ({
            let line = text::trimmed(text::split(content@, '\n')[i]);
            line.len() > 0 && line[0] != '#'
        }),
        r is Ok,
    ensures
        text::trimmed(text::split(content@, '\n')[i]).contains('='),
        text::trimmed(text::split(content@, '\n')[i])[0] != '=',
{
    let lines = text::split(content@, '\n');
    let at = lemma_file_entry(lines, i);
    let entries = all_entries(Some(content@), cli_env.deep_view());
    let line = text::trimmed(lines[i]);
    assert(entries[at] == line);
    assert(env_entry(entries[at]) is Some);
    text::lemma_split_once_parts(line, '=');
}

/// A file that cannot be read is reported with its path and why.
pub proof fn law_unreadable_file_is_reported(
    cli_env: Vec<String>,
    path: String,
    cause: String,
    r: Result<Vec<String>, CliError>,
)
    requires
        call_ensures(
            parse_extra_env_vars,
            (&cli_env, Some(EnvFile { path, content: Err(cause) })),
            r,
        ),
    ensures
        r matches Err(CliError::EnvFileRead { path: told, message }) && told@ == path@ && message@
            == cause@,
{
}

/// The user that is given is meant, or else the only one that is configured; otherwise
/// nobody is.
pub proof fn law_given_user_is_meant(
    user_id: Option<String>,
    users: TextMap<String>,
    r: Result<String, CliError>,
)
    requires
        call_ensures(resolve_user_id, (user_id, &users), r),
    ensures
        user_id matches Some(given) ==> (r matches Ok(meant) && meant@ == given@),
        user_id is None ==> (r is Ok <==> users.entries@.len() == 1),
        user_id is None ==> (r matches Ok(meant) ==> meant@ == users.entries@[0].0@),
{
}

/// A command goes before a terminal, and a terminal before a session; each does what it is
/// called.
pub proof fn law_program_does_what_it_is_told(args: CliArgs, mode: RunMode)
    requires
        call_ensures(run_mode, (&args,), mode),
    ensures
        args.command matches Some(CliCommand::Catalog { action }) ==> mode == (RunMode::Catalog {
            action,
        }),
        args.command == Some(CliCommand::Start) ==> mode == (RunMode::Lifecycle {
            lifecycle: LifecycleAction::Start,
        }),
        args.command == Some(CliCommand::Stop) ==> mode == (RunMode::Lifecycle {
            lifecycle: LifecycleAction::Stop,
        }),
        args.command == Some(CliCommand::Status) ==> mode == (RunMode::Lifecycle {
            lifecycle: LifecycleAction::Status,
        }),
        args.command == Some(CliCommand::Restart) ==> mode == (RunMode::Lifecycle {
            lifecycle: LifecycleAction::Restart,
        }),
        args.command is None && args.tui ==> mode == (RunMode::Connect { probe: args.probe }),
        args.command is None && !args.tui ==> mode == (RunMode::Session { daemon: args.daemon }),
{
}

/// What is printed of a user who was started tells who they are, their tier, their
/// workspace, the tools, every reason for what is missing and every warning.
pub proof fn law_start_is_printed(startup: RunnerStartup, lines: Vec<String>, i: int)
    requires
        call_ensures(print_startup_info, (&startup,), lines),
    ensures
        ({
            let reasons = startup.startup_status.degraded_reasons@;
            let warnings = startup.warnings@;
            &&& lines@.len() == 6 + reasons.len() + warnings.len()
            &&& lines@[0]@ == "user_id="@ + startup.user_id@
            &&& lines@[1]@ == "sandbox_tier="@ + (match startup.sandbox_tier {
                SandboxTier::MicroVm => "MicroVm"@,
                SandboxTier::Container => "Container"@,
                SandboxTier::Process => "Process"@,
            })
            &&& lines@[2]@ == "workspace_root="@ + startup.workspace.root@
            &&& lines@[3]@ == "shell_available="@ + (if startup.shell_available {
                "true"@
            } else {
                "false"@
            })
            &&& lines@[4]@ == "browser_available="@ + (if startup.browser_available {
                "true"@
            } else {
                "false"@
            })
            &&& lines@[5]@ == "sidecar_available="@ + (if startup.startup_status.sidecar_available {
                "true"@
            } else {
                "false"@
            })
            &&& 0 <= i < reasons.len() ==> lines@[6 + i]@ == "degraded_reason="@ + code_name(
                reasons[i].code,
            ) + ":"@ + reasons[i].detail@
            &&& 0 <= i < warnings.len() ==> lines@[6 + reasons.len() + i]@ == "warning="@
                + warnings[i]@
        }),
{
    text::lemma_list(lines);
    text::lemma_list(startup.warnings);
    let reasons = startup.startup_status.degraded_reasons;
    assert(reasons.deep_view().len() == reasons@.len());
    if 0 <= i < reasons@.len() {
        assert(reasons.deep_view()[i] == reasons@[i].deep_view());
        assert(lines.deep_view()[6 + i] == reason_lines(reasons.deep_view())[i]);
    }
    if 0 <= i < startup.warnings@.len() {
        assert(lines.deep_view()[6 + reasons@.len() + i] == warning_lines(
            startup.warnings.deep_view(),
        )[i]);
    }
}

/// The reasons for what is missing are told apart by their names.
pub proof fn law_reasons_have_their_own_names(
    one: StartupDegradedReasonCode,
    other: StartupDegradedReasonCode,
)
    ensures
        code_name(one) == code_name(other) ==> one == other,
{
    reveal_strlit("InsecureProcessTier");
    reveal_strlit("ProcessHardeningLimited");
    reveal_strlit("SidecarUnavailable");
    reveal_strlit("SidecarEndpointInvalid");
    reveal_strlit("SidecarTransportUnsupported");
    reveal_strlit("RuntimeShutdown");
    assert("InsecureProcessTier"@.len() == 19 && "ProcessHardeningLimited"@.len() == 23
        && "SidecarUnavailable"@.len() == 18 && "SidecarEndpointInvalid"@.len() == 22
        && "SidecarTransportUnsupported"@.len() == 27 && "RuntimeShutdown"@.len() == 15);
}

/// What is printed in place of connecting a terminal names whom and what it would connect
/// to, and the terminal's program is called with the same.
pub proof fn law_connection_is_printed(
    connection: RunnerTuiConnection,
    lines: Vec<String>,
    gateway: &str,
    user_id: &str,
    arguments: Vec<String>,
)
    requires
        call_ensures(connection_lines, (&connection,), lines),
        call_ensures(tui_arguments, (gateway, user_id), arguments),
    ensures
        lines@.len() == 5,
        lines@[0]@ == "mode=tui"@,
        lines@[1]@ == "user_id="@ + connection.user_id@,
        lines@[2]@ == "gateway_endpoint="@ + connection.gateway_endpoint@,
        lines@[3]@ == "session_id="@ + connection.session_id@,
        lines@[4]@ == "workspace_root="@ + connection.workspace.root@,
        arguments@.len() == 4,
        arguments@[0]@ == "--gateway-endpoint"@,
        arguments@[1]@ == gateway@,
        arguments@[2]@ == "--user"@,
        arguments@[3]@ == user_id@,
{
    text::lemma_list(lines);
    text::lemma_list(arguments);
}

/// A server that nobody reaches is not running; one that answers a request to stop is
/// quoted, and an error that it reports is handed on.
pub proof fn law_stop_tells_what_the_server_says(
    user_id: &str,
    response: Option<Result<RunnerControlResponse, RunnerControlTransportError>>,
    r: Result<Vec<String>, CliError>,
)
    requires
        call_ensures(server_stop, (user_id, response), r),
    ensures
        response is None ==> (r matches Err(CliError::ServerNotRunning { user_id: named }) && named@
            == user_id@),
        response matches Some(Err(RunnerControlTransportError::Transport { refused, .. }))
            ==> (refused ==> (r matches Err(CliError::ServerNotRunning { user_id: named }) && named@
            == user_id@)),
        response matches Some(Ok(RunnerControlResponse::ShutdownStatus(status))) ==> (r matches Ok(
            lines,
        ) && lines@.len() >= 2 && lines@[0]@ == "user_id="@ + status.user_id@ && lines@[1]@
            == "shutdown="@ + (if status.shutdown {
            "true"@
        } else {
            "false"@
        }) && (status.already_stopped ==> lines@.len() >= 3 && lines@[2]@
            == "already_stopped=true"@) && (status.message matches Some(message)
            ==> lines@.last()@ == "message="@ + message@)),
        response matches Some(Ok(RunnerControlResponse::Error(error))) ==> (r matches Err(
            CliError::Arguments(message),
        ) && message@ == "server reported error: "@ + error.message@),
        response matches Some(Ok(RunnerControlResponse::HealthStatus(_))) ==> r is Err,
{
    if let Ok(lines) = r {
        text::lemma_list(lines);
    }
}

/// The state of a server is printed as it says: whose it is, whether it is healthy, its
/// tier, its tools, and every reason for what is missing.
pub proof fn law_status_tells_what_the_server_says(
    user_id: &str,
    response: RunnerControlResponse,
    r: Result<Vec<String>, CliError>,
    i: int,
)
    requires
        call_ensures(server_status, (user_id, Some(Ok(response))), r),
    ensures
        response matches RunnerControlResponse::HealthStatus(status) ==> {
            let word = |value: bool|
                if value {
                    "true"@
                } else {
                    "false"@
                };
            let reasons = status.startup_status.degraded_reasons@;
            &&& r is Ok
            &&& r->Ok_0@.len() >= 7 + reasons.len()
            &&& r->Ok_0@[0]@ == "user_id="@ + status.user_id@
            &&& r->Ok_0@[1]@ == "healthy="@ + word(status.healthy)
            &&& r->Ok_0@[3]@ == "shell_available="@ + word(status.shell_available)
            &&& r->Ok_0@[4]@ == "browser_available="@ + word(status.browser_available)
            &&& r->Ok_0@[5]@ == "sidecar_available="@ + word(
                status.startup_status.sidecar_available,
            )
            &&& r->Ok_0@[6]@ == "shutdown="@ + word(status.shutdown)
            &&& status.message matches Some(message) ==> r->Ok_0@.len() > 7 && r->Ok_0@[7]@
                == "message="@ + message@
            &&& 0 <= i < reasons.len() ==> r->Ok_0@[r->Ok_0@.len() - reasons.len() + i]@
                == "degraded_reason="@ + code_name(reasons[i].code) + ":"@ + reasons[i].detail@
        },
        !(response is HealthStatus) ==> r is Err,
{
    if let RunnerControlResponse::HealthStatus(status) = response {
        let lines = r->Ok_0;
        text::lemma_list(lines);
        let reasons = status.startup_status.degraded_reasons;
        assert(reasons.deep_view().len() == reasons@.len());
        if 0 <= i < reasons@.len() {
            assert(reasons.deep_view()[i] == reasons@[i].deep_view());
            assert(lines.deep_view()[lines@.len() - reasons@.len() + i] == reason_lines(
                reasons.deep_view(),
            )[i]);
        }
    }
}

/// A restart says whom it stopped, or what went wrong with that, and is silent where
/// nobody ran.
pub proof fn law_restart_says_what_it_stopped(
    response: Result<RunnerControlResponse, RunnerControlTransportError>,
    notice: RestartNotice,
)
    requires
        call_ensures(server_restart, (response,), notice),
    ensures
        response matches Ok(RunnerControlResponse::ShutdownStatus(status)) ==> (status.shutdown
            ==> (notice matches RestartNotice::Said(line) && text::stands_in(
            line@,
            status.user_id@,
        ))),
        response matches Ok(RunnerControlResponse::Error(error)) ==> (
        notice matches RestartNotice::Warned(line) && text::stands_in(line@, error.message@)),
        response matches Err(RunnerControlTransportError::Transport { refused, .. }) ==> (refused
            ==> notice is Nothing),
{
    if let Ok(RunnerControlResponse::ShutdownStatus(status)) = response {
        if status.shutdown {
            text::law_text_stands_between(
                "stopped previous server for user `"@,
                status.user_id@,
                "`"@,
            );
        }
    }
    if let Ok(RunnerControlResponse::Error(error)) = response {
        text::law_text_stands_between(
            "warning: shutdown reported error: "@,
            error.message@,
            "; proceeding with restart"@,
        );
    }
}

/// A gateway's address is found as soon as one is left, and given up after thirty seconds;
/// a control socket that stays is removed after ten.
pub proof fn law_waits_come_to_an_end(
    directory: &str,
    content: Option<&str>,
    elapsed: u64,
    address: EndpointWait,
    present: bool,
    socket: SocketWait,
)
    requires
        call_ensures(wait_for_gateway_endpoint, (directory, content, elapsed), address),
        call_ensures(wait_for_socket_removal, (present, elapsed), socket),
    ensures
        ({
            let left = content matches Some(raw) && text::trimmed(raw@).len() > 0;
            &&& left ==> (address matches EndpointWait::Found(found) && found@ == text::trimmed(
                content->0@,
            ))
            &&& !left ==> (address is TimedOut <==> elapsed >= 30000)
            &&& !left ==> (address is Again <==> elapsed < 30000)
        }),
        socket == SocketWait::Gone <==> !present,
        socket == SocketWait::Remove <==> present && elapsed >= 10000,
        socket == SocketWait::Again <==> present && elapsed < 10000,
{
}

/// The terminal's program is the first candidate that is there, one in each directory.
pub proof fn law_first_terminal_is_used(
    directories: Vec<String>,
    candidates: Vec<String>,
    found: Vec<(String, bool)>,
    r: Result<String, CliError>,
    i: int,
)
    requires
        call_ensures(tui_candidates, (&directories,), candidates),
        call_ensures(which_tui_binary, (found,), r),
    ensures
        candidates@.len() == directories@.len(),
        0 <= i < directories@.len() ==> candidates@[i]@ == paths::joined_path(
            directories@[i]@,
            "oxydra-tui"@,
        ),
        0 <= i < found@.len() && found@[i].1 && (forall|k: int|
            0 <= k < i ==> !(#[trigger] found@[k]).1) ==> (r matches Ok(path) ==> path@
            == found@[i].0@),
{
    if 0 <= i < found@.len() && found@[i].1 && (forall|k: int|
        0 <= k < i ==> !(#[trigger] found@[k]).1) && r is Ok {
        let at = choose|at: int|
            {
                &&& 0 <= at < found@.len()
                &&& (#[trigger] found@[at]).1
                &&& found@[at].0@ == r->Ok_0@
                &&& forall|k: int| 0 <= k < at ==> !(#[trigger] found@[k]).1
            };
        if at < i {
            assert(!found@[at].1);
        }
        if i < at {
            assert(!found@[i].1);
        }
    }
}

/// A terminal that ended well is no error, and any other is, with its code or the word for
/// a signal.
pub proof fn law_failed_terminal_is_an_error(
    success: bool,
    code: Option<i32>,
    r: Result<(), CliError>,
    valid: bool,
    verified: Result<(), CliError>,
)
    requires
        call_ensures(tui_exit, (success, code), r),
        call_ensures(handle_catalog_verified, (valid,), verified),
    ensures
        r is Ok <==> success,
        code matches Some(n) ==> (n >= 0 && !success ==> (r matches Err(CliError::Arguments(message))
            && message@ == "oxydra-tui exited with "@ + text::decimal(n as nat))),
        code is None && !success ==> (r matches Err(CliError::Arguments(message)) && message@
            == "oxydra-tui exited with "@ + "signal"@),
        verified is Ok <==> valid,
{
}

/// The text of an error of the program says whom and what it is about; one that passes on
/// another reads as that one.
pub proof fn law_errors_of_the_program_say_why(error: CliError, r: String)
    requires
        call_ensures(CliError::to_text, (&error,), r),
    ensures
        match error {
            CliError::Arguments(message) => r@ == message@,
            CliError::Runner(inner) => r@ == sandbox::error_text(inner),
            CliError::ControlTransport(inner) => r@ == inner.text(),
            CliError::Catalog { message } => {
                &&& text::stands_in(r@, message@)
            },
            CliError::TuiBinaryNotFound { binary } => {
                &&& text::stands_in(r@, binary@)
            },
            CliError::TuiLaunchFailed { binary, message } => {
                &&& text::stands_in(r@, binary@)
                &&& text::stands_in(r@, message@)
            },
            CliError::GatewayEndpointTimeout { path, timeout_secs } => {
                &&& text::stands_in(r@, path@)
                &&& text::stands_in(r@, text::decimal(timeout_secs as nat))
            },
            CliError::InvalidEnvVar { value } => {
                &&& text::stands_in(r@, value@)
            },
            CliError::EnvFileRead { path, message } => {
                &&& text::stands_in(r@, path@)
                &&& text::stands_in(r@, message@)
            },
            CliError::ServerNotRunning { user_id } => {
                &&& text::stands_in(r@, user_id@)
            },
            CliError::ServerStopTimeout { user_id, socket_path, timeout_secs } => {
                &&& text::stands_in(r@, user_id@)
                &&& text::stands_in(r@, socket_path@)
                &&& text::stands_in(r@, text::decimal(timeout_secs as nat))
            },
        },
{
    text::lemma_parts_stand_in();
}

/// A server that refuses the connection is not running, and any other failure of the
/// connection is handed on; a server that does not go away in ten seconds is reported.
pub proof fn law_unreachable_server_is_reported(
    user_id: &str,
    error: RunnerControlTransportError,
    r: CliError,
    present: bool,
    socket_path: &str,
    gone: Result<(), CliError>,
)
    requires
        call_ensures(control_failure, (user_id, error), r),
        call_ensures(socket_removed, (present, user_id, socket_path), gone),
    ensures
        (error matches RunnerControlTransportError::Transport { refused, .. } && refused) ==> (
        r matches CliError::ServerNotRunning { user_id: named } && named@ == user_id@),
        !(error matches RunnerControlTransportError::Transport { refused, .. } && refused) ==> (
        r matches CliError::ControlTransport(inner) && inner == error),
        gone is Ok <==> !present,
        gone matches Err(failure) ==> (failure matches CliError::ServerStopTimeout {
            user_id: named,
            socket_path: told,
            timeout_secs,
        } && named@ == user_id@ && told@ == socket_path@ && timeout_secs == 10),
{
}

} // verus!
