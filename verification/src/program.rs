//! A guest's program from its start to its end, step by step: how its parts are put
//! together, and how its gateway is opened, announced and closed.

use crate::arguments::OxydraVmArgs;
use crate::bootstrap;
use crate::bootstrap::{
    scheduler_state, validate_agents, vm_workspace_root, AgentDefinition, BootstrapError,
    SchedulerState,
};
use crate::control;
use crate::environment;
use crate::environment::{build_system_prompt, paths_to_scrub};
use crate::paths;
use crate::startup::RunnerBootstrapEnvelope;
use crate::text;
use crate::text::concat;
use crate::vm::{
    bootstrap_frame_from_file, bootstrap_source, gateway_marker, read_bootstrap_frame_from_reader,
    telegram_token, BootstrapSource, GatewayMarker, VmError,
};
use vstd::prelude::*;

verus! {

/// What a guest is told of its Telegram bot.
#[derive(Debug, PartialEq, Eq)]
pub struct TelegramSetup {
    pub enabled: bool,
    /// The variable that should hold the bot's token.
    pub bot_token_env: Option<String>,
    /// What that variable holds.
    pub token: Option<String>,
}

/// What the parts of a guest have found, once they are put together.
#[derive(Debug, PartialEq, Eq)]
pub struct GuestSetup {
    pub has_agents: bool,
    pub has_session_store: bool,
    pub has_scheduler_store: bool,
    pub telegram: Option<TelegramSetup>,
}

/// What runs in a guest beside its gateway.
#[derive(Debug, PartialEq, Eq)]
pub struct GuestServices {
    /// Work can be handed to other agents.
    pub delegation: bool,
    /// Sessions outlive the program.
    pub keeps_sessions: bool,
    pub scheduler: bool,
    /// The token with which messages are sent that nobody asked for.
    pub sender: Option<String>,
    /// The token with which the bot speaks, or why it does not run.
    pub telegram: Option<Result<String, String>>,
}

/// A bot that is wanted has that token, or none for that reason.
pub open spec fn bot_has(
    telegram: TelegramSetup,
    has_session_store: bool,
    result: Result<String, String>,
) -> bool {
    match (telegram.bot_token_env, telegram.token) {
        (None, _) => result matches Err(error) && error@
            == "telegram.bot_token_env is not configured"@,
        (Some(name), None) => result matches Err(error) && error@ == "environment variable `"@
            + name@ + "` for telegram bot token is not set"@,
        (Some(_), Some(token)) => if has_session_store {
            result matches Ok(t) && t@ == token@
        } else {
            result matches Err(error) && error@
                == "session store is required for telegram adapter but memory backend is not available"@
        },
    }
}

/// These services run in a guest with that setup.
pub open spec fn services_fit(setup: GuestSetup, services: GuestServices) -> bool {
    &&& services.delegation == setup.has_agents
    &&& services.keeps_sessions == setup.has_session_store
    &&& services.scheduler == setup.has_scheduler_store
    &&& match setup.telegram {
        Some(telegram) => if telegram.enabled {
            &&& services.sender.deep_view() == if telegram.bot_token_env is Some {
                telegram.token.deep_view()
            } else {
                None
            }
            &&& services.telegram matches Some(result) && bot_has(
                telegram,
                setup.has_session_store,
                result,
            )
        } else {
            services.sender is None && services.telegram is None
        },
        None => services.sender is None && services.telegram is None,
    }
}

/// What runs in a guest beside its gateway.
pub fn guest_services(setup: GuestSetup) -> (r: GuestServices)
    ensures
        services_fit(setup, r),
{
    let mut sender: Option<String> = None;
    let mut telegram: Option<Result<String, String>> = None;
    if let Some(bot) = setup.telegram {
        if bot.enabled {
            let name = match &bot.bot_token_env {
                Some(name) => Some(name.as_str()),
                None => None,
            };
            sender = match (&bot.bot_token_env, &bot.token) {
                (Some(_), Some(token)) => Some(token.clone()),
                _ => None,
            };
            telegram = Some(telegram_token(name, bot.token, setup.has_session_store));
        }
    }
    GuestServices {
        delegation: setup.has_agents,
        keeps_sessions: setup.has_session_store,
        scheduler: setup.has_scheduler_store,
        sender,
        telegram,
    }
}

/// How far a guest's program is.
#[derive(Debug, PartialEq, Eq)]
pub enum VmStage {
    Begin,
    /// The start-up data is being read.
    Frame,
    /// The parts are being put together.
    Runtime,
    Listener,
    Address,
    Directory { marker: GatewayMarker },
    Marker { path: String },
    Serving { path: String },
    Cleanup,
    Over,
}

/// What happens in a guest's program.
#[derive(Debug, PartialEq, Eq)]
pub enum VmEvent {
    Done,
    Failed(String),
    /// What came in on the standard input before it ended.
    Received(Vec<u8>),
    /// What came in on the standard input before it could not be read any further.
    Broken { received: Vec<u8>, error: String },
    /// What the file with the start-up data holds.
    FileRead(Result<Vec<u8>, String>),
    /// The parts are put together.
    Ready(GuestSetup),
    /// Where the gateway listens.
    ListensAt(String),
}

/// What a guest's program does next.
#[derive(Debug, PartialEq, Eq)]
pub enum VmAction {
    ReadStdin,
    ReadFile { path: String },
    /// Put the parts together, out of that start-up data.
    Bootstrap { frame: Option<Vec<u8>>, workspace_root: String },
    /// Start the services, and listen at that address.
    Listen { services: GuestServices, address: String },
    AskAddress,
    MakeDirectory { path: String },
    WriteMarker { path: String, content: String },
    /// Serve until the program is told to end.
    Serve,
    RemoveMarker { path: String },
    Finish,
    Fail(VmError),
    Nothing,
}

/// A frame that comes in whole is handed on, any other is an error, which says why no
/// more came.
pub open spec fn frame_follows(
    args: OxydraVmArgs,
    received: Seq<u8>,
    failure: Seq<char>,
    next: VmStage,
    action: VmAction,
) -> bool {
    let length = control::number_of(received[0], received[1], received[2], received[3]);
    if received.len() >= 4 && received.len() >= 4 + length {
        &&& next is Runtime
        &&& action matches VmAction::Bootstrap { frame: Some(frame), workspace_root }
            && frame@ == received.take(4 + length as int) && workspace_root@
            == args.workspace_root@
    } else {
        &&& next is Over
        &&& action matches VmAction::Fail(VmError::ReadBootstrapFrame { stage, message })
            && message@ == failure && stage@ == if received.len() < 4 {
            "length prefix"@
        } else {
            "payload"@
        }
    }
}

/// What a file holds is framed and handed on; a file that cannot be read or framed is an
/// error.
pub open spec fn file_follows(
    args: OxydraVmArgs,
    path: Seq<char>,
    content: Result<Vec<u8>, String>,
    next: VmStage,
    action: VmAction,
) -> bool {
    if content is Ok && content->Ok_0@.len() < 0x1_0000_0000 {
        &&& next is Runtime
        &&& action matches VmAction::Bootstrap { frame: Some(frame), workspace_root }
            && frame@ == control::frame_of(content->Ok_0@) && workspace_root@
            == args.workspace_root@
    } else {
        &&& next is Over
        &&& action matches VmAction::Fail(VmError::ReadBootstrapFile { path: p, message })
            && p@ == path && message@ == match content {
            Ok(_) => "bootstrap file too large"@,
            Err(error) => error@,
        }
    }
}

/// How a guest's program goes on, given what happens.
pub open spec fn vm_follows(
    args: OxydraVmArgs,
    stage: VmStage,
    event: VmEvent,
    next: VmStage,
    action: VmAction,
) -> bool {
    match (stage, event) {
        (VmStage::Begin, VmEvent::Done) => if text::trimmed(args.user_id@).len() == 0 {
            next is Over && action matches VmAction::Fail(VmError::InvalidUserId)
        } else if args.bootstrap_stdin {
            next is Frame && action is ReadStdin
        } else if args.bootstrap_file is Some {
            next is Frame && (action matches VmAction::ReadFile { path } && path@
                == args.bootstrap_file->0@)
        } else {
            next is Runtime && (action matches VmAction::Bootstrap { frame, workspace_root }
                && frame is None && workspace_root@ == args.workspace_root@)
        },
        (VmStage::Frame, VmEvent::Received(received)) => frame_follows(
            args,
            received@,
            "failed to fill whole buffer"@,
            next,
            action,
        ),
        (VmStage::Frame, VmEvent::Broken { received, error }) => frame_follows(
            args,
            received@,
            error@,
            next,
            action,
        ),
        (VmStage::Frame, VmEvent::FileRead(content)) => if args.bootstrap_file is Some {
            file_follows(args, args.bootstrap_file->0@, content, next, action)
        } else {
            next is Frame && action is Nothing
        },
        (VmStage::Runtime, VmEvent::Ready(setup)) => {
            &&& next is Listener
            &&& action matches VmAction::Listen { services, address } && services_fit(
                setup,
                services,
            ) && address@ == args.gateway_bind@
        },
        (VmStage::Runtime, VmEvent::Failed(error)) => {
            &&& next is Over
            &&& action matches VmAction::Fail(VmError::Bootstrap { message }) && message@ == error@
        },
        (VmStage::Listener, VmEvent::Done) => next is Address && action is AskAddress,
        (VmStage::Listener, VmEvent::Failed(error)) => {
            &&& next is Over
            &&& action matches VmAction::Fail(VmError::BindGateway { address, message })
                && address@ == args.gateway_bind@ && message@ == error@
        },
        (VmStage::Address, VmEvent::ListensAt(address)) => {
            let directory = paths::joined_path(args.workspace_root@, "ipc"@);
            &&& next matches VmStage::Directory { marker } && marker.directory@ == directory
                && marker.path@ == paths::joined_path(directory, "gateway-endpoint"@)
                && marker.content@ == "ws://"@ + address@ + "/ws"@
            &&& action matches VmAction::MakeDirectory { path } && path@ == directory
        },
        (VmStage::Address, VmEvent::Failed(error)) => {
            &&& next is Over
            &&& action matches VmAction::Fail(VmError::GatewayAddress { message }) && message@
                == error@
        },
        (VmStage::Directory { marker }, VmEvent::Done) => {
            &&& next matches VmStage::Marker { path } && path@ == marker.path@
            &&& action matches VmAction::WriteMarker { path, content } && path@ == marker.path@
                && content@ == marker.content@
        },
        (VmStage::Directory { marker }, VmEvent::Failed(error)) => {
            &&& next is Over
            &&& action matches VmAction::Fail(VmError::GatewayMarkerWrite { path, message })
                && path@ == marker.directory@ && message@ == error@
        },
        (VmStage::Marker { path }, VmEvent::Done) => {
            &&& next matches VmStage::Serving { path: p } && p@ == path@
            &&& action is Serve
        },
        (VmStage::Marker { path }, VmEvent::Failed(error)) => {
            &&& next is Over
            &&& action matches VmAction::Fail(VmError::GatewayMarkerWrite { path: p, message })
                && p@ == path@ && message@ == error@
        },
        (VmStage::Serving { path }, VmEvent::Done) => {
            &&& next is Cleanup
            &&& action matches VmAction::RemoveMarker { path: p } && p@ == path@
        },
        (VmStage::Serving { path }, VmEvent::Failed(error)) => {
            &&& next is Over
            &&& action matches VmAction::Fail(VmError::ServeGateway { message }) && message@
                == error@
        },
        (VmStage::Cleanup, VmEvent::Done) => next is Over && action is Finish,
        (VmStage::Cleanup, VmEvent::Failed(_)) => next is Over && action is Finish,
        _ => next == stage && action is Nothing,
    }
}

fn begin(args: &OxydraVmArgs) -> (r: (VmStage, VmAction))
    ensures
        vm_follows(*args, VmStage::Begin, VmEvent::Done, r.0, r.1),
{
    match bootstrap_source(args) {
        Err(error) => (VmStage::Over, VmAction::Fail(error)),
        Ok(BootstrapSource::Stdin) => (VmStage::Frame, VmAction::ReadStdin),
        Ok(BootstrapSource::File(path)) => (VmStage::Frame, VmAction::ReadFile { path }),
        Ok(BootstrapSource::Nowhere) => (
            VmStage::Runtime,
            VmAction::Bootstrap { frame: None, workspace_root: args.workspace_root.clone() },
        ),
    }
}

fn take_frame(args: &OxydraVmArgs, frame: Result<Vec<u8>, VmError>) -> (r: (VmStage, VmAction))
    ensures
        match frame {
            Ok(bytes) => {
                &&& r.0 is Runtime
                &&& r.1 matches VmAction::Bootstrap { frame: Some(f), workspace_root } && f@
                    == bytes@ && workspace_root@ == args.workspace_root@
            },
            Err(error) => r.0 is Over && r.1 == VmAction::Fail(error),
        },
{
    match frame {
        Ok(bytes) => (
            VmStage::Runtime,
            VmAction::Bootstrap { frame: Some(bytes), workspace_root: args.workspace_root.clone() },
        ),
        Err(error) => (VmStage::Over, VmAction::Fail(error)),
    }
}

fn take_broken(args: &OxydraVmArgs, received: Vec<u8>, error: String) -> (r: (VmStage, VmAction))
    ensures
        vm_follows(*args, VmStage::Frame, VmEvent::Broken { received, error }, r.0, r.1),
{
    match read_bootstrap_frame_from_reader(received.as_slice()) {
        Err(VmError::ReadBootstrapFrame { stage, .. }) => (
            VmStage::Over,
            VmAction::Fail(VmError::ReadBootstrapFrame { stage, message: error }),
        ),
        frame => take_frame(args, frame),
    }
}

fn take_file(args: &OxydraVmArgs, content: Result<Vec<u8>, String>) -> (r: (VmStage, VmAction))
    ensures
        vm_follows(*args, VmStage::Frame, VmEvent::FileRead(content), r.0, r.1),
{
    match &args.bootstrap_file {
        Some(path) => match content {
            Ok(payload) => take_frame(
                args,
                bootstrap_frame_from_file(path.as_str(), payload.as_slice()),
            ),
            Err(message) => (
                VmStage::Over,
                VmAction::Fail(VmError::ReadBootstrapFile { path: path.clone(), message }),
            ),
        },
        None => (VmStage::Frame, VmAction::Nothing),
    }
}

/// How a guest's program goes on, given what happens: it reads its start-up data, puts
/// its parts together, opens its gateway, announces it in a file, serves, and takes the
/// file away again.
pub fn run_vm(args: &OxydraVmArgs, stage: VmStage, event: VmEvent) -> (r: (VmStage, VmAction))
    ensures
        vm_follows(*args, stage, event, r.0, r.1),
{
    match (stage, event) {
        (VmStage::Begin, VmEvent::Done) => begin(args),
        (VmStage::Frame, VmEvent::Received(received)) => take_frame(
            args,
            read_bootstrap_frame_from_reader(received.as_slice()),
        ),
        (VmStage::Frame, VmEvent::Broken { received, error }) => take_broken(args, received, error),
        (VmStage::Frame, VmEvent::FileRead(content)) => take_file(args, content),
        (VmStage::Runtime, VmEvent::Ready(setup)) => (
            VmStage::Listener,
            VmAction::Listen {
                services: guest_services(setup),
                address: args.gateway_bind.clone(),
            },
        ),
        (VmStage::Runtime, VmEvent::Failed(message)) => (
            VmStage::Over,
            VmAction::Fail(VmError::Bootstrap { message }),
        ),
        (VmStage::Listener, VmEvent::Done) => (VmStage::Address, VmAction::AskAddress),
        (VmStage::Listener, VmEvent::Failed(message)) => (
            VmStage::Over,
            VmAction::Fail(
                VmError::BindGateway { address: args.gateway_bind.clone(), message },
            ),
        ),
        (VmStage::Address, VmEvent::ListensAt(address)) => {
            let marker = gateway_marker(args.workspace_root.as_str(), address.as_str());
            let path = marker.directory.clone();
            (VmStage::Directory { marker }, VmAction::MakeDirectory { path })
        },
        (VmStage::Address, VmEvent::Failed(message)) => (
            VmStage::Over,
            VmAction::Fail(VmError::GatewayAddress { message }),
        ),
        (VmStage::Directory { marker }, VmEvent::Done) => {
            let path = marker.path.clone();
            (
                VmStage::Marker { path },
                VmAction::WriteMarker { path: marker.path, content: marker.content },
            )
        },
        (VmStage::Directory { marker }, VmEvent::Failed(message)) => (
            VmStage::Over,
            VmAction::Fail(VmError::GatewayMarkerWrite { path: marker.directory, message }),
        ),
        (VmStage::Marker { path }, VmEvent::Done) => (VmStage::Serving { path }, VmAction::Serve),
        (VmStage::Marker { path }, VmEvent::Failed(message)) => (
            VmStage::Over,
            VmAction::Fail(VmError::GatewayMarkerWrite { path, message }),
        ),
        (VmStage::Serving { path }, VmEvent::Done) => (
            VmStage::Cleanup,
            VmAction::RemoveMarker { path },
        ),
        (VmStage::Serving { .. }, VmEvent::Failed(message)) => (
            VmStage::Over,
            VmAction::Fail(VmError::ServeGateway { message }),
        ),
        (VmStage::Cleanup, VmEvent::Done) => (VmStage::Over, VmAction::Finish),
        (VmStage::Cleanup, VmEvent::Failed(_)) => (VmStage::Over, VmAction::Finish),
        (stage, _) => (stage, VmAction::Nothing),
    }
}

/// How many steps a guest's program still takes at most.
pub open spec fn vm_steps_left(stage: VmStage) -> nat {
    match stage {
        VmStage::Begin => 9,
        VmStage::Frame => 8,
        VmStage::Runtime => 7,
        VmStage::Listener => 6,
        VmStage::Address => 5,
        VmStage::Directory { .. } => 4,
        VmStage::Marker { .. } => 3,
        VmStage::Serving { .. } => 2,
        VmStage::Cleanup => 1,
        VmStage::Over => 0,
    }
}

/// Whatever has a place in a guest's program brings it nearer to its end, and it ends in
/// success or with an error, and with nothing else.
pub proof fn law_vm_run_ends(
    args: OxydraVmArgs,
    stage: VmStage,
    event: VmEvent,
    next: VmStage,
    action: VmAction,
)
    requires
        vm_follows(args, stage, event, next, action),
        action !is Nothing,
    ensures
        vm_steps_left(next) < vm_steps_left(stage),
        next is Over <==> action is Finish || action is Fail,
{
}

/// The file that announces a gateway is written only once the gateway listens, and the
/// file that is taken away in the end is the one that was written.
pub proof fn law_marker_is_taken_away(
    args: OxydraVmArgs,
    directory: VmStage,
    written: VmStage,
    write: VmAction,
    serving: VmStage,
    serve: VmAction,
    last: VmStage,
    remove: VmAction,
)
    requires
        vm_follows(args, directory, VmEvent::Done, written, write),
        write is WriteMarker,
        vm_follows(args, written, VmEvent::Done, serving, serve),
        vm_follows(args, serving, VmEvent::Done, last, remove),
    ensures
        directory is Directory,
        serve is Serve,
        remove is RemoveMarker,
        remove->RemoveMarker_path@ == write->WriteMarker_path@,
{
}

/// What a guest's configuration says that its start depends on.
#[derive(Debug, PartialEq, Eq)]
pub struct GuestConfig {
    /// The web is searched in a way that is configured.
    pub has_web_search: bool,
    pub scheduler_enabled: bool,
    /// The providers that are registered.
    pub providers: Vec<String>,
}

/// How far the parts of a guest are put together.
#[derive(Debug, PartialEq, Eq)]
pub enum AssemblyStage {
    Begin { frame: Option<Vec<u8>> },
    Envelope,
    Config,
    Provider { config: GuestConfig },
    Memory { config: GuestConfig },
    Tools { config: GuestConfig },
    Scheduler { config: GuestConfig },
    Agents { config: GuestConfig },
    Sessions,
    Over,
}

/// The parts of a guest, as far as they are put together.
#[derive(Debug, PartialEq, Eq)]
pub struct Assembly {
    pub stage: AssemblyStage,
    /// The workspace that the command line names.
    pub cli_workspace_root: Option<String>,
    pub bootstrap: Option<RunnerBootstrapEnvelope>,
    pub has_memory: bool,
    pub scheduler: bool,
}

/// What happens while the parts of a guest are put together.
#[derive(Debug, PartialEq, Eq)]
pub enum AssemblyEvent {
    Done,
    Failed(BootstrapError),
    /// The start-up data, or what is wrong with it.
    Decoded(Result<RunnerBootstrapEnvelope, String>),
    Loaded(GuestConfig),
    /// The agent remembers, or it is not meant to.
    Memory { built: bool },
    /// A connection to what the agent remembers, or why there is none.
    Connected(Result<(), String>),
    /// The agents that work can be handed to, and the tools that there are.
    AgentsFound { agents: Vec<AgentDefinition>, tools: Vec<String> },
}

/// What is put together next.
#[derive(Debug, PartialEq, Eq)]
pub enum AssemblyAction {
    Decode { frame: Vec<u8> },
    LoadConfig,
    /// Build the provider; `web_search` says that its settings go into the environment
    /// before.
    BuildProvider { web_search: bool },
    BuildMemory { workspace_root: Option<String> },
    /// Build the tools, those that remember among them.
    BuildTools { memory_tools: bool },
    ConnectScheduler,
    /// Find the agents; `scheduler_tools` says that the tools that schedule tasks are
    /// registered before, and `warning` what is to be said.
    FindAgents { scheduler_tools: bool, warning: Option<String> },
    ConnectSessions,
    Assembled { sessions: bool, warning: Option<String> },
    Fail(BootstrapError),
    Nothing,
}

/// The workspace that counts.
pub open spec fn root_of(assembly: Assembly) -> Option<Seq<char>> {
    match assembly.cli_workspace_root {
        Some(root) => Some(root@),
        None => match assembly.bootstrap {
            Some(envelope) => Some(envelope.workspace_root@),
            None => None,
        },
    }
}

/// The assembly fails with that error.
pub open spec fn assembly_fails(
    before: Assembly,
    next: Assembly,
    action: AssemblyAction,
    error: BootstrapError,
) -> bool {
    next.stage is Over && same_parts(before, next) && action == AssemblyAction::Fail(error)
}

/// Nothing but the stage has changed.
pub open spec fn same_parts(before: Assembly, after: Assembly) -> bool {
    &&& after.cli_workspace_root == before.cli_workspace_root
    &&& after.bootstrap == before.bootstrap
    &&& after.has_memory == before.has_memory
    &&& after.scheduler == before.scheduler
}

/// Whether tasks can be scheduled, given what came of connecting to what the agent
/// remembers.
pub open spec fn schedules(enabled: bool, connection: Option<Result<(), String>>) -> bool {
    enabled && connection is Some && connection->0 is Ok
}

/// What is to be said where tasks cannot be scheduled that should be.
pub open spec fn schedule_warning(enabled: bool, connection: Option<Result<(), String>>) -> Option<
    Seq<char>,
> {
    match (enabled, connection) {
        (true, Some(Err(error))) => Some(
            "failed to create scheduler store; scheduler disabled: "@ + error@,
        ),
        (true, None) => Some(
            "scheduler enabled but memory backend is not available; scheduler disabled"@,
        ),
        _ => None,
    }
}

/// What follows once it is known whether tasks can be scheduled.
pub open spec fn scheduler_follows(
    before: Assembly,
    config: GuestConfig,
    connection: Option<Result<(), String>>,
    next: Assembly,
    action: AssemblyAction,
) -> bool {
    &&& next.stage == (AssemblyStage::Agents { config })
    &&& next.cli_workspace_root == before.cli_workspace_root
    &&& next.bootstrap == before.bootstrap
    &&& next.has_memory == before.has_memory
    &&& next.scheduler == schedules(config.scheduler_enabled, connection)
    &&& action matches AssemblyAction::FindAgents { scheduler_tools, warning } && scheduler_tools
        == next.scheduler && warning.deep_view() == schedule_warning(
        config.scheduler_enabled,
        connection,
    )
}

/// The agents are refused with that error, or accepted.
pub open spec fn agents_are(
    agents: Seq<AgentDefinition>,
    providers: Seq<Seq<char>>,
    tools: Seq<Seq<char>>,
    error: Option<BootstrapError>,
) -> bool {
    match error {
        None => forall|i: int|
            0 <= i < agents.len() ==> bootstrap::agent_is_valid(
                #[trigger] agents[i],
                providers,
                tools,
            ),
        Some(error) => exists|i: int|
            {
                &&& 0 <= i < agents.len()
                &&& bootstrap::agent_fails(#[trigger] agents[i], providers, tools, error)
                &&& forall|k: int|
                    0 <= k < i ==> bootstrap::agent_is_valid(
                        #[trigger] agents[k],
                        providers,
                        tools,
                    )
            },
    }
}

/// How the assembly of a guest goes on, given what happens.
pub open spec fn assembly_follows(
    assembly: Assembly,
    event: AssemblyEvent,
    next: Assembly,
    action: AssemblyAction,
) -> bool {
    match (assembly.stage, event) {
        (AssemblyStage::Begin { frame }, AssemblyEvent::Done) => {
            &&& same_parts(assembly, next)
            &&& match frame {
                Some(frame) => next.stage is Envelope && action == (AssemblyAction::Decode {
                    frame,
                }),
                None => next.stage is Config && action is LoadConfig,
            }
        },
        (AssemblyStage::Envelope, AssemblyEvent::Decoded(Ok(envelope))) => {
            &&& next.stage is Config
            &&& next.bootstrap == Some(envelope)
            &&& next.cli_workspace_root == assembly.cli_workspace_root
            &&& next.has_memory == assembly.has_memory
            &&& next.scheduler == assembly.scheduler
            &&& action is LoadConfig
        },
        (AssemblyStage::Envelope, AssemblyEvent::Decoded(Err(error))) => {
            &&& next.stage is Over
            &&& same_parts(assembly, next)
            &&& action matches AssemblyAction::Fail(BootstrapError::Bootstrap { message })
                && message@ == error@
        },
        (AssemblyStage::Config, AssemblyEvent::Loaded(config)) => {
            &&& same_parts(assembly, next)
            &&& next.stage == (AssemblyStage::Provider { config })
            &&& action == (AssemblyAction::BuildProvider { web_search: config.has_web_search })
        },
        (AssemblyStage::Provider { config }, AssemblyEvent::Done) => {
            &&& same_parts(assembly, next)
            &&& next.stage == (AssemblyStage::Memory { config })
            &&& action matches AssemblyAction::BuildMemory { workspace_root }
                && workspace_root.deep_view() == root_of(assembly)
        },
        (AssemblyStage::Memory { config }, AssemblyEvent::Memory { built }) => {
            &&& next.stage == (AssemblyStage::Tools { config })
            &&& next.cli_workspace_root == assembly.cli_workspace_root
            &&& next.bootstrap == assembly.bootstrap
            &&& next.has_memory == built
            &&& next.scheduler == assembly.scheduler
            &&& action == (AssemblyAction::BuildTools { memory_tools: built })
        },
        (AssemblyStage::Tools { config }, AssemblyEvent::Done) => if config.scheduler_enabled
            && assembly.has_memory {
            &&& same_parts(assembly, next)
            &&& next.stage == (AssemblyStage::Scheduler { config })
            &&& action is ConnectScheduler
        } else {
            scheduler_follows(assembly, config, None, next, action)
        },
        (AssemblyStage::Scheduler { config }, AssemblyEvent::Connected(outcome)) =>
            scheduler_follows(assembly, config, Some(outcome), next, action),
        (AssemblyStage::Agents { config }, AssemblyEvent::AgentsFound { agents, tools }) => if action
            is Fail {
            &&& next.stage is Over
            &&& same_parts(assembly, next)
            &&& agents_are(
                agents@,
                config.providers.deep_view(),
                tools.deep_view(),
                Some(action->Fail_0),
            )
        } else {
            &&& agents_are(agents@, config.providers.deep_view(), tools.deep_view(), None)
            &&& same_parts(assembly, next)
            &&& if assembly.has_memory {
                next.stage is Sessions && action is ConnectSessions
            } else {
                next.stage is Over && (action matches AssemblyAction::Assembled {
                    sessions,
                    warning,
                } && !sessions && warning is None)
            }
        },
        (AssemblyStage::Sessions, AssemblyEvent::Connected(outcome)) => {
            &&& same_parts(assembly, next)
            &&& next.stage is Over
            &&& action matches AssemblyAction::Assembled { sessions, warning } && match outcome {
                Ok(()) => sessions && warning is None,
                Err(error) => !sessions && (warning matches Some(said) && said@
                    == "failed to create session store; session persistence disabled: "@ + error@),
            }
        },
        (AssemblyStage::Config, AssemblyEvent::Failed(error)) => assembly_fails(
            assembly,
            next,
            action,
            error,
        ),
        (AssemblyStage::Provider { .. }, AssemblyEvent::Failed(error)) => assembly_fails(
            assembly,
            next,
            action,
            error,
        ),
        (AssemblyStage::Memory { .. }, AssemblyEvent::Failed(error)) => assembly_fails(
            assembly,
            next,
            action,
            error,
        ),
        _ => next == assembly && action is Nothing,
    }
}

/// Only what is remembered is scheduled or kept, and nothing is scheduled before that is
/// asked for.
pub open spec fn is_sound(assembly: Assembly) -> bool {
    &&& assembly.scheduler ==> assembly.has_memory
    &&& assembly.stage is Scheduler || assembly.stage is Sessions ==> assembly.has_memory
    &&& match assembly.stage {
        AssemblyStage::Agents { .. } => true,
        AssemblyStage::Sessions => true,
        AssemblyStage::Over => true,
        _ => !assembly.scheduler,
    }
}

impl Assembly {
    /// Nothing is put together yet.
    pub fn new(frame: Option<Vec<u8>>, cli_workspace_root: Option<String>) -> (r: Self)
        ensures
            r.stage == (AssemblyStage::Begin { frame }),
            r.cli_workspace_root == cli_workspace_root,
            r.bootstrap is None,
            !r.has_memory,
            !r.scheduler,
            is_sound(r),
    {
        Assembly {
            stage: AssemblyStage::Begin { frame },
            cli_workspace_root,
            bootstrap: None,
            has_memory: false,
            scheduler: false,
        }
    }

    /// The workspace that counts: that of the command line goes before that of the
    /// start-up data.
    pub fn workspace_root(&self) -> (r: Option<String>)
        ensures
            r.deep_view() == root_of(*self),
    {
        let cli = match &self.cli_workspace_root {
            Some(root) => Some(root.clone()),
            None => None,
        };
        match &self.bootstrap {
            Some(envelope) => vm_workspace_root(cli, Some(envelope)),
            None => vm_workspace_root(cli, None),
        }
    }

    fn at(self, stage: AssemblyStage) -> (r: Self)
        ensures
            r.stage == stage,
            same_parts(self, r),
    {
        Assembly { stage, ..self }
    }

    fn with_scheduler(self, config: GuestConfig, connection: Option<Result<(), String>>) -> (r: (
        Self,
        AssemblyAction,
    ))
        ensures
            scheduler_follows(self, config, connection, r.0, r.1),
    {
        let (on, warning) = match scheduler_state(config.scheduler_enabled, connection) {
            SchedulerState::Off => (false, None),
            SchedulerState::On => (true, None),
            SchedulerState::Unavailable(warning) => (false, Some(warning)),
        };
        (
            Assembly { stage: AssemblyStage::Agents { config }, scheduler: on, ..self },
            AssemblyAction::FindAgents { scheduler_tools: on, warning },
        )
    }

    /// Takes what happened, and says what is put together next.
    pub fn step(self, event: AssemblyEvent) -> (r: (Self, AssemblyAction))
        ensures
            assembly_follows(self, event, r.0, r.1),
    {
        let root = self.workspace_root();
        let Assembly { stage, cli_workspace_root, bootstrap, has_memory, scheduler } = self;
        let parts = Assembly {
            stage: AssemblyStage::Over,
            cli_workspace_root,
            bootstrap,
            has_memory,
            scheduler,
        };
        match (stage, event) {
            (AssemblyStage::Begin { frame }, AssemblyEvent::Done) => match frame {
                Some(frame) => (
                    parts.at(AssemblyStage::Envelope),
                    AssemblyAction::Decode { frame },
                ),
                None => (parts.at(AssemblyStage::Config), AssemblyAction::LoadConfig),
            },
            (AssemblyStage::Envelope, AssemblyEvent::Decoded(Ok(envelope))) => (
                Assembly { stage: AssemblyStage::Config, bootstrap: Some(envelope), ..parts },
                AssemblyAction::LoadConfig,
            ),
            (AssemblyStage::Envelope, AssemblyEvent::Decoded(Err(message))) => (
                parts,
                AssemblyAction::Fail(BootstrapError::Bootstrap { message }),
            ),
            (AssemblyStage::Config, AssemblyEvent::Loaded(config)) => {
                let web_search = config.has_web_search;
                (
                    parts.at(AssemblyStage::Provider { config }),
                    AssemblyAction::BuildProvider { web_search },
                )
            },
            (AssemblyStage::Provider { config }, AssemblyEvent::Done) => (
                parts.at(AssemblyStage::Memory { config }),
                AssemblyAction::BuildMemory { workspace_root: root },
            ),
            (AssemblyStage::Memory { config }, AssemblyEvent::Memory { built }) => (
                Assembly { stage: AssemblyStage::Tools { config }, has_memory: built, ..parts },
                AssemblyAction::BuildTools { memory_tools: built },
            ),
            (AssemblyStage::Tools { config }, AssemblyEvent::Done) => if config.scheduler_enabled
                && has_memory {
                (
                    parts.at(AssemblyStage::Scheduler { config }),
                    AssemblyAction::ConnectScheduler,
                )
            } else {
                parts.with_scheduler(config, None)
            },
            (AssemblyStage::Scheduler { config }, AssemblyEvent::Connected(outcome)) =>
                parts.with_scheduler(config, Some(outcome)),
            (AssemblyStage::Agents { config }, AssemblyEvent::AgentsFound { agents, tools }) => {
                match validate_agents(&agents, &config.providers, &tools) {
                    Err(error) => (parts, AssemblyAction::Fail(error)),
                    Ok(()) => if has_memory {
                        (parts.at(AssemblyStage::Sessions), AssemblyAction::ConnectSessions)
                    } else {
                        (parts, AssemblyAction::Assembled { sessions: false, warning: None })
                    },
                }
            },
            (AssemblyStage::Sessions, AssemblyEvent::Connected(outcome)) => match outcome {
                Ok(()) => (parts, AssemblyAction::Assembled { sessions: true, warning: None }),
                Err(error) => {
                    let said = concat(
                        "failed to create session store; session persistence disabled: ",
                        error.as_str(),
                    );
                    (parts, AssemblyAction::Assembled { sessions: false, warning: Some(said) })
                },
            },
            (AssemblyStage::Config, AssemblyEvent::Failed(error)) => (
                parts,
                AssemblyAction::Fail(error),
            ),
            (AssemblyStage::Provider { config: _ }, AssemblyEvent::Failed(error)) => (
                parts,
                AssemblyAction::Fail(error),
            ),
            (AssemblyStage::Memory { config: _ }, AssemblyEvent::Failed(error)) => (
                parts,
                AssemblyAction::Fail(error),
            ),
            (stage, _) => (parts.at(stage), AssemblyAction::Nothing),
        }
    }

    /// What the model is told, once the parts are put together.
    pub fn system_prompt(&self, custom: Option<&str>) -> (r: String)
        ensures
            r@ == environment::system_prompt(
                environment::known_tier(self.bootstrap),
                self.scheduler,
                match custom {
                    Some(custom) => Some(custom@),
                    None => None,
                },
            ),
    {
        build_system_prompt(&self.bootstrap, self.scheduler, custom)
    }

    /// The paths of the host that the guest must not give away.
    pub fn scrubbed_paths(&self, current_dir: &str) -> (r: (String, String, String, String))
        ensures
            (r.0@, r.1@, r.2@, r.3@) == environment::scrubbed_paths(self.bootstrap, current_dir@),
    {
        paths_to_scrub(&self.bootstrap, current_dir)
    }
}

/// How many steps it still takes at most to put a guest together.
pub open spec fn assembly_steps_left(stage: AssemblyStage) -> nat {
    match stage {
        AssemblyStage::Begin { .. } => 9,
        AssemblyStage::Envelope => 8,
        AssemblyStage::Config => 7,
        AssemblyStage::Provider { .. } => 6,
        AssemblyStage::Memory { .. } => 5,
        AssemblyStage::Tools { .. } => 4,
        AssemblyStage::Scheduler { .. } => 3,
        AssemblyStage::Agents { .. } => 2,
        AssemblyStage::Sessions => 1,
        AssemblyStage::Over => 0,
    }
}

/// Whatever has a place in the assembly of a guest brings it nearer to its end, and it
/// ends with a guest or with an error, and with nothing else.
pub proof fn law_assembly_ends(
    assembly: Assembly,
    event: AssemblyEvent,
    next: Assembly,
    action: AssemblyAction,
)
    requires
        assembly_follows(assembly, event, next, action),
        action !is Nothing,
    ensures
        assembly_steps_left(next.stage) < assembly_steps_left(assembly.stage),
        next.stage is Over <==> action is Assembled || action is Fail,
{
}

/// Without memory nothing is scheduled and no session is kept, at any time.
pub proof fn law_assembly_stays_sound(
    assembly: Assembly,
    event: AssemblyEvent,
    next: Assembly,
    action: AssemblyAction,
)
    requires
        assembly_follows(assembly, event, next, action),
        is_sound(assembly),
    ensures
        is_sound(next),
        action matches AssemblyAction::Assembled { sessions, .. } ==> !sessions || next.has_memory,
{
}

/// A guest's program starts by reading its start-up data where it is told to, and puts its
/// parts together out of that, on the workspace of its command line; it needs a user.
pub proof fn law_guest_reads_its_start_up_data_first(
    args: OxydraVmArgs,
    begun: (VmStage, VmAction),
    received: Vec<u8>,
    read: (VmStage, VmAction),
    rest: Seq<u8>,
    payload: Seq<u8>,
)
    requires
        call_ensures(run_vm, (&args, VmStage::Begin, VmEvent::Done), begun),
        call_ensures(run_vm, (&args, VmStage::Frame, VmEvent::Received(received)), read),
        payload.len() < 0x1_0000_0000,
        received@ == control::frame_of(payload) + rest,
    ensures
        text::trimmed(args.user_id@).len() == 0 ==> begun.0 is Over && begun.1 is Fail,
        text::trimmed(args.user_id@).len() > 0 ==> {
            &&& args.bootstrap_stdin ==> begun.0 is Frame && begun.1 is ReadStdin
            &&& !args.bootstrap_stdin ==> (args.bootstrap_file matches Some(path) ==> begun.0
                is Frame && (begun.1 matches VmAction::ReadFile { path: asked } && asked@ == path@))
            &&& !args.bootstrap_stdin && args.bootstrap_file is None ==> begun.0 is Runtime && (
            begun.1 matches VmAction::Bootstrap { frame: None, workspace_root } && workspace_root@
                == args.workspace_root@)
        },
        read.0 is Runtime,
        read.1 matches VmAction::Bootstrap { frame: Some(frame), workspace_root } && frame@
            == control::frame_of(payload) && workspace_root@ == args.workspace_root@,
{
    control::law_length_prefix_reads_back(payload.len());
    let frame = control::frame_of(payload);
    assert(received@[0] == frame[0] && received@[1] == frame[1] && received@[2] == frame[2]
        && received@[3] == frame[3]);
    assert(received@.take(4 + payload.len() as int) =~= frame);
}

/// Once its parts are there a guest listens where its command line says, announces in its
/// workspace the address that it came to listen at, and serves; in the end what it wrote is
/// taken away.
pub proof fn law_guest_announces_where_it_listens(
    args: OxydraVmArgs,
    setup: GuestSetup,
    address: String,
    listen: (VmStage, VmAction),
    ask: (VmStage, VmAction),
    directory: (VmStage, VmAction),
    write: (VmStage, VmAction),
    serve: (VmStage, VmAction),
    remove: (VmStage, VmAction),
    finish: (VmStage, VmAction),
)
    requires
        call_ensures(run_vm, (&args, VmStage::Runtime, VmEvent::Ready(setup)), listen),
        call_ensures(run_vm, (&args, listen.0, VmEvent::Done), ask),
        call_ensures(run_vm, (&args, ask.0, VmEvent::ListensAt(address)), directory),
        call_ensures(run_vm, (&args, directory.0, VmEvent::Done), write),
        call_ensures(run_vm, (&args, write.0, VmEvent::Done), serve),
        call_ensures(run_vm, (&args, serve.0, VmEvent::Done), remove),
        call_ensures(run_vm, (&args, remove.0, VmEvent::Done), finish),
    ensures
        listen.1 matches VmAction::Listen { address: at, .. } && at@ == args.gateway_bind@,
        ask.1 is AskAddress,
        directory.1 matches VmAction::MakeDirectory { path } && path@ == paths::joined_path(
            args.workspace_root@,
            "ipc"@,
        ),
        write.1 matches VmAction::WriteMarker { path, content } && path@ == paths::joined_path(
            paths::joined_path(args.workspace_root@, "ipc"@),
            "gateway-endpoint"@,
        ) && content@ == "ws://"@ + address@ + "/ws"@,
        serve.1 is Serve,
        remove.1 matches VmAction::RemoveMarker { path } && path@ == write.1->WriteMarker_path@,
        finish.1 is Finish,
        finish.0 is Over,
{
}

/// What fails in a guest's program ends it, with what went wrong and where.
pub proof fn law_failed_guest_says_where(
    args: OxydraVmArgs,
    stage: VmStage,
    error: String,
    step: (VmStage, VmAction),
)
    requires
        call_ensures(run_vm, (&args, stage, VmEvent::Failed(error)), step),
    ensures
        stage is Runtime ==> (step.1 matches VmAction::Fail(VmError::Bootstrap { message })
            && message@ == error@),
        stage is Listener ==> (step.1 matches VmAction::Fail(VmError::BindGateway {
            address,
            message,
        }) && address@ == args.gateway_bind@ && message@ == error@),
        stage is Address ==> (step.1 matches VmAction::Fail(VmError::GatewayAddress { message })
            && message@ == error@),
        stage is Serving ==> (step.1 matches VmAction::Fail(VmError::ServeGateway { message })
            && message@ == error@),
        stage matches VmStage::Marker { path } ==> (step.1 matches VmAction::Fail(
            VmError::GatewayMarkerWrite { path: at, message },
        ) && at@ == path@ && message@ == error@),
        stage matches VmStage::Directory { marker } ==> (step.1 matches VmAction::Fail(
            VmError::GatewayMarkerWrite { path: at, message },
        ) && at@ == marker.directory@ && message@ == error@),
        stage is Runtime || stage is Listener || stage is Address || stage is Serving
            || stage is Marker || stage is Directory ==> step.0 is Over,
{
}

/// What runs in a guest is what it was set up for: delegation with agents, sessions and
/// schedules with their stores, and a bot with its token where one is switched on.
pub proof fn law_services_are_what_was_set_up(setup: GuestSetup, services: GuestServices)
    requires
        call_ensures(guest_services, (setup,), services),
    ensures
        services.delegation == setup.has_agents,
        services.keeps_sessions == setup.has_session_store,
        services.scheduler == setup.has_scheduler_store,
        services.telegram is Some <==> (setup.telegram matches Some(bot) && bot.enabled),
        services.telegram matches Some(Ok(token)) ==> (setup.telegram matches Some(bot)
            && bot.token matches Some(held) && token@ == held@ && setup.has_session_store
            && bot.bot_token_env is Some),
        setup.telegram matches Some(bot) ==> (bot.enabled && bot.bot_token_env is Some
            && bot.token is Some && setup.has_session_store ==> (services.telegram matches Some(
            Ok(_),
        ))),
        services.sender matches Some(token) ==> (setup.telegram matches Some(bot)
            && bot.token matches Some(held) && bot.enabled && token@ == held@),
{
}

/// The parts of a guest are put together in order: its start-up data is decoded, its
/// configuration loaded, its provider built, its memory opened in its workspace, its tools
/// built, with those that remember where it remembers.
pub proof fn law_guest_is_put_together_in_order(
    frame: Vec<u8>,
    cli_root: Option<String>,
    envelope: RunnerBootstrapEnvelope,
    config: GuestConfig,
    built: bool,
    start: Assembly,
    decode: (Assembly, AssemblyAction),
    load: (Assembly, AssemblyAction),
    provider: (Assembly, AssemblyAction),
    memory: (Assembly, AssemblyAction),
    tools: (Assembly, AssemblyAction),
    next: (Assembly, AssemblyAction),
)
    requires
        call_ensures(Assembly::new, (Some(frame), cli_root), start),
        call_ensures(Assembly::step, (start, AssemblyEvent::Done), decode),
        call_ensures(Assembly::step, (decode.0, AssemblyEvent::Decoded(Ok(envelope))), load),
        call_ensures(Assembly::step, (load.0, AssemblyEvent::Loaded(config)), provider),
        call_ensures(Assembly::step, (provider.0, AssemblyEvent::Done), memory),
        call_ensures(Assembly::step, (memory.0, AssemblyEvent::Memory { built }), tools),
        call_ensures(Assembly::step, (tools.0, AssemblyEvent::Done), next),
    ensures
        decode.1 matches AssemblyAction::Decode { frame: given } && given@ == frame@,
        load.1 is LoadConfig,
        load.0.bootstrap == Some(envelope),
        provider.1 matches AssemblyAction::BuildProvider { web_search } && web_search
            == config.has_web_search,
        memory.1 matches AssemblyAction::BuildMemory { workspace_root: Some(root) } && root@
            == match cli_root {
            Some(given) => given@,
            None => envelope.workspace_root@,
        },
        tools.1 matches AssemblyAction::BuildTools { memory_tools } && memory_tools == built,
        config.scheduler_enabled && built ==> next.1 is ConnectScheduler,
        !(config.scheduler_enabled && built) ==> (next.1 matches AssemblyAction::FindAgents {
            scheduler_tools,
            warning,
        } && !scheduler_tools && (warning is Some <==> config.scheduler_enabled)),
{
}

/// Tasks are scheduled where the connection for that was made, and sessions kept where the
/// one for these was; a failure of either is said, and the guest starts without it.
pub proof fn law_missing_stores_are_done_without(
    assembly: Assembly,
    outcome: Result<(), String>,
    step: (Assembly, AssemblyAction),
)
    requires
        call_ensures(Assembly::step, (assembly, AssemblyEvent::Connected(outcome)), step),
    ensures
        assembly.stage matches AssemblyStage::Scheduler { config } ==> (config.scheduler_enabled
            ==> (step.1 matches AssemblyAction::FindAgents { scheduler_tools, warning }
            && scheduler_tools == (outcome is Ok) && (warning is Some <==> outcome is Err))
            && step.0.scheduler == (outcome is Ok)),
        assembly.stage is Sessions ==> (step.1 matches AssemblyAction::Assembled {
            sessions,
            warning,
        } && sessions == (outcome is Ok) && (warning is Some <==> outcome is Err)),
{
}

/// Whatever fails while a guest is put together ends that, with what went wrong.
pub proof fn law_failed_assembly_says_why(
    assembly: Assembly,
    error: BootstrapError,
    failed: (Assembly, AssemblyAction),
    message: String,
    undecoded: (Assembly, AssemblyAction),
)
    requires
        call_ensures(Assembly::step, (assembly, AssemblyEvent::Failed(error)), failed),
        call_ensures(Assembly::step, (assembly, AssemblyEvent::Decoded(Err(message))), undecoded),
    ensures
        assembly.stage is Config || assembly.stage is Provider || assembly.stage is Memory
            ==> failed.0.stage is Over && failed.1 == AssemblyAction::Fail(error),
        assembly.stage is Envelope ==> undecoded.0.stage is Over && (
        undecoded.1 matches AssemblyAction::Fail(BootstrapError::Bootstrap { message: told })
            && told@ == message@),
{
}

/// A guest works in the directory that its command line gives, or else in that of its
/// start-up data; without either it has none.
pub proof fn law_command_line_gives_the_directory(assembly: Assembly, r: Option<String>)
    requires
        call_ensures(Assembly::workspace_root, (&assembly,), r),
    ensures
        assembly.cli_workspace_root matches Some(given) ==> (r matches Some(root) && root@
            == given@),
        assembly.cli_workspace_root is None ==> (assembly.bootstrap matches Some(envelope) ==> (
        r matches Some(root) && root@ == envelope.workspace_root@)),
        assembly.cli_workspace_root is None && assembly.bootstrap is None ==> r is None,
{
}

} // verus!
