//! Guests in containers: their names, what their containers are made of, the order in
//! which one is started, and the virtual machines that hold them.

use crate::json;
use crate::json::{parse_json, Json, JsonTree};
use crate::sandbox::{RunnerCommandSpec, RunnerError, RunnerGuestRole};
use crate::text;
use crate::text::{
    concat, concat3, concat4, concat5, rsplit_once, strip_prefix, text_from_utf8, to_chars, trim,
};
use crate::text_map;
use crate::text_map::TextMap;
use crate::workspace::{EffectiveMountPaths, UserWorkspace};
use vstd::prelude::*;
use vstd::utf8::*;

verus! {

/// Where a container finds its start-up data.
pub const CONTAINER_BOOTSTRAP_MOUNT_PATH: &'static str = "/run/oxydra/bootstrap";

/// The variable that names the file with the start-up data.
pub const CONTAINER_BOOTSTRAP_ENV_KEY: &'static str = "OXYDRA_BOOTSTRAP_FILE";

/// Where the virtual machines of Docker's sandboxes are managed.
pub const DOCKER_SANDBOX_VM_ENDPOINT: &'static str = "/vm";

/// How often a container that fails is started again.
pub const CONTAINER_RETRIES: i64 = 5;

/// A character that may stand in a container's name.
pub open spec fn is_name_char(c: char) -> bool {
    ||| 'a' <= c <= 'z'
    ||| 'A' <= c <= 'Z'
    ||| '0' <= c <= '9'
    ||| c == '-'
    ||| c == '_'
}

/// A text with every other character replaced by a hyphen.
pub open spec fn with_name_chars(value: Seq<char>) -> Seq<char> {
    value.map_values(
        |c: char|
            if is_name_char(c) {
                c
            } else {
                '-'
            },
    )
}

/// A text as part of a container's name.
pub open spec fn name_component(value: Seq<char>) -> Seq<char> {
    if value.len() == 0 {
        "user"@
    } else {
        with_name_chars(value)
    }
}

/// Makes a text part of a container's name.
pub fn sanitize_container_component(value: &str) -> (r: String)
    ensures
        r@ == name_component(value@),
{
    let chars = to_chars(value);
    if chars.len() == 0 {
        return "user".to_owned();
    }
    let mut out = String::new();
    let mut i: usize = 0;
    while i < chars.len()
        invariant
            i <= chars.len(),
            chars@ == value@,
            out@ == with_name_chars(value@).take(i as int),
        decreases chars.len() - i,
    {
        let c = chars[i];
        let ghost before = out@;
        if ('a' <= c && c <= 'z') || ('A' <= c && c <= 'Z') || ('0' <= c && c <= '9') || c == '-'
            || c == '_' {
            out.push(c);
        } else {
            out.push('-');
        }
        proof {
            assert(with_name_chars(value@).take(i as int + 1) =~= before.push(
                with_name_chars(value@)[i as int],
            ));
        }
        i += 1;
    }
    proof {
        assert(with_name_chars(value@).take(i as int) =~= with_name_chars(value@));
    }
    out
}

/// Every part of a container's name is made of the characters that may stand there, is
/// not empty, and is its own part.
pub proof fn law_name_component_is_clean(value: Seq<char>)
    ensures
        name_component(value).len() > 0,
        forall|i: int|
            0 <= i < name_component(value).len() ==> is_name_char(
                #[trigger] name_component(value)[i],
            ),
        name_component(name_component(value)) == name_component(value),
{
    reveal_strlit("user");
    let clean = name_component(value);
    assert(with_name_chars(clean) =~= clean);
}

/// A Docker daemon.
#[derive(Debug, PartialEq, Eq)]
pub enum DockerEndpoint {
    Local,
    UnixSocket(String),
}

impl DockerEndpoint {
    pub open spec fn name(self) -> Seq<char> {
        match self {
            DockerEndpoint::Local => "local-docker-daemon"@,
            DockerEndpoint::UnixSocket(path) => "unix://"@ + path@,
        }
    }

    /// How the daemon is called in messages.
    pub fn label(&self) -> (r: String)
        ensures
            r@ == self.name(),
    {
        match self {
            DockerEndpoint::Local => "local-docker-daemon".to_owned(),
            DockerEndpoint::UnixSocket(path) => concat("unix://", path.as_str()),
        }
    }
}

impl Clone for DockerEndpoint {
    fn clone(&self) -> (r: Self)
        ensures
            r.name() == self.name(),
            r is Local <==> *self is Local,
            *self matches DockerEndpoint::UnixSocket(path) ==> r matches
                DockerEndpoint::UnixSocket(copy) && copy@ == path@,
    {
        match self {
            DockerEndpoint::Local => DockerEndpoint::Local,
            DockerEndpoint::UnixSocket(path) => DockerEndpoint::UnixSocket(path.clone()),
        }
    }
}

pub open spec fn guest_container_name(
    tier_label: Seq<char>,
    user_id: Seq<char>,
    role: RunnerGuestRole,
) -> Seq<char> {
    "oxydra-"@ + tier_label + "-"@ + name_component(user_id) + "-"@ + role.label()
}

/// The name of a guest's container.
pub fn docker_guest_container_name(tier_label: &str, user_id: &str, role: RunnerGuestRole) -> (r:
    String)
    ensures
        r@ == guest_container_name(tier_label@, user_id@, role),
{
    let component = sanitize_container_component(user_id);
    let mut name = concat5("oxydra-", tier_label, "-", component.as_str(), "-");
    name.append(role.as_label());
    name
}

/// The two guests of a user have different containers.
pub proof fn law_guests_have_different_names(tier_label: Seq<char>, user_id: Seq<char>)
    ensures
        guest_container_name(tier_label, user_id, RunnerGuestRole::OxydraVm)
            != guest_container_name(tier_label, user_id, RunnerGuestRole::ShellVm),
{
    reveal_strlit("oxydra-vm");
    reveal_strlit("shell-vm");
    let runtime = guest_container_name(tier_label, user_id, RunnerGuestRole::OxydraVm);
    let sidecar = guest_container_name(tier_label, user_id, RunnerGuestRole::ShellVm);
    assert(runtime.len() == sidecar.len() + 1);
}

/// How a guest's container is written as a command.
pub fn docker_guest_command_spec(endpoint: &DockerEndpoint, container_name: &str) -> (r:
    RunnerCommandSpec)
    ensures
        r.program@ == "bollard"@,
        r.args.deep_view() == seq![
            "--endpoint"@,
            endpoint.name(),
            "--container"@,
            container_name@,
        ],
{
    let r = RunnerCommandSpec::new(
        "bollard",
        vec![
            "--endpoint".to_owned(),
            endpoint.label(),
            "--container".to_owned(),
            container_name.to_owned(),
        ],
    );
    proof {
        assert(r.args.deep_view() =~= seq![
            "--endpoint"@,
            endpoint.name(),
            "--container"@,
            container_name@,
        ]);
    }
    r
}

/// The labels of a guest's container.
pub fn docker_guest_labels(tier_label: &str, user_id: &str, role: RunnerGuestRole) -> (r: TextMap<
    String,
>)
    ensures
        r.well_formed(),
        r@.dom() == set!["oxydra.sandbox_tier"@, "oxydra.user_id"@, "oxydra.guest_role"@],
        r@["oxydra.sandbox_tier"@]@ == tier_label@,
        r@["oxydra.user_id"@]@ == user_id@,
        r@["oxydra.guest_role"@]@ == role.label(),
{
    proof {
        reveal_strlit("oxydra.sandbox_tier");
        reveal_strlit("oxydra.user_id");
        reveal_strlit("oxydra.guest_role");
        assert("oxydra.sandbox_tier"@[7] == 's');
        assert("oxydra.user_id"@[7] == 'u');
        assert("oxydra.guest_role"@[7] == 'g');
    }
    let mut labels: TextMap<String> = TextMap::new();
    labels.insert("oxydra.sandbox_tier".to_owned(), tier_label.to_owned());
    labels.insert("oxydra.user_id".to_owned(), user_id.to_owned());
    labels.insert("oxydra.guest_role".to_owned(), role.as_label().to_owned());
    proof {
        assert(labels@.dom() =~= set![
            "oxydra.sandbox_tier"@,
            "oxydra.user_id"@,
            "oxydra.guest_role"@,
        ]);
    }
    labels
}

/// What a guest may use at most.
#[derive(Debug, Clone, Copy, PartialEq, Eq, Structural)]
pub struct RunnerResourceLimits {
    pub max_vcpus: Option<u32>,
    pub max_memory_mib: Option<u64>,
    pub max_processes: Option<u32>,
}

/// What a container is started from.
#[derive(Debug, PartialEq, Eq)]
pub struct DockerContainerLaunchParams {
    pub endpoint: DockerEndpoint,
    pub container_name: String,
    pub image: String,
    pub role: RunnerGuestRole,
    pub user_id: String,
    pub workspace: UserWorkspace,
    pub mounts: EffectiveMountPaths,
    pub resource_limits: RunnerResourceLimits,
    pub labels: TextMap<String>,
    pub bootstrap_file: Option<String>,
    /// Variables of the guest's environment, each as `KEY=VALUE`.
    pub extra_env: Vec<String>,
}

/// What a container is made of.
#[derive(Debug, PartialEq, Eq)]
pub struct ContainerSpec {
    pub image: String,
    pub labels: TextMap<String>,
    pub entrypoint: Vec<String>,
    pub cmd: Vec<String>,
    pub working_dir: String,
    pub env: Option<Vec<String>>,
    pub binds: Vec<String>,
    pub network_mode: String,
    pub nano_cpus: Option<i64>,
    pub memory: Option<i64>,
    pub pids_limit: Option<i64>,
    pub maximum_retry_count: i64,
}

/// The largest limit, in MiB, whose number of bytes fits.
pub const MAX_MEMORY_MIB: u64 = 8796093022207;

/// What the guest is called with.
pub open spec fn container_command(params: DockerContainerLaunchParams) -> (
    Seq<Seq<char>>,
    Seq<Seq<char>>,
) {
    match params.role {
        RunnerGuestRole::OxydraVm => (
            seq!["/usr/local/bin/oxydra-vm"@],
            seq!["--user-id"@, params.user_id@, "--workspace-root"@, params.workspace.root@] + if
                params.bootstrap_file is Some {
                seq!["--bootstrap-file"@, "/run/oxydra/bootstrap"@]
            } else {
                Seq::empty()
            },
        ),
        RunnerGuestRole::ShellVm => (
            seq!["/usr/local/bin/shell-daemon"@],
            seq!["--socket"@, "/ipc/shell-daemon.sock"@],
        ),
    }
}

/// What the guest's environment holds.
pub open spec fn container_env(params: DockerContainerLaunchParams) -> Seq<Seq<char>> {
    let proxies = if params.endpoint is UnixSocket {
        seq![
            "HTTP_PROXY=http://host.docker.internal:3128"@,
            "HTTPS_PROXY=http://host.docker.internal:3128"@,
            "http_proxy=http://host.docker.internal:3128"@,
            "https_proxy=http://host.docker.internal:3128"@,
        ]
    } else {
        Seq::empty()
    };
    let bootstrap = if params.bootstrap_file is Some {
        seq!["OXYDRA_BOOTSTRAP_FILE"@ + "="@ + "/run/oxydra/bootstrap"@]
    } else {
        Seq::empty()
    };
    proxies + bootstrap + params.extra_env.deep_view()
}

/// The start-up data, mounted for reading alone.
pub open spec fn bootstrap_binds(params: DockerContainerLaunchParams) -> Seq<Seq<char>> {
    match params.bootstrap_file {
        Some(path) => seq![path@ + ":"@ + "/run/oxydra/bootstrap"@ + ":ro"@],
        None => Seq::empty(),
    }
}

/// Paths that are mounted where they are.
pub open spec fn mounted_in_place(paths: Seq<Seq<char>>) -> Seq<Seq<char>> {
    Seq::new(paths.len(), |i: int| paths[i] + ":"@ + paths[i])
}

/// The paths that the runtime's container sees: each once, in order.
pub open spec fn are_runtime_paths(paths: Seq<Seq<char>>, params: DockerContainerLaunchParams) ->
    bool {
    &&& text_map::is_sorted(paths)
    &&& forall|path: Seq<char>| #[trigger]
        paths.contains(path) <==> (path == params.workspace.root@ || path == params.mounts.shared@
            || path == params.mounts.tmp@ || path == params.mounts.vault@)
}

/// What is mounted, apart from the start-up data.
pub open spec fn are_guest_binds(binds: Seq<Seq<char>>, params: DockerContainerLaunchParams) ->
    bool {
    match params.role {
        RunnerGuestRole::OxydraVm => exists|paths: Seq<Seq<char>>|
            #[trigger] are_runtime_paths(paths, params) && binds == mounted_in_place(paths),
        RunnerGuestRole::ShellVm => binds == seq![
            params.mounts.shared@ + ":/shared"@,
            params.mounts.tmp@ + ":/tmp"@,
            params.workspace.ipc@ + ":/ipc"@,
        ],
    }
}

fn runtime_binds(params: &DockerContainerLaunchParams) -> (r: Vec<String>)
    requires
        params.role == RunnerGuestRole::OxydraVm,
    ensures
        are_guest_binds(r.deep_view(), *params),
{
    let mut paths: TextMap<bool> = TextMap::new();
    paths.insert(params.workspace.root.clone(), true);
    paths.insert(params.mounts.shared.clone(), true);
    paths.insert(params.mounts.tmp.clone(), true);
    paths.insert(params.mounts.vault.clone(), true);
    let ghost keys = text_map::keys_of(paths.entries@);
    let mut binds: Vec<String> = Vec::new();
    let mut i: usize = 0;
    proof {
        assert(binds.deep_view() =~= mounted_in_place(keys).take(0));
    }
    while i < paths.entries.len()
        invariant
            i <= paths.entries.len(),
            keys == text_map::keys_of(paths.entries@),
            binds.deep_view() == mounted_in_place(keys).take(i as int),
        decreases paths.entries.len() - i,
    {
        let ghost before = binds.deep_view();
        assert(keys[i as int] == paths.entries@[i as int].0@);
        binds.push(concat3(paths.entries[i].0.as_str(), ":", paths.entries[i].0.as_str()));
        proof {
            assert(binds.deep_view() =~= before.push(mounted_in_place(keys)[i as int]));
            assert(mounted_in_place(keys).take(i as int + 1) =~= before.push(
                mounted_in_place(keys)[i as int],
            ));
        }
        i += 1;
    }
    proof {
        assert(mounted_in_place(keys).take(i as int) =~= mounted_in_place(keys));
        assert forall|path: Seq<char>| #[trigger] keys.contains(path) <==> (path
            == params.workspace.root@ || path == params.mounts.shared@ || path
            == params.mounts.tmp@ || path == params.mounts.vault@) by {
            assert(paths@.dom().contains(path) == keys.contains(path));
        }
        assert(are_runtime_paths(keys, *params));
    }
    binds
}

fn sidecar_binds(params: &DockerContainerLaunchParams) -> (r: Vec<String>)
    requires
        params.role == RunnerGuestRole::ShellVm,
    ensures
        are_guest_binds(r.deep_view(), *params),
{
    let r = vec![
        concat(params.mounts.shared.as_str(), ":/shared"),
        concat(params.mounts.tmp.as_str(), ":/tmp"),
        concat(params.workspace.ipc.as_str(), ":/ipc"),
    ];
    proof {
        assert(r.deep_view() =~= seq![
            params.mounts.shared@ + ":/shared"@,
            params.mounts.tmp@ + ":/tmp"@,
            params.workspace.ipc@ + ":/ipc"@,
        ]);
    }
    r
}

fn guest_command(params: &DockerContainerLaunchParams) -> (r: (Vec<String>, Vec<String>))
    ensures
        (r.0.deep_view(), r.1.deep_view()) == container_command(*params),
{
    match params.role {
        RunnerGuestRole::OxydraVm => {
            let entrypoint = vec!["/usr/local/bin/oxydra-vm".to_owned()];
            let mut cmd = vec![
                "--user-id".to_owned(),
                params.user_id.clone(),
                "--workspace-root".to_owned(),
                params.workspace.root.clone(),
            ];
            if params.bootstrap_file.is_some() {
                cmd.push("--bootstrap-file".to_owned());
                cmd.push(CONTAINER_BOOTSTRAP_MOUNT_PATH.to_owned());
            }
            proof {
                assert(entrypoint.deep_view() =~= container_command(*params).0);
                assert(cmd.deep_view() =~= container_command(*params).1);
            }
            (entrypoint, cmd)
        },
        RunnerGuestRole::ShellVm => {
            let entrypoint = vec!["/usr/local/bin/shell-daemon".to_owned()];
            let cmd = vec!["--socket".to_owned(), "/ipc/shell-daemon.sock".to_owned()];
            proof {
                assert(entrypoint.deep_view() =~= container_command(*params).0);
                assert(cmd.deep_view() =~= container_command(*params).1);
            }
            (entrypoint, cmd)
        },
    }
}

fn guest_env(params: &DockerContainerLaunchParams) -> (r: Vec<String>)
    ensures
        r.deep_view() == container_env(*params),
{
    let mut env: Vec<String> = Vec::new();
    match &params.endpoint {
        DockerEndpoint::UnixSocket(_) => {
            env.push("HTTP_PROXY=http://host.docker.internal:3128".to_owned());
            env.push("HTTPS_PROXY=http://host.docker.internal:3128".to_owned());
            env.push("http_proxy=http://host.docker.internal:3128".to_owned());
            env.push("https_proxy=http://host.docker.internal:3128".to_owned());
        },
        DockerEndpoint::Local => {},
    }
    if params.bootstrap_file.is_some() {
        env.push(concat3(CONTAINER_BOOTSTRAP_ENV_KEY, "=", CONTAINER_BOOTSTRAP_MOUNT_PATH));
    }
    let ghost fixed = env.deep_view();
    let ghost extra = params.extra_env.deep_view();
    let mut i: usize = 0;
    proof {
        assert(fixed + extra.take(0) =~= fixed);
    }
    while i < params.extra_env.len()
        invariant
            i <= params.extra_env.len(),
            extra == params.extra_env.deep_view(),
            env.deep_view() == fixed + extra.take(i as int),
        decreases params.extra_env.len() - i,
    {
        let ghost before = env.deep_view();
        env.push(params.extra_env[i].clone());
        proof {
            assert(env.deep_view() =~= before.push(extra[i as int]));
            assert(fixed + extra.take(i as int + 1) =~= before.push(extra[i as int]));
        }
        i += 1;
    }
    proof {
        assert(extra.take(i as int) =~= extra);
        assert(env.deep_view() =~= container_env(*params));
    }
    env
}

/// What a guest's container is made of: the runtime sees the workspace and the mounts
/// where they are, the sidecar sees only what it needs, under names that give nothing
/// of the host away.
pub fn container_spec(params: DockerContainerLaunchParams) -> (r: ContainerSpec)
    requires
        params.resource_limits.max_memory_mib matches Some(mib) ==> mib <= MAX_MEMORY_MIB,
    ensures
        r.image == params.image,
        r.labels == params.labels,
        (r.entrypoint.deep_view(), r.cmd.deep_view()) == container_command(params),
        r.working_dir@ == match params.role {
            RunnerGuestRole::OxydraVm => params.workspace.root@,
            RunnerGuestRole::ShellVm => "/shared"@,
        },
        r.env.deep_view() == if container_env(params).len() == 0 {
            None
        } else {
            Some(container_env(params))
        },
        exists|guest: Seq<Seq<char>>|
            #[trigger] are_guest_binds(guest, params) && r.binds.deep_view() == guest
                + bootstrap_binds(params),
        r.network_mode@ == "host"@,
        match params.resource_limits.max_vcpus {
            Some(vcpus) => r.nano_cpus == Some((vcpus * 1_000_000_000) as i64),
            None => r.nano_cpus is None,
        },
        match params.resource_limits.max_memory_mib {
            Some(mib) => r.memory == Some((mib * 1024 * 1024) as i64),
            None => r.memory is None,
        },
        match params.resource_limits.max_processes {
            Some(processes) => r.pids_limit == Some(processes as i64),
            None => r.pids_limit is None,
        },
        r.maximum_retry_count == CONTAINER_RETRIES,
{
    let (entrypoint, cmd) = guest_command(&params);
    let env = guest_env(&params);
    let mut binds = match params.role {
        RunnerGuestRole::OxydraVm => runtime_binds(&params),
        RunnerGuestRole::ShellVm => sidecar_binds(&params),
    };
    let ghost guest = binds.deep_view();
    let working_dir = match params.role {
        RunnerGuestRole::OxydraVm => params.workspace.root.clone(),
        RunnerGuestRole::ShellVm => "/shared".to_owned(),
    };
    if let Some(path) = &params.bootstrap_file {
        binds.push(concat4(path.as_str(), ":", CONTAINER_BOOTSTRAP_MOUNT_PATH, ":ro"));
    }
    proof {
        assert(binds.deep_view() =~= guest + bootstrap_binds(params));
        assert(are_guest_binds(guest, params));
    }
    let nano_cpus = match params.resource_limits.max_vcpus {
        Some(vcpus) => Some(vcpus as i64 * 1_000_000_000),
        None => None,
    };
    let memory = match params.resource_limits.max_memory_mib {
        Some(mib) => Some(mib as i64 * 1024 * 1024),
        None => None,
    };
    let pids_limit = match params.resource_limits.max_processes {
        Some(processes) => Some(processes as i64),
        None => None,
    };
    ContainerSpec {
        image: params.image,
        labels: params.labels,
        entrypoint,
        cmd,
        working_dir,
        env: if env.len() == 0 {
            None
        } else {
            Some(env)
        },
        binds,
        network_mode: "host".to_owned(),
        nano_cpus,
        memory,
        pids_limit,
        maximum_retry_count: CONTAINER_RETRIES,
    }
}

/// An image's name and its tag.
pub fn image_and_tag(image: &str) -> (r: (String, String))
    ensures
        (r.0@, r.1@) == match text::rsplit_once_at(image@, ':') {
            Some((name, tag)) => (name, tag),
            None => (image@, "latest"@),
        },
{
    match rsplit_once(image, ':') {
        Some((name, tag)) => (name, tag),
        None => (image.to_owned(), "latest".to_owned()),
    }
}

/// A step on the way to a running container.
#[derive(Debug, Clone, Copy, PartialEq, Eq, Structural)]
pub enum ContainerStep {
    /// What is left of an earlier container is removed.
    Remove,
    /// Whether the image is there.
    Inspect,
    Pull,
    Create,
    Start,
    Running,
}

/// How a step went. The status is that of the daemon's answer, where it gave one.
#[derive(Debug, PartialEq, Eq)]
pub enum ContainerOutcome {
    Done,
    Failed { status: Option<u16>, message: String },
}

/// The failure of a call to a daemon.
pub open spec fn is_operation_error(
    error: RunnerError,
    endpoint: DockerEndpoint,
    operation: Seq<char>,
    target: Seq<char>,
    message: Seq<char>,
) -> bool {
    error matches RunnerError::DockerOperation { endpoint: e, operation: o, target: t, message: m }
        && e@ == endpoint.name() && o@ == operation && t@ == target && m@ == message
}

/// The failure of a call to a daemon.
pub fn docker_operation_error(
    endpoint: &DockerEndpoint,
    operation: &'static str,
    target: &str,
    message: String,
) -> (r: RunnerError)
    ensures
        is_operation_error(r, *endpoint, operation@, target@, message@),
{
    RunnerError::DockerOperation {
        endpoint: endpoint.label(),
        operation,
        target: target.to_owned(),
        message,
    }
}

/// Whether the daemon does not know what was asked for.
pub fn is_not_found(status: Option<u16>) -> (r: bool)
    ensures
        r == (status == Some(404u16)),
{
    match status {
        Some(code) => code == 404,
        None => false,
    }
}

/// The step that follows one that went well, or in spite of a failure that does not
/// matter.
pub open spec fn step_after(step: ContainerStep, outcome: ContainerOutcome) -> Option<
    ContainerStep,
> {
    match (step, outcome) {
        (ContainerStep::Remove, ContainerOutcome::Done) => Some(ContainerStep::Inspect),
        (ContainerStep::Remove, ContainerOutcome::Failed { status, .. }) => if status == Some(
            404u16,
        ) {
            Some(ContainerStep::Inspect)
        } else {
            None
        },
        (ContainerStep::Inspect, ContainerOutcome::Done) => Some(ContainerStep::Create),
        (ContainerStep::Inspect, ContainerOutcome::Failed { .. }) => Some(ContainerStep::Pull),
        (ContainerStep::Pull, ContainerOutcome::Done) => Some(ContainerStep::Create),
        (ContainerStep::Create, ContainerOutcome::Done) => Some(ContainerStep::Start),
        (ContainerStep::Start, ContainerOutcome::Done) => Some(ContainerStep::Running),
        (ContainerStep::Running, _) => Some(ContainerStep::Running),
        _ => None,
    }
}

pub open spec fn step_operation(step: ContainerStep) -> Seq<char> {
    match step {
        ContainerStep::Remove => "remove_container"@,
        ContainerStep::Pull => "pull_image"@,
        ContainerStep::Create => "create_container"@,
        _ => "start_container"@,
    }
}

/// What follows a step on the way to a running container.
pub fn next_container_step(
    endpoint: &DockerEndpoint,
    container_name: &str,
    step: ContainerStep,
    outcome: ContainerOutcome,
) -> (r: Result<ContainerStep, RunnerError>)
    ensures
        match r {
            Ok(next) => step_after(step, outcome) == Some(next),
            Err(error) => {
                &&& step_after(step, outcome) is None
                &&& outcome matches ContainerOutcome::Failed { status, message }
                    && is_operation_error(
                    error,
                    *endpoint,
                    step_operation(step),
                    container_name@,
                    message@,
                )
            },
        },
{
    match (step, outcome) {
        (ContainerStep::Remove, ContainerOutcome::Done) => Ok(ContainerStep::Inspect),
        (ContainerStep::Remove, ContainerOutcome::Failed { status, message }) => if is_not_found(
            status,
        ) {
            Ok(ContainerStep::Inspect)
        } else {
            Err(docker_operation_error(endpoint, "remove_container", container_name, message))
        },
        (ContainerStep::Inspect, ContainerOutcome::Done) => Ok(ContainerStep::Create),
        (ContainerStep::Inspect, ContainerOutcome::Failed { .. }) => Ok(ContainerStep::Pull),
        (ContainerStep::Pull, ContainerOutcome::Done) => Ok(ContainerStep::Create),
        (ContainerStep::Pull, ContainerOutcome::Failed { status: _, message }) => Err(
            docker_operation_error(endpoint, "pull_image", container_name, message),
        ),
        (ContainerStep::Create, ContainerOutcome::Done) => Ok(ContainerStep::Start),
        (ContainerStep::Create, ContainerOutcome::Failed { status: _, message }) => Err(
            docker_operation_error(endpoint, "create_container", container_name, message),
        ),
        (ContainerStep::Start, ContainerOutcome::Done) => Ok(ContainerStep::Running),
        (ContainerStep::Start, ContainerOutcome::Failed { status: _, message }) => Err(
            docker_operation_error(endpoint, "start_container", container_name, message),
        ),
        (ContainerStep::Running, _) => Ok(ContainerStep::Running),
    }
}

/// How many steps are behind a container on its way.
pub open spec fn steps_behind(step: ContainerStep) -> nat {
    match step {
        ContainerStep::Remove => 0,
        ContainerStep::Inspect => 1,
        ContainerStep::Pull => 2,
        ContainerStep::Create => 3,
        ContainerStep::Start => 4,
        ContainerStep::Running => 5,
    }
}

/// A container never goes back on its way, so it runs or has failed after five steps, and
/// what was there before is removed before anything new is made.
pub proof fn law_container_comes_up(step: ContainerStep, outcome: ContainerOutcome)
    requires
        step != ContainerStep::Running,
    ensures
        step_after(step, outcome) matches Some(next) ==> steps_behind(step) < steps_behind(next)
            <= 5,
{
}

/// How the removal of a container ends: one that is not there counts as removed.
pub fn container_removed(
    endpoint: &DockerEndpoint,
    container_name: &str,
    outcome: ContainerOutcome,
) -> (r: Result<(), RunnerError>)
    ensures
        r is Ok <==> step_after(ContainerStep::Remove, outcome) is Some,
        r matches Err(error) ==> outcome matches ContainerOutcome::Failed { status, message }
            && is_operation_error(
            error,
            *endpoint,
            "remove_container"@,
            container_name@,
            message@,
        ),
{
    match next_container_step(endpoint, container_name, ContainerStep::Remove, outcome) {
        Ok(_) => Ok(()),
        Err(error) => Err(error),
    }
}

/// A virtual machine that holds containers.
#[derive(Debug, PartialEq, Eq)]
pub struct DockerSandboxVmHandle {
    pub vm_name: String,
    pub sandbox_socket_path: String,
}

/// A virtual machine, and the socket of the Docker daemon in it.
#[derive(Debug, PartialEq, Eq)]
pub struct DockerSandboxVmInfo {
    pub vm_name: String,
    pub docker_socket_path: String,
}

/// The name of an agent's virtual machine.
pub fn docker_sandbox_vm_resource_name(agent_name: &str) -> (r: String)
    ensures
        r@ == agent_name@ + "-vm"@,
{
    concat(agent_name, "-vm")
}

/// Where a virtual machine is managed.
pub fn sandbox_vm_path(vm_name: &str) -> (r: String)
    ensures
        r@ == "/vm"@ + "/"@ + vm_name@,
{
    concat3(DOCKER_SANDBOX_VM_ENDPOINT, "/", vm_name)
}

/// What is asked for a virtual machine.
pub open spec fn vm_request_tree(agent_name: Seq<char>, workspace_dir: Seq<char>) -> JsonTree {
    JsonTree::Object(
        seq![
            ("agent_name"@, JsonTree::Text(agent_name)),
            ("workspace_dir"@, JsonTree::Text(workspace_dir)),
        ],
    )
}

/// What is asked for a virtual machine.
pub fn vm_request(agent_name: &str, workspace_dir: &str) -> (r: Json)
    ensures
        r.deep_view() == vm_request_tree(agent_name@, workspace_dir@),
{
    let members = vec![
        ("agent_name".to_owned(), Json::Text(agent_name.to_owned())),
        ("workspace_dir".to_owned(), Json::Text(workspace_dir.to_owned())),
    ];
    let r = Json::Object(members);
    proof {
        assert(json::json_tree(members@[0].1) == JsonTree::Text(agent_name@));
        assert(json::json_tree(members@[1].1) == JsonTree::Text(workspace_dir@));
        assert(r.deep_view()->Object_0 =~= vm_request_tree(
            agent_name@,
            workspace_dir@,
        )->Object_0);
    }
    r
}

/// What an answer holds: nothing, JSON, or a text that is none.
pub open spec fn answer_tree(body: Seq<u8>, raw: Seq<char>) -> JsonTree {
    if body.len() == 0 {
        JsonTree::Null
    } else if valid_utf8(body) && json::parsed_tree(decode_utf8(body)) is Some {
        json::parsed_tree(decode_utf8(body))->0
    } else {
        JsonTree::Text(raw)
    }
}

/// What the body of an answer holds, given what it parses to, if it does.
pub fn parsed_body(body: &[u8], raw: &str, parsed: Option<Json>) -> (r: Json)
    ensures
        r.deep_view() == if body@.len() == 0 {
            JsonTree::Null
        } else {
            match parsed {
                Some(json) => json.deep_view(),
                None => JsonTree::Text(raw@),
            }
        },
{
    if body.len() == 0 {
        return Json::Null;
    }
    match parsed {
        Some(json) => json,
        None => Json::Text(raw.to_owned()),
    }
}

/// What the body of an answer holds. `raw` is the body as a text, whatever its bytes.
pub fn answer_body(body: &[u8], raw: &str) -> (r: Json)
    ensures
        r.deep_view() == answer_tree(body@, raw@),
{
    let parsed = match text_from_utf8(body) {
        Ok(text) => parse_json(text.as_str()).ok(),
        Err(_) => None,
    };
    parsed_body(body, raw, parsed)
}

/// The path in a text that names a socket: behind `unix://`, or the whole text if it
/// ends in `.sock`.
pub open spec fn text_socket(value: Seq<char>) -> Option<Seq<char>> {
    let path = text::trimmed(value);
    if "unix://"@.is_prefix_of(path) {
        Some(path.skip("unix://"@.len() as int))
    } else if ".sock"@.is_suffix_of(path) {
        Some(path)
    } else {
        None
    }
}

/// The first that is there.
pub open spec fn first_some(found: Seq<Option<Seq<char>>>) -> Option<Seq<char>>
    decreases found.len(),
{
    if found.len() == 0 {
        None
    } else if found[0] is Some {
        found[0]
    } else {
        first_some(found.skip(1))
    }
}

/// The socket that a member of that name gives.
pub open spec fn member_socket(tree: JsonTree, name: Seq<char>) -> Option<Seq<char>> {
    match json::member(tree, name) {
        Some(JsonTree::Text(value)) => text_socket(value),
        _ => None,
    }
}

/// The members that a socket is looked for in, before all others.
pub open spec fn named_socket(tree: JsonTree) -> Option<Seq<char>> {
    first_some(
        seq![
            member_socket(tree, "socketPath"@),
            member_socket(tree, "socket_path"@),
            member_socket(tree, "dockerSocketPath"@),
            member_socket(tree, "docker_socket_path"@),
        ],
    )
}

/// The path of a socket, wherever in an answer it stands: in a text, in a member that is
/// named after it, or in the first of what the answer holds that has one.
pub open spec fn socket_in(tree: JsonTree) -> Option<Seq<char>>
    decreases tree, 0int,
{
    match tree {
        JsonTree::Text(value) => text_socket(value),
        JsonTree::Object(members) => if named_socket(tree) is Some {
            named_socket(tree)
        } else {
            socket_in_members(members, 0)
        },
        JsonTree::List(items) => socket_in_items(items, 0),
        _ => None,
    }
}

/// The first socket in the members from one on.
pub open spec fn socket_in_members(members: Seq<(Seq<char>, JsonTree)>, from: int) -> Option<
    Seq<char>,
>
    decreases members, members.len() - from,
{
    if from < 0 || from >= members.len() {
        None
    } else {
        proof {
            assert(decreases_to!(members => members[from]));
            assert(decreases_to!(members[from] => members[from].1));
        }
        if socket_in(members[from].1) is Some {
            socket_in(members[from].1)
        } else {
            socket_in_members(members, from + 1)
        }
    }
}

/// The first socket in the items from one on.
pub open spec fn socket_in_items(items: Seq<JsonTree>, from: int) -> Option<Seq<char>>
    decreases items, items.len() - from,
{
    if from < 0 || from >= items.len() {
        None
    } else if socket_in(items[from]) is Some {
        socket_in(items[from])
    } else {
        socket_in_items(items, from + 1)
    }
}

proof fn lemma_first_some(found: Seq<Option<Seq<char>>>, at: int)
    requires
        0 <= at <= found.len(),
        forall|i: int| 0 <= i < at ==> (#[trigger] found[i]) is None,
    ensures
        at < found.len() && found[at] is Some ==> first_some(found) == found[at],
        at == found.len() ==> first_some(found) is None,
    decreases found.len(),
{
    if found.len() > 0 && at > 0 {
        assert(found[0] is None);
        assert forall|i: int| 0 <= i < at - 1 implies (#[trigger] found.skip(1)[i]) is None by {
            assert(found[i + 1] is None);
        }
        lemma_first_some(found.skip(1), at - 1);
    }
}

/// Whether a text ends with another.
fn ends_with(value: &str, suffix: &str) -> (r: bool)
    ensures
        r == suffix@.is_suffix_of(value@),
{
    let chars = to_chars(value);
    let wanted = to_chars(suffix);
    if wanted.len() > chars.len() {
        return false;
    }
    let start: usize = chars.len() - wanted.len();
    let mut i: usize = 0;
    while i < wanted.len()
        invariant
            i <= wanted.len(),
            start + wanted.len() == chars.len(),
            chars@ == value@,
            wanted@ == suffix@,
            forall|k: int| 0 <= k < i ==> chars@[start + k] == wanted@[k],
        decreases wanted.len() - i,
    {
        if chars[start + i] != wanted[i] {
            assert(value@.subrange(start as int, value@.len() as int)[i as int]
                != suffix@[i as int]);
            return false;
        }
        i += 1;
    }
    assert(suffix@ =~= value@.subrange(start as int, value@.len() as int));
    true
}

fn socket_of_text(value: &str) -> (r: Option<String>)
    ensures
        r.deep_view() == text_socket(value@),
{
    let path = trim(value);
    match strip_prefix(path.as_str(), "unix://") {
        Some(rest) => Some(rest),
        None => if ends_with(path.as_str(), ".sock") {
            Some(path)
        } else {
            None
        },
    }
}

fn socket_of_member(payload: &Json, name: &str) -> (r: Option<String>)
    ensures
        r.deep_view() == member_socket(payload.deep_view(), name@),
{
    match payload.get(name) {
        Some(value) => match value.as_str() {
            Some(value) => socket_of_text(value),
            None => None,
        },
        None => None,
    }
}

fn socket_of_named(payload: &Json) -> (r: Option<String>)
    ensures
        r.deep_view() == named_socket(payload.deep_view()),
{
    let ghost tree = payload.deep_view();
    let ghost found = seq![
        member_socket(tree, "socketPath"@),
        member_socket(tree, "socket_path"@),
        member_socket(tree, "dockerSocketPath"@),
        member_socket(tree, "docker_socket_path"@),
    ];
    let first = socket_of_member(payload, "socketPath");
    proof {
        assert(first.deep_view() == found[0]);
        lemma_first_some(found, 0);
    }
    if first.is_some() {
        return first;
    }
    let second = socket_of_member(payload, "socket_path");
    proof {
        assert(second.deep_view() == found[1]);
        lemma_first_some(found, 1);
    }
    if second.is_some() {
        return second;
    }
    let third = socket_of_member(payload, "dockerSocketPath");
    proof {
        assert(third.deep_view() == found[2]);
        lemma_first_some(found, 2);
    }
    if third.is_some() {
        return third;
    }
    let fourth = socket_of_member(payload, "docker_socket_path");
    proof {
        assert(fourth.deep_view() == found[3]);
        lemma_first_some(found, 3);
        if fourth is None {
            lemma_first_some(found, 4);
        }
    }
    fourth
}

/// Looks for the path of a socket in an answer.
pub fn extract_socket_path(payload: &Json) -> (r: Option<String>)
    ensures
        r.deep_view() == socket_in(payload.deep_view()),
    decreases payload,
{
    match payload {
        Json::Text(value) => socket_of_text(value.as_str()),
        Json::Object(members) => {
            let named = socket_of_named(payload);
            if named.is_some() {
                return named;
            }
            let ghost trees = payload.deep_view()->Object_0;
            let mut i: usize = 0;
            while i < members.len()
                invariant
                    i <= members.len(),
                    *payload == Json::Object(*members),
                    trees.len() == members.len(),
                    forall|k: int|
                        0 <= k < members.len() ==> (#[trigger] trees[k]).1 == json::json_tree(
                            members@[k].1,
                        ),
                    socket_in(payload.deep_view()) == socket_in_members(trees, i as int),
                decreases members.len() - i,
            {
                proof {
                    assert(decreases_to!(*payload => payload->Object_0));
                    assert(decreases_to!(members@ => members@[i as int]));
                    assert(decreases_to!(members@[i as int] => members@[i as int].1));
                    assert(trees[i as int].1 == json::json_tree(members@[i as int].1));
                }
                let found = extract_socket_path(&members[i].1);
                if found.is_some() {
                    return found;
                }
                i += 1;
            }
            None
        },
        Json::List(items) => {
            let ghost trees = payload.deep_view()->List_0;
            let mut i: usize = 0;
            while i < items.len()
                invariant
                    i <= items.len(),
                    *payload == Json::List(*items),
                    trees.len() == items.len(),
                    forall|k: int|
                        0 <= k < items.len() ==> #[trigger] trees[k] == json::json_tree(items@[k]),
                    socket_in(payload.deep_view()) == socket_in_items(trees, i as int),
                decreases items.len() - i,
            {
                proof {
                    assert(decreases_to!(*payload => payload->List_0));
                    assert(decreases_to!(items@ => items@[i as int]));
                    assert(trees[i as int] == json::json_tree(items@[i as int]));
                }
                let found = extract_socket_path(&items[i]);
                if found.is_some() {
                    return found;
                }
                i += 1;
            }
            None
        },
        _ => None,
    }
}

/// A status of success.
pub open spec fn is_success(status: u16) -> bool {
    200 <= status < 300
}

/// What came of asking for a virtual machine.
pub fn created_vm(agent_name: &str, status: u16, raw_body: String, body: &Json) -> (r: Result<
    DockerSandboxVmInfo,
    RunnerError,
>)
    ensures
        match r {
            Ok(info) => {
                &&& is_success(status)
                &&& info.vm_name@ == agent_name@ + "-vm"@
                &&& socket_in(body.deep_view()) == Some(info.docker_socket_path@)
            },
            Err(RunnerError::SandboxApiStatus { operation, status: code, body: text }) => {
                &&& !is_success(status)
                &&& operation@ == "create_sandbox_vm"@
                &&& code == status
                &&& text == raw_body
            },
            Err(RunnerError::SandboxVmMissingDockerSocket { vm_name }) => {
                &&& is_success(status)
                &&& socket_in(body.deep_view()) is None
                &&& vm_name@ == agent_name@ + "-vm"@
            },
            Err(_) => false,
        },
{
    if status < 200 || status >= 300 {
        return Err(
            RunnerError::SandboxApiStatus {
                operation: "create_sandbox_vm",
                status,
                body: raw_body,
            },
        );
    }
    let vm_name = docker_sandbox_vm_resource_name(agent_name);
    match extract_socket_path(body) {
        Some(docker_socket_path) => Ok(DockerSandboxVmInfo { vm_name, docker_socket_path }),
        None => Err(RunnerError::SandboxVmMissingDockerSocket { vm_name }),
    }
}

/// What came of deleting a virtual machine: one that is not there counts as deleted.
pub fn deleted_vm(status: u16, raw_body: String) -> (r: Result<(), RunnerError>)
    ensures
        match r {
            Ok(()) => status == 404 || is_success(status),
            Err(RunnerError::SandboxApiStatus { operation, status: code, body }) => {
                &&& status != 404 && !is_success(status)
                &&& operation@ == "delete_sandbox_vm"@
                &&& code == status
                &&& body == raw_body
            },
            Err(_) => false,
        },
{
    if status == 404 || (status >= 200 && status < 300) {
        Ok(())
    } else {
        Err(
            RunnerError::SandboxApiStatus {
                operation: "delete_sandbox_vm",
                status,
                body: raw_body,
            },
        )
    }
}

/// How far an image has got from the host into a virtual machine: one command writes it
/// out, and another reads it in there.
#[derive(Debug, PartialEq, Eq)]
pub enum ImageTransfer {
    SaveNotStarted(String),
    SaveWithoutOutput,
    LoadNotRun(String),
    SaveNotWaited(String),
    /// Both commands ran. With each comes whether it succeeded, and how its status reads.
    Ran { saved: bool, save_status: String, loaded: bool, load_status: String, load_errors: String },
}

/// The command that writes an image out.
pub fn image_save_command(image: &str) -> (r: RunnerCommandSpec)
    ensures
        r.deep_view().program == "docker"@,
        r.deep_view().args == seq!["save"@, image@],
{
    let args = vec!["save".to_owned(), image.to_owned()];
    proof {
        assert(args.deep_view() =~= seq!["save"@, image@]);
    }
    RunnerCommandSpec::new("docker", args)
}

/// The command that reads an image in, where Docker listens at that socket.
pub fn image_load_command(vm_socket_path: &str) -> (r: RunnerCommandSpec)
    ensures
        r.deep_view().program == "docker"@,
        r.deep_view().args == seq!["--host"@, "unix://"@ + vm_socket_path@, "load"@],
{
    let args = vec!["--host".to_owned(), concat("unix://", vm_socket_path), "load".to_owned()];
    proof {
        assert(args.deep_view() =~= seq!["--host"@, "unix://"@ + vm_socket_path@, "load"@]);
    }
    RunnerCommandSpec::new("docker", args)
}

/// What is said of a transfer that failed.
pub open spec fn transfer_failure(transfer: ImageTransfer) -> Option<Seq<char>> {
    match transfer {
        ImageTransfer::SaveNotStarted(error) => Some(
            "failed to start 'docker save': "@ + error@,
        ),
        ImageTransfer::SaveWithoutOutput => Some("failed to capture 'docker save' stdout"@),
        ImageTransfer::LoadNotRun(error) => Some("failed to run 'docker load': "@ + error@),
        ImageTransfer::SaveNotWaited(error) => Some(
            "failed to wait for 'docker save': "@ + error@,
        ),
        ImageTransfer::Ran { saved, save_status, loaded, load_status, load_errors } => if !saved {
            Some("'docker save' exited with status "@ + save_status@)
        } else if !loaded {
            Some("'docker load' exited with status "@ + load_status@ + ": "@ + load_errors@)
        } else {
            None
        },
    }
}

/// What came of bringing an image into a virtual machine.
pub fn load_image_into_sandbox_vm(image: &str, transfer: ImageTransfer) -> (r: Result<
    (),
    RunnerError,
>)
    ensures
        match (r, transfer_failure(transfer)) {
            (Ok(()), None) => true,
            (Err(RunnerError::ImageTransfer { image: i, message }), Some(said)) => i@ == image@
                && message@ == said,
            _ => false,
        },
{
    let message = match transfer {
        ImageTransfer::SaveNotStarted(error) => concat(
            "failed to start 'docker save': ",
            error.as_str(),
        ),
        ImageTransfer::SaveWithoutOutput => "failed to capture 'docker save' stdout".to_owned(),
        ImageTransfer::LoadNotRun(error) => concat(
            "failed to run 'docker load': ",
            error.as_str(),
        ),
        ImageTransfer::SaveNotWaited(error) => concat(
            "failed to wait for 'docker save': ",
            error.as_str(),
        ),
        ImageTransfer::Ran { saved, save_status, loaded, load_status, load_errors } => if !saved {
            concat("'docker save' exited with status ", save_status.as_str())
        } else if !loaded {
            concat4(
                "'docker load' exited with status ",
                load_status.as_str(),
                ": ",
                load_errors.as_str(),
            )
        } else {
            return Ok(());
        },
    };
    Err(RunnerError::ImageTransfer { image: image.to_owned(), message })
}

/// Every variable that a guest is given is in its container's environment, and they
/// stand there in the order in which they were given, behind what else it holds.
pub proof fn law_given_variables_reach_the_container(
    params: DockerContainerLaunchParams,
    made: ContainerSpec,
    i: int,
)
    requires
        call_ensures(container_spec, (params,), made),
        0 <= i < params.extra_env@.len(),
    ensures
        made.env matches Some(env) && env@.len() >= params.extra_env@.len() && env@[env@.len()
            - params.extra_env@.len() + i]@ == params.extra_env@[i]@,
{
    let held = container_env(params);
    let env = made.env->0;
    assert(held.len() >= params.extra_env@.len());
    assert(env.deep_view() == held);
    assert(env.deep_view()[env@.len() - params.extra_env@.len() + i]
        == params.extra_env.deep_view()[i]);
}

/// A container that is given no variables, no start-up data and no virtual machine of its
/// own has an environment that nothing is added to.
pub proof fn law_plain_container_keeps_its_environment(
    params: DockerContainerLaunchParams,
    made: ContainerSpec,
)
    requires
        call_ensures(container_spec, (params,), made),
    ensures
        made.env is None <==> (params.endpoint is Local && params.bootstrap_file is None
            && params.extra_env@.len() == 0),
        made.env matches Some(env) ==> env@.len() == params.extra_env@.len() + (if
            params.bootstrap_file is Some {
            1int
        } else {
            0
        }) + (if params.endpoint is Local {
            0int
        } else {
            4
        }),
{
    if let Some(env) = made.env {
        assert(env.deep_view() == container_env(params));
        assert(env.deep_view().len() == env@.len());
    }
}

/// A path is mounted in a container under that path.
pub open spec fn is_mounted(made: ContainerSpec, path: Seq<char>, inside: Seq<char>) -> bool {
    exists|j: int| 0 <= j < made.binds@.len() && #[trigger] made.binds@[j]@ == path + ":"@ + inside
}

/// The runtime's container runs the runtime for its user, on its user's workspace, which
/// is where it starts, and sees the workspace and the mounts under the paths that they
/// have on the host.
pub proof fn law_runtime_container_sees_its_workspace(
    params: DockerContainerLaunchParams,
    made: ContainerSpec,
)
    requires
        call_ensures(container_spec, (params,), made),
        params.role == RunnerGuestRole::OxydraVm,
    ensures
        made.entrypoint@.len() == 1,
        made.entrypoint@[0]@ == "/usr/local/bin/oxydra-vm"@,
        made.cmd@.len() >= 4,
        made.cmd@[0]@ == "--user-id"@,
        made.cmd@[1]@ == params.user_id@,
        made.cmd@[2]@ == "--workspace-root"@,
        made.cmd@[3]@ == params.workspace.root@,
        made.working_dir@ == made.cmd@[3]@,
        is_mounted(made, params.workspace.root@, params.workspace.root@),
        is_mounted(made, params.mounts.shared@, params.mounts.shared@),
        is_mounted(made, params.mounts.tmp@, params.mounts.tmp@),
        is_mounted(made, params.mounts.vault@, params.mounts.vault@),
{
    text::lemma_list(made.entrypoint);
    let cmd = made.cmd.deep_view();
    assert(cmd.len() == made.cmd@.len());
    assert(cmd[0] == made.cmd@[0]@ && cmd[1] == made.cmd@[1]@ && cmd[2] == made.cmd@[2]@ && cmd[3]
        == made.cmd@[3]@);
    let guest = choose|guest: Seq<Seq<char>>| #[trigger]
        are_guest_binds(guest, params) && made.binds.deep_view() == guest + bootstrap_binds(params);
    let paths = choose|paths: Seq<Seq<char>>| #[trigger]
        are_runtime_paths(paths, params) && guest == mounted_in_place(paths);
    assert forall|path: Seq<char>| paths.contains(path) implies #[trigger] is_mounted(
        made,
        path,
        path,
    ) by {
        let k = choose|k: int| 0 <= k < paths.len() && paths[k] == path;
        text::lemma_list(made.binds);
        assert(mounted_in_place(paths)[k] == path + ":"@ + path);
        assert(made.binds.deep_view()[k] == path + ":"@ + path);
        assert(made.binds@[k]@ == path + ":"@ + path);
    }
    assert(paths.contains(params.workspace.root@));
    assert(paths.contains(params.mounts.shared@));
    assert(paths.contains(params.mounts.tmp@));
    assert(paths.contains(params.mounts.vault@));
}

proof fn lemma_paths_differ(paths: Seq<Seq<char>>, i: int, j: int)
    requires
        text_map::is_sorted(paths),
        0 <= i < j < paths.len(),
    ensures
        paths[i] != paths[j],
{
    if paths[i] == paths[j] {
        text_map::lemma_sorted_is_distinct(paths, i, j);
    }
}

/// Nothing of the host is mounted in the runtime's container but the workspace, the
/// mounts and the start-up data, and nothing twice.
pub proof fn law_runtime_container_sees_nothing_else(
    params: DockerContainerLaunchParams,
    made: ContainerSpec,
    j: int,
)
    requires
        call_ensures(container_spec, (params,), made),
        params.role == RunnerGuestRole::OxydraVm,
        0 <= j < made.binds@.len(),
        params.bootstrap_file is Some ==> j < made.binds@.len() - 1,
    ensures
        ({
            let bind = made.binds@[j]@;
            ||| bind == params.workspace.root@ + ":"@ + params.workspace.root@
            ||| bind == params.mounts.shared@ + ":"@ + params.mounts.shared@
            ||| bind == params.mounts.tmp@ + ":"@ + params.mounts.tmp@
            ||| bind == params.mounts.vault@ + ":"@ + params.mounts.vault@
        }),
        made.binds@.len() <= 5,
{
    let guest = choose|guest: Seq<Seq<char>>| #[trigger]
        are_guest_binds(guest, params) && made.binds.deep_view() == guest + bootstrap_binds(params);
    let paths = choose|paths: Seq<Seq<char>>| #[trigger]
        are_runtime_paths(paths, params) && guest == mounted_in_place(paths);
    assert(made.binds.deep_view()[j] == made.binds@[j]@);
    assert(made.binds.deep_view().len() == made.binds@.len());
    assert(j < guest.len());
    assert(paths.contains(paths[j]));
    if paths.len() > 4 {
        assert(paths.contains(paths[0]) && paths.contains(paths[1]) && paths.contains(paths[2])
            && paths.contains(paths[3]) && paths.contains(paths[4]));
        lemma_paths_differ(paths, 0, 1);
        lemma_paths_differ(paths, 0, 2);
        lemma_paths_differ(paths, 0, 3);
        lemma_paths_differ(paths, 0, 4);
        lemma_paths_differ(paths, 1, 2);
        lemma_paths_differ(paths, 1, 3);
        lemma_paths_differ(paths, 1, 4);
        lemma_paths_differ(paths, 2, 3);
        lemma_paths_differ(paths, 2, 4);
        lemma_paths_differ(paths, 3, 4);
    }
}

/// The sidecar's container runs the shell daemon on a socket in the directory that is
/// shared for this, starts in the shared directory, and sees neither the workspace nor
/// the vault.
pub proof fn law_sidecar_container_sees_what_is_shared(
    params: DockerContainerLaunchParams,
    made: ContainerSpec,
)
    requires
        call_ensures(container_spec, (params,), made),
        params.role == RunnerGuestRole::ShellVm,
    ensures
        made.entrypoint@.len() == 1,
        made.entrypoint@[0]@ == "/usr/local/bin/shell-daemon"@,
        made.cmd@.len() == 2,
        made.cmd@[0]@ == "--socket"@,
        made.cmd@[1]@ == "/ipc"@ + "/shell-daemon.sock"@,
        is_mounted(made, params.workspace.ipc@, "/ipc"@),
        is_mounted(made, params.mounts.shared@, made.working_dir@),
        made.working_dir@ == "/shared"@,
        is_mounted(made, params.mounts.tmp@, "/tmp"@),
        made.binds@.len() == if params.bootstrap_file is Some {
            4int
        } else {
            3
        },
{
    reveal_strlit("/ipc");
    reveal_strlit(":/ipc");
    reveal_strlit("/shared");
    reveal_strlit(":/shared");
    reveal_strlit("/tmp");
    reveal_strlit(":/tmp");
    reveal_strlit(":");
    reveal_strlit("/shell-daemon.sock");
    reveal_strlit("/ipc/shell-daemon.sock");
    assert("/ipc/shell-daemon.sock"@ =~= "/ipc"@ + "/shell-daemon.sock"@);
    let shared = params.mounts.shared@;
    let tmp = params.mounts.tmp@;
    let ipc = params.workspace.ipc@;
    assert(shared + ":/shared"@ =~= shared + ":"@ + "/shared"@);
    assert(tmp + ":/tmp"@ =~= tmp + ":"@ + "/tmp"@);
    assert(ipc + ":/ipc"@ =~= ipc + ":"@ + "/ipc"@);
    text::lemma_list(made.entrypoint);
    let cmd = made.cmd.deep_view();
    assert(cmd.len() == made.cmd@.len());
    assert(cmd[0] == made.cmd@[0]@ && cmd[1] == made.cmd@[1]@);
    let binds = made.binds.deep_view();
    assert(binds.len() == made.binds@.len());
    assert(binds[0] == made.binds@[0]@ && binds[1] == made.binds@[1]@ && binds[2]
        == made.binds@[2]@);
}

/// The start-up data is mounted for reading alone, the guest's environment names the
/// place where it is mounted, and the runtime is told the same place; without start-up
/// data nothing of this stands anywhere.
pub proof fn law_start_up_data_is_found_where_it_is_mounted(
    params: DockerContainerLaunchParams,
    made: ContainerSpec,
)
    requires
        call_ensures(container_spec, (params,), made),
    ensures
        params.bootstrap_file matches Some(path) ==> ({
            let place = "/run/oxydra/bootstrap"@;
            &&& made.binds@.len() > 0
            &&& made.binds@.last()@ == path@ + ":"@ + place + ":ro"@
            &&& made.env matches Some(env) && env@.len() > params.extra_env@.len() && env@[env@.len()
                - params.extra_env@.len() - 1]@ == "OXYDRA_BOOTSTRAP_FILE"@ + "="@ + place
            &&& params.role == RunnerGuestRole::OxydraVm ==> made.cmd@.len() == 6
                && made.cmd@[4]@ == "--bootstrap-file"@ && made.cmd@[5]@ == place
        }),
        params.bootstrap_file is None && params.role == RunnerGuestRole::OxydraVm
            ==> made.cmd@.len() == 4,
{
    let binds = made.binds.deep_view();
    assert(binds.len() == made.binds@.len());
    let cmd = made.cmd.deep_view();
    assert(cmd.len() == made.cmd@.len());
    if let Some(path) = params.bootstrap_file {
        let env = made.env->0;
        assert(container_env(params).len() > 0);
        assert(env.deep_view() == container_env(params));
        let at = env@.len() - params.extra_env@.len() - 1;
        assert(env.deep_view()[at] == "OXYDRA_BOOTSTRAP_FILE"@ + "="@ + "/run/oxydra/bootstrap"@);
        assert(binds.last() == made.binds@.last()@);
        if params.role == RunnerGuestRole::OxydraVm {
            assert(cmd[4] == made.cmd@[4]@ && cmd[5] == made.cmd@[5]@);
        }
    }
}

/// A container in a virtual machine reaches the outside through the proxy of the host,
/// under the two names and the two spellings that programs look for; one beside the host
/// needs none.
pub proof fn law_virtual_machine_goes_through_the_proxy(
    params: DockerContainerLaunchParams,
    made: ContainerSpec,
)
    requires
        call_ensures(container_spec, (params,), made),
    ensures
        params.endpoint is UnixSocket ==> (made.env matches Some(env) && env@.len() >= 4
            && env@[0]@ == "HTTP_PROXY=http://host.docker.internal:3128"@ && env@[1]@
            == "HTTPS_PROXY=http://host.docker.internal:3128"@ && env@[2]@
            == "http_proxy=http://host.docker.internal:3128"@ && env@[3]@
            == "https_proxy=http://host.docker.internal:3128"@),
        made.network_mode@ == "host"@,
{
    if params.endpoint is UnixSocket {
        let env = made.env->0;
        assert(env.deep_view() == container_env(params));
        let held = env.deep_view();
        assert(held[0] == env@[0]@ && held[1] == env@[1]@ && held[2] == env@[2]@ && held[3]
            == env@[3]@);
    }
}

/// A guest's limits are its container's: each that is set is set there, in the unit that
/// the daemon counts in, and none that is not set. The container has the image and the
/// labels that it was given.
pub proof fn law_limits_hold_for_the_container(
    params: DockerContainerLaunchParams,
    made: ContainerSpec,
)
    requires
        call_ensures(container_spec, (params,), made),
        params.resource_limits.max_memory_mib matches Some(mib) ==> mib <= 8796093022207,
    ensures
        made.image@ == params.image@,
        made.labels@ == params.labels@,
        params.resource_limits.max_vcpus is Some <==> made.nano_cpus is Some,
        made.nano_cpus matches Some(n) ==> n == params.resource_limits.max_vcpus->0 * 1000000000,
        params.resource_limits.max_memory_mib is Some <==> made.memory is Some,
        made.memory matches Some(n) ==> n == params.resource_limits.max_memory_mib->0 * 1048576,
        params.resource_limits.max_processes is Some <==> made.pids_limit is Some,
        made.pids_limit matches Some(n) ==> n == params.resource_limits.max_processes->0,
        made.maximum_retry_count == 5,
{
}

/// A container comes up in order: what is left of an earlier one goes first, then the
/// image is looked for, pulled only where it is missing, then the container is made and
/// started. A failure ends this, under the name of what failed and with what the daemon
/// says, unless nothing was there to remove or the image has yet to be pulled.
pub proof fn law_container_comes_up_in_order(
    endpoint: DockerEndpoint,
    name: &str,
    step: ContainerStep,
    outcome: ContainerOutcome,
    r: Result<ContainerStep, RunnerError>,
)
    requires
        call_ensures(next_container_step, (&endpoint, name, step, outcome), r),
    ensures
        outcome is Done ==> match step {
            ContainerStep::Remove => r == Ok::<_, RunnerError>(ContainerStep::Inspect),
            ContainerStep::Inspect => r == Ok::<_, RunnerError>(ContainerStep::Create),
            ContainerStep::Pull => r == Ok::<_, RunnerError>(ContainerStep::Create),
            ContainerStep::Create => r == Ok::<_, RunnerError>(ContainerStep::Start),
            ContainerStep::Start => r == Ok::<_, RunnerError>(ContainerStep::Running),
            ContainerStep::Running => r == Ok::<_, RunnerError>(ContainerStep::Running),
        },
        outcome matches ContainerOutcome::Failed { status, message } ==> match step {
            ContainerStep::Inspect => r == Ok::<_, RunnerError>(ContainerStep::Pull),
            ContainerStep::Running => r == Ok::<_, RunnerError>(ContainerStep::Running),
            _ => if step == ContainerStep::Remove && status == Some(404u16) {
                r == Ok::<_, RunnerError>(ContainerStep::Inspect)
            } else {
                r matches Err(RunnerError::DockerOperation {
                    endpoint: at,
                    operation,
                    target,
                    message: told,
                }) && at@ == endpoint.name() && target@ == name@ && told@ == message@ && operation@
                    == match step {
                    ContainerStep::Remove => "remove_container"@,
                    ContainerStep::Pull => "pull_image"@,
                    ContainerStep::Create => "create_container"@,
                    _ => "start_container"@,
                }
            },
        },
{
}

/// A container is removed where the daemon removed it or does not know it, and not where
/// anything else went wrong.
pub proof fn law_missing_container_counts_as_removed(
    endpoint: DockerEndpoint,
    name: &str,
    outcome: ContainerOutcome,
    r: Result<(), RunnerError>,
)
    requires
        call_ensures(container_removed, (&endpoint, name, outcome), r),
    ensures
        r is Ok <==> (outcome is Done || (outcome matches ContainerOutcome::Failed { status, .. }
            && status == Some(404u16))),
        r matches Err(error) ==> (error matches RunnerError::DockerOperation {
            target,
            message,
            ..
        } && target@ == name@ && message@ == outcome->Failed_message@),
{
}

/// An image's name and tag are what stands before and behind its last colon; an image
/// without one has the latest tag.
pub proof fn law_image_is_its_name_and_tag(image: &str, r: (String, String))
    requires
        call_ensures(image_and_tag, (image,), r),
    ensures
        image@.contains(':') ==> image@ == r.0@ + ":"@ + r.1@ && !r.1@.contains(':'),
        !image@.contains(':') ==> r.0@ == image@ && r.1@ == "latest"@,
{
    reveal_strlit(":");
    text::law_rsplit_once(image@, ':');
    if image@.contains(':') {
        assert(r.0@ + seq![':'] + r.1@ =~= r.0@ + ":"@ + r.1@);
    }
}

/// A virtual machine that was made is known under the name that is made from its agent's,
/// managed at the address that is made from that name, and reached at the socket that the
/// answer gives; an answer without one, and one of no success, is an error.
pub proof fn law_made_machine_is_known_by_its_agent(
    agent_name: &str,
    status: u16,
    raw_body: String,
    body: Json,
    r: Result<DockerSandboxVmInfo, RunnerError>,
    name: String,
    socket: Option<String>,
)
    requires
        call_ensures(created_vm, (agent_name, status, raw_body, &body), r),
        call_ensures(docker_sandbox_vm_resource_name, (agent_name,), name),
        call_ensures(extract_socket_path, (&body,), socket),
    ensures
        name@ == agent_name@ + "-vm"@,
        r is Ok <==> 200 <= status < 300 && socket is Some,
        r matches Ok(info) ==> info.vm_name@ == name@ && info.docker_socket_path@ == socket->0@,
        !(200 <= status < 300) ==> (r matches Err(RunnerError::SandboxApiStatus {
            status: told,
            body: text,
            ..
        }) && told == status && text@ == raw_body@),
        200 <= status < 300 && socket is None ==> (r matches Err(
            RunnerError::SandboxVmMissingDockerSocket { vm_name },
        ) && vm_name@ == name@),
{
}

/// The socket that a text names is what stands behind its scheme, or all of it where it
/// is a path to one, without the white space around it; other texts name none. An object
/// names that of its first member of the known names that has one.
pub proof fn law_sockets_are_found(payload: Json, socket: Option<String>, path: Seq<char>)
    requires
        call_ensures(extract_socket_path, (&payload,), socket),
    ensures
        payload.deep_view() matches JsonTree::Text(value) ==> {
            let inner = text::trimmed(value);
            &&& inner == "unix://"@ + path ==> (socket matches Some(found) && found@ == path)
            &&& !"unix://"@.is_prefix_of(inner) && ".sock"@.is_suffix_of(inner) ==> (
            socket matches Some(found) && found@ == inner)
            &&& !"unix://"@.is_prefix_of(inner) && !".sock"@.is_suffix_of(inner) ==> socket is None
        },
        payload.deep_view() matches JsonTree::Object(_) ==> (json::member(
            payload.deep_view(),
            "socketPath"@,
        ) matches Some(JsonTree::Text(value)) ==> (text::trimmed(value) == "unix://"@ + path ==> (
        socket matches Some(found) && found@ == path))),
        payload.deep_view() is Null || payload.deep_view() is Bool || payload.deep_view() is Number
            ==> socket is None,
{
    let scheme = "unix://"@;
    let whole = scheme + path;
    assert(scheme =~= whole.subrange(0, scheme.len() as int));
    assert(whole.skip(scheme.len() as int) =~= path);
    let tree = payload.deep_view();
    if let JsonTree::Object(_) = tree {
        let found = seq![
            member_socket(tree, "socketPath"@),
            member_socket(tree, "socket_path"@),
            member_socket(tree, "dockerSocketPath"@),
            member_socket(tree, "docker_socket_path"@),
        ];
        if found[0] is Some {
            assert(first_some(found) == found[0]);
        }
    }
}

/// A virtual machine that is not there counts as deleted, and only a success does besides.
pub proof fn law_missing_machine_counts_as_deleted(
    status: u16,
    raw_body: String,
    r: Result<(), RunnerError>,
)
    requires
        call_ensures(deleted_vm, (status, raw_body), r),
    ensures
        r is Ok <==> status == 404 || 200 <= status < 300,
        r matches Err(error) ==> (error matches RunnerError::SandboxApiStatus {
            status: told,
            body,
            ..
        } && told == status && body@ == raw_body@),
{
}

/// A virtual machine is asked for with the agent that it is for and the directory that it
/// sees, and is managed under its name.
pub proof fn law_machine_is_asked_for_its_agent(
    agent_name: &str,
    workspace_dir: &str,
    request: Json,
    vm_name: &str,
    path: String,
)
    requires
        call_ensures(vm_request, (agent_name, workspace_dir), request),
        call_ensures(sandbox_vm_path, (vm_name,), path),
    ensures
        json::member(request.deep_view(), "agent_name"@) == Some(JsonTree::Text(agent_name@)),
        json::member(request.deep_view(), "workspace_dir"@) == Some(JsonTree::Text(workspace_dir@)),
        path@ == "/vm/"@ + vm_name@,
{
    reveal_strlit("agent_name");
    reveal_strlit("workspace_dir");
    reveal_strlit("/vm");
    reveal_strlit("/");
    reveal_strlit("/vm/");
    assert("agent_name"@.len() == 10 && "workspace_dir"@.len() == 13);
    assert("/vm"@ + "/"@ + vm_name@ =~= "/vm/"@ + vm_name@);
    json::lemma_member_at(request.deep_view()->Object_0, 0);
    json::lemma_member_at(request.deep_view()->Object_0, 1);
}

/// An image is in a virtual machine exactly where it was written out and read in, and the
/// two commands name the image and the machine's socket.
pub proof fn law_image_is_brought_in(
    image: &str,
    transfer: ImageTransfer,
    r: Result<(), RunnerError>,
    socket: &str,
    save: RunnerCommandSpec,
    load: RunnerCommandSpec,
)
    requires
        call_ensures(load_image_into_sandbox_vm, (image, transfer), r),
        call_ensures(image_save_command, (image,), save),
        call_ensures(image_load_command, (socket,), load),
    ensures
        r is Ok <==> (transfer matches ImageTransfer::Ran { saved, loaded, .. } && saved && loaded),
        r matches Err(error) ==> (error matches RunnerError::ImageTransfer { image: named, .. }
            && named@ == image@),
        save.program@ == "docker"@,
        save.args@.len() == 2,
        save.args@[0]@ == "save"@,
        save.args@[1]@ == image@,
        load.program@ == "docker"@,
        load.args@.len() == 3,
        load.args@[0]@ == "--host"@,
        load.args@[1]@ == "unix://"@ + socket@,
        load.args@[2]@ == "load"@,
{
    text::lemma_list(save.args);
    text::lemma_list(load.args);
    assert(save.args.deep_view() == save.deep_view().args);
    assert(load.args.deep_view() == load.deep_view().args);
}

/// A guest's name in its daemon names its tier, its user and its role, and is made of
/// characters that daemons take.
pub proof fn law_container_name_tells_whose_it_is(
    tier_label: &str,
    user_id: &str,
    role: RunnerGuestRole,
    name: String,
    component: String,
    labels: TextMap<String>,
)
    requires
        call_ensures(docker_guest_container_name, (tier_label, user_id, role), name),
        call_ensures(sanitize_container_component, (user_id,), component),
        call_ensures(docker_guest_labels, (tier_label, user_id, role), labels),
    ensures
        name@ == "oxydra-"@ + tier_label@ + "-"@ + component@ + "-"@ + (match role {
            RunnerGuestRole::OxydraVm => "oxydra-vm"@,
            RunnerGuestRole::ShellVm => "shell-vm"@,
        }),
        user_id@.len() > 0 ==> component@.len() == user_id@.len(),
        user_id@.len() == 0 ==> component@ == "user"@,
        forall|i: int|
            0 <= i < user_id@.len() ==> #[trigger] component@[i] == if is_name_char(user_id@[i]) {
                user_id@[i]
            } else {
                '-'
            },
        labels@["oxydra.user_id"@]@ == user_id@,
        labels@["oxydra.sandbox_tier"@]@ == tier_label@,
{
}

/// A failed operation is reported with the daemon, the operation, its target and why; a
/// daemon is called by the path of its socket, or as the local one.
pub proof fn law_failed_operation_is_reported(
    endpoint: DockerEndpoint,
    operation: &'static str,
    target: &str,
    message: String,
    r: RunnerError,
    name: String,
)
    requires
        call_ensures(docker_operation_error, (&endpoint, operation, target, message), r),
        call_ensures(DockerEndpoint::label, (&endpoint,), name),
    ensures
        endpoint matches DockerEndpoint::UnixSocket(path) ==> name@ == "unix://"@ + path@,
        endpoint is Local ==> name@ == "local-docker-daemon"@,
        r matches RunnerError::DockerOperation {
            endpoint: daemon,
            operation: what,
            target: which,
            message: why,
        } && daemon@ == name@ && what@ == operation@ && which@ == target@ && why@ == message@,
{
}

/// An empty answer is nothing, one that parses is what it parses to, and any other is its
/// text.
pub proof fn law_answer_is_read_as_it_is(body: &[u8], raw: &str, parsed: Option<Json>, r: Json)
    requires
        call_ensures(parsed_body, (body, raw, parsed), r),
    ensures
        body@.len() == 0 ==> r is Null,
        body@.len() > 0 ==> (parsed matches Some(json) ==> r.deep_view() == json.deep_view()),
        body@.len() > 0 && parsed is None ==> (r matches Json::Text(text) && text@ == raw@),
{
}

} // verus!
