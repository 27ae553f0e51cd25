//! The directories of a user, and what is mounted from them.

use crate::paths;
use crate::paths::{join_path, resolve_path};
use crate::sandbox::{RunnerError, RunnerGuestRole};
use crate::text;
use crate::text::{concat, to_chars, trim};
use crate::text_map::TextMap;
use vstd::prelude::*;

verus! {

pub const SHARED_DIR_NAME: &'static str = "shared";

pub const TMP_DIR_NAME: &'static str = "tmp";

pub const VAULT_DIR_NAME: &'static str = "vault";

pub const LOGS_DIR_NAME: &'static str = "logs";

pub const IPC_DIR_NAME: &'static str = "ipc";

pub const INTERNAL_DIR_NAME: &'static str = ".oxydra";

/// The file in which a guest leaves the address of its gateway.
pub const GATEWAY_ENDPOINT_MARKER_FILE: &'static str = "gateway-endpoint";

/// The socket on which a runner is controlled.
pub const RUNNER_CONTROL_SOCKET_NAME: &'static str = "runner-control.sock";

/// A name that can stand as one directory: not empty, with no separator and no step
/// upwards in it.
pub open spec fn is_valid_user_id(user_id: Seq<char>) -> bool {
    &&& user_id.len() > 0
    &&& !user_id.contains('/')
    &&& !user_id.contains('\\')
    &&& forall|i: int|
        0 <= i < user_id.len() - 1 ==> !(#[trigger] user_id[i] == '.' && user_id[i + 1] == '.')
}

/// The user's name without the white space around it, if it can stand as a directory.
pub fn validate_user_id(user_id: &str) -> (r: Result<String, RunnerError>)
    ensures
        match r {
            Ok(valid) => valid@ == text::trimmed(user_id@) && is_valid_user_id(valid@),
            Err(RunnerError::InvalidUserId { user_id: refused }) => refused@ == text::trimmed(
                user_id@,
            ) && !is_valid_user_id(refused@),
            Err(_) => false,
        },
{
    let valid = trim(user_id);
    let chars = to_chars(valid.as_str());
    if chars.len() == 0 {
        return Err(RunnerError::InvalidUserId { user_id: valid });
    }
    let mut i: usize = 0;
    while i < chars.len()
        invariant
            i <= chars.len(),
            chars@ == valid@,
            valid@ == text::trimmed(user_id@),
            forall|k: int| 0 <= k < i ==> chars@[k] != '/' && chars@[k] != '\\',
            forall|k: int|
                0 <= k < i && k + 1 < chars.len() ==> !(#[trigger] chars@[k] == '.' && chars@[k + 1]
                    == '.'),
        decreases chars.len() - i,
    {
        if chars[i] == '/' || chars[i] == '\\' {
            return Err(RunnerError::InvalidUserId { user_id: valid });
        }
        if chars[i] == '.' && i + 1 < chars.len() && chars[i + 1] == '.' {
            return Err(RunnerError::InvalidUserId { user_id: valid });
        }
        i += 1;
    }
    Ok(valid)
}

/// A valid user's directory lies under the root of the workspaces.
pub proof fn law_user_directory_lies_under_root(root: Seq<char>, user_id: Seq<char>)
    requires
        is_valid_user_id(user_id),
    ensures
        root.is_prefix_of(paths::joined_path(root, user_id)),
{
    if paths::is_absolute_path(user_id) {
        assert(user_id.contains(user_id[0]));
    }
    paths::law_joined_path_lies_under(root, user_id);
}

/// The directories of a user.
#[derive(Debug, PartialEq, Eq)]
pub struct UserWorkspace {
    pub root: String,
    pub shared: String,
    pub tmp: String,
    pub vault: String,
    pub logs: String,
    pub ipc: String,
    /// For the guest alone: what it remembers, and its configuration. Neither tools nor
    /// the sidecar get at it.
    pub internal: String,
}

/// The model of a [`UserWorkspace`].
pub struct WorkspaceModel {
    pub root: Seq<char>,
    pub shared: Seq<char>,
    pub tmp: Seq<char>,
    pub vault: Seq<char>,
    pub logs: Seq<char>,
    pub ipc: Seq<char>,
    pub internal: Seq<char>,
}

impl DeepView for UserWorkspace {
    type V = WorkspaceModel;

    open spec fn deep_view(&self) -> WorkspaceModel {
        WorkspaceModel {
            root: self.root@,
            shared: self.shared@,
            tmp: self.tmp@,
            vault: self.vault@,
            logs: self.logs@,
            ipc: self.ipc@,
            internal: self.internal@,
        }
    }
}

/// The directories under a root.
pub open spec fn workspace_under(root: Seq<char>) -> WorkspaceModel {
    WorkspaceModel {
        root,
        shared: paths::joined_path(root, "shared"@),
        tmp: paths::joined_path(root, "tmp"@),
        vault: paths::joined_path(root, "vault"@),
        logs: paths::joined_path(root, "logs"@),
        ipc: paths::joined_path(root, "ipc"@),
        internal: paths::joined_path(root, ".oxydra"@),
    }
}

impl UserWorkspace {
    /// The directories of a user whose root is there.
    pub fn under(root: String) -> (r: Self)
        ensures
            r.deep_view() == workspace_under(root@),
    {
        let shared = join_path(root.as_str(), SHARED_DIR_NAME);
        let tmp = join_path(root.as_str(), TMP_DIR_NAME);
        let vault = join_path(root.as_str(), VAULT_DIR_NAME);
        let logs = join_path(root.as_str(), LOGS_DIR_NAME);
        let ipc = join_path(root.as_str(), IPC_DIR_NAME);
        let internal = join_path(root.as_str(), INTERNAL_DIR_NAME);
        UserWorkspace { root, shared, tmp, vault, logs, ipc, internal }
    }

    /// The socket on which the user's runner is controlled.
    pub fn control_socket_path(&self) -> (r: String)
        ensures
            r@ == paths::joined_path(self.deep_view().ipc, "runner-control.sock"@),
    {
        join_path(self.ipc.as_str(), RUNNER_CONTROL_SOCKET_NAME)
    }

    /// Where the guest leaves the address of its gateway.
    pub fn gateway_marker_path(&self) -> (r: String)
        ensures
            r@ == paths::joined_path(self.deep_view().ipc, "gateway-endpoint"@),
    {
        join_path(self.ipc.as_str(), GATEWAY_ENDPOINT_MARKER_FILE)
    }

    /// The file that a guest outside the process tier reads its start-up data from.
    pub fn bootstrap_file_path(&self) -> (r: String)
        ensures
            r@ == paths::joined_path(
                paths::joined_path(self.deep_view().ipc, "bootstrap"@),
                "runner_bootstrap.json"@,
            ),
    {
        let directory = join_path(self.ipc.as_str(), "bootstrap");
        join_path(directory.as_str(), "runner_bootstrap.json")
    }

    /// The file that the agent's configuration is put into, where the guest finds it.
    pub fn agent_config_path(&self) -> (r: String)
        ensures
            r@ == paths::joined_path(self.deep_view().internal, "agent.toml"@),
    {
        join_path(self.internal.as_str(), "agent.toml")
    }

    /// A file that would go before the agent's configuration, and is taken away where
    /// that is put.
    pub fn stale_providers_path(&self) -> (r: String)
        ensures
            r@ == paths::joined_path(self.deep_view().internal, "providers.toml"@),
    {
        join_path(self.internal.as_str(), "providers.toml")
    }

    /// The file that a guest's output of one kind is kept in.
    pub fn guest_log_path(&self, role: RunnerGuestRole, errors: bool) -> (r: String)
        ensures
            r@ == paths::joined_path(
                self.deep_view().logs,
                role.label() + if errors {
                    ".stderr.log"@
                } else {
                    ".stdout.log"@
                },
            ),
    {
        let name = concat(
            role.as_label(),
            if errors {
                ".stderr.log"
            } else {
                ".stdout.log"
            },
        );
        join_path(self.logs.as_str(), name.as_str())
    }
}

impl Clone for UserWorkspace {
    fn clone(&self) -> (r: Self)
        ensures
            r.deep_view() == self.deep_view(),
    {
        UserWorkspace {
            root: self.root.clone(),
            shared: self.shared.clone(),
            tmp: self.tmp.clone(),
            vault: self.vault.clone(),
            logs: self.logs.clone(),
            ipc: self.ipc.clone(),
            internal: self.internal.clone(),
        }
    }
}

/// The directory that a user's workspace is provisioned in, before links in its path are
/// resolved.
pub fn user_root(workspace_root: &str, user_id: &str) -> (r: Result<String, RunnerError>)
    ensures
        match r {
            Ok(root) => is_valid_user_id(text::trimmed(user_id@)) && root@ == paths::joined_path(
                workspace_root@,
                text::trimmed(user_id@),
            ),
            Err(RunnerError::InvalidUserId { user_id: refused }) => refused@ == text::trimmed(
                user_id@,
            ) && !is_valid_user_id(refused@),
            Err(_) => false,
        },
{
    match validate_user_id(user_id) {
        Ok(valid) => Ok(join_path(workspace_root, valid.as_str())),
        Err(error) => Err(error),
    }
}

/// The directories that are made for a user, in order.
pub fn user_directories(root: &str) -> (r: Vec<String>)
    ensures
        r.deep_view() == seq![
            workspace_under(root@).shared,
            workspace_under(root@).tmp,
            workspace_under(root@).vault,
            workspace_under(root@).logs,
            workspace_under(root@).ipc,
            workspace_under(root@).internal,
        ],
{
    let places = UserWorkspace::under(root.to_owned());
    let r = vec![
        places.shared,
        places.tmp,
        places.vault,
        places.logs,
        places.ipc,
        places.internal,
    ];
    proof {
        assert(r.deep_view() =~= seq![
            workspace_under(root@).shared,
            workspace_under(root@).tmp,
            workspace_under(root@).vault,
            workspace_under(root@).logs,
            workspace_under(root@).ipc,
            workspace_under(root@).internal,
        ]);
    }
    r
}

/// What a user wants mounted in place of the usual directories.
#[derive(Debug, PartialEq, Eq, Default)]
pub struct RunnerMountPaths {
    pub shared: Option<String>,
    pub tmp: Option<String>,
    pub vault: Option<String>,
}

/// What is mounted.
#[derive(Debug, PartialEq, Eq)]
pub struct EffectiveMountPaths {
    pub shared: String,
    pub tmp: String,
    pub vault: String,
}

/// The model of [`EffectiveMountPaths`].
pub struct MountsModel {
    pub shared: Seq<char>,
    pub tmp: Seq<char>,
    pub vault: Seq<char>,
}

impl DeepView for EffectiveMountPaths {
    type V = MountsModel;

    open spec fn deep_view(&self) -> MountsModel {
        MountsModel { shared: self.shared@, tmp: self.tmp@, vault: self.vault@ }
    }
}

impl Clone for EffectiveMountPaths {
    fn clone(&self) -> (r: Self)
        ensures
            r.deep_view() == self.deep_view(),
    {
        EffectiveMountPaths {
            shared: self.shared.clone(),
            tmp: self.tmp.clone(),
            vault: self.vault.clone(),
        }
    }
}

/// A mounted path: the configured one, from the root of the workspace, or the usual one
/// where none is configured.
pub open spec fn mount_path(
    root: Seq<char>,
    configured: Option<Seq<char>>,
    usual: Seq<char>,
) -> Seq<char> {
    match configured {
        Some(path) => if text::trimmed(path).len() > 0 {
            paths::path_in(root, text::trimmed(path))
        } else {
            usual
        },
        None => usual,
    }
}

/// Which path is mounted.
pub fn resolve_mount_path_override(
    workspace: &UserWorkspace,
    configured: &Option<String>,
    usual: &str,
) -> (r: String)
    ensures
        r@ == mount_path(workspace.deep_view().root, configured.deep_view(), usual@),
{
    match configured {
        Some(path) => {
            let path = trim(path.as_str());
            if path.as_str().is_empty() {
                usual.to_owned()
            } else {
                resolve_path(workspace.root.as_str(), path.as_str())
            }
        },
        None => usual.to_owned(),
    }
}

/// What is mounted for a user.
pub fn resolve_effective_mount_paths(
    workspace: &UserWorkspace,
    configured: &RunnerMountPaths,
) -> (r: EffectiveMountPaths)
    ensures
        r.deep_view() == effective_mounts(workspace.deep_view(), *configured),
{
    EffectiveMountPaths {
        shared: resolve_mount_path_override(
            workspace,
            &configured.shared,
            workspace.shared.as_str(),
        ),
        tmp: resolve_mount_path_override(workspace, &configured.tmp, workspace.tmp.as_str()),
        vault: resolve_mount_path_override(workspace, &configured.vault, workspace.vault.as_str()),
    }
}

/// What is mounted for a user.
pub open spec fn effective_mounts(
    workspace: WorkspaceModel,
    configured: RunnerMountPaths,
) -> MountsModel {
    MountsModel {
        shared: mount_path(workspace.root, configured.shared.deep_view(), workspace.shared),
        tmp: mount_path(workspace.root, configured.tmp.deep_view(), workspace.tmp),
        vault: mount_path(workspace.root, configured.vault.deep_view(), workspace.vault),
    }
}

/// Without anything configured, a user's own directories are mounted.
pub proof fn law_usual_mounts_are_the_workspace(workspace: WorkspaceModel)
    ensures
        effective_mounts(
            workspace,
            (RunnerMountPaths { shared: None, tmp: None, vault: None }),
        ) == (MountsModel {
            shared: workspace.shared,
            tmp: workspace.tmp,
            vault: workspace.vault,
        }),
{
}

/// The configuration file of a registered user, from the directory of the runner's own.
pub fn user_config_path(
    users: &TextMap<String>,
    config_directory: &str,
    user_id: &str,
) -> (r: Result<String, RunnerError>)
    requires
        users.well_formed(),
    ensures
        match r {
            Ok(path) => users@.dom().contains(user_id@) && path@ == paths::path_in(
                config_directory@,
                users@[user_id@]@,
            ),
            Err(RunnerError::UnknownUser { user_id: unknown }) => !users@.dom().contains(user_id@)
                && unknown@ == user_id@,
            Err(_) => false,
        },
{
    match users.get(user_id) {
        Some(configured) => Ok(resolve_path(config_directory, configured.as_str())),
        None => Err(RunnerError::UnknownUser { user_id: user_id.to_owned() }),
    }
}

/// The directories of a user stand under one root, each under its own name, and those that
/// are made are exactly these.
pub proof fn law_directories_stand_under_the_root(
    root: String,
    workspace: UserWorkspace,
    path: &str,
    made: Vec<String>,
)
    requires
        call_ensures(UserWorkspace::under, (root,), workspace),
        path@ == root@,
        call_ensures(user_directories, (path,), made),
    ensures
        workspace.root@ == root@,
        workspace.shared@ == paths::joined_path(root@, "shared"@),
        workspace.tmp@ == paths::joined_path(root@, "tmp"@),
        workspace.vault@ == paths::joined_path(root@, "vault"@),
        workspace.logs@ == paths::joined_path(root@, "logs"@),
        workspace.ipc@ == paths::joined_path(root@, "ipc"@),
        workspace.internal@ == paths::joined_path(root@, ".oxydra"@),
        made@.len() == 6,
        made@[0]@ == workspace.shared@,
        made@[1]@ == workspace.tmp@,
        made@[2]@ == workspace.vault@,
        made@[3]@ == workspace.logs@,
        made@[4]@ == workspace.ipc@,
        made@[5]@ == workspace.internal@,
{
    text::lemma_list(made);
}

/// The files of a user stand where their kind belongs: sockets, marks and start-up data in
/// the directory for communication, configuration in the one for the guest alone, output
/// in the one for logs, under the guest's role and kept apart by kind.
pub proof fn law_files_stand_where_they_belong(
    workspace: UserWorkspace,
    control: String,
    marker: String,
    start_up: String,
    config: String,
    stale: String,
    role: RunnerGuestRole,
    errors: bool,
    log: String,
)
    requires
        call_ensures(UserWorkspace::control_socket_path, (&workspace,), control),
        call_ensures(UserWorkspace::gateway_marker_path, (&workspace,), marker),
        call_ensures(UserWorkspace::bootstrap_file_path, (&workspace,), start_up),
        call_ensures(UserWorkspace::agent_config_path, (&workspace,), config),
        call_ensures(UserWorkspace::stale_providers_path, (&workspace,), stale),
        call_ensures(UserWorkspace::guest_log_path, (&workspace, role, errors), log),
    ensures
        control@ == paths::joined_path(workspace.ipc@, "runner-control.sock"@),
        marker@ == paths::joined_path(workspace.ipc@, "gateway-endpoint"@),
        start_up@ == paths::joined_path(
            paths::joined_path(workspace.ipc@, "bootstrap"@),
            "runner_bootstrap.json"@,
        ),
        config@ == paths::joined_path(workspace.internal@, "agent.toml"@),
        stale@ == paths::joined_path(workspace.internal@, "providers.toml"@),
        log@ == paths::joined_path(
            workspace.logs@,
            (match role {
                RunnerGuestRole::OxydraVm => "oxydra-vm"@,
                RunnerGuestRole::ShellVm => "shell-vm"@,
            }) + (if errors {
                ".stderr.log"@
            } else {
                ".stdout.log"@
            }),
        ),
{
}

/// A user's directory is named after the user, without the white space around the name,
/// where that can stand as one directory: not empty, without a separator, and without a
/// step upwards. Any other name is refused.
pub proof fn law_user_has_one_directory(
    workspace_root: &str,
    user_id: &str,
    r: Result<String, RunnerError>,
)
    requires
        call_ensures(user_root, (workspace_root, user_id), r),
    ensures
        ({
            let name = text::trimmed(user_id@);
            let plain = name.len() > 0 && !name.contains('/') && !name.contains('\\') && (forall|
                i: int,
            |
                0 <= i < name.len() - 1 ==> !(#[trigger] name[i] == '.' && name[i + 1] == '.'));
            &&& r is Ok <==> plain
            &&& r matches Ok(root) ==> root@ == paths::joined_path(workspace_root@, name)
            &&& r matches Err(error) ==> (error matches RunnerError::InvalidUserId {
                user_id: refused,
            } && refused@ == name)
        }),
{
}

/// What is mounted is what is configured, counted from the user's root, or else the user's
/// own directory of that kind; what is white space alone is not configured.
pub proof fn law_configured_mounts_are_used(
    workspace: UserWorkspace,
    configured: RunnerMountPaths,
    mounts: EffectiveMountPaths,
)
    requires
        call_ensures(resolve_effective_mount_paths, (&workspace, &configured), mounts),
    ensures
        ({
            let used = |path: Option<String>| path matches Some(text) && text::trimmed(
                text@,
            ).len() > 0;
            let resolved = |path: String|
                if paths::is_absolute_path(text::trimmed(path@)) {
                    text::trimmed(path@)
                } else {
                    paths::joined_path(workspace.root@, text::trimmed(path@))
                };
            &&& mounts.shared@ == if used(configured.shared) {
                resolved(configured.shared->0)
            } else {
                workspace.shared@
            }
            &&& mounts.tmp@ == if used(configured.tmp) {
                resolved(configured.tmp->0)
            } else {
                workspace.tmp@
            }
            &&& mounts.vault@ == if used(configured.vault) {
                resolved(configured.vault->0)
            } else {
                workspace.vault@
            }
        }),
{
}

/// A registered user's configuration is the file that is registered, counted from the
/// directory of the runner's own; any other user is unknown.
pub proof fn law_registered_user_is_configured(
    users: TextMap<String>,
    directory: &str,
    user_id: &str,
    r: Result<String, RunnerError>,
)
    requires
        users.well_formed(),
        call_ensures(user_config_path, (&users, directory, user_id), r),
    ensures
        r is Ok <==> users@.dom().contains(user_id@),
        r matches Ok(path) ==> path@ == if paths::is_absolute_path(users@[user_id@]@) {
            users@[user_id@]@
        } else {
            paths::joined_path(directory@, users@[user_id@]@)
        },
        r matches Err(error) ==> (error matches RunnerError::UnknownUser { user_id: unknown }
            && unknown@ == user_id@),
{
}

/// A user is known by their identity without the white space around it. It is refused where
/// nothing is left of it, or where it could lead out of its directory.
pub proof fn law_identities_stay_in_their_directory(
    user_id: &str,
    r: Result<String, RunnerError>,
)
    requires
        call_ensures(validate_user_id, (user_id,), r),
    ensures
        r matches Ok(valid) ==> valid@ == text::trimmed(user_id@) && valid@.len() > 0
            && !valid@.contains('/') && !valid@.contains('\\') && !text::stands_in(
            valid@,
            seq!['.', '.'],
        ),
        r matches Err(error) ==> (error matches RunnerError::InvalidUserId { user_id: refused }
            && refused@ == text::trimmed(user_id@) && (refused@.len() == 0 || refused@.contains('/')
            || refused@.contains('\\') || text::stands_in(refused@, seq!['.', '.']))),
{
    let id = text::trimmed(user_id@);
    let dots = seq!['.', '.'];
    if text::stands_in(id, dots) {
        let at = choose|at: int| text::stands_at(id, dots, at);
        assert(text::stands_at(id, dots, at));
        assert(id.subrange(at, at + 2)[0] == id[at]);
        assert(id.subrange(at, at + 2)[1] == id[at + 1]);
        assert(!is_valid_user_id(id));
    } else if id.len() > 0 && !id.contains('/') && !id.contains('\\') && !is_valid_user_id(id) {
        let i = choose|i: int|
            0 <= i < id.len() - 1 && #[trigger] id[i] == '.' && id[i + 1] == '.';
        assert(id.subrange(i, i + 2) =~= dots);
        assert(text::stands_at(id, dots, i));
    }
}

/// A configured directory is used where it says anything, under the user's directory unless
/// it is absolute; otherwise the usual one is.
pub proof fn law_configured_directory_is_used(
    workspace: UserWorkspace,
    configured: Option<String>,
    usual: &str,
    r: String,
)
    requires
        call_ensures(resolve_mount_path_override, (&workspace, &configured, usual), r),
    ensures
        configured is None ==> r@ == usual@,
        configured matches Some(path) ==> {
            let given = text::trimmed(path@);
            &&& given.len() == 0 ==> r@ == usual@
            &&& given.len() > 0 && given[0] == '/' ==> r@ == given
            &&& given.len() > 0 && given[0] != '/' ==> workspace.root@.is_prefix_of(r@)
                && given.len() <= r@.len() && r@.skip(r@.len() - given.len()) == given
        },
{
    if let Some(path) = configured {
        let given = text::trimmed(path@);
        if given.len() > 0 && given[0] != '/' {
            paths::law_joined_path_lies_under(workspace.root@, given);
            assert(r@ == paths::joined_path(workspace.root@, given));
            assert(r@.skip(r@.len() - given.len()) =~= given);
        }
    }
}

} // verus!
