//! Handles of running guests, and how guests are shut down.

use crate::docker::{DockerEndpoint, DockerSandboxVmHandle};
use crate::sandbox::{RunnerCommandSpec, RunnerError, RunnerGuestRole, SandboxTier};
use vstd::prelude::*;

verus! {

/// A guest's container.
#[derive(Debug, PartialEq, Eq)]
pub struct DockerContainerHandle {
    pub endpoint: DockerEndpoint,
    pub container_name: String,
}

/// What keeps a guest alive.
#[derive(Debug, PartialEq, Eq)]
pub enum RunnerGuestLifecycle {
    /// A child process.
    Process,
    DockerContainer(DockerContainerHandle),
    /// Nothing. A guest that was shut down is left so.
    Simulated,
}

/// A guest.
#[derive(Debug, PartialEq, Eq)]
pub struct RunnerGuestHandle {
    pub role: RunnerGuestRole,
    pub command: RunnerCommandSpec,
    pub pid: Option<u32>,
    pub lifecycle: RunnerGuestLifecycle,
}

/// What is to be done next to shut a guest down.
#[derive(Debug, PartialEq, Eq)]
pub enum GuestShutdown {
    /// Ask whether the child process still runs.
    CheckStatus,
    Terminate,
    Wait,
    /// Stop the container and remove it.
    RemoveContainer(DockerContainerHandle),
    /// Nothing but to join what still reads the guest's output.
    Done,
}

/// How a step of a shutdown went.
#[derive(Debug, PartialEq, Eq)]
pub enum ShutdownOutcome {
    Done,
    /// The child process has not ended yet.
    StillRunning,
    /// A call on the child process failed.
    Failed(String),
    /// The container could not be removed.
    Error(RunnerError),
}

/// The failure of a call on a child process.
pub open spec fn is_lifecycle_error(
    error: RunnerError,
    guest: RunnerGuestHandle,
    action: Seq<char>,
    message: String,
) -> bool {
    error matches RunnerError::GuestLifecycle { action: a, role, program, message: m } && a@
        == action && role == guest.role && program@ == guest.command.program@ && m == message
}

impl RunnerGuestHandle {
    /// A guest that runs as a child process.
    pub fn from_child(role: RunnerGuestRole, command: RunnerCommandSpec, pid: u32) -> (r: Self)
        ensures
            r == (RunnerGuestHandle {
                role,
                command,
                pid: Some(pid),
                lifecycle: RunnerGuestLifecycle::Process,
            }),
    {
        RunnerGuestHandle {
            role,
            command,
            pid: Some(pid),
            lifecycle: RunnerGuestLifecycle::Process,
        }
    }

    /// A guest that runs in a container.
    pub fn for_docker(
        role: RunnerGuestRole,
        command: RunnerCommandSpec,
        endpoint: DockerEndpoint,
        container_name: String,
    ) -> (r: Self)
        ensures
            r == (RunnerGuestHandle {
                role,
                command,
                pid: None,
                lifecycle: RunnerGuestLifecycle::DockerContainer(
                    DockerContainerHandle { endpoint, container_name },
                ),
            }),
    {
        RunnerGuestHandle {
            role,
            command,
            pid: None,
            lifecycle: RunnerGuestLifecycle::DockerContainer(
                DockerContainerHandle { endpoint, container_name },
            ),
        }
    }

    /// A guest that is none.
    pub fn simulated(role: RunnerGuestRole, command: RunnerCommandSpec) -> (r: Self)
        ensures
            r == (RunnerGuestHandle {
                role,
                command,
                pid: None,
                lifecycle: RunnerGuestLifecycle::Simulated,
            }),
    {
        RunnerGuestHandle { role, command, pid: None, lifecycle: RunnerGuestLifecycle::Simulated }
    }

    /// The name of the guest's container, where it has one.
    pub fn container_name(&self) -> (r: Option<&String>)
        ensures
            r == match self.lifecycle {
                RunnerGuestLifecycle::DockerContainer(handle) => Some(&handle.container_name),
                _ => None,
            },
    {
        match &self.lifecycle {
            RunnerGuestLifecycle::DockerContainer(handle) => Some(&handle.container_name),
            _ => None,
        }
    }

    /// Whether start-up data goes to the guest over its standard input.
    pub fn takes_startup_frame(&self) -> (r: bool)
        ensures
            r == (self.lifecycle is Process),
    {
        matches!(self.lifecycle, RunnerGuestLifecycle::Process)
    }

    /// Starts to shut the guest down. What kept it alive is given up, so that a second
    /// shutdown finds nothing to do.
    pub fn begin_shutdown(&mut self) -> (r: GuestShutdown)
        ensures
            final(self).role == old(self).role,
            final(self).command == old(self).command,
            final(self).pid == if old(self).lifecycle is Simulated {
                None
            } else {
                old(self).pid
            },
            final(self).lifecycle is Simulated,
            r == match old(self).lifecycle {
                RunnerGuestLifecycle::Process => GuestShutdown::CheckStatus,
                RunnerGuestLifecycle::DockerContainer(handle) => GuestShutdown::RemoveContainer(
                    handle,
                ),
                RunnerGuestLifecycle::Simulated => GuestShutdown::Done,
            },
    {
        let mut lifecycle = RunnerGuestLifecycle::Simulated;
        std::mem::swap(&mut lifecycle, &mut self.lifecycle);
        match lifecycle {
            RunnerGuestLifecycle::Process => GuestShutdown::CheckStatus,
            RunnerGuestLifecycle::DockerContainer(handle) => GuestShutdown::RemoveContainer(handle),
            RunnerGuestLifecycle::Simulated => {
                self.pid = None;
                GuestShutdown::Done
            },
        }
    }

    /// What follows a step of a shutdown. A guest that is down has no process any more.
    pub fn next_shutdown_step(&mut self, step: GuestShutdown, outcome: ShutdownOutcome) -> (r:
        Result<GuestShutdown, RunnerError>)
        ensures
            final(self).role == old(self).role,
            final(self).command == old(self).command,
            final(self).lifecycle == old(self).lifecycle,
            final(self).pid == if r matches Ok(GuestShutdown::Done) {
                None
            } else {
                old(self).pid
            },
            match r {
                Ok(next) => shutdown_continues(step, outcome, next),
                Err(error) => shutdown_fails(*old(self), step, outcome, error),
            },
    {
        match (step, outcome) {
            (GuestShutdown::CheckStatus, ShutdownOutcome::StillRunning) => Ok(
                GuestShutdown::Terminate,
            ),
            (GuestShutdown::CheckStatus, ShutdownOutcome::Failed(message)) => Err(
                self.lifecycle_error("check_status", message),
            ),
            (GuestShutdown::Terminate, ShutdownOutcome::Failed(message)) => Err(
                self.lifecycle_error("terminate", message),
            ),
            (GuestShutdown::Terminate, ShutdownOutcome::Done) => Ok(GuestShutdown::Wait),
            (GuestShutdown::Wait, ShutdownOutcome::Failed(message)) => Err(
                self.lifecycle_error("wait", message),
            ),
            (GuestShutdown::RemoveContainer(_), ShutdownOutcome::Error(error)) => Err(error),
            _ => {
                self.pid = None;
                Ok(GuestShutdown::Done)
            },
        }
    }

    fn lifecycle_error(&self, action: &'static str, message: String) -> (r: RunnerError)
        ensures
            is_lifecycle_error(r, *self, action@, message),
    {
        RunnerError::GuestLifecycle {
            action,
            role: self.role,
            program: self.command.program.clone(),
            message,
        }
    }

    /// What is reported when the start-up data cannot be written to the guest.
    pub fn startup_frame_error(&self, message: String) -> (r: RunnerError)
        ensures
            is_lifecycle_error(r, *self, "write_startup_frame"@, message),
    {
        self.lifecycle_error("write_startup_frame", message)
    }
}

/// A shutdown goes on with that step: a process that still runs is terminated and
/// waited for, and everything else is done.
pub open spec fn shutdown_continues(
    step: GuestShutdown,
    outcome: ShutdownOutcome,
    next: GuestShutdown,
) -> bool {
    match (step, outcome) {
        (GuestShutdown::CheckStatus, ShutdownOutcome::StillRunning) => next is Terminate,
        (GuestShutdown::CheckStatus, ShutdownOutcome::Failed(_)) => false,
        (GuestShutdown::Terminate, ShutdownOutcome::Failed(_)) => false,
        (GuestShutdown::Terminate, ShutdownOutcome::Done) => next is Wait,
        (GuestShutdown::Wait, ShutdownOutcome::Failed(_)) => false,
        (GuestShutdown::RemoveContainer(_), ShutdownOutcome::Error(_)) => false,
        _ => next is Done,
    }
}

/// A shutdown ends with that error.
pub open spec fn shutdown_fails(
    guest: RunnerGuestHandle,
    step: GuestShutdown,
    outcome: ShutdownOutcome,
    error: RunnerError,
) -> bool {
    match (step, outcome) {
        (GuestShutdown::CheckStatus, ShutdownOutcome::Failed(message)) => is_lifecycle_error(
            error,
            guest,
            "check_status"@,
            message,
        ),
        (GuestShutdown::Terminate, ShutdownOutcome::Failed(message)) => is_lifecycle_error(
            error,
            guest,
            "terminate"@,
            message,
        ),
        (GuestShutdown::Wait, ShutdownOutcome::Failed(message)) => is_lifecycle_error(
            error,
            guest,
            "wait"@,
            message,
        ),
        (GuestShutdown::RemoveContainer(_), ShutdownOutcome::Error(cause)) => error == cause,
        _ => false,
    }
}

/// How far a shutdown is from its end.
pub open spec fn steps_left(step: GuestShutdown) -> nat {
    match step {
        GuestShutdown::CheckStatus => 3,
        GuestShutdown::Terminate => 2,
        GuestShutdown::Wait => 1,
        GuestShutdown::RemoveContainer(_) => 1,
        GuestShutdown::Done => 0,
    }
}

/// Every step of a shutdown brings it nearer to its end.
pub proof fn law_shutdown_ends(step: GuestShutdown, outcome: ShutdownOutcome, next: GuestShutdown)
    requires
        !(step is Done),
        shutdown_continues(step, outcome, next),
    ensures
        steps_left(next) < steps_left(step),
{
}

/// What holds the guests of a user together.
#[derive(Debug, PartialEq, Eq)]
pub enum RunnerScopeHandle {
    DockerSandboxVm(DockerSandboxVmHandle),
    Simulated,
}

impl RunnerScopeHandle {
    /// The virtual machine that goes with the scope.
    pub fn vm_to_delete(&self) -> (r: Option<&DockerSandboxVmHandle>)
        ensures
            r == match *self {
                RunnerScopeHandle::DockerSandboxVm(vm) => Some(&vm),
                RunnerScopeHandle::Simulated => None,
            },
    {
        match self {
            RunnerScopeHandle::DockerSandboxVm(vm) => Some(vm),
            RunnerScopeHandle::Simulated => None,
        }
    }
}

/// The guests of a user.
#[derive(Debug, PartialEq, Eq)]
pub struct RunnerLaunchHandle {
    pub tier: SandboxTier,
    pub runtime: RunnerGuestHandle,
    pub sidecar: Option<RunnerGuestHandle>,
    pub scope: Option<RunnerScopeHandle>,
}

/// How the shutdown of all guests ends. The sidecar, the runtime and the scope are all
/// shut down, whatever comes of the others; the first failure in this order is reported.
pub fn launch_shutdown_result(
    sidecar: Option<Result<(), RunnerError>>,
    runtime: Result<(), RunnerError>,
    scope: Option<Result<(), RunnerError>>,
) -> (r: Result<(), RunnerError>)
    ensures
        r == match (sidecar, runtime, scope) {
            (Some(Err(error)), _, _) => Err::<(), RunnerError>(error),
            (_, Err(error), _) => Err(error),
            (_, _, Some(Err(error))) => Err(error),
            _ => Ok(()),
        },
{
    if let Some(Err(error)) = sidecar {
        return Err(error);
    }
    if let Err(error) = runtime {
        return Err(error);
    }
    if let Some(Err(error)) = scope {
        return Err(error);
    }
    Ok(())
}

/// A guest that runs as a child process is shut down by asking whether it still runs,
/// then terminating it and waiting for it; one that has ended needs nothing more. Whatever
/// fails is reported for that guest under what was being done. A guest that is down has no
/// process any more, and to shut it down again takes nothing.
pub proof fn law_process_is_shut_down_in_order(
    first: &mut RunnerGuestHandle,
    second: &mut RunnerGuestHandle,
    third: &mut RunnerGuestHandle,
    fourth: &mut RunnerGuestHandle,
    fifth: &mut RunnerGuestHandle,
    begun: GuestShutdown,
    checked: Result<GuestShutdown, RunnerError>,
    terminated: Result<GuestShutdown, RunnerError>,
    waited: Result<GuestShutdown, RunnerError>,
    again: GuestShutdown,
)
    requires
        first.lifecycle is Process,
        call_ensures(RunnerGuestHandle::begin_shutdown, (first,), begun),
        *final(first) == *second,
        call_ensures(
            RunnerGuestHandle::next_shutdown_step,
            (second, begun, ShutdownOutcome::StillRunning),
            checked,
        ),
        *final(second) == *third,
        checked is Ok,
        call_ensures(
            RunnerGuestHandle::next_shutdown_step,
            (third, checked->Ok_0, ShutdownOutcome::Done),
            terminated,
        ),
        *final(third) == *fourth,
        terminated is Ok,
        call_ensures(
            RunnerGuestHandle::next_shutdown_step,
            (fourth, terminated->Ok_0, ShutdownOutcome::Done),
            waited,
        ),
        *final(fourth) == *fifth,
        call_ensures(RunnerGuestHandle::begin_shutdown, (fifth,), again),
    ensures
        begun is CheckStatus,
        checked matches Ok(step) && step is Terminate,
        terminated matches Ok(step) && step is Wait,
        waited matches Ok(step) && step is Done,
        final(fourth).pid is None,
        final(fourth).role == old(first).role,
        again is Done,
{
}

/// A call on a guest that fails ends its shutdown, named after what was being done, and so
/// does a container that cannot be removed, with what went wrong. A process that has ended
/// by itself is down.
pub proof fn law_failed_shutdown_says_what_failed(
    guest: &mut RunnerGuestHandle,
    step: GuestShutdown,
    outcome: ShutdownOutcome,
    r: Result<GuestShutdown, RunnerError>,
)
    requires
        call_ensures(RunnerGuestHandle::next_shutdown_step, (guest, step, outcome), r),
    ensures
        outcome matches ShutdownOutcome::Failed(told) ==> (step is CheckStatus || step is Terminate
            || step is Wait ==> (r matches Err(RunnerError::GuestLifecycle {
            action,
            role,
            program,
            message,
        }) && role == old(guest).role && program@ == old(guest).command.program@ && message@
            == told@ && action@ == match step {
            GuestShutdown::CheckStatus => "check_status"@,
            GuestShutdown::Terminate => "terminate"@,
            _ => "wait"@,
        }) && final(guest).pid == old(guest).pid),
        outcome matches ShutdownOutcome::Error(error) ==> (step is RemoveContainer ==> r
            == Err::<GuestShutdown, RunnerError>(error)),
        step is CheckStatus && outcome is Done ==> (r matches Ok(next) && next is Done) && final(guest).pid is None,
        step is RemoveContainer && outcome is Done ==> (r matches Ok(next) && next is Done),
{
}

/// A guest in a container is shut down by removing that container, the one that it was
/// made for, and a guest that is none needs nothing.
pub proof fn law_container_is_removed_on_shutdown(
    role: RunnerGuestRole,
    command: RunnerCommandSpec,
    endpoint: DockerEndpoint,
    name: String,
    made: RunnerGuestHandle,
    guest: &mut RunnerGuestHandle,
    begun: GuestShutdown,
    shown: Option<&String>,
)
    requires
        call_ensures(RunnerGuestHandle::for_docker, (role, command, endpoint, name), made),
        *guest == made,
        call_ensures(RunnerGuestHandle::container_name, (&made,), shown),
        call_ensures(RunnerGuestHandle::begin_shutdown, (guest,), begun),
    ensures
        made.role == role,
        made.command == command,
        made.pid is None,
        shown matches Some(told) && told@ == name@,
        begun matches GuestShutdown::RemoveContainer(handle) && handle.container_name@ == name@
            && handle.endpoint == endpoint,
        final(guest).lifecycle is Simulated,
{
}

/// Start-up data goes over the standard input of a child process, which has its number,
/// and of no other guest.
pub proof fn law_child_reads_its_start_up_data(
    role: RunnerGuestRole,
    command: RunnerCommandSpec,
    pid: u32,
    child: RunnerGuestHandle,
    guest: RunnerGuestHandle,
    takes: bool,
    child_takes: bool,
)
    requires
        call_ensures(RunnerGuestHandle::from_child, (role, command, pid), child),
        call_ensures(RunnerGuestHandle::takes_startup_frame, (&child,), child_takes),
        call_ensures(RunnerGuestHandle::takes_startup_frame, (&guest,), takes),
    ensures
        child.role == role,
        child.command == command,
        child.pid == Some(pid),
        child_takes,
        guest.lifecycle is DockerContainer ==> !takes,
        guest.lifecycle is Simulated ==> !takes,
{
}

/// A shutdown of all guests is a success exactly where each of them is; otherwise it
/// fails with the failure of the sidecar, or else of the runtime, or else of what holds
/// them together.
pub proof fn law_shutdown_fails_with_the_first_failure(
    sidecar: Option<Result<(), RunnerError>>,
    runtime: Result<(), RunnerError>,
    scope: Option<Result<(), RunnerError>>,
    r: Result<(), RunnerError>,
)
    requires
        call_ensures(launch_shutdown_result, (sidecar, runtime, scope), r),
    ensures
        r is Ok <==> !(sidecar matches Some(Err(_))) && runtime is Ok && !(scope matches Some(
            Err(_),
        )),
        sidecar matches Some(Err(error)) ==> r == Err::<(), RunnerError>(error),
        !(sidecar matches Some(Err(_))) ==> (runtime matches Err(error) ==> r == Err::<
            (),
            RunnerError,
        >(error)),
        !(sidecar matches Some(Err(_))) && runtime is Ok ==> (scope matches Some(Err(error)) ==> r
            == Err::<(), RunnerError>(error)),
{
}

/// A simulated guest has no process; a failure to write its start-up data is one of its
/// life; only a scope that is a virtual machine has one to delete.
pub proof fn law_simulated_guest_has_no_process(
    role: RunnerGuestRole,
    command: RunnerCommandSpec,
    guest: RunnerGuestHandle,
    message: String,
    error: RunnerError,
    scope: RunnerScopeHandle,
    vm: Option<&DockerSandboxVmHandle>,
)
    requires
        call_ensures(RunnerGuestHandle::simulated, (role, command), guest),
        call_ensures(RunnerGuestHandle::startup_frame_error, (&guest, message), error),
        call_ensures(RunnerScopeHandle::vm_to_delete, (&scope,), vm),
    ensures
        guest.role == role,
        guest.command == command,
        guest.pid is None,
        guest.lifecycle is Simulated,
        error matches RunnerError::GuestLifecycle { action, role: whose, program, message: why }
            && action@ == "write_startup_frame"@ && whose == role && program@ == command.program@
            && why@ == message@,
        vm is Some <==> scope is DockerSandboxVm,
        scope matches RunnerScopeHandle::DockerSandboxVm(made) ==> (vm matches Some(deleted)
            && *deleted == made),
{
}

} // verus!
