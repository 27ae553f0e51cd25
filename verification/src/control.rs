//! How a running runner is controlled: the frames that requests and answers travel in,
//! and what each request is answered.

use crate::guest::RunnerGuestLifecycle;
use crate::logs;
use crate::logs::{logs_answer, GuestLogs, LogRole, RunnerControlLogs, RunnerControlLogsRequest};
use crate::paths;
use crate::sandbox;
use crate::sandbox::{
    RunnerError, RunnerGuestRole, SandboxTier, StartupDegradedReasonCode, StartupStatusReport,
    StatusModel,
};
use crate::startup::RunnerStartup;
use crate::text;
use crate::text::{concat, concat4, concat5, decimal_text, join, same_text};
use vstd::prelude::*;

verus! {

/// The longest that what a frame carries may be, in bytes.
pub const RUNNER_CONTROL_MAX_FRAME_BYTES: usize = 131072;

/// What can go wrong with frames.
#[derive(Debug, PartialEq, Eq)]
pub enum RunnerControlTransportError {
    /// The connection failed. Whether it was refused tells that nobody listens.
    Transport { refused: bool, message: String },
    Serialization { message: String },
    FrameTooLarge { actual_bytes: usize, max_bytes: usize },
}

impl RunnerControlTransportError {
    pub open spec fn text(self) -> Seq<char> {
        match self {
            RunnerControlTransportError::Transport { message, .. } =>
                "runner control transport failure: "@ + message@,
            RunnerControlTransportError::Serialization { message } =>
                "runner control serialization failure: "@ + message@,
            RunnerControlTransportError::FrameTooLarge { actual_bytes, max_bytes } =>
                "runner control frame too large: "@ + text::decimal(actual_bytes as nat)
                + " bytes exceeds max "@ + text::decimal(max_bytes as nat) + " bytes"@,
        }
    }

    /// How the error reads.
    pub fn to_text(&self) -> (r: String)
        ensures
            r@ == self.text(),
    {
        match self {
            RunnerControlTransportError::Transport { message, .. } => concat(
                "runner control transport failure: ",
                message.as_str(),
            ),
            RunnerControlTransportError::Serialization { message } => concat(
                "runner control serialization failure: ",
                message.as_str(),
            ),
            RunnerControlTransportError::FrameTooLarge { actual_bytes, max_bytes } => concat5(
                "runner control frame too large: ",
                decimal_text(*actual_bytes as u64).as_str(),
                " bytes exceeds max ",
                decimal_text(*max_bytes as u64).as_str(),
                " bytes",
            ),
        }
    }

    /// Whether nobody listens.
    pub fn is_connection_refused(&self) -> (r: bool)
        ensures
            r == (*self matches RunnerControlTransportError::Transport { refused, .. } && refused),
    {
        match self {
            RunnerControlTransportError::Transport { refused, .. } => *refused,
            _ => false,
        }
    }
}

/// The number that four bytes make, the most significant first.
pub open spec fn number_of(b0: u8, b1: u8, b2: u8, b3: u8) -> nat {
    (b0 as nat) * 16777216 + (b1 as nat) * 65536 + (b2 as nat) * 256 + b3 as nat
}

/// The four bytes of a number, the most significant first.
pub open spec fn length_prefix(n: nat) -> Seq<u8> {
    seq![
        (n / 16777216 % 256) as u8,
        (n / 65536 % 256) as u8,
        (n / 256 % 256) as u8,
        (n % 256) as u8,
    ]
}

/// Four bytes give back the number that they were made of.
pub proof fn law_length_prefix_reads_back(n: nat)
    requires
        n < 0x1_0000_0000,
    ensures
        number_of(
            length_prefix(n)[0],
            length_prefix(n)[1],
            length_prefix(n)[2],
            length_prefix(n)[3],
        ) == n,
{
}

/// A frame: the length of what it carries, and that.
pub open spec fn frame_of(payload: Seq<u8>) -> Seq<u8> {
    length_prefix(payload.len()) + payload
}

/// Reads the length of what a frame carries. What is longer than a limit is refused.
pub fn frame_length(prefix: [u8; 4], max_bytes: usize) -> (r: Result<
    usize,
    RunnerControlTransportError,
>)
    ensures
        ({
            let length = number_of(prefix[0], prefix[1], prefix[2], prefix[3]);
            match r {
                Ok(n) => n == length && length <= max_bytes,
                Err(error) => length > max_bytes && error == (
                RunnerControlTransportError::FrameTooLarge {
                    actual_bytes: length as usize,
                    max_bytes,
                }),
            }
        }),
{
    let length: u32 = prefix[0] as u32 * 16777216 + prefix[1] as u32 * 65536 + prefix[2] as u32
        * 256 + prefix[3] as u32;
    let length: usize = length as usize;
    if length > max_bytes {
        Err(RunnerControlTransportError::FrameTooLarge { actual_bytes: length, max_bytes })
    } else {
        Ok(length)
    }
}

/// The length of what a frame of the runner carries.
pub fn control_frame_length(prefix: [u8; 4]) -> (r: Result<usize, RunnerControlTransportError>)
    ensures
        ({
            let length = number_of(prefix[0], prefix[1], prefix[2], prefix[3]);
            match r {
                Ok(n) => n == length && length <= RUNNER_CONTROL_MAX_FRAME_BYTES,
                Err(error) => length > RUNNER_CONTROL_MAX_FRAME_BYTES && error == (
                RunnerControlTransportError::FrameTooLarge {
                    actual_bytes: length as usize,
                    max_bytes: RUNNER_CONTROL_MAX_FRAME_BYTES,
                }),
            }
        }),
{
    frame_length(prefix, RUNNER_CONTROL_MAX_FRAME_BYTES)
}

fn push_prefix(out: &mut Vec<u8>, length: u32)
    ensures
        final(out)@ == old(out)@ + length_prefix(length as nat),
{
    let ghost start = out@;
    out.push((length / 16777216 % 256) as u8);
    out.push((length / 65536 % 256) as u8);
    out.push((length / 256 % 256) as u8);
    out.push((length % 256) as u8);
    proof {
        assert(out@ =~= start + length_prefix(length as nat));
    }
}

/// Puts a payload into a frame, whose length has to fit into four bytes.
pub fn length_prefixed(payload: &[u8]) -> (r: Option<Vec<u8>>)
    ensures
        match r {
            Some(frame) => payload@.len() < 0x1_0000_0000 && frame@ == frame_of(payload@),
            None => payload@.len() >= 0x1_0000_0000,
        },
{
    if payload.len() as u64 >= 0x1_0000_0000u64 {
        return None;
    }
    let mut frame: Vec<u8> = Vec::new();
    push_prefix(&mut frame, payload.len() as u32);
    frame.extend_from_slice(payload);
    proof {
        assert(frame@ =~= frame_of(payload@));
    }
    Some(frame)
}

/// Puts a request or an answer into a frame. One that is too long is refused.
pub fn control_frame(payload: &[u8]) -> (r: Result<Vec<u8>, RunnerControlTransportError>)
    ensures
        match r {
            Ok(frame) => payload@.len() <= RUNNER_CONTROL_MAX_FRAME_BYTES && frame@ == frame_of(
                payload@,
            ),
            Err(error) => payload@.len() > RUNNER_CONTROL_MAX_FRAME_BYTES && error == (
            RunnerControlTransportError::FrameTooLarge {
                actual_bytes: payload@.len() as usize,
                max_bytes: RUNNER_CONTROL_MAX_FRAME_BYTES,
            }),
        },
{
    let too_large = RunnerControlTransportError::FrameTooLarge {
        actual_bytes: payload.len(),
        max_bytes: RUNNER_CONTROL_MAX_FRAME_BYTES,
    };
    if payload.len() > RUNNER_CONTROL_MAX_FRAME_BYTES {
        return Err(too_large);
    }
    match length_prefixed(payload) {
        Some(frame) => Ok(frame),
        None => Err(too_large),
    }
}

/// What is read from a stream of bytes.
#[derive(Debug, PartialEq, Eq)]
pub enum FrameRead {
    /// The stream is at its end, or ends within a length.
    End,
    /// A payload, and how many bytes the frame took.
    Frame { payload: Vec<u8>, consumed: usize },
    /// The stream ends within a payload.
    Cut { missing: usize },
    TooLarge(RunnerControlTransportError),
}

/// Takes the first frame from bytes that were received.
pub fn first_frame(bytes: &[u8]) -> (r: FrameRead)
    ensures
        ({
            let length = number_of(bytes@[0], bytes@[1], bytes@[2], bytes@[3]);
            match r {
                FrameRead::End => bytes@.len() < 4,
                FrameRead::TooLarge(error) => bytes@.len() >= 4 && length
                    > RUNNER_CONTROL_MAX_FRAME_BYTES && error == (
                RunnerControlTransportError::FrameTooLarge {
                    actual_bytes: length as usize,
                    max_bytes: RUNNER_CONTROL_MAX_FRAME_BYTES,
                }),
                FrameRead::Cut { missing } => bytes@.len() >= 4 && length
                    <= RUNNER_CONTROL_MAX_FRAME_BYTES && missing == length + 4 - bytes@.len()
                    && missing > 0,
                FrameRead::Frame { payload, consumed } => bytes@.len() >= 4 && length
                    <= RUNNER_CONTROL_MAX_FRAME_BYTES && consumed == length + 4 <= bytes@.len()
                    && payload@ == bytes@.subrange(4, 4 + length as int),
            }
        }),
{
    if bytes.len() < 4 {
        return FrameRead::End;
    }
    match control_frame_length([bytes[0], bytes[1], bytes[2], bytes[3]]) {
        Err(error) => FrameRead::TooLarge(error),
        Ok(length) => {
            let end: usize = length + 4;
            if bytes.len() < end {
                return FrameRead::Cut { missing: end - bytes.len() };
            }
            let body = vstd::slice::slice_subrange(bytes, 4, end);
            let mut payload: Vec<u8> = Vec::new();
            payload.extend_from_slice(body);
            proof {
                assert(payload@ =~= bytes@.subrange(4, end as int));
            }
            FrameRead::Frame { payload, consumed: end }
        },
    }
}

/// What was put into a frame is taken from it again, whatever follows it.
pub proof fn law_frames_read_back(payload: Seq<u8>, rest: Seq<u8>)
    requires
        payload.len() <= RUNNER_CONTROL_MAX_FRAME_BYTES,
    ensures
        ({
            let bytes = frame_of(payload) + rest;
            let length = number_of(bytes[0], bytes[1], bytes[2], bytes[3]);
            bytes.len() >= 4 && length == payload.len() && bytes.subrange(4, 4 + length as int)
                == payload && bytes.skip(4 + length as int) == rest
        }),
{
    law_length_prefix_reads_back(payload.len());
    let bytes = frame_of(payload) + rest;
    assert(bytes.subrange(4, 4 + payload.len() as int) =~= payload);
    assert(bytes.skip(4 + payload.len() as int) =~= rest);
}

/// A request to a runner.
#[derive(Debug, PartialEq, Eq)]
pub enum RunnerControl {
    HealthCheck,
    ShutdownUser { user_id: String },
    Logs(RunnerControlLogsRequest),
}

/// How a user's guests are.
#[derive(Debug, PartialEq, Eq)]
pub struct RunnerControlHealthStatus {
    pub user_id: String,
    pub healthy: bool,
    pub sandbox_tier: SandboxTier,
    pub startup_status: StartupStatusReport,
    pub shell_available: bool,
    pub browser_available: bool,
    pub shutdown: bool,
    pub message: Option<String>,
    pub log_dir: Option<String>,
    pub runtime_pid: Option<u32>,
    pub runtime_container_name: Option<String>,
}

/// The model of a [`RunnerControlHealthStatus`].
pub struct HealthModel {
    pub user_id: Seq<char>,
    pub healthy: bool,
    pub sandbox_tier: SandboxTier,
    pub startup_status: StatusModel,
    pub shell_available: bool,
    pub browser_available: bool,
    pub shutdown: bool,
    pub message: Option<Seq<char>>,
    pub log_dir: Option<Seq<char>>,
    pub runtime_pid: Option<u32>,
    pub runtime_container_name: Option<Seq<char>>,
}

impl DeepView for RunnerControlHealthStatus {
    type V = HealthModel;

    open spec fn deep_view(&self) -> HealthModel {
        HealthModel {
            user_id: self.user_id@,
            healthy: self.healthy,
            sandbox_tier: self.sandbox_tier,
            startup_status: self.startup_status.deep_view(),
            shell_available: self.shell_available,
            browser_available: self.browser_available,
            shutdown: self.shutdown,
            message: self.message.deep_view(),
            log_dir: self.log_dir.deep_view(),
            runtime_pid: self.runtime_pid,
            runtime_container_name: self.runtime_container_name.deep_view(),
        }
    }
}

/// What came of a shutdown.
#[derive(Debug, PartialEq, Eq)]
pub struct RunnerControlShutdownStatus {
    pub user_id: String,
    pub shutdown: bool,
    pub already_stopped: bool,
    pub message: Option<String>,
}

/// Why a request was refused.
#[derive(Debug, Clone, Copy, PartialEq, Eq, Structural)]
pub enum RunnerControlErrorCode {
    UnknownUser,
    InvalidRequest,
    Internal,
}

/// Why a request was refused, in detail.
#[derive(Debug, PartialEq, Eq)]
pub struct RunnerControlError {
    pub code: RunnerControlErrorCode,
    pub message: String,
}

/// An answer of a runner.
#[derive(Debug, PartialEq, Eq)]
pub enum RunnerControlResponse {
    HealthStatus(RunnerControlHealthStatus),
    ShutdownStatus(RunnerControlShutdownStatus),
    Logs(RunnerControlLogs),
    Error(RunnerControlError),
}

/// What a runner knows of its user.
pub struct StartupModel {
    pub user_id: Seq<char>,
    pub sandbox_tier: SandboxTier,
    pub logs: Seq<char>,
    pub shell_available: bool,
    pub browser_available: bool,
    pub startup_status: StatusModel,
    pub runtime_pid: Option<u32>,
    pub runtime_container_name: Option<Seq<char>>,
    pub warnings: Seq<Seq<char>>,
    pub shutdown_complete: bool,
}

impl DeepView for RunnerStartup {
    type V = StartupModel;

    open spec fn deep_view(&self) -> StartupModel {
        StartupModel {
            user_id: self.user_id@,
            sandbox_tier: self.sandbox_tier,
            logs: self.workspace.logs@,
            shell_available: self.shell_available,
            browser_available: self.browser_available,
            startup_status: self.startup_status.deep_view(),
            runtime_pid: self.launch.runtime.pid,
            runtime_container_name: match self.launch.runtime.lifecycle {
                RunnerGuestLifecycle::DockerContainer(handle) => Some(handle.container_name@),
                _ => None,
            },
            warnings: self.warnings.deep_view(),
            shutdown_complete: self.shutdown_complete,
        }
    }
}

impl StartupModel {
    /// A shutdown that is complete has left no tool available, and its reason stands among
    /// those that the guests are limited for.
    pub open spec fn well_formed(self) -> bool {
        self.shutdown_complete ==> {
            &&& !self.shell_available
            &&& !self.browser_available
            &&& !self.startup_status.shell_available
            &&& !self.startup_status.browser_available
            &&& !self.startup_status.sidecar_available
            &&& sandbox::has_code(
                self.startup_status.degraded_reasons,
                StartupDegradedReasonCode::RuntimeShutdown,
            )
        }
    }

    /// What is known once a shutdown was tried, and succeeded or not. Guests that are down
    /// stay as they are.
    pub open spec fn after_shutdown(self, succeeded: bool) -> Self {
        if succeeded && !self.shutdown_complete {
            self.shut_down()
        } else {
            self
        }
    }

    /// What is known once the guests are shut down.
    pub open spec fn shut_down(self) -> Self {
        StartupModel {
            shutdown_complete: true,
            shell_available: false,
            browser_available: false,
            startup_status: (StatusModel {
                shell_available: false,
                browser_available: false,
                sidecar_available: false,
                ..self.startup_status
            }).with_reason(StartupDegradedReasonCode::RuntimeShutdown, "runtime is shut down"@),
            ..self
        }
    }

    /// What the guests started up with, as it is now.
    pub open spec fn current_status(self) -> StatusModel {
        let now = StatusModel {
            shell_available: self.shell_available,
            browser_available: self.browser_available,
            sidecar_available: self.shell_available || self.browser_available,
            ..self.startup_status
        };
        if self.shutdown_complete {
            now.with_reason(StartupDegradedReasonCode::RuntimeShutdown, "runtime is shut down"@)
        } else {
            now
        }
    }

    /// What a health check says in words.
    pub open spec fn health_message(self) -> Option<Seq<char>> {
        if self.shutdown_complete {
            Some("runtime is shut down"@)
        } else if self.warnings.len() == 0 {
            None
        } else {
            Some(text::joined(self.warnings, " | "@))
        }
    }

    /// What a health check is answered.
    pub open spec fn health(self) -> HealthModel {
        HealthModel {
            user_id: self.user_id,
            healthy: !self.shutdown_complete,
            sandbox_tier: self.sandbox_tier,
            startup_status: self.current_status(),
            shell_available: self.shell_available,
            browser_available: self.browser_available,
            shutdown: self.shutdown_complete,
            message: self.health_message(),
            log_dir: Some(self.logs),
            runtime_pid: self.runtime_pid,
            runtime_container_name: self.runtime_container_name,
        }
    }
}

/// What a runner has to do or to find out before it can answer.
#[derive(Debug, Clone, Copy, PartialEq, Eq, Structural)]
pub enum ControlNeed {
    Nothing,
    /// Shut the guests down.
    Shutdown,
    /// Read what a guest wrote.
    Logs,
}

/// What came of it.
#[derive(Debug, PartialEq, Eq)]
pub enum ControlInput {
    Nothing,
    Shutdown(Result<(), RunnerError>),
    /// The point in time from which lines are wanted, and what the wanted guest wrote,
    /// where there is such a guest.
    Logs { since: Option<String>, logs: Option<GuestLogs> },
}

/// What a request takes.
pub open spec fn need_of(startup: StartupModel, request: RunnerControl) -> ControlNeed {
    match request {
        RunnerControl::HealthCheck => ControlNeed::Nothing,
        RunnerControl::ShutdownUser { user_id } => if user_id@ == startup.user_id
            && !startup.shutdown_complete {
            ControlNeed::Shutdown
        } else {
            ControlNeed::Nothing
        },
        RunnerControl::Logs(_) => ControlNeed::Logs,
    }
}

/// What came of it is what the request takes.
pub open spec fn answers_need(need: ControlNeed, input: ControlInput) -> bool {
    match need {
        ControlNeed::Nothing => input is Nothing,
        ControlNeed::Shutdown => input is Shutdown,
        ControlNeed::Logs => input is Logs,
    }
}

/// What a shutdown is answered. The guests of another user are not shut down; guests
/// that are down stay so; and a shutdown that fails is reported.
pub open spec fn shutdown_answer(
    startup: StartupModel,
    user_id: String,
    outcome: Option<Result<(), RunnerError>>,
    response: RunnerControlResponse,
) -> bool {
    if user_id@ != startup.user_id {
        response matches RunnerControlResponse::Error(error) && error.code
            == RunnerControlErrorCode::UnknownUser && error.message@
            == "shutdown request targeted unknown user `"@ + user_id@ + "`; active user is `"@
            + startup.user_id + "`"@
    } else if startup.shutdown_complete {
        response matches RunnerControlResponse::ShutdownStatus(status) && status.user_id == user_id
            && status.shutdown && status.already_stopped && status.message.deep_view() == Some(
            "user runtime already shut down"@,
        )
    } else {
        match outcome {
            Some(Ok(())) => response matches RunnerControlResponse::ShutdownStatus(status)
                && status.user_id == user_id && status.shutdown && !status.already_stopped
                && status.message.deep_view() == Some("shutdown completed"@),
            Some(Err(failure)) => response matches RunnerControlResponse::Error(error)
                && error.code == RunnerControlErrorCode::Internal && error.message@
                == "failed to shut down user `"@ + startup.user_id + "`: "@ + sandbox::error_text(
                failure,
            ),
            None => false,
        }
    }
}

/// The file that announces a gateway and is to be taken away: where the guests went down
/// between the two, and otherwise none.
pub open spec fn stale_marker(
    before: StartupModel,
    after: StartupModel,
    marker: Seq<char>,
) -> Option<Seq<char>> {
    if after.shutdown_complete && !before.shutdown_complete {
        Some(marker)
    } else {
        None
    }
}

impl RunnerStartup {
    /// What holds of a startup from its start on, whatever is asked of it.
    pub open spec fn well_formed(self) -> bool {
        self.deep_view().well_formed()
    }

    /// The file that announces the gateway, where it is to be taken away because the
    /// guests went down just now. `was_complete` tells whether they were down before.
    pub fn marker_to_remove(&self, was_complete: bool) -> (r: Option<String>)
        ensures
            r.deep_view() == stale_marker(
                (StartupModel { shutdown_complete: was_complete, ..self.deep_view() }),
                self.deep_view(),
                paths::joined_path(self.workspace.deep_view().ipc, "gateway-endpoint"@),
            ),
    {
        if self.shutdown_complete && !was_complete {
            Some(self.workspace.gateway_marker_path())
        } else {
            None
        }
    }

    /// Takes note of what came of shutting the guests down. Returns what the shutdown
    /// returns. Where it was already complete there is nothing to note.
    pub fn finish_shutdown(&mut self, outcome: Result<(), RunnerError>) -> (r: Result<
        (),
        RunnerError,
    >)
        ensures
            final(self).launch == old(self).launch,
            final(self).bootstrap == old(self).bootstrap,
            final(self).workspace == old(self).workspace,
            old(self).shutdown_complete ==> r is Ok && *final(self) == *old(self),
            !old(self).shutdown_complete ==> match outcome {
                Ok(()) => r is Ok,
                Err(error) => r == Err::<(), RunnerError>(error),
            },
            !old(self).shutdown_complete && outcome is Err ==> *final(self) == *old(self),
            final(self).deep_view() == old(self).deep_view().after_shutdown(outcome is Ok),
            old(self).well_formed() ==> final(self).well_formed(),
    {
        proof {
            lemma_shut_down_is_well_formed(self.deep_view());
        }
        if self.shutdown_complete {
            return Ok(());
        }
        match outcome {
            Err(error) => Err(error),
            Ok(()) => {
                self.shutdown_complete = true;
                self.shell_available = false;
                self.browser_available = false;
                self.startup_status.shell_available = false;
                self.startup_status.browser_available = false;
                self.startup_status.sidecar_available = false;
                self.startup_status.push_reason(
                    StartupDegradedReasonCode::RuntimeShutdown,
                    "runtime is shut down",
                );
                Ok(())
            },
        }
    }

    /// What the guests started up with, as it is now.
    pub fn control_startup_status(&self) -> (r: StartupStatusReport)
        ensures
            r.deep_view() == self.deep_view().current_status(),
    {
        let mut status = self.startup_status.clone();
        status.shell_available = self.shell_available;
        status.browser_available = self.browser_available;
        status.sidecar_available = self.shell_available || self.browser_available;
        if self.shutdown_complete {
            status.push_reason(StartupDegradedReasonCode::RuntimeShutdown, "runtime is shut down");
        }
        status
    }

    /// What a health check says in words.
    pub fn control_health_message(&self) -> (r: Option<String>)
        ensures
            r.deep_view() == self.deep_view().health_message(),
    {
        if self.shutdown_complete {
            return Some("runtime is shut down".to_owned());
        }
        if self.warnings.len() == 0 {
            None
        } else {
            Some(join(&self.warnings, " | "))
        }
    }

    fn health_status(&self) -> (r: RunnerControlHealthStatus)
        ensures
            r.deep_view() == self.deep_view().health(),
    {
        RunnerControlHealthStatus {
            user_id: self.user_id.clone(),
            healthy: !self.shutdown_complete,
            sandbox_tier: self.sandbox_tier,
            startup_status: self.control_startup_status(),
            shell_available: self.shell_available,
            browser_available: self.browser_available,
            shutdown: self.shutdown_complete,
            message: self.control_health_message(),
            log_dir: Some(self.workspace.logs.clone()),
            runtime_pid: self.launch.runtime.pid,
            runtime_container_name: match self.launch.runtime.container_name() {
                Some(name) => Some(name.clone()),
                None => None,
            },
        }
    }

    /// What has to be done before a request can be answered.
    pub fn control_need(&self, request: &RunnerControl) -> (r: ControlNeed)
        ensures
            r == need_of(self.deep_view(), *request),
    {
        match request {
            RunnerControl::HealthCheck => ControlNeed::Nothing,
            RunnerControl::ShutdownUser { user_id } => if same_text(
                user_id.as_str(),
                self.user_id.as_str(),
            ) && !self.shutdown_complete {
                ControlNeed::Shutdown
            } else {
                ControlNeed::Nothing
            },
            RunnerControl::Logs(_) => ControlNeed::Logs,
        }
    }

    /// The guest whose output is wanted, where there is one.
    pub fn log_guest(&self, role: LogRole) -> (r: Option<RunnerGuestRole>)
        ensures
            r == match role {
                LogRole::Runtime => Some(RunnerGuestRole::OxydraVm),
                LogRole::Sidecar => if self.launch.sidecar is Some {
                    Some(RunnerGuestRole::ShellVm)
                } else {
                    None
                },
            },
    {
        match role {
            LogRole::Runtime => Some(RunnerGuestRole::OxydraVm),
            LogRole::Sidecar => if self.launch.sidecar.is_some() {
                Some(RunnerGuestRole::ShellVm)
            } else {
                None
            },
        }
    }

    /// Answers a request, given what came of what it takes.
    pub fn handle_control(&mut self, request: RunnerControl, input: ControlInput) -> (r:
        RunnerControlResponse)
        requires
            answers_need(need_of(old(self).deep_view(), request), input),
        ensures
            final(self).launch == old(self).launch,
            final(self).bootstrap == old(self).bootstrap,
            final(self).workspace == old(self).workspace,
            input matches ControlInput::Shutdown(Ok(())) ==> final(self).deep_view() == old(
                self,
            ).deep_view().shut_down(),
            !(input matches ControlInput::Shutdown(Ok(()))) ==> *final(self) == *old(self),
            old(self).well_formed() ==> final(self).well_formed(),
            match request {
                RunnerControl::HealthCheck => r matches RunnerControlResponse::HealthStatus(status)
                    && status.deep_view() == old(self).deep_view().health(),
                RunnerControl::ShutdownUser { user_id } => shutdown_answer(
                    old(self).deep_view(),
                    user_id,
                    match input {
                        ControlInput::Shutdown(outcome) => Some(outcome),
                        _ => None,
                    },
                    r,
                ),
                RunnerControl::Logs(wanted) => r matches RunnerControlResponse::Logs(answer)
                    && input matches ControlInput::Logs { since, logs } && is_logs_answer(
                    wanted,
                    since.deep_view(),
                    logs,
                    answer,
                ),
            },
    {
        proof {
            lemma_shut_down_is_well_formed(self.deep_view());
        }
        match request {
            RunnerControl::HealthCheck => RunnerControlResponse::HealthStatus(self.health_status()),
            RunnerControl::ShutdownUser { user_id } => self.answer_shutdown(user_id, input),
            RunnerControl::Logs(wanted) => match input {
                ControlInput::Logs { since, logs } => {
                    let since = match &since {
                        Some(since) => Some(since.as_str()),
                        None => None,
                    };
                    RunnerControlResponse::Logs(logs_answer(&wanted, since, logs))
                },
                _ => RunnerControlResponse::HealthStatus(self.health_status()),
            },
        }
    }

    fn answer_shutdown(&mut self, user_id: String, input: ControlInput) -> (r:
        RunnerControlResponse)
        requires
            input is Shutdown <==> (user_id@ == old(self).user_id@ && !old(self).shutdown_complete),
        ensures
            final(self).launch == old(self).launch,
            final(self).bootstrap == old(self).bootstrap,
            final(self).workspace == old(self).workspace,
            input matches ControlInput::Shutdown(Ok(())) ==> final(self).deep_view() == old(
                self,
            ).deep_view().shut_down(),
            !(input matches ControlInput::Shutdown(Ok(()))) ==> *final(self) == *old(self),
            shutdown_answer(
                old(self).deep_view(),
                user_id,
                match input {
                    ControlInput::Shutdown(outcome) => Some(outcome),
                    _ => None,
                },
                r,
            ),
    {
        if !same_text(user_id.as_str(), self.user_id.as_str()) {
            return RunnerControlResponse::Error(
                RunnerControlError {
                    code: RunnerControlErrorCode::UnknownUser,
                    message: concat5(
                        "shutdown request targeted unknown user `",
                        user_id.as_str(),
                        "`; active user is `",
                        self.user_id.as_str(),
                        "`",
                    ),
                },
            );
        }
        match input {
            ControlInput::Shutdown(outcome) => match self.finish_shutdown(outcome) {
                Ok(()) => RunnerControlResponse::ShutdownStatus(
                    RunnerControlShutdownStatus {
                        user_id,
                        shutdown: true,
                        already_stopped: false,
                        message: Some("shutdown completed".to_owned()),
                    },
                ),
                Err(error) => {
                    let text = error.to_text();
                    RunnerControlResponse::Error(
                        RunnerControlError {
                            code: RunnerControlErrorCode::Internal,
                            message: concat4(
                                "failed to shut down user `",
                                self.user_id.as_str(),
                                "`: ",
                                text.as_str(),
                            ),
                        },
                    )
                },
            },
            _ => RunnerControlResponse::ShutdownStatus(
                RunnerControlShutdownStatus {
                    user_id,
                    shutdown: true,
                    already_stopped: true,
                    message: Some("user runtime already shut down".to_owned()),
                },
            ),
        }
    }
}

/// The answer to a request for output.
pub open spec fn is_logs_answer(
    wanted: RunnerControlLogsRequest,
    since: Option<Seq<char>>,
    logs: Option<GuestLogs>,
    answer: RunnerControlLogs,
) -> bool {
    match logs {
        Some(logs) => {
            &&& answer.entries.deep_view() == logs::guest_entries(wanted, since, logs)
            &&& answer.truncated == logs::leaves_out(wanted, since, logs)
            &&& answer.warnings@.len() == 0
        },
        None => {
            &&& answer.entries@.len() == 0
            &&& !answer.truncated
            &&& answer.warnings.deep_view() == seq![
                "no logs: guest `"@ + logs::log_source(wanted.role).label()
                    + "` is not running"@,
            ]
        },
    }
}

/// What a frame that is no request is answered.
pub fn invalid_request(error: &str) -> (r: RunnerControlResponse)
    ensures
        r matches RunnerControlResponse::Error(refusal) && refusal.code
            == RunnerControlErrorCode::InvalidRequest && refusal.message@
            == "invalid runner control request frame: "@ + error@,
{
    RunnerControlResponse::Error(
        RunnerControlError {
            code: RunnerControlErrorCode::InvalidRequest,
            message: concat("invalid runner control request frame: ", error),
        },
    )
}

proof fn lemma_shut_down_is_well_formed(startup: StartupModel)
    ensures
        startup.shut_down().well_formed(),
{
    let reasons = startup.shut_down().startup_status.degraded_reasons;
    assert(reasons[reasons.len() - 1].code == StartupDegradedReasonCode::RuntimeShutdown);
}

/// Once a user's guests are shut down, no tool is available, a health check says so and
/// gives the reason, and a further request to shut them down takes nothing.
pub proof fn law_shutdown_is_final(startup: StartupModel, request: RunnerControl)
    requires
        startup.well_formed(),
        startup.shutdown_complete,
    ensures
        !startup.health().healthy,
        startup.health().shutdown,
        !startup.health().shell_available,
        !startup.health().browser_available,
        !startup.health().startup_status.shell_available,
        !startup.health().startup_status.browser_available,
        !startup.health().startup_status.sidecar_available,
        sandbox::has_code(
            startup.health().startup_status.degraded_reasons,
            StartupDegradedReasonCode::RuntimeShutdown,
        ),
        request is ShutdownUser ==> need_of(startup, request) == ControlNeed::Nothing,
{
    let reasons = startup.health().startup_status.degraded_reasons;
    assert(reasons[reasons.len() - 1].code == StartupDegradedReasonCode::RuntimeShutdown);
}

/// A shutdown that succeeds leaves no tool available and gives its reason, and the file
/// that announces the gateway goes with the guests. Any further shutdown changes nothing
/// and takes no file away. One that fails changes nothing: the guests still count as
/// running if they did, and the file stays.
pub proof fn law_shutdown_happens_once(startup: StartupModel, again: bool, marker: Seq<char>)
    requires
        startup.well_formed(),
    ensures
        ({
            let down = startup.after_shutdown(true);
            &&& down.shutdown_complete
            &&& down.well_formed()
            &&& stale_marker(startup, down, marker) == if startup.shutdown_complete {
                None
            } else {
                Some(marker)
            }
            &&& down.after_shutdown(again) == down
            &&& stale_marker(down, down.after_shutdown(again), marker) is None
        }),
        startup.after_shutdown(false) == startup,
        stale_marker(startup, startup.after_shutdown(false), marker) is None,
{
    lemma_shut_down_is_well_formed(startup);
}

/// Nobody but the user whose guests run can have them shut down.
pub proof fn law_only_the_user_is_shut_down(startup: StartupModel, user_id: String)
    requires
        user_id@ != startup.user_id,
    ensures
        need_of(startup, (RunnerControl::ShutdownUser { user_id })) == ControlNeed::Nothing,
{
}

/// What was put into a frame is read from it again, whatever follows it, and the frame
/// takes as many bytes as it has; what is too long for a frame is refused with its length.
pub proof fn law_framed_payload_is_read_back(
    payload: &[u8],
    framed: Result<Vec<u8>, RunnerControlTransportError>,
    received: &[u8],
    rest: Seq<u8>,
    read: FrameRead,
)
    requires
        call_ensures(control_frame, (payload,), framed),
        framed matches Ok(frame) ==> received@ == frame@ + rest,
        call_ensures(first_frame, (received,), read),
    ensures
        framed is Ok <==> payload@.len() <= 131072,
        framed matches Ok(frame) ==> (read matches FrameRead::Frame { payload: again, consumed }
            && again@ == payload@ && consumed == frame@.len() && frame@.len() == payload@.len()
            + 4),
        framed matches Err(error) ==> (error matches RunnerControlTransportError::FrameTooLarge {
            max_bytes,
            ..
        } && max_bytes == 131072),
{
    if let Ok(frame) = framed {
        law_frames_read_back(payload@, rest);
        assert(frame@.len() == payload@.len() + 4);
    }
}

/// A frame whose payload has not arrived whole is cut, by as many bytes as are missing,
/// and nothing is read from less than a length.
pub proof fn law_cut_frames_are_noticed(
    payload: &[u8],
    framed: Result<Vec<u8>, RunnerControlTransportError>,
    received: &[u8],
    read: FrameRead,
)
    requires
        call_ensures(control_frame, (payload,), framed),
        framed matches Ok(frame) && received@.is_prefix_of(frame@) && received@.len() < frame@.len(),
        call_ensures(first_frame, (received,), read),
    ensures
        received@.len() < 4 ==> read is End,
        received@.len() >= 4 ==> (read matches FrameRead::Cut { missing } && received@.len()
            + missing == framed->Ok_0@.len()),
{
    let frame = framed->Ok_0;
    if received@.len() >= 4 {
        law_frames_read_back(payload@, Seq::empty());
        assert(frame@ + Seq::<u8>::empty() =~= frame@);
        assert(received@ =~= frame@.subrange(0, received@.len() as int));
        assert(received@[0] == frame@[0] && received@[1] == frame@[1] && received@[2] == frame@[2]
            && received@[3] == frame@[3]);
    }
}

/// A health check is answered with how the guests are: whose they are, in which tier, which
/// tools they have, whether they are down, where they log, and under which process or
/// container the runtime runs; every warning stands in what it says. It changes nothing.
pub proof fn law_health_check_tells_how_guests_are(
    startup: &mut RunnerStartup,
    response: RunnerControlResponse,
    i: int,
)
    requires
        call_ensures(
            RunnerStartup::handle_control,
            (startup, RunnerControl::HealthCheck, ControlInput::Nothing),
            response,
        ),
    ensures
        *final(startup) == *old(startup),
        response is HealthStatus,
        ({
            let status = response->HealthStatus_0;
            let known = *old(startup);
            &&& status.user_id@ == known.user_id@
            &&& status.healthy == !known.shutdown_complete
            &&& status.shutdown == known.shutdown_complete
            &&& status.sandbox_tier == known.sandbox_tier
            &&& status.shell_available == known.shell_available
            &&& status.browser_available == known.browser_available
            &&& status.startup_status.shell_available == known.shell_available
            &&& status.startup_status.browser_available == known.browser_available
            &&& status.startup_status.sidecar_available == (known.shell_available
                || known.browser_available)
            &&& status.log_dir matches Some(directory) && directory@ == known.workspace.logs@
            &&& status.runtime_pid == known.launch.runtime.pid
            &&& known.launch.runtime.lifecycle matches RunnerGuestLifecycle::DockerContainer(handle)
                ==> (status.runtime_container_name matches Some(name) && name@
                == handle.container_name@)
            &&& !(known.launch.runtime.lifecycle is DockerContainer)
                ==> status.runtime_container_name is None
            &&& !known.shutdown_complete && known.warnings@.len() == 0 ==> status.message is None
            &&& !known.shutdown_complete && 0 <= i < known.warnings@.len() ==> (
            status.message matches Some(message) && text::stands_in(
                message@,
                known.warnings@[i]@,
            ))
            &&& known.shutdown_complete ==> (status.message matches Some(message) && message@
                == "runtime is shut down"@)
        }),
{
    let known = *old(startup);
    text::lemma_list(known.warnings);
    if 0 <= i < known.warnings@.len() {
        text::law_joined_holds_its_parts(known.warnings.deep_view(), " | "@, i);
    }
}

/// Guests that their user has shut down stay down: the request is answered with that, a
/// health check from then on says so, and to shut them down once more takes nothing and is
/// answered with that it was done before.
pub proof fn law_shut_down_guests_stay_down(
    first: &mut RunnerStartup,
    second: &mut RunnerStartup,
    third: &mut RunnerStartup,
    user_id: String,
    need: ControlNeed,
    again: ControlNeed,
    answers: (RunnerControlResponse, RunnerControlResponse, RunnerControlResponse),
)
    requires
        user_id@ == first.user_id@,
        !first.shutdown_complete,
        call_ensures(
            RunnerStartup::control_need,
            (&*first, &(RunnerControl::ShutdownUser { user_id })),
            need,
        ),
        call_ensures(
            RunnerStartup::handle_control,
            (first, RunnerControl::ShutdownUser { user_id }, ControlInput::Shutdown(Ok(()))),
            answers.0,
        ),
        final(first).deep_view() == second.deep_view(),
        call_ensures(
            RunnerStartup::handle_control,
            (second, RunnerControl::HealthCheck, ControlInput::Nothing),
            answers.1,
        ),
        final(second).deep_view() == third.deep_view(),
        call_ensures(
            RunnerStartup::control_need,
            (&*third, &(RunnerControl::ShutdownUser { user_id })),
            again,
        ),
        call_ensures(
            RunnerStartup::handle_control,
            (third, RunnerControl::ShutdownUser { user_id }, ControlInput::Nothing),
            answers.2,
        ),
    ensures
        need == ControlNeed::Shutdown,
        answers.0 matches RunnerControlResponse::ShutdownStatus(status) && status.shutdown
            && !status.already_stopped && status.user_id@ == user_id@,
        answers.1 matches RunnerControlResponse::HealthStatus(status) && !status.healthy
            && status.shutdown && !status.shell_available && !status.browser_available
            && !status.startup_status.shell_available && !status.startup_status.browser_available
            && !status.startup_status.sidecar_available,
        again == ControlNeed::Nothing,
        answers.2 matches RunnerControlResponse::ShutdownStatus(status) && status.shutdown
            && status.already_stopped && status.user_id@ == user_id@,
        final(third).shutdown_complete,
{
}

/// A request for another user's guests is refused and changes nothing, and so is a
/// shutdown that fails: that one with what went wrong.
pub proof fn law_refused_shutdown_changes_nothing(
    startup: &mut RunnerStartup,
    user_id: String,
    input: ControlInput,
    response: RunnerControlResponse,
)
    requires
        call_ensures(
            RunnerStartup::handle_control,
            (startup, RunnerControl::ShutdownUser { user_id }, input),
            response,
        ),
        user_id@ != startup.user_id@ ==> input is Nothing,
        user_id@ == startup.user_id@ ==> !startup.shutdown_complete && (
        input matches ControlInput::Shutdown(Err(_))),
    ensures
        *final(startup) == *old(startup),
        user_id@ != old(startup).user_id@ ==> (response matches RunnerControlResponse::Error(error)
            && error.code == RunnerControlErrorCode::UnknownUser),
        user_id@ == old(startup).user_id@ ==> (response matches RunnerControlResponse::Error(error)
            && error.code == RunnerControlErrorCode::Internal && (
        input matches ControlInput::Shutdown(Err(failure)) && error.message@.len()
            >= sandbox::error_text(failure).len() && error.message@.skip(
            error.message@.len() - sandbox::error_text(failure).len(),
        ) == sandbox::error_text(failure))),
{
    if user_id@ == startup.user_id@ {
        let failure = input->Shutdown_0->Err_0;
        let message = response->Error_0.message@;
        let told = sandbox::error_text(failure);
        assert(message.skip(message.len() - told.len()) =~= told);
    }
}

/// The output that is wanted is that of the runtime, which always runs, or that of the
/// sidecar, where there is one. Only a request for output takes output.
pub proof fn law_output_is_that_of_the_wanted_guest(
    startup: RunnerStartup,
    role: LogRole,
    guest: Option<RunnerGuestRole>,
    request: RunnerControl,
    need: ControlNeed,
)
    requires
        call_ensures(RunnerStartup::log_guest, (&startup, role), guest),
        call_ensures(RunnerStartup::control_need, (&startup, &request), need),
    ensures
        role == LogRole::Runtime ==> guest == Some(RunnerGuestRole::OxydraVm),
        role == LogRole::Sidecar ==> (guest is Some <==> startup.launch.sidecar is Some),
        role == LogRole::Sidecar && guest is Some ==> guest == Some(RunnerGuestRole::ShellVm),
        request is Logs <==> need == ControlNeed::Logs,
        request is HealthCheck ==> need == ControlNeed::Nothing,
        request matches RunnerControl::ShutdownUser { user_id } ==> (need == ControlNeed::Shutdown
            <==> user_id@ == startup.user_id@ && !startup.shutdown_complete),
{
}

/// What came of shutting guests down is noted once: where it succeeded they count as down,
/// and the file that announces their gateway is to be taken away; where it failed they
/// count as they did, the failure is handed on, and the file stays.
pub proof fn law_shutdown_is_noted_once(
    startup: &mut RunnerStartup,
    outcome: Result<(), RunnerError>,
    r: Result<(), RunnerError>,
    marker: Option<String>,
)
    requires
        call_ensures(RunnerStartup::finish_shutdown, (startup, outcome), r),
        call_ensures(
            RunnerStartup::marker_to_remove,
            (final(startup), startup.shutdown_complete),
            marker,
        ),
    ensures
        final(startup).shutdown_complete <==> old(startup).shutdown_complete || outcome is Ok,
        old(startup).shutdown_complete ==> r is Ok && marker is None,
        !old(startup).shutdown_complete && outcome is Ok ==> r is Ok && !final(startup).shell_available && !final(startup).browser_available && (marker matches Some(path)
            && path@ == paths::joined_path(old(startup).workspace.ipc@, "gateway-endpoint"@)),
        !old(startup).shutdown_complete ==> (outcome matches Err(error) ==> r == Err::<
            (),
            RunnerError,
        >(error) && *final(startup) == *old(startup) && marker is None),
{
}

/// The text of an error of frames says what the error holds.
pub proof fn law_errors_of_frames_say_why(error: RunnerControlTransportError, r: String)
    requires
        call_ensures(RunnerControlTransportError::to_text, (&error,), r),
    ensures
        match error {
            RunnerControlTransportError::Transport { message, .. } => {
                &&& text::stands_in(r@, message@)
            },
            RunnerControlTransportError::Serialization { message } => {
                &&& text::stands_in(r@, message@)
            },
            RunnerControlTransportError::FrameTooLarge { actual_bytes, max_bytes } => {
                &&& text::stands_in(r@, text::decimal(actual_bytes as nat))
                &&& text::stands_in(r@, text::decimal(max_bytes as nat))
            },
        },
{
    text::lemma_parts_stand_in();
}

/// A message on the health of a guest says that it is shut down, or holds each warning; a
/// guest that runs without warnings has none.
pub proof fn law_health_message_holds_the_warnings(
    startup: RunnerStartup,
    r: Option<String>,
    i: int,
)
    requires
        call_ensures(RunnerStartup::control_health_message, (&startup,), r),
    ensures
        startup.shutdown_complete ==> (r matches Some(message) && message@
            == "runtime is shut down"@),
        !startup.shutdown_complete ==> (r is None <==> startup.warnings@.len() == 0),
        !startup.shutdown_complete && 0 <= i < startup.warnings@.len() ==> (r matches Some(message)
            && text::stands_in(message@, startup.warnings@[i]@)),
{
    text::lemma_list(startup.warnings);
    if 0 <= i < startup.warnings@.len() {
        text::law_joined_holds_its_parts(startup.warnings.deep_view(), " | "@, i);
    }
}

/// The first four bytes of a frame are the length of what it carries, the lowest byte last,
/// and a frame of more than 128 KiB is refused.
pub proof fn law_length_is_read_from_four_bytes(
    prefix: [u8; 4],
    r: Result<usize, RunnerControlTransportError>,
)
    requires
        call_ensures(control_frame_length, (prefix,), r),
    ensures
        ({
            let length = ((prefix[0] * 256 + prefix[1]) * 256 + prefix[2]) * 256 + prefix[3];
            &&& r is Ok <==> length <= 128 * 1024
            &&& r matches Ok(n) ==> n == length
            &&& r matches Err(error) ==> error is FrameTooLarge
        }),
{
}

} // verus!
