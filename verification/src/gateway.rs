//! How the gateway of a running guest is found and asked for its health.

use crate::sandbox::RunnerError;
use crate::text;
use crate::text::{concat, concat3, trim};
use crate::workspace::UserWorkspace;
use vstd::prelude::*;

verus! {

/// Why the address of a gateway could not be read.
#[derive(Debug, PartialEq, Eq)]
pub struct MarkerFailure {
    pub not_found: bool,
    pub message: String,
}

/// The address that a guest left of its gateway, given what could be read of it. No
/// guest runs where nothing was left.
pub fn read_gateway_endpoint_marker(
    path: &str,
    user_id: &str,
    content: Result<String, MarkerFailure>,
) -> (r: Result<String, RunnerError>)
    ensures
        match content {
            Ok(raw) => if text::trimmed(raw@).len() > 0 {
                r matches Ok(endpoint) && endpoint@ == text::trimmed(raw@)
            } else {
                r matches Err(RunnerError::InvalidGatewayEndpoint { path: p }) && p@ == path@
            },
            Err(failure) => if failure.not_found {
                r matches Err(RunnerError::NoRunningGuest { user_id: u, endpoint_path: p }) && u@
                    == user_id@ && p@ == path@
            } else {
                r matches Err(RunnerError::ReadGatewayEndpoint { path: p, message: m }) && p@
                    == path@ && m == failure.message
            },
        },
{
    match content {
        Ok(raw) => {
            let endpoint = trim(raw.as_str());
            if endpoint.as_str().is_empty() {
                Err(RunnerError::InvalidGatewayEndpoint { path: path.to_owned() })
            } else {
                Ok(endpoint)
            }
        },
        Err(failure) => if failure.not_found {
            Err(
                RunnerError::NoRunningGuest {
                    user_id: user_id.to_owned(),
                    endpoint_path: path.to_owned(),
                },
            )
        } else {
            Err(
                RunnerError::ReadGatewayEndpoint {
                    path: path.to_owned(),
                    message: failure.message,
                },
            )
        },
    }
}

/// Where a gateway on that socket address is reached.
pub fn gateway_endpoint(address: &str) -> (r: String)
    ensures
        r@ == "ws://"@ + address@ + "/ws"@,
{
    concat3("ws://", address, "/ws")
}

/// What introduces the runner to a gateway.
#[derive(Debug, PartialEq, Eq)]
pub struct GatewayHello {
    pub request_id: String,
    pub user_id: String,
    pub session_id: Option<String>,
    pub create_new_session: bool,
}

/// What introduces the runner to a gateway, on behalf of a user.
pub fn probe_hello(user_id: &str) -> (r: GatewayHello)
    ensures
        r.request_id@ == "runner-connect-hello"@,
        r.user_id@ == user_id@,
        r.session_id is None,
        !r.create_new_session,
{
    GatewayHello {
        request_id: "runner-connect-hello".to_owned(),
        user_id: user_id.to_owned(),
        session_id: None,
        create_new_session: false,
    }
}

/// What a gateway says.
#[derive(Debug, PartialEq, Eq)]
pub enum GatewayServerFrame {
    HelloAck { session_id: String },
    Error { message: String },
    HealthStatus { healthy: bool, detail: Option<String> },
    Other,
}

/// What happens on the connection to a gateway.
#[derive(Debug, PartialEq, Eq)]
pub enum ProbeEvent {
    Connected,
    ConnectFailed(String),
    Sent,
    EncodeFailed(String),
    SendFailed(String),
    /// A frame, and how it reads in a message.
    Frame { frame: GatewayServerFrame, shown: String },
    DecodeFailed(String),
    Ping,
    PongFailed(String),
    Pong,
    CloseFrame,
    Unsupported,
    ReceiveFailed(String),
    /// The connection is at its end.
    Ended,
}

/// How far a probe has got.
#[derive(Debug, PartialEq, Eq)]
pub enum ProbeStage {
    Connecting,
    SendingHello,
    AwaitingAck,
    SendingHealthCheck { session_id: String },
    AwaitingHealth { session_id: String },
    Over,
}

/// What is to be done next in a probe.
#[derive(Debug, PartialEq, Eq)]
pub enum ProbeAction {
    SendHello,
    Receive,
    SendPong,
    /// Send a health check, whose identity is `runner-connect-health`.
    SendHealthCheck,
    /// Close the connection. The gateway is healthy.
    Finish { session_id: String },
    Fail(RunnerError),
    /// The probe is over.
    Nothing,
}

/// How a failure of the connection reads.
pub open spec fn connection_failure(event: ProbeEvent) -> Option<Seq<char>> {
    match event {
        ProbeEvent::ConnectFailed(error) => Some("websocket connect failed: "@ + error@),
        ProbeEvent::EncodeFailed(error) => Some(
            "gateway client frame serialization failed: "@ + error@,
        ),
        ProbeEvent::SendFailed(error) => Some("gateway frame send failed: "@ + error@),
        ProbeEvent::DecodeFailed(error) => Some("gateway frame decode failed: "@ + error@),
        ProbeEvent::PongFailed(error) => Some("gateway websocket pong failed: "@ + error@),
        ProbeEvent::CloseFrame => Some("gateway websocket closed during probe"@),
        ProbeEvent::Unsupported => Some("unsupported websocket message type during probe"@),
        ProbeEvent::ReceiveFailed(error) => Some("gateway websocket receive failed: "@ + error@),
        ProbeEvent::Ended => Some("gateway websocket closed before probe completed"@),
        _ => None,
    }
}

/// The probe fails with that message.
pub open spec fn probe_fails(
    endpoint: Seq<char>,
    message: Seq<char>,
    next: ProbeStage,
    action: ProbeAction,
) -> bool {
    &&& next is Over
    &&& action matches ProbeAction::Fail(RunnerError::GatewayProbeFailed { endpoint: e, message: m })
        && e@ == endpoint && m@ == message
}

/// What follows an event of a probe. The gateway has to accept the runner and then to
/// say that it is healthy; what else it says in between does not count.
pub open spec fn probe_follows(
    endpoint: Seq<char>,
    stage: ProbeStage,
    event: ProbeEvent,
    next: ProbeStage,
    action: ProbeAction,
) -> bool {
    if stage is Over {
        next is Over && action is Nothing
    } else if connection_failure(event) is Some {
        probe_fails(endpoint, connection_failure(event)->0, next, action)
    } else {
        match stage {
            ProbeStage::Connecting => next is SendingHello && action is SendHello,
            ProbeStage::SendingHello => next is AwaitingAck && action is Receive,
            ProbeStage::AwaitingAck => match event {
                ProbeEvent::Frame { frame: GatewayServerFrame::HelloAck { session_id }, .. } => next
                    == (ProbeStage::SendingHealthCheck { session_id }) && action is SendHealthCheck,
                ProbeEvent::Frame { frame: GatewayServerFrame::Error { message }, .. } =>
                    probe_fails(endpoint, "gateway rejected hello: "@ + message@, next, action),
                ProbeEvent::Frame { frame: _, shown } => probe_fails(
                    endpoint,
                    "expected hello_ack, got "@ + shown@,
                    next,
                    action,
                ),
                ProbeEvent::Ping => next == stage && action is SendPong,
                _ => next == stage && action is Receive,
            },
            ProbeStage::SendingHealthCheck { session_id } => next == (
            ProbeStage::AwaitingHealth { session_id }) && action is Receive,
            ProbeStage::AwaitingHealth { session_id } => match event {
                ProbeEvent::Frame {
                    frame: GatewayServerFrame::HealthStatus { healthy, detail },
                    ..
                } => if healthy {
                    next is Over && action == (ProbeAction::Finish { session_id })
                } else {
                    probe_fails(
                        endpoint,
                        match detail {
                            Some(detail) => detail@,
                            None => "gateway health check reported unhealthy"@,
                        },
                        next,
                        action,
                    )
                },
                ProbeEvent::Frame { frame: GatewayServerFrame::Error { message }, .. } =>
                    probe_fails(endpoint, message@, next, action),
                ProbeEvent::Ping => next == stage && action is SendPong,
                _ => next == stage && action is Receive,
            },
            ProbeStage::Over => true,
        }
    }
}

fn failed(endpoint: &str, message: String) -> (r: (ProbeStage, ProbeAction))
    ensures
        probe_fails(endpoint@, message@, r.0, r.1),
{
    (
        ProbeStage::Over,
        ProbeAction::Fail(RunnerError::GatewayProbeFailed { endpoint: endpoint.to_owned(), message }),
    )
}

fn failure_of(event: &ProbeEvent) -> (r: Option<String>)
    ensures
        r.deep_view() == connection_failure(*event),
{
    match event {
        ProbeEvent::ConnectFailed(error) => Some(
            concat("websocket connect failed: ", error.as_str()),
        ),
        ProbeEvent::EncodeFailed(error) => Some(
            concat("gateway client frame serialization failed: ", error.as_str()),
        ),
        ProbeEvent::SendFailed(error) => Some(
            concat("gateway frame send failed: ", error.as_str()),
        ),
        ProbeEvent::DecodeFailed(error) => Some(
            concat("gateway frame decode failed: ", error.as_str()),
        ),
        ProbeEvent::PongFailed(error) => Some(
            concat("gateway websocket pong failed: ", error.as_str()),
        ),
        ProbeEvent::CloseFrame => Some("gateway websocket closed during probe".to_owned()),
        ProbeEvent::Unsupported => Some(
            "unsupported websocket message type during probe".to_owned(),
        ),
        ProbeEvent::ReceiveFailed(error) => Some(
            concat("gateway websocket receive failed: ", error.as_str()),
        ),
        ProbeEvent::Ended => Some("gateway websocket closed before probe completed".to_owned()),
        _ => None,
    }
}

/// What follows an event of a probe.
pub fn probe_gateway_health(endpoint: &str, stage: ProbeStage, event: ProbeEvent) -> (r: (
    ProbeStage,
    ProbeAction,
))
    ensures
        probe_follows(endpoint@, stage, event, r.0, r.1),
{
    if matches!(stage, ProbeStage::Over) {
        return (ProbeStage::Over, ProbeAction::Nothing);
    }
    if let Some(message) = failure_of(&event) {
        return failed(endpoint, message);
    }
    match stage {
        ProbeStage::Connecting => (ProbeStage::SendingHello, ProbeAction::SendHello),
        ProbeStage::SendingHello => (ProbeStage::AwaitingAck, ProbeAction::Receive),
        ProbeStage::AwaitingAck => match event {
            ProbeEvent::Frame { frame, shown } => match frame {
                GatewayServerFrame::HelloAck { session_id } => (
                    ProbeStage::SendingHealthCheck { session_id },
                    ProbeAction::SendHealthCheck,
                ),
                GatewayServerFrame::Error { message } => failed(
                    endpoint,
                    concat("gateway rejected hello: ", message.as_str()),
                ),
                _ => failed(endpoint, concat("expected hello_ack, got ", shown.as_str())),
            },
            ProbeEvent::Ping => (ProbeStage::AwaitingAck, ProbeAction::SendPong),
            _ => (ProbeStage::AwaitingAck, ProbeAction::Receive),
        },
        ProbeStage::SendingHealthCheck { session_id } => (
            ProbeStage::AwaitingHealth { session_id },
            ProbeAction::Receive,
        ),
        ProbeStage::AwaitingHealth { session_id } => match event {
            ProbeEvent::Frame { frame, shown: _ } => match frame {
                GatewayServerFrame::HealthStatus { healthy, detail } => if healthy {
                    (ProbeStage::Over, ProbeAction::Finish { session_id })
                } else {
                    failed(
                        endpoint,
                        match detail {
                            Some(detail) => detail,
                            None => "gateway health check reported unhealthy".to_owned(),
                        },
                    )
                },
                GatewayServerFrame::Error { message } => failed(endpoint, message),
                _ => (ProbeStage::AwaitingHealth { session_id }, ProbeAction::Receive),
            },
            ProbeEvent::Ping => (ProbeStage::AwaitingHealth { session_id }, ProbeAction::SendPong),
            _ => (ProbeStage::AwaitingHealth { session_id }, ProbeAction::Receive),
        },
        ProbeStage::Over => (ProbeStage::Over, ProbeAction::Nothing),
    }
}

/// The session that the gateway gave the runner.
pub open spec fn session_of(stage: ProbeStage) -> Option<String> {
    match stage {
        ProbeStage::SendingHealthCheck { session_id } => Some(session_id),
        ProbeStage::AwaitingHealth { session_id } => Some(session_id),
        _ => None,
    }
}

/// A probe ends with the session that the gateway gave, and only after it said that it
/// is healthy; and once it has a session it keeps that until it ends.
pub proof fn law_probe_ends_with_its_session(
    endpoint: Seq<char>,
    stage: ProbeStage,
    event: ProbeEvent,
    next: ProbeStage,
    action: ProbeAction,
)
    requires
        probe_follows(endpoint, stage, event, next, action),
    ensures
        action matches ProbeAction::Finish { session_id } ==> session_of(stage) == Some(session_id)
            && (event matches ProbeEvent::Frame {
            frame: GatewayServerFrame::HealthStatus { healthy, .. },
            ..
        } && healthy),
        session_of(stage) is Some && !(next is Over) ==> session_of(next) == session_of(stage),
        next is Over && !(stage is Over) <==> action is Finish || action is Fail,
{
}

/// What a failed probe means to someone who wants to connect: the guest that left the
/// address is gone.
pub fn stale_endpoint(error: RunnerError, marker_path: &str) -> (r: RunnerError)
    ensures
        match error {
            RunnerError::GatewayProbeFailed { endpoint, message } => r
                matches RunnerError::StaleGatewayEndpoint {
                endpoint: e,
                marker_path: p,
                message: m,
            } && e == endpoint && p@ == marker_path@ && m == message,
            _ => r == error,
        },
{
    match error {
        RunnerError::GatewayProbeFailed { endpoint, message } => RunnerError::StaleGatewayEndpoint {
            endpoint,
            marker_path: marker_path.to_owned(),
            message,
        },
        other => other,
    }
}

/// A terminal's connection to a guest.
#[derive(Debug, PartialEq, Eq)]
pub struct RunnerTuiConnection {
    pub user_id: String,
    pub workspace: UserWorkspace,
    pub gateway_endpoint: String,
    pub session_id: String,
}

/// What a connection comes to, given what came of the probe.
pub fn connect_tui(
    user_id: String,
    workspace: UserWorkspace,
    gateway_endpoint: String,
    probe: Result<String, RunnerError>,
) -> (r: Result<RunnerTuiConnection, RunnerError>)
    ensures
        match probe {
            Ok(session_id) => r == Ok::<RunnerTuiConnection, RunnerError>(
                RunnerTuiConnection { user_id, workspace, gateway_endpoint, session_id },
            ),
            Err(RunnerError::GatewayProbeFailed { endpoint, message }) => r matches Err(
                RunnerError::StaleGatewayEndpoint { endpoint: e, marker_path: p, message: m },
            ) && e == endpoint && m == message && p@ == crate::paths::joined_path(
                workspace.deep_view().ipc,
                "gateway-endpoint"@,
            ),
            Err(error) => r == Err::<RunnerTuiConnection, RunnerError>(error),
        },
{
    match probe {
        Ok(session_id) => Ok(
            RunnerTuiConnection { user_id, workspace, gateway_endpoint, session_id },
        ),
        Err(error) => {
            let marker_path = workspace.gateway_marker_path();
            Err(stale_endpoint(error, marker_path.as_str()))
        },
    }
}

/// A gateway that accepts the runner and then says that it is healthy is connected to
/// under the session that it gave: hello is sent once connected, its acceptance is waited
/// for, health is asked for, and the answer to that ends the probe.
pub proof fn law_healthy_gateway_is_connected_to(
    endpoint: &str,
    session: String,
    shown: (String, String),
    detail: Option<String>,
    hello: (ProbeStage, ProbeAction),
    sent: (ProbeStage, ProbeAction),
    accepted: (ProbeStage, ProbeAction),
    asked: (ProbeStage, ProbeAction),
    ended: (ProbeStage, ProbeAction),
)
    requires
        call_ensures(
            probe_gateway_health,
            (endpoint, ProbeStage::Connecting, ProbeEvent::Connected),
            hello,
        ),
        call_ensures(probe_gateway_health, (endpoint, hello.0, ProbeEvent::Sent), sent),
        call_ensures(
            probe_gateway_health,
            (
                endpoint,
                sent.0,
                ProbeEvent::Frame {
                    frame: GatewayServerFrame::HelloAck { session_id: session },
                    shown: shown.0,
                },
            ),
            accepted,
        ),
        call_ensures(probe_gateway_health, (endpoint, accepted.0, ProbeEvent::Sent), asked),
        call_ensures(
            probe_gateway_health,
            (
                endpoint,
                asked.0,
                ProbeEvent::Frame {
                    frame: GatewayServerFrame::HealthStatus { healthy: true, detail },
                    shown: shown.1,
                },
            ),
            ended,
        ),
    ensures
        hello.1 is SendHello,
        sent.1 is Receive,
        accepted.1 is SendHealthCheck,
        asked.1 is Receive,
        ended.1 == (ProbeAction::Finish { session_id: session }),
        ended.0 is Over,
{
}

/// A gateway that refuses the runner, is not healthy, or is lost on the way fails the
/// probe with what it says; and a probe that failed means that the guest which left the
/// address is gone.
pub proof fn law_failed_probe_means_a_stale_address(
    endpoint: &str,
    stage: ProbeStage,
    event: ProbeEvent,
    step: (ProbeStage, ProbeAction),
    user_id: String,
    workspace: UserWorkspace,
    gateway: String,
    r: Result<RunnerTuiConnection, RunnerError>,
)
    requires
        call_ensures(probe_gateway_health, (endpoint, stage, event), step),
        step.1 is Fail,
        call_ensures(connect_tui, (user_id, workspace, gateway, Err(step.1->Fail_0)), r),
    ensures
        step.0 is Over,
        r matches Err(RunnerError::StaleGatewayEndpoint { endpoint: gone, marker_path, message })
            && gone@ == endpoint@ && marker_path@ == crate::paths::joined_path(
            workspace.ipc@,
            "gateway-endpoint"@,
        ) && (event matches ProbeEvent::Frame {
            frame: GatewayServerFrame::HealthStatus { healthy, detail },
            ..
        } ==> (stage is AwaitingHealth ==> !healthy && (detail matches Some(told) ==> message@
            == told@))) && (event matches ProbeEvent::Frame {
            frame: GatewayServerFrame::Error { message: told },
            ..
        } ==> (stage is AwaitingHealth ==> message@ == told@)),
{
}

/// A probe that is connected waits on, whatever else the gateway says, and answers a ping.
pub proof fn law_probe_waits_for_its_answer(
    endpoint: &str,
    stage: ProbeStage,
    event: ProbeEvent,
    step: (ProbeStage, ProbeAction),
)
    requires
        call_ensures(probe_gateway_health, (endpoint, stage, event), step),
        stage is AwaitingAck || stage is AwaitingHealth,
    ensures
        event is Ping ==> step.0 == stage && step.1 is SendPong,
        event is Pong ==> step.0 == stage && step.1 is Receive,
        stage is AwaitingHealth ==> (event matches ProbeEvent::Frame {
            frame: GatewayServerFrame::Other,
            ..
        } ==> step.0 == stage && step.1 is Receive),
        event is CloseFrame || event is Ended || event is ReceiveFailed || event is DecodeFailed
            || event is Unsupported ==> step.1 is Fail,
{
}

/// A terminal is connected where the probe gave a session: for its user, on the workspace
/// and at the gateway that were asked, under that session.
pub proof fn law_connection_is_that_of_the_probe(
    user_id: String,
    workspace: UserWorkspace,
    gateway: String,
    session: String,
    r: Result<RunnerTuiConnection, RunnerError>,
    address: &str,
    url: String,
    hello: GatewayHello,
    user: &str,
)
    requires
        call_ensures(connect_tui, (user_id, workspace, gateway, Ok(session)), r),
        call_ensures(gateway_endpoint, (address,), url),
        call_ensures(probe_hello, (user,), hello),
    ensures
        r matches Ok(connection) && connection.user_id@ == user_id@ && connection.workspace
            == workspace && connection.gateway_endpoint@ == gateway@ && connection.session_id@
            == session@,
        url@ == "ws://"@ + address@ + "/ws"@,
        hello.user_id@ == user@,
        hello.session_id is None,
        !hello.create_new_session,
{
}

/// The address that a guest left is read without the white space around it; an empty one
/// is an error, and where none was left no guest runs.
pub proof fn law_left_address_is_read(
    path: &str,
    user_id: &str,
    content: Result<String, MarkerFailure>,
    r: Result<String, RunnerError>,
)
    requires
        call_ensures(read_gateway_endpoint_marker, (path, user_id, content), r),
    ensures
        r is Ok <==> (content matches Ok(raw) && text::trimmed(raw@).len() > 0),
        r matches Ok(address) ==> address@ == text::trimmed(content->Ok_0@),
        content matches Err(failure) ==> (failure.not_found ==> (r matches Err(
            RunnerError::NoRunningGuest { user_id: user, endpoint_path },
        ) && user@ == user_id@ && endpoint_path@ == path@)),
        content matches Err(failure) ==> (!failure.not_found ==> (r matches Err(
            RunnerError::ReadGatewayEndpoint { path: at, message },
        ) && at@ == path@ && message@ == failure.message@)),
{
}

} // verus!
