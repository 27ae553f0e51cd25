//! What a guest's program does with its command line and with its start-up data.

use crate::arguments::OxydraVmArgs;
use crate::control;
use crate::control::length_prefixed;
use crate::gateway::gateway_endpoint;
use crate::paths;
use crate::paths::join_path;
use crate::text;
use crate::text::{concat, concat3, concat4, trim};
use vstd::prelude::*;

verus! {

/// What can go wrong in a guest's program.
#[derive(Debug, PartialEq, Eq)]
pub enum VmError {
    InvalidUserId,
    Bootstrap { message: String },
    ReadBootstrapFrame { stage: &'static str, message: String },
    ReadBootstrapFile { path: String, message: String },
    BindGateway { address: String, message: String },
    GatewayAddress { message: String },
    GatewayMarkerWrite { path: String, message: String },
    ServeGateway { message: String },
}

impl VmError {
    pub open spec fn text(self) -> Seq<char> {
        match self {
            VmError::InvalidUserId => "user_id must not be empty"@,
            VmError::Bootstrap { message } => message@,
            VmError::ReadBootstrapFrame { stage, message } =>
                "failed to read bootstrap frame from stdin "@ + stage@ + ": "@ + message@,
            VmError::ReadBootstrapFile { path, message } => "failed to read bootstrap file `"@
                + path@ + "`: "@ + message@,
            VmError::BindGateway { address, message } => "failed to bind gateway listener `"@
                + address@ + "`: "@ + message@,
            VmError::GatewayAddress { message } =>
                "failed to resolve gateway listener local address: "@ + message@,
            VmError::GatewayMarkerWrite { path, message } =>
                "failed to write gateway endpoint marker `"@ + path@ + "`: "@ + message@,
            VmError::ServeGateway { message } => "gateway server terminated: "@ + message@,
        }
    }

    /// How the error reads.
    pub fn to_text(&self) -> (r: String)
        ensures
            r@ == self.text(),
    {
        match self {
            VmError::InvalidUserId => "user_id must not be empty".to_owned(),
            VmError::Bootstrap { message } => message.clone(),
            VmError::ReadBootstrapFrame { stage, message } => concat4(
                "failed to read bootstrap frame from stdin ",
                stage,
                ": ",
                message.as_str(),
            ),
            VmError::ReadBootstrapFile { path, message } => concat4(
                "failed to read bootstrap file `",
                path.as_str(),
                "`: ",
                message.as_str(),
            ),
            VmError::BindGateway { address, message } => concat4(
                "failed to bind gateway listener `",
                address.as_str(),
                "`: ",
                message.as_str(),
            ),
            VmError::GatewayAddress { message } => concat(
                "failed to resolve gateway listener local address: ",
                message.as_str(),
            ),
            VmError::GatewayMarkerWrite { path, message } => concat4(
                "failed to write gateway endpoint marker `",
                path.as_str(),
                "`: ",
                message.as_str(),
            ),
            VmError::ServeGateway { message } => concat(
                "gateway server terminated: ",
                message.as_str(),
            ),
        }
    }
}

/// Where a guest gets its start-up data from.
#[derive(Debug, PartialEq, Eq)]
pub enum BootstrapSource {
    Stdin,
    File(String),
    Nowhere,
}

/// Where a guest gets its start-up data from: its standard input goes before a file. A
/// guest without a user does not start.
pub fn bootstrap_source(args: &OxydraVmArgs) -> (r: Result<BootstrapSource, VmError>)
    ensures
        if text::trimmed(args.user_id@).len() == 0 {
            r matches Err(VmError::InvalidUserId)
        } else if args.bootstrap_stdin {
            r matches Ok(BootstrapSource::Stdin)
        } else {
            match args.bootstrap_file {
                Some(path) => r matches Ok(BootstrapSource::File(p)) && p@ == path@,
                None => r matches Ok(BootstrapSource::Nowhere),
            }
        },
{
    let user_id = trim(args.user_id.as_str());
    if user_id.as_str().is_empty() {
        return Err(VmError::InvalidUserId);
    }
    if args.bootstrap_stdin {
        return Ok(BootstrapSource::Stdin);
    }
    match &args.bootstrap_file {
        Some(path) => Ok(BootstrapSource::File(path.clone())),
        None => Ok(BootstrapSource::Nowhere),
    }
}

/// The frame that the contents of a file make. A file whose length does not fit into a
/// frame is refused.
pub fn bootstrap_frame_from_file(path: &str, payload: &[u8]) -> (r: Result<Vec<u8>, VmError>)
    ensures
        match r {
            Ok(frame) => payload@.len() < 0x1_0000_0000 && frame@ == control::frame_of(payload@),
            Err(error) => payload@.len() >= 0x1_0000_0000 && (
            error matches VmError::ReadBootstrapFile { path: p, message } && p@ == path@
                && message@ == "bootstrap file too large"@),
        },
{
    match length_prefixed(payload) {
        Some(frame) => Ok(frame),
        None => Err(
            VmError::ReadBootstrapFile {
                path: path.to_owned(),
                message: "bootstrap file too large".to_owned(),
            },
        ),
    }
}

/// How many bytes follow the length of a frame.
pub fn bootstrap_payload_length(prefix: [u8; 4]) -> (r: usize)
    ensures
        r == control::number_of(prefix[0], prefix[1], prefix[2], prefix[3]),
{
    let length: u32 = prefix[0] as u32 * 16777216 + prefix[1] as u32 * 65536 + prefix[2] as u32
        * 256 + prefix[3] as u32;
    length as usize
}

/// The frame at the start of what was received, with its length. What was received may
/// end within the length or within what follows it.
pub fn read_bootstrap_frame_from_reader(received: &[u8]) -> (r: Result<Vec<u8>, VmError>)
    ensures
        ({
            let length = control::number_of(
                received@[0],
                received@[1],
                received@[2],
                received@[3],
            );
            match r {
                Ok(frame) => received@.len() >= 4 + length && frame@ == received@.take(
                    4 + length as int,
                ),
                Err(error) => error matches VmError::ReadBootstrapFrame { stage, message }
                    && message@ == "failed to fill whole buffer"@ && if received@.len() < 4 {
                    stage@ == "length prefix"@
                } else {
                    received@.len() < 4 + length && stage@ == "payload"@
                },
            }
        }),
{
    if received.len() < 4 {
        return Err(
            VmError::ReadBootstrapFrame {
                stage: "length prefix",
                message: "failed to fill whole buffer".to_owned(),
            },
        );
    }
    let length: usize = bootstrap_payload_length(
        [received[0], received[1], received[2], received[3]],
    );
    if received.len() - 4 < length {
        return Err(
            VmError::ReadBootstrapFrame {
                stage: "payload",
                message: "failed to fill whole buffer".to_owned(),
            },
        );
    }
    let mut frame: Vec<u8> = Vec::new();
    frame.extend_from_slice(vstd::slice::slice_subrange(received, 0, length + 4));
    proof {
        assert(frame@ =~= received@.take(4 + length as int));
    }
    Ok(frame)
}

/// What a frame carries that was put together of a file is what the file holds, and the
/// frame is read whole.
pub proof fn law_bootstrap_frame_is_read_whole(payload: Seq<u8>)
    requires
        payload.len() < 0x1_0000_0000,
    ensures
        ({
            let frame = control::frame_of(payload);
            control::number_of(frame[0], frame[1], frame[2], frame[3]) == payload.len()
                && frame.len() == 4 + payload.len() && frame.skip(4) == payload
        }),
{
    control::law_length_prefix_reads_back(payload.len());
    assert(control::frame_of(payload).skip(4) =~= payload);
}

/// What a guest leaves so that its gateway can be found.
#[derive(Debug, PartialEq, Eq)]
pub struct GatewayMarker {
    pub directory: String,
    pub path: String,
    pub content: String,
}

/// What a guest leaves so that its gateway can be found.
pub fn gateway_marker(workspace_root: &str, address: &str) -> (r: GatewayMarker)
    ensures
        r.directory@ == paths::joined_path(workspace_root@, "ipc"@),
        r.path@ == paths::joined_path(
            paths::joined_path(workspace_root@, "ipc"@),
            "gateway-endpoint"@,
        ),
        r.content@ == "ws://"@ + address@ + "/ws"@,
{
    let directory = join_path(workspace_root, "ipc");
    let path = join_path(directory.as_str(), "gateway-endpoint");
    GatewayMarker { directory, path, content: gateway_endpoint(address) }
}

/// The token that a bot speaks with, given the variable that should hold it and what that
/// holds. A bot also needs a place to keep its sessions.
pub fn telegram_token(
    bot_token_env: Option<&str>,
    token: Option<String>,
    has_session_store: bool,
) -> (r: Result<String, String>)
    ensures
        match (bot_token_env, token) {
            (None, _) => r matches Err(error) && error@
                == "telegram.bot_token_env is not configured"@,
            (Some(name), None) => r matches Err(error) && error@ == "environment variable `"@
                + name@ + "` for telegram bot token is not set"@,
            (Some(_), Some(token)) => if has_session_store {
                r == Ok::<String, String>(token)
            } else {
                r matches Err(error) && error@
                    == "session store is required for telegram adapter but memory backend is not available"@
            },
        },
{
    match bot_token_env {
        None => Err("telegram.bot_token_env is not configured".to_owned()),
        Some(name) => match token {
            None => Err(
                concat3("environment variable `", name, "` for telegram bot token is not set"),
            ),
            Some(token) => if has_session_store {
                Ok(token)
            } else {
                Err(
                    "session store is required for telegram adapter but memory backend is not available".to_owned(),
                )
            },
        },
    }
}

/// A guest needs a user, and gets its start-up data from its standard input where it is
/// told so, or else from the file that it is told, or else from nowhere.
pub proof fn law_start_up_data_has_one_source(
    args: OxydraVmArgs,
    r: Result<BootstrapSource, VmError>,
)
    requires
        call_ensures(bootstrap_source, (&args,), r),
    ensures
        r is Err <==> text::trimmed(args.user_id@).len() == 0,
        r matches Ok(source) ==> {
            &&& args.bootstrap_stdin ==> source is Stdin
            &&& !args.bootstrap_stdin ==> (args.bootstrap_file matches Some(path) ==> (
            source matches BootstrapSource::File(told) && told@ == path@))
            &&& !args.bootstrap_stdin && args.bootstrap_file is None ==> source is Nowhere
        },
{
}

/// What a file holds arrives whole: the frame that is made of it is what is read from a
/// stream that begins with it, whatever follows.
pub proof fn law_framed_file_is_read(
    path: &str,
    payload: &[u8],
    framed: Result<Vec<u8>, VmError>,
    received: &[u8],
    rest: Seq<u8>,
    read: Result<Vec<u8>, VmError>,
)
    requires
        call_ensures(bootstrap_frame_from_file, (path, payload), framed),
        framed matches Ok(frame) && received@ == frame@ + rest,
        call_ensures(read_bootstrap_frame_from_reader, (received,), read),
    ensures
        read matches Ok(frame) && frame@ == framed->Ok_0@ && frame@.len() == payload@.len() + 4
            && frame@.skip(4) == payload@,
{
    law_bootstrap_frame_is_read_whole(payload@);
    let frame = framed->Ok_0@;
    assert(received@[0] == frame[0] && received@[1] == frame[1] && received@[2] == frame[2]
        && received@[3] == frame[3]);
    assert(received@.take(4 + payload@.len() as int) =~= frame);
}

/// A stream that ends too early is told apart by where it ends.
pub proof fn law_cut_stream_is_told(received: &[u8], read: Result<Vec<u8>, VmError>)
    requires
        call_ensures(read_bootstrap_frame_from_reader, (received,), read),
    ensures
        received@.len() < 4 ==> (read matches Err(VmError::ReadBootstrapFrame { stage, .. })
            && stage@ == "length prefix"@),
        received@.len() >= 4 ==> (read matches Err(error) ==> (
        error matches VmError::ReadBootstrapFrame { stage, .. } && stage@ == "payload"@)),
        read matches Ok(frame) ==> frame@.is_prefix_of(received@) && frame@.len() >= 4,
{
    if let Ok(frame) = read {
        assert(frame@ =~= received@.subrange(0, frame@.len() as int));
    }
}

/// A guest announces its gateway where the runner looks for it, in the directory for
/// communication of its workspace, and with the address at which it listens.
pub proof fn law_gateway_is_announced_where_it_is_looked_for(
    workspace_root: &str,
    address: &str,
    marker: GatewayMarker,
    root: String,
    workspace: crate::workspace::UserWorkspace,
    looked_for: String,
    url: String,
)
    requires
        call_ensures(gateway_marker, (workspace_root, address), marker),
        root@ == workspace_root@,
        call_ensures(crate::workspace::UserWorkspace::under, (root,), workspace),
        call_ensures(
            crate::workspace::UserWorkspace::gateway_marker_path,
            (&workspace,),
            looked_for,
        ),
        call_ensures(gateway_endpoint, (address,), url),
    ensures
        marker.path@ == looked_for@,
        marker.directory@ == workspace.ipc@,
        marker.content@ == url@,
{
}

/// A bot speaks with the token that its variable holds, where it also has a place for its
/// sessions, and otherwise not at all.
pub proof fn law_bot_needs_token_and_sessions(
    variable: Option<&str>,
    token: Option<String>,
    has_session_store: bool,
    r: Result<String, String>,
)
    requires
        call_ensures(telegram_token, (variable, token, has_session_store), r),
    ensures
        r is Ok <==> variable is Some && token is Some && has_session_store,
        r matches Ok(told) ==> told@ == token->0@,
{
}

/// The text of an error of the guest says what the error holds.
pub proof fn law_errors_of_the_guest_say_why(error: VmError, r: String)
    requires
        call_ensures(VmError::to_text, (&error,), r),
    ensures
        match error {
            VmError::InvalidUserId => text::stands_in(r@, "user_id"@),
            VmError::Bootstrap { message } => {
                &&& text::stands_in(r@, message@)
            },
            VmError::ReadBootstrapFrame { stage, message } => {
                &&& text::stands_in(r@, stage@)
                &&& text::stands_in(r@, message@)
            },
            VmError::ReadBootstrapFile { path, message } => {
                &&& text::stands_in(r@, path@)
                &&& text::stands_in(r@, message@)
            },
            VmError::BindGateway { address, message } => {
                &&& text::stands_in(r@, address@)
                &&& text::stands_in(r@, message@)
            },
            VmError::GatewayAddress { message } => {
                &&& text::stands_in(r@, message@)
            },
            VmError::GatewayMarkerWrite { path, message } => {
                &&& text::stands_in(r@, path@)
                &&& text::stands_in(r@, message@)
            },
            VmError::ServeGateway { message } => {
                &&& text::stands_in(r@, message@)
            },
        },
{
    text::lemma_parts_stand_in();
    reveal_strlit("user_id must not be empty");
    reveal_strlit("user_id");
    assert("user_id must not be empty"@.subrange(0, 7) =~= "user_id"@);
    assert(text::stands_at("user_id must not be empty"@, "user_id"@, 0));
}

} // verus!
