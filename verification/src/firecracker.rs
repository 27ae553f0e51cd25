//! Configurations of micro virtual machines, and the wait for one to answer.

use crate::encoding;
use crate::encoding::encode_base64;
use crate::json;
use crate::json::{parse_json, Json, JsonTree};
use crate::sandbox::RunnerError;
use crate::text::{concat, concat3};
use vstd::prelude::*;
use vstd::utf8::*;

verus! {

/// The longest that the start-up data may be, as base64, on the command line of a
/// kernel.
pub const FIRECRACKER_BOOTSTRAP_CMDLINE_MAX_BYTES: usize = 2048;

/// For how long a virtual machine is given to answer, in milliseconds.
pub const FIRECRACKER_API_READY_TIMEOUT_MILLIS: u64 = 5000;

/// How long to wait before it is asked again, in milliseconds.
pub const FIRECRACKER_API_READY_POLL_MILLIS: u64 = 150;

/// The boot section of a configuration, or nothing.
pub open spec fn boot_source(config: JsonTree) -> JsonTree {
    match json::member(config, "boot-source"@) {
        Some(source) => source,
        None => JsonTree::Null,
    }
}

/// A configuration that kernel arguments can be put into.
pub open spec fn takes_boot_args(config: JsonTree) -> bool {
    json::takes_member(config) && json::takes_member(boot_source(config))
}

/// The kernel arguments with one more behind those that are there.
pub open spec fn boot_args_with(config: JsonTree, argument: Seq<char>) -> Seq<char> {
    match json::member(boot_source(config), "boot_args"@) {
        Some(JsonTree::Text(existing)) => existing + " "@ + argument,
        Some(_) => " "@ + argument,
        None => argument,
    }
}

/// A configuration with one more kernel argument.
pub open spec fn with_boot_arg(config: JsonTree, argument: Seq<char>) -> JsonTree {
    json::with_member(
        config,
        "boot-source"@,
        json::with_member(
            boot_source(config),
            "boot_args"@,
            JsonTree::Text(boot_args_with(config, argument)),
        ),
    )
}

/// Puts one more kernel argument into a configuration.
pub fn add_boot_arg(config: Json, argument: &str) -> (r: Json)
    requires
        takes_boot_args(config.deep_view()),
    ensures
        r.deep_view() == with_boot_arg(config.deep_view(), argument@),
{
    let source = match config.get("boot-source") {
        Some(source) => source.clone(),
        None => Json::Null,
    };
    let args = match source.get("boot_args") {
        Some(existing) => match existing.as_str() {
            Some(existing) => concat3(existing, " ", argument),
            None => concat(" ", argument),
        },
        None => argument.to_owned(),
    };
    let source = source.set_member("boot_args", Json::Text(args));
    config.set_member("boot-source", source)
}

/// Whether kernel arguments can be put into a configuration.
pub fn accepts_boot_args(config: &Json) -> (r: bool)
    ensures
        r == takes_boot_args(config.deep_view()),
{
    if !config.takes_members() {
        return false;
    }
    match config.get("boot-source") {
        Some(source) => source.takes_members(),
        None => true,
    }
}

/// A new kernel argument is found in the configuration, behind those that were there,
/// and everything else in the configuration is as before.
pub proof fn law_boot_arg_is_added(config: JsonTree, argument: Seq<char>, other: Seq<char>)
    requires
        takes_boot_args(config),
        other != "boot-source"@,
    ensures
        json::member(boot_source(with_boot_arg(config, argument)), "boot_args"@) == Some(
            JsonTree::Text(boot_args_with(config, argument)),
        ),
        json::member(with_boot_arg(config, argument), other) == json::member(config, other),
{
    let args = JsonTree::Text(boot_args_with(config, argument));
    let source = json::with_member(boot_source(config), "boot_args"@, args);
    json::law_set_member_is_found(config, "boot-source"@, source, other);
    let another = "boot_args"@.push('x');
    assert(another.len() != "boot_args"@.len());
    json::law_set_member_is_found(boot_source(config), "boot_args"@, args, another);
}

/// The start-up data as a kernel argument.
pub open spec fn bootstrap_arg(bootstrap_json: Seq<char>) -> Seq<char> {
    "oxydra.bootstrap_b64="@ + encoding::base64_text(encode_utf8(bootstrap_json))
}

/// How long the start-up data is as base64.
pub open spec fn bootstrap_size(bootstrap_json: Seq<char>) -> nat {
    encode_utf8(encoding::base64_text(encode_utf8(bootstrap_json))).len()
}

/// Start-up data in base64 as a kernel argument. What is too long for a kernel is refused.
pub fn encoded_boot_arg(encoded: &str) -> (r: Result<String, RunnerError>)
    ensures
        match r {
            Ok(argument) => {
                &&& encode_utf8(encoded@).len() <= FIRECRACKER_BOOTSTRAP_CMDLINE_MAX_BYTES
                &&& argument@ == "oxydra.bootstrap_b64="@ + encoded@
            },
            Err(RunnerError::BootstrapTooLargeForCmdline { bytes, max_bytes }) => {
                &&& encode_utf8(encoded@).len() > FIRECRACKER_BOOTSTRAP_CMDLINE_MAX_BYTES
                &&& bytes == encode_utf8(encoded@).len()
                &&& max_bytes == FIRECRACKER_BOOTSTRAP_CMDLINE_MAX_BYTES
            },
            Err(_) => false,
        },
{
    let bytes: usize = encoded.as_bytes().len();
    if bytes > FIRECRACKER_BOOTSTRAP_CMDLINE_MAX_BYTES {
        return Err(
            RunnerError::BootstrapTooLargeForCmdline {
                bytes,
                max_bytes: FIRECRACKER_BOOTSTRAP_CMDLINE_MAX_BYTES,
            },
        );
    }
    Ok(concat("oxydra.bootstrap_b64=", encoded))
}

/// The start-up data as a kernel argument. What is too long for a kernel is refused.
/// The data can be read back from the argument.
pub fn bootstrap_boot_arg(bootstrap_json: &str) -> (r: Result<String, RunnerError>)
    ensures
        match r {
            Ok(argument) => {
                &&& bootstrap_size(bootstrap_json@) <= FIRECRACKER_BOOTSTRAP_CMDLINE_MAX_BYTES
                &&& argument@ == bootstrap_arg(bootstrap_json@)
                &&& encoding::base64_bytes(
                    argument@.skip("oxydra.bootstrap_b64="@.len() as int),
                ) == Ok::<Seq<u8>, Seq<char>>(encode_utf8(bootstrap_json@))
            },
            Err(RunnerError::BootstrapTooLargeForCmdline { bytes, max_bytes }) => {
                &&& bootstrap_size(bootstrap_json@) > FIRECRACKER_BOOTSTRAP_CMDLINE_MAX_BYTES
                &&& bytes == bootstrap_size(bootstrap_json@)
                &&& max_bytes == FIRECRACKER_BOOTSTRAP_CMDLINE_MAX_BYTES
            },
            Err(_) => false,
        },
{
    let encoded = encode_base64(bootstrap_json.as_bytes());
    proof {
        assert(("oxydra.bootstrap_b64="@ + encoded@).skip("oxydra.bootstrap_b64="@.len() as int)
            =~= encoded@);
    }
    encoded_boot_arg(encoded.as_str())
}

/// What a template and the start-up data make of a configuration. `bootstrap` is the
/// compact JSON of the start-up data, or why it could not be had; without it the
/// template stands as it is. `None` comes of a template that is no object, or whose boot
/// section is none, and that therefore cannot take the data.
pub fn generate_firecracker_config(
    template_path: &str,
    template: &str,
    bootstrap: Option<Result<String, RunnerError>>,
) -> (r: Result<Option<String>, RunnerError>)
    ensures
        match r {
            Ok(text) => {
                &&& json::parsed_tree(template@) is Some
                &&& match bootstrap {
                    None => text.deep_view() == Some(
                        json::tree_pretty_text(json::parsed_tree(template@)->0),
                    ),
                    Some(Ok(data)) => {
                        &&& bootstrap_size(data@) <= FIRECRACKER_BOOTSTRAP_CMDLINE_MAX_BYTES
                        &&& text.deep_view() == if takes_boot_args(
                            json::parsed_tree(template@)->0,
                        ) {
                            Some(
                                json::tree_pretty_text(
                                    with_boot_arg(
                                        json::parsed_tree(template@)->0,
                                        bootstrap_arg(data@),
                                    ),
                                ),
                            )
                        } else {
                            None
                        }
                    },
                    Some(Err(_)) => false,
                }
            },
            Err(error) => config_fails(template_path@, template@, bootstrap, error),
        },
{
    let config = match parse_json(template) {
        Ok(config) => config,
        Err(message) => {
            return Err(
                RunnerError::ParseFirecrackerConfig { path: template_path.to_owned(), message },
            );
        },
    };
    match bootstrap {
        None => Ok(Some(config.to_pretty_text())),
        Some(Err(error)) => Err(error),
        Some(Ok(data)) => match bootstrap_boot_arg(data.as_str()) {
            Err(error) => Err(error),
            Ok(argument) => if accepts_boot_args(&config) {
                Ok(Some(add_boot_arg(config, argument.as_str()).to_pretty_text()))
            } else {
                Ok(None)
            },
        },
    }
}

/// A configuration cannot be made, for that reason: the template is not JSON, the
/// start-up data could not be had, or it is too long.
pub open spec fn config_fails(
    template_path: Seq<char>,
    template: Seq<char>,
    bootstrap: Option<Result<String, RunnerError>>,
    error: RunnerError,
) -> bool {
    match json::parse_outcome(template) {
        Err(cause) => error matches RunnerError::ParseFirecrackerConfig { path, message } && path@
            == template_path && message@ == cause,
        Ok(_) => match bootstrap {
            Some(Err(cause)) => error == cause,
            Some(Ok(data)) => {
                &&& bootstrap_size(data@) > FIRECRACKER_BOOTSTRAP_CMDLINE_MAX_BYTES
                &&& error matches RunnerError::BootstrapTooLargeForCmdline { bytes, max_bytes }
                    && bytes == bootstrap_size(data@) && max_bytes
                    == FIRECRACKER_BOOTSTRAP_CMDLINE_MAX_BYTES
            },
            None => false,
        },
    }
}

/// What to do while a virtual machine has not answered.
#[derive(Debug, PartialEq, Eq)]
pub enum ApiWait {
    /// Ask it.
    Probe,
    GiveUp(RunnerError),
}

/// Whether a virtual machine is asked once more, or given up, with the last failure.
pub fn next_api_probe(api_socket_path: &str, elapsed_millis: u64, last_failure: Option<
    &RunnerError,
>) -> (r: ApiWait)
    ensures
        match r {
            ApiWait::Probe => elapsed_millis < FIRECRACKER_API_READY_TIMEOUT_MILLIS,
            ApiWait::GiveUp(error) => {
                &&& elapsed_millis >= FIRECRACKER_API_READY_TIMEOUT_MILLIS
                &&& error matches RunnerError::FirecrackerApiNotReady {
                    path,
                    timeout_secs,
                    last_error,
                } && path@ == api_socket_path@ && timeout_secs == 5 && last_error@
                    == match last_failure {
                    Some(failure) => crate::sandbox::error_text(*failure),
                    None => "firecracker API did not answer"@,
                }
            },
        },
{
    if elapsed_millis < FIRECRACKER_API_READY_TIMEOUT_MILLIS {
        return ApiWait::Probe;
    }
    let last_error = match last_failure {
        Some(failure) => failure.to_text(),
        None => "firecracker API did not answer".to_owned(),
    };
    ApiWait::GiveUp(
        RunnerError::FirecrackerApiNotReady {
            path: api_socket_path.to_owned(),
            timeout_secs: 5,
            last_error,
        },
    )
}

/// A machine's configuration is its template where there is no start-up data; with it the
/// template gets one more argument for its kernel, behind those that it has, and nothing
/// else of it changes: read back from base64, that argument is the data.
pub proof fn law_start_up_data_is_put_on_the_command_line(
    template_path: &str,
    template: &str,
    data: String,
    plain: Result<Option<String>, RunnerError>,
    r: Result<Option<String>, RunnerError>,
    argument: Result<String, RunnerError>,
    tree: JsonTree,
    given: &str,
)
    requires
        given@ == data@,
        json::parsed_tree(template@) == Some(tree),
        call_ensures(
            generate_firecracker_config,
            (template_path, template, None::<Result<String, RunnerError>>),
            plain,
        ),
        call_ensures(
            generate_firecracker_config,
            (template_path, template, Some(Ok::<String, RunnerError>(data))),
            r,
        ),
        call_ensures(bootstrap_boot_arg, (given,), argument),
        plain is Ok,
    ensures
        plain->Ok_0 matches Some(text) && text@ == json::tree_pretty_text(tree),
        r is Ok ==> argument is Ok,
        r matches Ok(Some(text)) ==> {
            let made = with_boot_arg(tree, argument->Ok_0@);
            &&& text@ == json::tree_pretty_text(made)
            &&& json::member(boot_source(tree), "boot_args"@) matches Some(JsonTree::Text(before))
                ==> json::member(boot_source(made), "boot_args"@) == Some(
                JsonTree::Text(before + " "@ + argument->Ok_0@),
            )
            &&& json::member(boot_source(tree), "boot_args"@) is None ==> json::member(
                boot_source(made),
                "boot_args"@,
            ) == Some(JsonTree::Text(argument->Ok_0@))
            &&& encoding::base64_bytes(
                argument->Ok_0@.skip("oxydra.bootstrap_b64="@.len() as int),
            ) == Ok::<Seq<u8>, Seq<char>>(encode_utf8(data@))
            &&& "oxydra.bootstrap_b64="@.is_prefix_of(argument->Ok_0@)
        },
{
    if r matches Ok(Some(text)) {
        let other = "boot_args"@;
        reveal_strlit("boot_args");
        reveal_strlit("boot-source");
        assert("boot_args"@.len() == 9 && "boot-source"@.len() == 11);
        law_boot_arg_is_added(tree, argument->Ok_0@, other);
        let name = "oxydra.bootstrap_b64="@;
        assert(name =~= argument->Ok_0@.subrange(0, name.len() as int));
    }
}

/// A machine is asked again until five seconds are over, and is then given up, with the
/// socket that it was asked at and what went wrong last.
pub proof fn law_silent_machine_is_given_up(
    socket: &str,
    elapsed: u64,
    failure: RunnerError,
    r: ApiWait,
)
    requires
        call_ensures(next_api_probe, (socket, elapsed, Some(&failure)), r),
    ensures
        r is Probe <==> elapsed < 5000,
        r matches ApiWait::GiveUp(error) ==> (error matches RunnerError::FirecrackerApiNotReady {
            path,
            timeout_secs,
            last_error,
        } && path@ == socket@ && timeout_secs == 5 && last_error@ == crate::sandbox::error_text(
            failure,
        )),
{
}

/// Start-up data that is too long for a kernel is refused, with its length and the limit.
pub proof fn law_long_start_up_data_is_refused(encoded: &str, r: Result<String, RunnerError>)
    requires
        call_ensures(encoded_boot_arg, (encoded,), r),
    ensures
        r is Ok <==> encode_utf8(encoded@).len() <= 2048,
        r matches Ok(argument) ==> argument@ == "oxydra.bootstrap_b64="@ + encoded@,
        r matches Err(error) ==> (error matches RunnerError::BootstrapTooLargeForCmdline {
            bytes,
            max_bytes,
        } && bytes == encode_utf8(encoded@).len() && max_bytes == 2048),
{
}

} // verus!
