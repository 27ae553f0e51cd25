use oxydra::docker::parsed_body;
use oxydra::firecracker::encoded_boot_arg;
use oxydra::gemini::{decoded_media, tool_answer};
use oxydra::json::{parse_json, Json};
use oxydra::migration::{migration_step, ConfigType, MigrationStep};
use oxydra::openai::{call_with_arguments, OpenAIResponseFunction, OpenAIResponseToolCall};
use oxydra::responses::arguments_or_text;
use oxydra::sandbox::RunnerError;
use oxydra::update_check::{mismatch_of_version, tag_of_releases};

fn json(text: &str) -> Json {
    parse_json(text).expect("text should be JSON")
}

fn text(value: &str) -> Json {
    Json::Text(value.to_owned())
}

fn result(value: &str) -> Json {
    Json::Object(vec![("result".to_owned(), text(value))])
}

#[test]
fn tool_answers_are_wrapped_unless_they_are_objects() {
    let said = Some("said".to_owned());
    assert_eq!(tool_answer(&said, Some(json(r#"{"a":1}"#))), json(r#"{"a":1}"#));
    assert_eq!(tool_answer(&said, Some(json("[1]"))), result("said"));
    assert_eq!(tool_answer(&said, None), result("said"));
    assert_eq!(tool_answer(&None, None), result(""));
}

#[test]
fn media_are_what_their_data_decode_to() {
    let media = decoded_media("image/png", Ok(vec![1, 2])).expect("data decode");
    assert_eq!((media.mime_type.as_str(), media.data), ("image/png", vec![1, 2]));
    assert_eq!(
        decoded_media("image/png", Err("odd".to_owned())).err().as_deref(),
        Some("failed to decode Gemini inlineData attachment: odd")
    );
}

#[test]
fn arguments_that_do_not_parse_stay_text() {
    assert_eq!(arguments_or_text("{}", Some(json("{}"))), json("{}"));
    assert_eq!(arguments_or_text("{", None), text("{"));
}

#[test]
fn only_functions_are_called() {
    let call = |kind: &str| OpenAIResponseToolCall {
        id: "call_1".to_owned(),
        kind: kind.to_owned(),
        function: OpenAIResponseFunction { name: "f".to_owned(), arguments: "{}".to_owned() },
    };
    let made = call_with_arguments(&call("function"), Ok(json("{}"))).expect("call is sound");
    assert_eq!((made.id.as_str(), made.name.as_str()), ("call_1", "f"));
    assert_eq!(made.arguments, json("{}"));
    assert_eq!(
        call_with_arguments(&call("function"), Err("EOF".to_owned())).err().as_deref(),
        Some("invalid OpenAI tool call arguments for `call_1`: EOF")
    );
    assert_eq!(
        call_with_arguments(&call("custom"), Ok(json("{}"))).err().as_deref(),
        Some("unsupported OpenAI tool call type `custom`")
    );
}

#[test]
fn bodies_are_nothing_or_json_or_text() {
    assert_eq!(parsed_body(b"", "", Some(json("1"))), Json::Null);
    assert_eq!(parsed_body(b"1", "1", Some(json("1"))), json("1"));
    assert_eq!(parsed_body(b"no", "no", None), text("no"));
}

#[test]
fn kernel_arguments_are_short() {
    assert_eq!(encoded_boot_arg("e30=").ok().as_deref(), Some("oxydra.bootstrap_b64=e30="));
    let long = "A".repeat(1 << 20);
    assert!(matches!(
        encoded_boot_arg(&long),
        Err(RunnerError::BootstrapTooLargeForCmdline { bytes: 1_048_576, .. })
    ));
}

#[test]
fn versions_decide_on_migrations() {
    let step = |version| migration_step(version, ConfigType::User);
    assert_eq!(step("1.0.1"), MigrationStep::Current);
    assert_eq!(step("1.0.0"), MigrationStep::Migrate);
    assert_eq!(step("1.0.1.0"), MigrationStep::Newer);
    assert_eq!(step("9"), MigrationStep::Newer);
    assert_eq!(step("one"), MigrationStep::Malformed);
    assert_eq!(
        step("0.9"),
        MigrationStep::NoMigration(
            "no migration registered for user config version `0.9`".to_owned()
        )
    );
    let error =
        RunnerError::ConfigMigration { path: "/c".to_owned(), message: "none".to_owned() };
    assert_eq!(error.to_text(), "failed to migrate runner config `/c`: none");
    let error = RunnerError::ConfigMigrationIo {
        path: "/c".to_owned(),
        operation: "backup",
        message: "full".to_owned(),
    };
    assert_eq!(error.to_text(), "runner config migration backup failed for `/c`: full");
}

#[test]
fn the_first_release_that_counts_gives_the_tag() {
    let releases = |list: &str| match json(list) {
        Json::List(releases) => releases,
        other => panic!("expected a list, got {other:?}"),
    };
    let all = releases(
        r#"[{"draft":true,"prerelease":false,"tag_name":"d"},
            {"draft":false,"prerelease":true,"tag_name":"p"},
            {"draft":false,"prerelease":false,"tag_name":"s"}]"#,
    );
    assert_eq!(tag_of_releases(&all, false).as_deref(), Some("s"));
    assert_eq!(tag_of_releases(&all, true).as_deref(), Some("p"));
    assert_eq!(tag_of_releases(&releases(r#"[{"tag_name":"x"}]"#), true), None);
}

#[test]
fn images_of_the_running_version_fit() {
    assert_eq!(mismatch_of_version("f", "i:1.0.0", "1.0.0", "1.0.0", true), None);
    let mismatch = mismatch_of_version("f", "i:1.0.0", "1.0.0", "2.0.0", false)
        .expect("versions differ");
    assert_eq!((mismatch.field, mismatch.image_ref.as_str()), ("f", "i:1.0.0"));
    assert_eq!(mismatch.binary_version, "2.0.0");
}
