use dmux::encode::{encode_kill, encode_list_keys, encode_rename_session, encode_show_options};
use dmux::prompt::{plan_attach_command, reply_message, AttachCommandPlan};

fn plan(command: &str) -> Result<AttachCommandPlan, String> {
    plan_attach_command("dev", command, 0)
}

#[test]
fn attach_prompt_layout_requires_preset_before_contacting_server() {
    let err = match plan("layout") {
        Ok(_) => panic!("layout without preset should fail"),
        Err(err) => err,
    };

    assert!(err.contains("requires a preset"), "{}", err);
}

#[test]
fn prompt_rename_session_is_a_request_without_reconnect() {
    assert_eq!(
        plan("rename-session work").unwrap(),
        AttachCommandPlan::Request {
            line: encode_rename_session("dev", "work"),
            reconnect: false,
            exit_attach: false,
        }
    );
}

#[test]
fn prompt_kill_session_marks_attach_exit() {
    assert_eq!(
        plan("kill-session").unwrap(),
        AttachCommandPlan::Request {
            line: encode_kill("dev"),
            reconnect: false,
            exit_attach: true,
        }
    );
}

#[test]
fn prompt_list_keys_and_show_options_carry_their_formats() {
    assert_eq!(
        plan("list-keys -F '#{key}=#{command}'").unwrap(),
        AttachCommandPlan::Request {
            line: encode_list_keys(Some("#{key}=#{command}")),
            reconnect: false,
            exit_attach: false,
        }
    );
    assert_eq!(
        plan("show-options -F '#{option.name}=#{option.value}'").unwrap(),
        AttachCommandPlan::Request {
            line: encode_show_options(Some("#{option.name}=#{option.value}")),
            reconnect: false,
            exit_attach: false,
        }
    );
    let err = plan("list-keys bad").unwrap_err();
    assert!(err.contains("does not support argument"), "{}", err);
}

#[test]
fn prompt_source_file_is_read_only_at_the_top_level() {
    assert_eq!(
        plan("source-file /tmp/x.dmux").unwrap(),
        AttachCommandPlan::SourceFile("/tmp/x.dmux".to_string())
    );
    let err = plan_attach_command("dev", "source-file /tmp/x.dmux", 1).unwrap_err();
    assert!(
        err.contains("nested source-file is not allowed in attach scripts"),
        "{}",
        err
    );
    let err = plan("source-file").unwrap_err();
    assert_eq!(err, "source-file requires exactly one path");
}

#[test]
fn prompt_empty_command_does_nothing() {
    assert_eq!(plan("").unwrap(), AttachCommandPlan::Nothing);
    assert_eq!(plan("   ").unwrap(), AttachCommandPlan::Nothing);
}

#[test]
fn prompt_splits_a_sequence_into_its_commands() {
    match plan("list-windows ; kill-session").unwrap() {
        AttachCommandPlan::Sequence(commands) => assert_eq!(commands.len(), 2),
        other => panic!("expected a sequence, got {:?}", other),
    }
}

#[test]
fn prompt_unknown_command_names_it() {
    let err = plan("frobnicate").unwrap_err();
    assert!(err.starts_with("unknown attach command \"frobnicate\""), "{}", err);
}

#[test]
fn reply_message_trims_and_drops_empty_bodies() {
    assert_eq!(reply_message(b"hello\n\n"), Some("hello".to_string()));
    assert_eq!(reply_message(b" \n"), None);
    assert_eq!(reply_message(b""), None);
}
