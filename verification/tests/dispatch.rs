use dmux::cli::{parse_args, Command};
use dmux::dispatch::{lists_session, plan_command, CommandAction, ReplyUse, ServerNeed};
use dmux::encode::{
    encode_kill, encode_list_sessions, encode_list_windows, encode_new_in_cwd, encode_send_target,
};
use dmux::protocol::Target;

fn args(v: &[&str]) -> Vec<String> {
    v.iter().map(|s| s.to_string()).collect()
}

#[test]
fn kill_session_needs_a_running_server() {
    let command = Command::KillSession { session: "dev".to_string() };
    assert_eq!(
        plan_command(&command, b"/tmp"),
        CommandAction::Request {
            line: encode_kill("dev"),
            server: ServerNeed::MustBeRunning,
            reply: ReplyUse::Discard,
            attach_after: None,
        }
    );
}

#[test]
fn new_without_detach_attaches_afterwards() {
    let command = parse_args(args(&["dmux", "new", "-s", "dev"])).unwrap();
    assert_eq!(
        plan_command(&command, b"/work"),
        CommandAction::Request {
            line: encode_new_in_cwd("dev", &[], b"/work"),
            server: ServerNeed::StartIfMissing,
            reply: ReplyUse::Discard,
            attach_after: Some("dev".to_string()),
        }
    );
    let detached = parse_args(args(&["dmux", "new", "-d", "-s", "dev"])).unwrap();
    match plan_command(&detached, b"/work") {
        CommandAction::Request { attach_after, .. } => assert_eq!(attach_after, None),
        other => panic!("expected a request, got {:?}", other),
    }
}

#[test]
fn list_sessions_json_asks_for_separated_fields() {
    let command = Command::ListSessions { format: Some("json".to_string()) };
    assert_eq!(
        plan_command(&command, b"/"),
        CommandAction::Request {
            line: encode_list_sessions(Some(
                "#{session.name}\u{1f}#{session.window_count}\u{1f}#{session.attached_count}\u{1f}#{session.created_at}"
            )),
            server: ServerNeed::MustBeRunning,
            reply: ReplyUse::SessionsJson,
            attach_after: None,
        }
    );
}

#[test]
fn list_windows_uses_the_default_format() {
    let command = Command::ListWindows { session: "dev".to_string(), format: None };
    assert_eq!(
        plan_command(&command, b"/"),
        CommandAction::Request {
            line: encode_list_windows(
                "dev",
                Some("#{window.index}\tid=#{window.id}\tname=#{window.name}\tactive=#{window.active}\tpanes=#{window.panes}")
            ),
            server: ServerNeed::StartIfMissing,
            reply: ReplyUse::Print,
            attach_after: None,
        }
    );
}

#[test]
fn send_keys_sends_the_key_bytes() {
    let command = Command::SendKeys {
        target: Target::active("dev".to_string()),
        keys: vec!["ls".to_string(), "Enter".to_string()],
    };
    assert_eq!(
        plan_command(&command, b"/"),
        CommandAction::Request {
            line: encode_send_target(&Target::active("dev".to_string()), b"ls\r"),
            server: ServerNeed::StartIfMissing,
            reply: ReplyUse::Discard,
            attach_after: None,
        }
    );
}

#[test]
fn local_commands_stay_local() {
    assert_eq!(plan_command(&Command::KillServer, b"/"), CommandAction::KillServer);
    assert_eq!(plan_command(&Command::Server, b"/"), CommandAction::Serve);
    assert_eq!(
        plan_command(&Command::Attach { session: "dev".to_string() }, b"/"),
        CommandAction::Attach { session: "dev".to_string() }
    );
    assert_eq!(
        plan_command(&Command::Run { sequence: "a ; b".to_string() }, b"/"),
        CommandAction::RunSequence { sequence: "a ; b".to_string() }
    );
    match plan_command(&Command::Help { topic: None }, b"/") {
        CommandAction::Print { text } => assert!(text.contains("dmux")),
        other => panic!("expected help text, got {:?}", other),
    }
}

#[test]
fn lists_session_matches_whole_lines() {
    assert!(lists_session(b"work\ndefault\n", "default"));
    assert!(lists_session(b"default\r\n", "default"));
    assert!(!lists_session(b"defaults\nmy-default\n", "default"));
    assert!(!lists_session(b"", "default"));
}
