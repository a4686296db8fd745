#![allow(unused_imports, dead_code)]

use dmux::script::{
    is_duplicate_default_create_error, list_panes_json, list_sessions_json, list_windows_json,
    script_command_tail, BoundedReader, MAX_RUN_SHELL_OUTPUT_BYTES,
};


#[test]
fn list_sessions_json_builds_array_of_objects() {
    let body = "dev\u{1f}2\u{1f}1\u{1f}1000\nwork\u{1f}1\u{1f}0\u{1f}2000\n";
    let json = list_sessions_json(body);
    assert_eq!(
        json,
        "[\n  {\"name\": \"dev\", \"windows\": 2, \"attached_count\": 1, \"created_at\": 1000},\n  {\"name\": \"work\", \"windows\": 1, \"attached_count\": 0, \"created_at\": 2000}\n]"
    );
}

#[test]
fn list_sessions_json_handles_empty_and_quotes_names() {
    assert_eq!(list_sessions_json(""), "[]");
    let body = "a\"b\u{1f}0\u{1f}0\u{1f}0\n";
    assert!(
        list_sessions_json(body).contains("\"name\": \"a\\\"b\""),
        "{}",
        list_sessions_json(body)
    );
}

#[test]
fn list_panes_json_renders_flags_as_booleans() {
    let body = "0\u{1f}2\u{1f}1\u{1f}0\u{1f}running\u{1f}123\u{1f}\u{1f}\u{1f}vim\u{1f}/tmp\u{1f}0\u{1f}1\n";
    let json = list_panes_json(body);
    assert_eq!(
        json,
        "[\n  {\"index\": 0, \"id\": 2, \"active\": true, \"zoomed\": false, \"state\": \"running\", \"pid\": 123, \"exit_status\": \"\", \"exit_signal\": \"\", \"title\": \"vim\", \"cwd\": \"/tmp\", \"bell\": false, \"activity\": true}\n]"
    );
    assert_eq!(list_panes_json(""), "[]");
}

#[test]
fn list_windows_json_renders_objects() {
    let body = "0\u{1f}5\u{1f}main\u{1f}1\u{1f}3\u{1f}1\u{1f}0\n";
    let json = list_windows_json(body);
    assert_eq!(
        json,
        "[\n  {\"index\": 0, \"id\": 5, \"name\": \"main\", \"active\": true, \"panes\": 3, \"bell\": true, \"activity\": false}\n]"
    );
    assert_eq!(list_windows_json(""), "[]");
}

#[test]
fn duplicate_default_create_error_is_ignorable_for_open_default() {
    assert!(is_duplicate_default_create_error(
        "session already exists; use dmux attach -t default"
    ));
    assert!(!is_duplicate_default_create_error(
        "session already exists; use dmux attach -t other"
    ));
    assert!(!is_duplicate_default_create_error("missing session"));
}

#[test]
fn script_command_tail_preserves_shell_quoting() {
    assert_eq!(
        script_command_tail("run-shell printf '%s\\n' 'hello world'", "run-shell").as_deref(),
        Some("printf '%s\\n' 'hello world'")
    );
}

#[test]
fn bounded_output_reader_retains_cap_while_draining_extra_bytes() {
    let input = vec![b'x'; MAX_RUN_SHELL_OUTPUT_BYTES + 1024];
    let mut reader = BoundedReader::new();
    for chunk in input.chunks(8192) {
        reader.absorb(chunk);
    }
    let output = reader.finish();

    assert_eq!(output.bytes.len(), MAX_RUN_SHELL_OUTPUT_BYTES);
    assert!(output.truncated);
}
