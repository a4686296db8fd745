use dmux::config::{canonical_key, canonical_key_stroke, default_key_bindings, parse_key_stroke, validate_binding_command};
use dmux::decode::decode_request;
use dmux::encode::{encode_capture_target, encode_copy_mode, encode_save_buffer_text};
use dmux::protocol::{BufferSelection, CaptureMode, Target, MAX_SAVE_BUFFER_TEXT_BYTES};

#[test]
fn canonical_names_parse_back() {
    for name in ["C-b", "M-Left", "c-m-s-x", "Space", "S-Tab", "C-Right", "%"] {
        let key = parse_key_stroke(name).unwrap();
        let canonical = canonical_key_stroke(key);
        assert_eq!(parse_key_stroke(&canonical).unwrap(), key, "{name}");
    }
    let ctrl_i = parse_key_stroke("C-i").unwrap();
    assert!(parse_key_stroke(&canonical_key_stroke(ctrl_i)).is_err());
}

#[test]
fn default_bindings_are_canonical_valid_and_distinct() {
    let bindings = default_key_bindings();
    assert_eq!(bindings.len(), 39);
    for (i, b) in bindings.iter().enumerate() {
        assert_eq!(canonical_key(&b.key), Ok(b.key.clone()));
        assert_eq!(validate_binding_command(&b.command), Ok(b.command.clone()));
        for other in &bindings[i + 1..] {
            assert_ne!(b.key, other.key);
        }
    }
}

#[test]
fn decoder_refuses_what_the_command_line_never_sends() {
    let target = Target::active("dev".to_string());
    let line = encode_capture_target(&target, CaptureMode::All, BufferSelection::LineRange { start: 0, end: 3 });
    assert!(decode_request(&line).is_err());
    let line = encode_capture_target(
        &target,
        CaptureMode::All,
        BufferSelection::Search { needle: "x".to_string(), match_index: 0 },
    );
    assert!(decode_request(&line).is_err());
    assert!(decode_request(&encode_copy_mode("dev", CaptureMode::All, None, Some(1))).is_err());
    assert!(decode_request(&encode_copy_mode("dev", CaptureMode::All, Some("x"), Some(0))).is_err());
    let big = "a".repeat(MAX_SAVE_BUFFER_TEXT_BYTES + 1);
    assert_eq!(
        decode_request(&encode_save_buffer_text("dev", None, &big)),
        Err("SAVE_BUFFER_TEXT exceeds maximum buffer size".to_string())
    );
}
