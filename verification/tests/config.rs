#![allow(unused_imports, dead_code)]

use dmux::config::{canonical_key, validate_binding_command, validate_option_value, OPTION_PREFIX};


#[test]
fn canonical_key_accepts_directional_and_modified_keys() {
    assert_eq!(canonical_key("Left").unwrap(), "Left");
    assert_eq!(canonical_key("right").unwrap(), "Right");
    assert_eq!(canonical_key("M-h").unwrap(), "M-h");
    assert_eq!(canonical_key("Alt-Left").unwrap(), "M-Left");
    assert_eq!(canonical_key("C-Left").unwrap(), "C-Left");
    assert_eq!(canonical_key("Ctrl-Right").unwrap(), "C-Right");
}

#[test]
fn prefix_option_stays_byte_backed() {
    assert!(validate_option_value(OPTION_PREFIX, "Left").is_err());
    assert!(validate_option_value(OPTION_PREFIX, "M-h").is_err());
    assert_eq!(validate_option_value(OPTION_PREFIX, "C-a").unwrap(), "C-a");
}

#[test]
fn binding_command_accepts_resize_amounts() {
    assert_eq!(
        validate_binding_command("resize-pane -L 1").unwrap(),
        "resize-pane -L 1"
    );
    assert!(validate_binding_command("resize-pane -L 0").is_err());
}
