#![allow(unused_imports, dead_code)]

use dmux::git::dirty_from_porcelain;


#[test]
fn dirty_from_porcelain_detects_changes() {
    assert!(!dirty_from_porcelain(""));
    assert!(!dirty_from_porcelain("   \n  \n"));
    assert!(dirty_from_porcelain(" M src/main.rs\n"));
    assert!(dirty_from_porcelain("?? new.txt\n"));
}
