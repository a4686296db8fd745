#![allow(unused_imports, dead_code)]

use dmux::ids::{PaneId, TabId};


#[test]
fn pane_id_exposes_numeric_value() {
    assert_eq!(PaneId::new(7).as_usize(), 7);
}

#[test]
fn tab_id_exposes_numeric_value() {
    assert_eq!(TabId::new(3).as_usize(), 3);
}
