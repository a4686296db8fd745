//! A terminal multiplexer's client-side logic: command-line and script
//! parsing, the line-oriented request protocol, pane layout geometry, key
//! configuration, popup state and the small JSON emitter used for list
//! output.

pub mod prompt;
pub mod protocol;
pub mod raw_client;
pub mod render;
pub mod replies;
pub mod screen;
pub mod script;
pub mod attach;
pub mod frames;
pub mod git;
pub mod header;
pub mod json;
pub mod key_names;
pub mod keys;
pub mod ids;
pub mod input;
pub mod popup;
pub mod cli;
pub mod config;
pub mod copy_mode;
pub mod decode;
pub mod dispatch;
pub mod encode;
pub mod laws;
pub mod layout;
pub mod live;
pub mod text;
pub mod wire;

use vstd::prelude::*;

verus! {

} // verus!
