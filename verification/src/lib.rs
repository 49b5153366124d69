//! The decisions behind the MAIC Desktop shell. The app ships a bundled server
//! and a Node sidecar, stages both outside its bundle, picks a loopback port
//! that stays the same across launches, starts the server, waits for it to
//! become healthy, and swaps the splash for the main window.
//!
//! Each flow that alternates decisions with work on the machine is a struct
//! with a `step`: the shell carries the step out and hands a reply to
//! `answer`, which tells the next step. What a whole flow comes to is stated,
//! and proved, for every machine it may meet.
use vstd::prelude::*;

pub mod boot;
pub mod build_meta;
pub mod health;
pub mod log_tail;
pub mod port;
pub mod reply;
pub mod server_tree;
pub mod sidecar;
pub mod splash;
pub mod text;
pub mod tree_check;

verus! {

} // verus!
