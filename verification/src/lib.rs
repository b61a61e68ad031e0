//! Disk maintenance logic: disk health state machine, request bookkeeping,
//! hardware health evaluation and the message types exchanged with the
//! disk manager.
use vstd::prelude::*;

pub mod text;
pub mod error;
pub mod disk_state;
pub mod graph;
pub mod device;
pub mod state_machine;
pub mod checks;
pub mod transitions;
pub mod ops;
pub mod assoc;
pub mod message_map;
pub mod paths;
pub mod repair_queue;
pub mod request_map;
pub mod service;
pub mod in_progress;
pub mod host;
pub mod hardware;
pub mod disk_scan;
pub mod backend;
pub mod path_order;
pub mod osd;
pub mod deploy;
pub mod wire;

verus! {
}
