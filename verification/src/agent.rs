//! Passive records for agent-related call-queue notifications.
//!
//! These are pure data shapes: each field holds one key's value as parsed
//! key/value text (or its numeric coercion). They carry no behavior beyond
//! holding the fields of the notification they describe.

use vstd::prelude::*;

verus! {

/// Raised when a queue member is notified of a caller in the queue.
#[derive(Debug)]
pub struct AgenteCalled {
    pub queue: String,
    pub member_name: String,
    pub interface: String,
    pub caller_unique_id: String,
    pub caller_id_num: String,
    pub caller_id_name: String,
    pub dest_unique_id: String,
    pub dest_caller_id_num: String,
    pub dest_caller_id_name: String,
    pub dest_connected_line_num: String,
    pub dest_connected_line_name: String,
}

/// Raised when a queue member answers and is bridged to a caller in the
/// queue.
#[derive(Debug)]
pub struct AgentConnect {
    pub queue: String,
    pub caller_unique_id: String,
    pub caller_id_num: String,
    pub caller_id_name: String,
    pub dest_unique_id: String,
    pub dest_caller_id_num: String,
    pub dest_caller_id_name: String,
    pub dest_connected_line_num: String,
    pub dest_connected_line_name: String,
    pub interface: String,
    pub member_name: String,
    pub ring_time: u64,
    pub hold_time: u64,
}

/// Raised when a queue member has finished servicing a caller in the queue.
#[derive(Debug)]
pub struct AgentComplete {
    pub queue: String,
    pub member_name: String,
    pub interface: String,
    pub hold_time: u64,
    pub talk_time: u64,
    pub caller_unique_id: String,
    pub caller_id_num: String,
    pub caller_id_name: String,
    pub dest_caller_id_num: String,
    pub dest_caller_id_name: String,
    pub dest_connected_line_num: String,
    pub dest_connected_line_name: String,
    pub dest_unique_id: String,
    pub reason: String,
}

/// Raised when a queue member is notified of a caller in the queue and fails
/// to answer.
#[derive(Debug)]
pub struct AgentRingNoAnswer {
    pub queue: String,
    pub member_name: String,
    pub interface: String,
    pub ring_time: u64,
    pub caller_unique_id: String,
    pub caller_id_num: String,
    pub caller_id_name: String,
    pub dest_caller_id_num: String,
    pub dest_caller_id_name: String,
    pub dest_connected_line_num: String,
    pub dest_connected_line_name: String,
    pub dest_unique_id: String,
}

/// Raised when a queue member hangs up on a caller in the queue.
#[derive(Debug)]
pub struct AgentDump {
    pub queue: String,
    pub member_name: String,
    pub interface: String,
    pub caller_unique_id: String,
    pub caller_id_num: String,
    pub caller_id_name: String,
    pub dest_caller_id_num: String,
    pub dest_caller_id_name: String,
    pub dest_unique_id: String,
}

/// Raised when an agent has logged in.
#[derive(Debug)]
pub struct AgentLogin {}

/// Raised when an agent has logged off.
#[derive(Debug)]
pub struct AgentLogoff;

} // verus!
