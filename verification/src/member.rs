//! Passive records for queue-member notifications, and the member status
//! code they carry.

use vstd::prelude::*;
use vstd::string::StringSliceAdditionalSpecFns;

verus! {

/// A queue member's device state, as reported by the single-character status
/// code of the notification text.
#[derive(Clone, Copy, Debug, Default, PartialEq, Eq, Structural)]
pub enum Status {
    /// Any code outside `"1"` through `"8"`.
    #[default]
    Unknown,
    NotInUse,
    InUse,
    Busy,
    Invalid,
    Unavailable,
    Ringing,
    RingingAndInUse,
    OnHold,
}

/// The status named by a code, given as the code's bytes: `"1"` through
/// `"8"` name the eight known states, anything else is unknown.
pub open spec fn status_from_bytes(code: Seq<u8>) -> Status {
    if code == seq![49u8] {
        Status::NotInUse
    } else if code == seq![50u8] {
        Status::InUse
    } else if code == seq![51u8] {
        Status::Busy
    } else if code == seq![52u8] {
        Status::Invalid
    } else if code == seq![53u8] {
        Status::Unavailable
    } else if code == seq![54u8] {
        Status::Ringing
    } else if code == seq![55u8] {
        Status::RingingAndInUse
    } else if code == seq![56u8] {
        Status::OnHold
    } else {
        Status::Unknown
    }
}

impl Status {
    /// The status named by the code text `value`.
    pub fn from(value: &str) -> (r: Status)
        ensures
            r == status_from_bytes(value.spec_bytes()),
    {
        let code = value.as_bytes();
        if code.len() != 1 {
            proof {
                assert(value.spec_bytes().len() != 1);
            }
            return Status::Unknown;
        }
        let digit = *vstd::slice::slice_index_get(code, 0);
        proof {
            assert(value.spec_bytes() =~= seq![digit]);
        }
        if digit == 49 {
            Status::NotInUse
        } else if digit == 50 {
            Status::InUse
        } else if digit == 51 {
            Status::Busy
        } else if digit == 52 {
            Status::Invalid
        } else if digit == 53 {
            Status::Unavailable
        } else if digit == 54 {
            Status::Ringing
        } else if digit == 55 {
            Status::RingingAndInUse
        } else if digit == 56 {
            Status::OnHold
        } else {
            Status::Unknown
        }
    }
}

/// Queue member information, received when connected to the queue events.
#[derive(Debug)]
pub struct QueueMember {
    pub queue: String,
    pub interface: String,
    pub member_name: String,
    pub status: Status,
    pub log_in_time: String,
    pub last_call: u64,
    pub last_pause: u64,
    pub calls_taken: u16,
    pub in_call: bool,
    pub ring_in_use: bool,
    pub pause_reason: String,
    pub paused: bool,
}

/// Raised when a queue member is rung while already in use.
#[derive(Debug)]
pub struct MemberRingninuse {
    pub queue: String,
    pub interface: String,
    pub member_name: String,
    pub position: u16,
    pub caller_id: String,
    pub caller_name: String,
}

/// Raised when a queue member is busy.
#[derive(Debug)]
pub struct MemberBusy {
    pub queue: String,
    pub interface: String,
    pub member_name: String,
    pub position: u16,
    pub caller_id: String,
    pub caller_name: String,
}

} // verus!
