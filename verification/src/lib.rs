//! Growable, block-aligned byte buffer for a telephony manager-protocol
//! client, together with the passive event records that consume its bytes
//! and a buffered-writer shell around an asynchronous sink.

pub mod agent;
pub mod bytes;
pub mod member;
pub mod writer;
