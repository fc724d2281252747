//! Mailbox RPC transport over a block of shared memory.
//!
//! A client encodes typed requests into the request ring of a mailbox control
//! block; a server takes them out in order, serves them against its own
//! resources and answers through the response ring.

pub mod mb_channel;
pub mod mb_rpcs;
pub mod mb_std;
pub mod mb_no_std;
