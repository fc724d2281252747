//! The side of the client: senders that never wait, and the calls that a
//! client makes through them.

pub mod mb_nb_channel;
pub mod mb_rpcs;
