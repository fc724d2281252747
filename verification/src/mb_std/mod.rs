//! The side of the server: memory of the client, the handlers of the
//! built-in actions and the dispatcher.

pub mod mb_rpcs;
pub mod mb_share_mem;
pub mod mb_ptr_resolver;
pub mod mb_fs;
pub mod mb_server;
pub mod mb_async_channel;
