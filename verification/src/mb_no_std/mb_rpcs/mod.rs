//! The calls of a client. Each call is one attempt. A call that waits for
//! its response is taken up again, in the phase that the attempt hands
//! back, until it is done.

pub mod c_print;
pub mod call;
pub mod exit;
pub mod file_access;
pub mod memcmp;
pub mod memmove;
pub mod memset;
pub mod print;
