//! Memory that both peers reach: blocks, spaces made of blocks, and the
//! control block laid out in such memory.

pub mod share_mem;
pub mod channel;
