//! A DHCPv4 server: the pool of host ids, the lease table, the replies to client messages, and
//! the decisions of the loop that serves them.

pub mod answers;
pub mod calls;
pub mod frame;
pub mod host_pool;
pub mod interface;
pub mod laws;
pub mod service;
pub mod status;
