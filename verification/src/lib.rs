//! The decision logic of a small router's address services: a DHCPv4 server and a supervisor for
//! a PPPoE client.
//!
//! Nothing in this crate touches a socket, a netlink handle or a child process. Every function
//! takes what was observed and returns what is to be done, and states in its contract exactly
//! which action follows from which observation.

pub mod clock;
pub mod dhcp_server;
pub mod net;
pub mod pppd_client;
