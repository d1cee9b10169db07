//! The supervisor of a PPPoE client: the course of one connection, the watch over the `pppd`
//! process, and what follows from a change of the address that was negotiated.

pub mod course;
pub mod wan;
pub mod watch;
