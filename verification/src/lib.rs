//! Verified core of the PVH boot parameters, the mount table, the directory
//! entry cache and the UDP datagram socket state machine of a small kernel.

pub mod pvh_param;
pub mod inet;
pub mod errno;
pub mod smol;
pub mod udp_inner;
pub mod udp;
pub mod path;
pub mod mount;
pub mod dcache;
pub mod udp_laws;
