//! Socket layer of a monolithic kernel: POSIX-style socket calls mapped onto one
//! shared, poll-driven network stack.
//!
//! The stack itself is `smoltcp`. This crate owns everything above it: the
//! descriptor table, the reference-counted socket handles, the per-type
//! lifecycle rules, the framing of raw packets and the wire format of socket
//! addresses. Every operation is non-blocking and never drives the interface
//! itself: it reports through [`error::Progress`] when the caller has to
//! suspend, and through [`iface::NetStack::poll_pending`] when the interface
//! has to be polled.
//!
//! [`stack`] and the packet accessors of [`packet`] are the boundary to
//! `smoltcp`: what they state of it is taken on trust. Everything else is
//! proved from there.

pub mod addr;
pub mod error;
pub mod iface;
pub mod net;
pub mod packet;
pub mod pipe;
pub mod port;
pub mod process;
pub mod registry;
pub mod stack;
pub mod transfer;
