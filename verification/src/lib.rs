//! The decision core of an `async`/`await` bridge over a callback-driven,
//! poll-based audio client library.
//!
//! The native library offers, for a connection and for each operation in
//! flight, a synchronous state query and a hook that calls one function when
//! the state next changes. This crate holds what a cooperative task decides
//! on each resumption attempt: whether it resolves, with what, and which
//! trigger it leaves registered. It performs no I/O: the caller queries the
//! handle, hands the state in, and carries out what comes back.

pub mod awaiter;
pub mod capture;
pub mod context;
pub mod error;
pub mod operation;
