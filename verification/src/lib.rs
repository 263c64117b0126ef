//! Execution core for turn-based robot matches.
//!
//! The library resolves a user-supplied robot identifier into a concrete
//! execution strategy, plans the sandbox or process that will run the robot,
//! frames the line-delimited protocol exchanged with it, keys the compiled
//! module cache, and drives the per-turn state machine with its timeout
//! discipline.  All input/output sits outside the library: callers hand in
//! plain values (lines already read, events already observed) and receive
//! plain values back.

pub mod cache;
pub mod ident;
pub mod proto;
pub mod remote;
pub mod runner;
pub mod sandbox;
pub mod summary;
