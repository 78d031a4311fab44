//! A progress-reporting task coordinator, verified with Verus.
//!
//! The library models the coordination core of a fixed-size worker pool:
//! a shared progress counter incremented exactly once per completed unit of
//! work, optional duration statistics (running total and running maximum),
//! a one-directional stop signal, a racy one-time initializer, and a
//! release/acquire publication cell.  Every atomic read-modify-write of the
//! real machine is indivisible, so any concurrent execution is equivalent to
//! some serial replay of those operations; the types here make that replay
//! explicit (a schedule of worker steps) and the contracts prove that the
//! outcome is the same for every interleaving.  The host program owns the
//! actual threads, sleeps and console I/O and feeds events into these types.

pub mod atomic;
pub mod command;
pub mod coordinator;
pub mod counter;
pub mod lazy;
pub mod publish;
pub mod scenarios;
pub mod schedule;
pub mod stats;
pub mod stop;
