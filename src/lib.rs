//! A minimal cooperative async kernel, as verified state machines over plain
//! values: the completion rendezvous between a timer and its timing thread,
//! the timer's lazy start, a first-in first-out executor, join and race
//! combinators, and a list-backed stream. Locks, threads, clocks and the
//! `Future` trait stay with the caller, who feeds the results in.

pub mod completion;
pub mod timer;
pub mod executor;
pub mod delay;
pub mod stream;
pub mod combinators;
