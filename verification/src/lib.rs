//! An educational CPU-scheduling engine.
//!
//! Each logical process is backed by a real operating-system child process.
//! The engine drives a set of process records through the lifecycle
//! `New -> Running -> {Stopped <-> Running} -> Exited` under one of two
//! policies: first-come-first-served (FCFS) or round-robin (RR) with a time
//! quantum. The engine itself makes only the scheduling decisions; an
//! unverified driver performs the operating-system actions (spawn, signal,
//! wait, sleep) that each decision calls for and reports the outcome back.

pub mod engine;
pub mod parse;
pub mod process;

pub use engine::Action;
pub use engine::Phase;
pub use engine::Policy;
pub use engine::Scheduler;
pub use process::ProcessRecord;
pub use process::ProcessState;
