//! A lightweight background process manager.
//!
//! Workers are identified by an environment variable (for example `MY_TASK`)
//! and run in background mode when the same binary is started again with
//! that variable set.  This crate holds the manager's logic: task naming, the
//! registry of tasks, pid-file parsing, and the decision procedures that drive
//! starting, inspecting and stopping workers.  Every effect on the machine
//! (files, processes, signals, the environment) is performed by the caller,
//! which feeds the outcome back into the procedures in [`control`].

pub mod radix;
pub mod text;
pub mod pid;
pub mod task;
pub mod error;
pub mod control;
pub mod start;
pub mod info;
pub mod stop;
pub mod manager;
pub mod world;
