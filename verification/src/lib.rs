//! A fixed-size worker pool, stated as a verified state machine.
//!
//! The pool owns a FIFO dispatch channel and a fixed set of workers. Every
//! operation of [`ThreadPool`] is a transition of the model in [`protocol`];
//! whoever runs the threads performs the blocking work and reports each
//! event back.
//!
//! - [`message`], [`channel`], [`worker`]: the parts of the pool.
//! - [`pool`]: the pool itself.
//! - [`protocol`]: the mathematical state of a pool, its steps and its
//!   invariant.
//! - [`laws`]: what follows for every schedule: each task runs exactly once,
//!   tasks start in submission order, shutdown drains the channel and ends.
//! - [`counting`]: lemmas on counting workers and the tasks they hold.
//! - [`http`]: the pages of the server and the framing of its responses.

pub mod channel;
pub mod counting;
pub mod http;
pub mod laws;
pub mod message;
pub mod pool;
pub mod protocol;
pub mod worker;

pub use channel::Channel;
pub use message::Message;
pub use pool::{JoinError, ThreadPool};
pub use worker::{Action, Worker, WorkerState};
