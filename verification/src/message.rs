use vstd::prelude::*;

verus! {

/// What travels through the dispatch channel: a unit of work, or the signal
/// that tells exactly one worker to stop.
#[derive(Debug, PartialEq, Eq)]
pub enum Message<T> {
    /// A task for some worker to execute.
    NewJob(T),
    /// Tells the worker that receives it to leave its loop.
    Terminate,
}

} // verus!
