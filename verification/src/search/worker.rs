//! The decisions of a worker thread: which commands start, stop and end
//! it, and whether it waits for the next command.
use vstd::prelude::*;

verus! {

/// Commands for a worker thread.
#[derive(Copy, Clone, PartialEq, Eq, Structural)]
pub enum WorkerControl {
    Start,
    Stop,
    Quit,
    Nothing,
}

/// The state of a worker thread.
#[derive(Copy, Clone, PartialEq, Eq, Structural)]
pub struct WorkerState {
    /// The thread is to end.
    pub quit: bool,
    /// The thread is paused.
    pub halt: bool,
}

impl WorkerState {
    /// A worker that has not been started yet.
    pub fn new() -> (s: Self)
        ensures
            s == (WorkerState { quit: false, halt: true }),
    {
        WorkerState { quit: false, halt: true }
    }

    /// Whether the worker blocks until the next command arrives (it does
    /// when paused) rather than only looking whether one is there.
    pub fn waits_for_command(&self) -> (b: bool)
        ensures
            b == self.halt,
    {
        self.halt
    }

    /// The worker's state after a command.
    pub fn on_command(&self, cmd: WorkerControl) -> (s: Self)
        ensures
            cmd == WorkerControl::Quit ==> s == (WorkerState { quit: true, ..*self }),
            cmd == WorkerControl::Start ==> s == (WorkerState { halt: false, ..*self }),
            cmd == WorkerControl::Stop ==> s == (WorkerState { halt: true, ..*self }),
            cmd == WorkerControl::Nothing ==> s == *self,
    {
        match cmd {
            WorkerControl::Quit => WorkerState { quit: true, halt: self.halt },
            WorkerControl::Start => WorkerState { quit: self.quit, halt: false },
            WorkerControl::Stop => WorkerState { quit: self.quit, halt: true },
            WorkerControl::Nothing => *self,
        }
    }

    /// Whether the worker does its work in this round.
    pub fn is_running(&self) -> (b: bool)
        ensures
            b == !self.halt,
    {
        !self.halt
    }
}

} // verus!
