//! The search: its data, time management, move ordering and the
//! decisions taken at each node, between iterations, and by the search
//! thread between searches.
use crate::search::defs::{SearchControl, SearchParams, SearchTerminate};
use vstd::prelude::*;

pub mod alpha_beta;
pub mod defs;
pub mod iter_deep;
pub mod sorting;
pub mod time;
pub mod utils;
pub mod worker;

verus! {

/// Namespace of the search functions.
pub struct Search;

/// The state of a search thread between commands.
#[derive(Copy, Clone, PartialEq, Eq, Structural)]
pub struct ThreadState {
    /// The thread is to end.
    pub quit: bool,
    /// The thread waits instead of searching.
    pub halt: bool,
}

/// What a command does to a search thread: the new state, the search
/// parameters to use from now on (if the command brings them), and the
/// new value of the shared "search terminated" flag (if it changes).
pub open spec fn command_effect(state: ThreadState, cmd: SearchControl) -> (ThreadState, Option<SearchParams>, Option<bool>) {
    match cmd {
        SearchControl::Start(sp) => (ThreadState { halt: false, ..state }, Some(sp), Some(false)),
        SearchControl::Stop => (ThreadState { halt: true, ..state }, None, Some(true)),
        SearchControl::Quit => (ThreadState { quit: true, ..state }, None, Some(true)),
        SearchControl::Nothing => (state, None, None),
    }
}

impl Search {
    /// A thread that has not been told to search yet.
    pub fn initial_thread_state() -> (s: ThreadState)
        ensures
            s == (ThreadState { quit: false, halt: true }),
    {
        ThreadState { quit: false, halt: true }
    }

    /// Reacts to a command received by a search thread.
    pub fn on_command(state: ThreadState, cmd: SearchControl) -> (r: (ThreadState, Option<SearchParams>, Option<bool>))
        ensures
            r == command_effect(state, cmd),
    {
        match cmd {
            SearchControl::Start(sp) => (ThreadState { quit: state.quit, halt: false }, Some(sp), Some(false)),
            SearchControl::Stop => (ThreadState { quit: state.quit, halt: true }, None, Some(true)),
            SearchControl::Quit => (ThreadState { quit: true, halt: state.halt }, None, Some(true)),
            SearchControl::Nothing => (state, None, None),
        }
    }

    /// Whether the thread searches now: it is neither halted nor quitting.
    pub fn should_search(state: ThreadState) -> (b: bool)
        ensures
            b == (!state.halt && !state.quit),
    {
        !state.halt && !state.quit
    }

    /// The thread's state after a search ended for the given reason: a
    /// stop halts it, a quit halts it and ends it, a finished search
    /// changes nothing.
    pub fn after_search(state: ThreadState, terminate: SearchTerminate) -> (s: ThreadState)
        ensures
            terminate == SearchTerminate::Stop ==> s == (ThreadState { halt: true, ..state }),
            terminate == SearchTerminate::Quit ==> s == (ThreadState { halt: true, quit: true }),
            terminate == SearchTerminate::Nothing ==> s == state,
    {
        match terminate {
            SearchTerminate::Stop => ThreadState { quit: state.quit, halt: true },
            SearchTerminate::Quit => ThreadState { quit: true, halt: true },
            SearchTerminate::Nothing => state,
        }
    }
}

/// A thread told to quit never searches again, whatever it is told
/// afterwards.
pub proof fn lemma_quit_is_final(state: ThreadState, cmd: SearchControl)
    requires
        state.quit,
    ensures
        command_effect(state, cmd).0.quit,
        !(!command_effect(state, cmd).0.halt && !command_effect(state, cmd).0.quit),
{
}

/// After a start command the thread searches, unless it was told to quit
/// before; after a stop or quit command it does not.
pub proof fn lemma_start_stop(state: ThreadState, sp: SearchParams)
    ensures
        !state.quit ==> ({
            let s = command_effect(state, SearchControl::Start(sp)).0;
            !s.halt && !s.quit
        }),
        command_effect(state, SearchControl::Stop).0.halt,
        command_effect(state, SearchControl::Quit).0.quit,
        command_effect(state, SearchControl::Start(sp)).1 == Some(sp),
        command_effect(state, SearchControl::Start(sp)).2 == Some(false),
        command_effect(state, SearchControl::Stop).2 == Some(true),
{
}

} // verus!
