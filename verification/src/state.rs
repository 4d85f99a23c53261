//! Shared state of the portal server.

use crate::manager::TerminalSessionManager;
use crate::session::SessionView;
use vstd::prelude::*;

verus! {

/// Shared state for the server, with the handles `E` of the REPL engines and `C` of command
/// execution.
#[derive(Debug)]
pub struct SharedState<E, C> {
    /// Indicates if the server is ready to process requests.
    pub ready: bool,
    /// Engine handle for REPL environment.
    pub engine_handle: Option<E>,
    /// Command handle for command execution.
    pub command_handle: Option<C>,
    /// Terminal session manager for interactive PTY sessions.
    pub terminal_manager: TerminalSessionManager,
}

impl<E, C> Default for SharedState<E, C> {
    fn default() -> (state: Self)
        ensures
            !state.ready,
            state.engine_handle is None,
            state.command_handle is None,
            state.terminal_manager.valid(),
            state.terminal_manager@ == Map::<Seq<char>, SessionView>::empty(),
    {
        SharedState {
            ready: false,
            engine_handle: None,
            command_handle: None,
            terminal_manager: TerminalSessionManager::new(),
        }
    }
}

} // verus!
