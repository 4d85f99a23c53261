//! # microsandbox-terminal
//!
//! Interactive PTY/TTY terminal support for microsandbox.
//!
//! This crate provides:
//! - `TtySession`: PTY lifecycle management (spawn, read, write, resize, close)
//! - `TerminalMessage`: WebSocket message types for terminal communication
//! - `RateLimiter`: Leaky bucket rate limiting for terminal input
//! - `TerminalSessionManager`: the active sessions by identifier
//! - `TerminalConnection` and `OutputPump`: what a terminal WebSocket connection does
//! - `ProxyConnection`: relaying between a client and the portal of a sandbox
//!
//! The crate decides, and leaves the doing to its caller: an operation says what is to be done to
//! the PTY, the shell process or the socket, and takes what that came to.

pub mod clock;
pub mod connection;
pub mod encoding;
pub mod error;
pub mod manager;
pub mod message;
pub mod output;
pub mod proxy;
pub mod rate_limit;
pub mod relay;
pub mod resize;
pub mod session;
pub mod spawn;
pub mod state;
pub mod text;

pub use connection::{ConnectionAction, ConnectionEvent, Incoming, TerminalConnection};
pub use error::{TerminalError, TerminalResult};
pub use manager::{cleanup_interval, EvictedSession, TerminalSessionManager, TerminalState};
pub use message::TerminalMessage;
pub use output::{OutputPump, PumpAction, PumpEvent};
pub use proxy::{
    connect_to_portal, portal_terminal_url, terminal_ws_proxy, ConnectOutcome, ValidationError,
};
pub use rate_limit::RateLimiter;
pub use relay::{Direction, Frame, ProxyConnection, RelayAction, RelayEvent};
pub use resize::{get_window_size, set_window_size, set_window_size_result, WindowSize};
pub use session::{
    ChildPoll, ClosePhase, CloseStep, ReadOutcome, Signal, SignalRequest, TtySession, WaitOutcome,
};
pub use spawn::{SpawnAction, SpawnEvent, SpawnProcedure, SpawnProgress};
pub use state::SharedState;
