//! Error types of terminal operations.

use crate::text::{decimal, decimal_text, joined};
use vstd::prelude::*;

verus! {

/// Result type for terminal operations.
pub type TerminalResult<T> = Result<T, TerminalError>;

/// Errors that can occur during terminal operations.
///
/// An error of the operating system is carried as its description.
#[derive(Debug)]
pub enum TerminalError {
    /// PTY allocation failed.
    PtyAllocation(String),
    /// Failed to spawn shell process.
    SpawnFailed(String),
    /// Failed to read from PTY.
    ReadFailed(String),
    /// Failed to write to PTY.
    WriteFailed(String),
    /// Rate limit exceeded.
    RateLimited(u32),
    /// Session not initialized.
    NotInitialized,
    /// Session already closed.
    AlreadyClosed,
    /// Invalid terminal size.
    InvalidSize { cols: u16, rows: u16 },
    /// Process signal error.
    SignalFailed(String),
    /// Timeout waiting for process.
    Timeout,
}

/// The mathematical content of a [`TerminalError`].
pub enum ErrorView {
    PtyAllocation(Seq<char>),
    SpawnFailed(Seq<char>),
    ReadFailed(Seq<char>),
    WriteFailed(Seq<char>),
    RateLimited(u32),
    NotInitialized,
    AlreadyClosed,
    InvalidSize { cols: u16, rows: u16 },
    SignalFailed(Seq<char>),
    Timeout,
}

impl View for TerminalError {
    type V = ErrorView;

    open spec fn view(&self) -> ErrorView {
        match *self {
            TerminalError::PtyAllocation(cause) => ErrorView::PtyAllocation(cause@),
            TerminalError::SpawnFailed(cause) => ErrorView::SpawnFailed(cause@),
            TerminalError::ReadFailed(cause) => ErrorView::ReadFailed(cause@),
            TerminalError::WriteFailed(cause) => ErrorView::WriteFailed(cause@),
            TerminalError::RateLimited(rate) => ErrorView::RateLimited(rate),
            TerminalError::NotInitialized => ErrorView::NotInitialized,
            TerminalError::AlreadyClosed => ErrorView::AlreadyClosed,
            TerminalError::InvalidSize { cols, rows } => ErrorView::InvalidSize { cols, rows },
            TerminalError::SignalFailed(cause) => ErrorView::SignalFailed(cause@),
            TerminalError::Timeout => ErrorView::Timeout,
        }
    }
}

impl ErrorView {
    /// The sentence that describes the error.
    pub open spec fn text(self) -> Seq<char> {
        match self {
            ErrorView::PtyAllocation(cause) => "Failed to allocate PTY: "@ + cause,
            ErrorView::SpawnFailed(cause) => "Failed to spawn shell: "@ + cause,
            ErrorView::ReadFailed(cause) => "Failed to read from PTY: "@ + cause,
            ErrorView::WriteFailed(cause) => "Failed to write to PTY: "@ + cause,
            ErrorView::RateLimited(rate) => "Rate limit exceeded: "@ + decimal(rate as nat)
                + " requests/sec allowed"@,
            ErrorView::NotInitialized => "Terminal session not initialized"@,
            ErrorView::AlreadyClosed => "Terminal session already closed"@,
            ErrorView::InvalidSize { cols, rows } => "Invalid terminal size: cols="@ + decimal(
                cols as nat,
            ) + ", rows="@ + decimal(rows as nat),
            ErrorView::SignalFailed(cause) => "Failed to signal process: "@ + cause,
            ErrorView::Timeout => "Timeout waiting for process"@,
        }
    }
}

/// What an operation that yields no value came to.
pub open spec fn unit_result(result: TerminalResult<()>) -> Result<(), ErrorView> {
    match result {
        Ok(_) => Ok(()),
        Err(error) => Err(error@),
    }
}

impl TerminalError {
    /// The sentence that describes the error.
    pub fn to_string(&self) -> (text: String)
        ensures
            text@ == self@.text(),
    {
        match self {
            TerminalError::PtyAllocation(cause) => joined("Failed to allocate PTY: ", cause),
            TerminalError::SpawnFailed(cause) => joined("Failed to spawn shell: ", cause),
            TerminalError::ReadFailed(cause) => joined("Failed to read from PTY: ", cause),
            TerminalError::WriteFailed(cause) => joined("Failed to write to PTY: ", cause),
            TerminalError::RateLimited(rate) => {
                joined("Rate limit exceeded: ", &decimal_text(*rate)).concat(
                    " requests/sec allowed",
                )
            },
            TerminalError::NotInitialized => String::from("Terminal session not initialized"),
            TerminalError::AlreadyClosed => String::from("Terminal session already closed"),
            TerminalError::InvalidSize { cols, rows } => {
                joined("Invalid terminal size: cols=", &decimal_text(*cols as u32)).concat(
                    ", rows=",
                ).concat(&decimal_text(*rows as u32))
            },
            TerminalError::SignalFailed(cause) => joined("Failed to signal process: ", cause),
            TerminalError::Timeout => String::from("Timeout waiting for process"),
        }
    }
}

/// What is said of an error is said of exactly what it holds.
pub proof fn law_error_view(error: TerminalError)
    ensures
        match error {
            TerminalError::PtyAllocation(cause) => error@ == ErrorView::PtyAllocation(cause@),
            TerminalError::SpawnFailed(cause) => error@ == ErrorView::SpawnFailed(cause@),
            TerminalError::ReadFailed(cause) => error@ == ErrorView::ReadFailed(cause@),
            TerminalError::WriteFailed(cause) => error@ == ErrorView::WriteFailed(cause@),
            TerminalError::RateLimited(rate) => error@ == ErrorView::RateLimited(rate),
            TerminalError::NotInitialized => error@ == ErrorView::NotInitialized,
            TerminalError::AlreadyClosed => error@ == ErrorView::AlreadyClosed,
            TerminalError::InvalidSize { cols, rows } => error@ == (ErrorView::InvalidSize {
                cols,
                rows,
            }),
            TerminalError::SignalFailed(cause) => error@ == ErrorView::SignalFailed(cause@),
            TerminalError::Timeout => error@ == ErrorView::Timeout,
        },
{
}

/// The description of an error names its whole cause, and its numbers in decimal notation.
pub proof fn law_error_text(cause: Seq<char>, rate: u32, cols: u16, rows: u16)
    ensures
        ErrorView::PtyAllocation(cause).text() == "Failed to allocate PTY: "@ + cause,
        ErrorView::SpawnFailed(cause).text() == "Failed to spawn shell: "@ + cause,
        ErrorView::ReadFailed(cause).text() == "Failed to read from PTY: "@ + cause,
        ErrorView::WriteFailed(cause).text() == "Failed to write to PTY: "@ + cause,
        ErrorView::SignalFailed(cause).text() == "Failed to signal process: "@ + cause,
        ErrorView::NotInitialized.text() == "Terminal session not initialized"@,
        ErrorView::AlreadyClosed.text() == "Terminal session already closed"@,
        ErrorView::Timeout.text() == "Timeout waiting for process"@,
        ErrorView::RateLimited(rate).text() == "Rate limit exceeded: "@ + decimal(rate as nat)
            + " requests/sec allowed"@,
        (ErrorView::InvalidSize { cols, rows }).text() == "Invalid terminal size: cols="@ + decimal(
            cols as nat,
        ) + ", rows="@ + decimal(rows as nat),
{
}

/// An operation that yields no value came to success exactly if it did not fail, and otherwise to
/// its error.
pub proof fn law_unit_result(result: TerminalResult<()>)
    ensures
        result is Ok <==> unit_result(result) is Ok,
        result matches Err(error) ==> unit_result(result) == Err::<(), ErrorView>(error@),
{
}

} // verus!
