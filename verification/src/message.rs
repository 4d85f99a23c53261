//! WebSocket message types for terminal communication.

use crate::encoding::{base64_bytes, base64_text, decode, encodable, encode, padded_form};
use vstd::prelude::*;

verus! {

/// Messages exchanged over WebSocket for terminal communication.
#[derive(Debug, Clone)]
pub enum TerminalMessage {
    /// Input data from client to PTY.
    Input {
        /// Raw bytes as base64-encoded string.
        data: String,
    },
    /// Output data from PTY to client.
    Output {
        /// Raw bytes as base64-encoded string.
        data: String,
    },
    /// Terminal resize request.
    Resize {
        /// Number of columns.
        cols: u16,
        /// Number of rows.
        rows: u16,
    },
    /// Ping message for keepalive.
    Ping,
    /// Pong response to ping.
    Pong,
    /// Error message.
    Error {
        /// Error description.
        message: String,
    },
    /// Session initialization.
    Init {
        /// Shell to spawn (e.g., "/bin/bash").
        shell: Option<String>,
        /// Initial columns.
        cols: u16,
        /// Initial rows.
        rows: u16,
    },
    /// Session initialized successfully.
    Ready {
        /// Session identifier.
        session_id: String,
    },
    /// Close the session.
    Close,
    /// Session closed.
    Closed {
        /// Process exit code.
        exit_code: Option<i32>,
    },
}

/// The mathematical content of a [`TerminalMessage`]: strings are character sequences.
pub enum MessageView {
    Input { data: Seq<char> },
    Output { data: Seq<char> },
    Resize { cols: u16, rows: u16 },
    Ping,
    Pong,
    Error { message: Seq<char> },
    Init { shell: Option<Seq<char>>, cols: u16, rows: u16 },
    Ready { session_id: Seq<char> },
    Close,
    Closed { exit_code: Option<i32> },
}

impl MessageView {
    /// The raw bytes that an input message carries; nothing for another message, or for a payload
    /// that is not base64.
    pub open spec fn input_bytes(self) -> Option<Seq<u8>> {
        match self {
            MessageView::Input { data } => base64_bytes(data),
            _ => None,
        }
    }

    /// The raw bytes that an output message carries; nothing for another message, or for a payload
    /// that is not base64.
    pub open spec fn output_bytes(self) -> Option<Seq<u8>> {
        match self {
            MessageView::Output { data } => base64_bytes(data),
            _ => None,
        }
    }
}

/// The characters of an optional string.
pub open spec fn optional_text(text: Option<String>) -> Option<Seq<char>> {
    match text {
        Some(found) => Some(found@),
        None => None,
    }
}

/// The bytes of an optional byte vector.
pub open spec fn optional_bytes(bytes: Option<Vec<u8>>) -> Option<Seq<u8>> {
    match bytes {
        Some(found) => Some(found@),
        None => None,
    }
}

impl View for TerminalMessage {
    type V = MessageView;

    open spec fn view(&self) -> MessageView {
        match *self {
            TerminalMessage::Input { data } => MessageView::Input { data: data@ },
            TerminalMessage::Output { data } => MessageView::Output { data: data@ },
            TerminalMessage::Resize { cols, rows } => MessageView::Resize { cols, rows },
            TerminalMessage::Ping => MessageView::Ping,
            TerminalMessage::Pong => MessageView::Pong,
            TerminalMessage::Error { message } => MessageView::Error { message: message@ },
            TerminalMessage::Init { shell, cols, rows } => MessageView::Init {
                shell: optional_text(shell),
                cols,
                rows,
            },
            TerminalMessage::Ready { session_id } => MessageView::Ready { session_id: session_id@ },
            TerminalMessage::Close => MessageView::Close,
            TerminalMessage::Closed { exit_code } => MessageView::Closed { exit_code },
        }
    }
}

impl TerminalMessage {
    /// Create an input message from raw bytes.
    ///
    /// [`TerminalMessage::decode_input`] gives the bytes back.
    pub fn input(data: &[u8]) -> (message: Self)
        requires
            encodable(data@),
        ensures
            message@ == (MessageView::Input { data: base64_text(data@) }),
            message@.input_bytes() == Some(data@),
            message matches TerminalMessage::Input { data: text } && padded_form(
                text@,
                data@.len(),
            ),
    {
        Self::Input { data: encode(data) }
    }

    /// Create an output message from raw bytes.
    ///
    /// [`TerminalMessage::decode_output`] gives the bytes back.
    pub fn output(data: &[u8]) -> (message: Self)
        requires
            encodable(data@),
        ensures
            message@ == (MessageView::Output { data: base64_text(data@) }),
            message@.output_bytes() == Some(data@),
            message matches TerminalMessage::Output { data: text } && padded_form(
                text@,
                data@.len(),
            ),
    {
        Self::Output { data: encode(data) }
    }

    /// Create an error message.
    pub fn error(message: impl Into<String>) -> (result: Self)
        ensures
            result matches TerminalMessage::Error { message: text } && call_ensures(
                Into::into,
                (message,),
                text,
            ),
    {
        Self::Error { message: message.into() }
    }

    /// Create a resize message.
    pub fn resize(cols: u16, rows: u16) -> (message: Self)
        ensures
            message == (TerminalMessage::Resize { cols, rows }),
    {
        Self::Resize { cols, rows }
    }

    /// Create an init message.
    pub fn init(shell: Option<String>, cols: u16, rows: u16) -> (message: Self)
        ensures
            message == (TerminalMessage::Init { shell, cols, rows }),
    {
        Self::Init { shell, cols, rows }
    }

    /// Create a ready message.
    pub fn ready(session_id: impl Into<String>) -> (message: Self)
        ensures
            message matches TerminalMessage::Ready { session_id: text } && call_ensures(
                Into::into,
                (session_id,),
                text,
            ),
    {
        Self::Ready { session_id: session_id.into() }
    }

    /// Create a closed message.
    pub fn closed(exit_code: Option<i32>) -> (message: Self)
        ensures
            message == (TerminalMessage::Closed { exit_code }),
    {
        Self::Closed { exit_code }
    }

    /// Decode input data from base64.
    ///
    /// Gives bytes for exactly the messages that [`TerminalMessage::input`] makes of them.
    pub fn decode_input(&self) -> (bytes: Option<Vec<u8>>)
        ensures
            optional_bytes(bytes) == self@.input_bytes(),
            bytes matches Some(found) ==> encodable(found@) && (
            self matches TerminalMessage::Input { data } && padded_form(data@, found@.len())),
            forall|original: Seq<u8>|
                encodable(original) ==> ((bytes matches Some(found) && found@ == original)
                    <==> self@ == (MessageView::Input { data: #[trigger] base64_text(original) })),
    {
        match self {
            Self::Input { data } => decode(data).ok(),
            _ => None,
        }
    }

    /// Decode output data from base64.
    ///
    /// Gives bytes for exactly the messages that [`TerminalMessage::output`] makes of them.
    pub fn decode_output(&self) -> (bytes: Option<Vec<u8>>)
        ensures
            optional_bytes(bytes) == self@.output_bytes(),
            bytes matches Some(found) ==> encodable(found@) && (
            self matches TerminalMessage::Output { data } && padded_form(data@, found@.len())),
            forall|original: Seq<u8>|
                encodable(original) ==> ((bytes matches Some(found) && found@ == original)
                    <==> self@ == (MessageView::Output { data: #[trigger] base64_text(original) })),
    {
        match self {
            Self::Output { data } => decode(data).ok(),
            _ => None,
        }
    }
}

/// What is said of a message is said of exactly what it holds.
pub proof fn law_message_view(message: TerminalMessage)
    ensures
        match message {
            TerminalMessage::Input { data } => message@ == (MessageView::Input { data: data@ }),
            TerminalMessage::Output { data } => message@ == (MessageView::Output { data: data@ }),
            TerminalMessage::Resize { cols, rows } => message@ == (MessageView::Resize {
                cols,
                rows,
            }),
            TerminalMessage::Ping => message@ == MessageView::Ping,
            TerminalMessage::Pong => message@ == MessageView::Pong,
            TerminalMessage::Error { message: text } => message@ == (MessageView::Error {
                message: text@,
            }),
            TerminalMessage::Init { shell: Some(shell), cols, rows } => message@
                == (MessageView::Init { shell: Some(shell@), cols, rows }),
            TerminalMessage::Init { shell: None, cols, rows } => message@ == (MessageView::Init {
                shell: None,
                cols,
                rows,
            }),
            TerminalMessage::Ready { session_id } => message@ == (MessageView::Ready {
                session_id: session_id@,
            }),
            TerminalMessage::Close => message@ == MessageView::Close,
            TerminalMessage::Closed { exit_code } => message@ == (MessageView::Closed {
                exit_code,
            }),
        },
{
}

/// A message carries bytes exactly if its payload is base64 text, and then those that the text
/// stands for; input messages carry no output, and the other way round.
pub proof fn law_payload_bytes(message: MessageView, data: Seq<char>)
    ensures
        (MessageView::Input { data }).input_bytes() == base64_bytes(data),
        (MessageView::Output { data }).output_bytes() == base64_bytes(data),
        !(message is Input) ==> message.input_bytes() is None,
        !(message is Output) ==> message.output_bytes() is None,
{
}

/// An optional text or byte vector is there exactly if its content is, and holds it.
pub proof fn law_optional_content(text: String, bytes: Vec<u8>)
    ensures
        optional_text(Some(text)) == Some(text@),
        optional_text(None) is None,
        optional_bytes(Some(bytes)) == Some(bytes@),
        optional_bytes(None) is None,
{
}

} // verus!
