use std::io::Error;

use vstd::prelude::*;
use vstd::string::*;

verus! {

/// Why a frame could not be sent.
pub enum SendError<T> {
    /// Signalling readiness to the receiver failed.
    Io(Error),
    /// The channel had no free slot; the frame is handed back.
    Full(T),
    /// The receiver is gone; the frame is handed back.
    Disconnected(T),
}

/// Why nothing was received.
#[derive(Debug, PartialEq, Eq, Structural)]
pub enum RecvError {
    /// No frame was waiting.
    Empty,
    /// Every sender is gone.
    Disconnected,
}

impl<T> SendError<T> {
    /// A short description of the error.
    pub fn description(&self) -> (r: String)
        ensures
            self is Full ==> r@ == "full"@,
            self is Disconnected ==> r@ == "disconnected"@,
    {
        format_send_error(self)
    }
}

impl RecvError {
    /// A short description of the error.
    pub fn description(&self) -> (r: String)
        ensures
            r@ == recv_error_text(*self),
    {
        format_recv_error(self)
    }
}

/// The text of a receive error.
pub open spec fn recv_error_text(e: RecvError) -> Seq<char> {
    match e {
        RecvError::Empty => "empty"@,
        RecvError::Disconnected => "disconnected"@,
    }
}

/// Renders a send error: the I/O error's own message, or `full` or `disconnected`.
pub fn format_send_error<T>(e: &SendError<T>) -> (r: String)
    ensures
        e is Full ==> r@ == "full"@,
        e is Disconnected ==> r@ == "disconnected"@,
{
    match e {
        SendError::Io(io_err) => io_err.to_string(),
        SendError::Full(..) => String::from_str("full"),
        SendError::Disconnected(..) => String::from_str("disconnected"),
    }
}

/// Renders a receive error: `empty` or `disconnected`.
pub fn format_recv_error(e: &RecvError) -> (r: String)
    ensures
        r@ == recv_error_text(*e),
{
    match e {
        RecvError::Empty => String::from_str("empty"),
        RecvError::Disconnected => String::from_str("disconnected"),
    }
}

} // verus!
