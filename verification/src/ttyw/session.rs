use vstd::prelude::*;

use crate::ttyw::message::ReceiveMsg;

verus! {

/// What the browser side of a terminal session delivered next.
#[derive(Debug, Clone, PartialEq, Eq)]
pub enum Incoming {
    /// A text message.
    Text(String),
    /// A message of another kind (binary, ping, pong).
    Other,
    /// The connection closed or failed.
    Closed,
}

/// The size of a pseudo-terminal, in character cells and pixels.
#[derive(Debug, Clone, Copy, PartialEq, Eq, Structural)]
pub struct TermSize {
    pub rows: u16,
    pub cols: u16,
    pub pixel_width: u16,
    pub pixel_height: u16,
}

/// What the session does with a message from the browser.
#[derive(Debug, Clone, PartialEq, Eq)]
pub enum SessionAction {
    /// Decode the text and act on what it holds.
    Decode(String),
    /// Nothing.
    Skip,
    /// Stop listening and kill the shell.
    Finish,
}

/// What the session does with a decoded message.
#[derive(Debug, Clone, PartialEq, Eq)]
pub enum TerminalAction {
    /// Resize the pseudo-terminal.
    Resize(TermSize),
    /// Write these bytes of text to the shell.
    Write(String),
    /// The message could not be decoded: warn and go on.
    Warn,
}

/// What the reader of the shell's output does after a read.
#[derive(Debug, Clone, Copy, PartialEq, Eq, Structural)]
pub enum ReaderStep {
    /// Forward the first `n` bytes read to the browser and read again.
    Forward(usize),
    /// End of output or a read error: stop reading.
    Stop,
}

/// Only text messages are acted on; the session ends with the connection.
pub fn on_incoming(incoming: Incoming) -> (r: SessionAction)
    ensures
        r == (match incoming {
            Incoming::Text(t) => SessionAction::Decode(t),
            Incoming::Other => SessionAction::Skip,
            Incoming::Closed => SessionAction::Finish,
        }),
{
    match incoming {
        Incoming::Text(t) => SessionAction::Decode(t),
        Incoming::Other => SessionAction::Skip,
        Incoming::Closed => SessionAction::Finish,
    }
}

/// A resize sets the cell size and clears the pixel size; input is written
/// to the shell as it came; a message that does not decode is reported.
pub fn on_message(decoded: Option<ReceiveMsg>) -> (r: TerminalAction)
    ensures
        r == (match decoded {
            Some(ReceiveMsg::Resize { cols, rows }) => TerminalAction::Resize(
                TermSize { rows, cols, pixel_width: 0, pixel_height: 0 },
            ),
            Some(ReceiveMsg::Input { data }) => TerminalAction::Write(data),
            None => TerminalAction::Warn,
        }),
{
    match decoded {
        Some(ReceiveMsg::Resize { cols, rows }) => TerminalAction::Resize(
            TermSize { rows, cols, pixel_width: 0, pixel_height: 0 },
        ),
        Some(ReceiveMsg::Input { data }) => TerminalAction::Write(data),
        None => TerminalAction::Warn,
    }
}

/// A read of `n > 0` bytes is forwarded; a read of nothing (end of output)
/// or a failed read (`None`) stops the reader.
pub fn after_read(read: Option<usize>) -> (r: ReaderStep)
    ensures
        r == (match read {
            Some(n) => if n > 0 {
                ReaderStep::Forward(n)
            } else {
                ReaderStep::Stop
            },
            None => ReaderStep::Stop,
        }),
{
    match read {
        Some(n) => if n > 0 {
            ReaderStep::Forward(n)
        } else {
            ReaderStep::Stop
        },
        None => ReaderStep::Stop,
    }
}

} // verus!
