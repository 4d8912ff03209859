//! Everything that can go wrong between the MCP server and Ableton Live.
use vstd::prelude::*;

use crate::text::{append_str, string_from};

verus! {

/// Everything that can go wrong between the MCP server and Ableton Live.
///
/// Where the cause is an I/O error, the error carries that error's message.
#[derive(Debug, Clone)]
pub enum Error {
    Connect { addr: String, source: String },
    Disconnected(String),
    /// No answer to `command` within `timeout_ms`; `seconds` is that budget
    /// as the `f32` count of seconds shows it (`Duration::as_secs_f32`),
    /// written down where the time was measured.
    Timeout { command: String, timeout_ms: u64, seconds: String },
    /// The Remote Script ran the command and reported a failure. This is a
    /// user-facing problem (bad index, occupied slot, ...), not a bug.
    Live(String),
    Protocol(String),
    UnknownTool(String),
    BadArguments { tool: String, reason: String },
    Io(String),
}

/// What an error says.
pub open spec fn message_of(e: Error) -> Seq<char> {
    match e {
        Error::Connect { addr, source } => "could not reach Ableton Live at "@ + addr@ + ": "@
            + source@
            + ". Is Live running with the Crableton Control Surface selected in Settings > Link/Tempo/MIDI?"@,
        Error::Disconnected(m) => "connection to Ableton Live was lost: "@ + m@,
        Error::Timeout { command, seconds, .. } => "Ableton Live did not answer `"@ + command@
            + "` within "@ + seconds@ + "s"@,
        Error::Live(m) => m@,
        Error::Protocol(m) => "malformed response from the Remote Script: "@ + m@,
        Error::UnknownTool(t) => "unknown tool `"@ + t@ + "`"@,
        Error::BadArguments { tool, reason } => "invalid arguments for `"@ + tool@ + "`: "@
            + reason@,
        Error::Io(m) => m@,
    }
}

/// The error is one after which the socket is unusable.
pub open spec fn connection_level(e: Error) -> bool {
    e is Connect || e is Disconnected || e is Timeout || e is Io
}

impl Error {
    /// Whether the socket is unusable and must not be returned to the pool.
    pub fn is_connection_level(&self) -> (r: bool)
        ensures
            r == connection_level(*self),
    {
        match self {
            Error::Connect { .. } => true,
            Error::Disconnected(_) => true,
            Error::Timeout { .. } => true,
            Error::Io(_) => true,
            _ => false,
        }
    }

    /// What the error says, as shown to the user.
    pub fn message(&self) -> (r: String)
        ensures
            r@ == message_of(*self),
    {
        let mut v: Vec<char> = Vec::new();
        match self {
            Error::Connect { addr, source } => {
                append_str(&mut v, "could not reach Ableton Live at ");
                append_str(&mut v, addr.as_str());
                append_str(&mut v, ": ");
                append_str(&mut v, source.as_str());
                append_str(
                    &mut v,
                    ". Is Live running with the Crableton Control Surface selected in Settings > Link/Tempo/MIDI?",
                );
            },
            Error::Disconnected(m) => {
                append_str(&mut v, "connection to Ableton Live was lost: ");
                append_str(&mut v, m.as_str());
            },
            Error::Timeout { command, seconds, .. } => {
                append_str(&mut v, "Ableton Live did not answer `");
                append_str(&mut v, command.as_str());
                append_str(&mut v, "` within ");
                append_str(&mut v, seconds.as_str());
                append_str(&mut v, "s");
            },
            Error::Live(m) => {
                append_str(&mut v, m.as_str());
            },
            Error::Protocol(m) => {
                append_str(&mut v, "malformed response from the Remote Script: ");
                append_str(&mut v, m.as_str());
            },
            Error::UnknownTool(t) => {
                append_str(&mut v, "unknown tool `");
                append_str(&mut v, t.as_str());
                append_str(&mut v, "`");
            },
            Error::BadArguments { tool, reason } => {
                append_str(&mut v, "invalid arguments for `");
                append_str(&mut v, tool.as_str());
                append_str(&mut v, "`: ");
                append_str(&mut v, reason.as_str());
            },
            Error::Io(m) => {
                append_str(&mut v, m.as_str());
            },
        }
        string_from(&v)
    }
}

} // verus!
