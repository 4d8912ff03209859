//! The wire protocol of the Remote Script: what a reply says, how long a
//! command may take, and which replies are worth keeping.
use vstd::prelude::*;

use crate::json::Json;
use crate::text::{owned, str_eq};

verus! {

/// A reply from the Remote Script. Fields the reply leaves out read as empty:
/// no status, `null` result, no message, no id.
#[derive(Debug)]
pub struct Response {
    pub status: String,
    pub result: Json,
    pub message: Option<String>,
    /// Echo of the command's id; older scripts send none.
    pub id: Option<u64>,
}

impl Response {
    pub fn is_error(&self) -> (r: bool)
        ensures
            r == (self.status@ == "error"@),
    {
        str_eq(self.status.as_str(), "error")
    }

    pub fn error_message(&self) -> (r: String)
        ensures
            r@ == (match self.message {
                Some(m) => m@,
                None => "unknown error from Ableton Live"@,
            }),
    {
        match &self.message {
            Some(m) => m.clone(),
            None => owned("unknown error from Ableton Live"),
        }
    }
}

/// The budget, in seconds, of the commands whose work on Live's main thread
/// legitimately takes longer than the default.
pub open spec fn long_budget_secs(command: Seq<char>) -> Option<nat> {
    if command == "create_audio_clip"@ {
        // Decodes and imports an audio file on the main thread.
        Some(90)
    } else if command == "get_browser_tree"@ || command == "search_browser"@ {
        // Walks Live's whole browser tree; seconds on a large library.
        Some(60)
    } else if command == "get_browser_items_at_path"@ || command == "load_browser_item"@
        || command == "load_instrument_or_effect"@ {
        Some(30)
    } else if command == "get_session_snapshot"@ {
        // Serialises every track, clip and parameter in the set.
        Some(45)
    } else if command == "batch"@ {
        // A batch is N commands in one main-thread pass.
        Some(120)
    } else {
        None
    }
}

/// How long, in milliseconds, to wait for `command` when the configured
/// default is `default_ms`: the command's own budget when it has a longer
/// one, else the default.
pub fn timeout_for(command: &str, default_ms: u64) -> (r: u64)
    ensures
        r == (match long_budget_secs(command@) {
            Some(s) => if s * 1000 > default_ms {
                (s * 1000) as u64
            } else {
                default_ms
            },
            None => default_ms,
        }),
        r >= default_ms,
{
    let secs: u64 = if str_eq(command, "create_audio_clip") {
        90
    } else if str_eq(command, "get_browser_tree") || str_eq(command, "search_browser") {
        60
    } else if str_eq(command, "get_browser_items_at_path") || str_eq(command, "load_browser_item")
        || str_eq(command, "load_instrument_or_effect") {
        30
    } else if str_eq(command, "get_session_snapshot") {
        45
    } else if str_eq(command, "batch") {
        120
    } else {
        return default_ms;
    };
    let ms = secs * 1000;
    if ms > default_ms {
        ms
    } else {
        default_ms
    }
}

/// Read-only listings worth caching between calls.
pub open spec fn cacheable(command: Seq<char>) -> bool {
    command == "get_browser_tree"@ || command == "get_browser_items_at_path"@ || command
        == "search_browser"@
}

pub fn is_cacheable(command: &str) -> (r: bool)
    ensures
        r == cacheable(command@),
{
    str_eq(command, "get_browser_tree") || str_eq(command, "get_browser_items_at_path")
        || str_eq(command, "search_browser")
}

} // verus!
