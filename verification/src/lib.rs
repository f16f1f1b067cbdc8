//! Peer-to-peer sharing of secrets, messages and files.
//!
//! The crate holds the decision logic of the tool: seed-key padding and
//! identity derivation, secret parsing, batch assembly, the receiver's
//! per-item save semantics, the IPv4 allow/deny policy, and the session
//! state machine that drives a run.  Transport, persistence and the
//! terminal live outside the library and hand it plain values.
use vstd::prelude::*;

pub mod config;
pub mod item;
pub mod json;
pub mod keys;
pub mod network;
pub mod peer;
pub mod save;
pub mod secret;
pub mod security;
pub mod server;
pub mod strutil;

verus! {

/// The command-line surface, as plain values: what to share, the role,
/// the target peer, and where configuration comes from.
#[derive(Debug, Clone, PartialEq)]
pub struct Cli {
    /// `key,value` secret strings to share.
    pub secret: Option<Vec<String>>,
    /// Messages to deliver.
    pub message: Option<Vec<String>>,
    /// Paths of files to deliver.
    pub file: Option<Vec<String>>,
    /// The role of this run.
    pub mode: Mode,
    /// Peer id of the remote to send to.
    pub remote_peer_id: Option<String>,
    /// Nickname of a saved recipient to send to.
    pub name: Option<String>,
    /// Port to establish the connection on.
    pub port: Option<i32>,
    /// Debug verbosity count.
    pub debug: u8,
    /// Path of a configuration file.
    pub config: Option<String>,
}

/// The role a run of the tool plays: receive items, send items, or list
/// the peers remembered locally.
#[derive(Clone, Copy, Debug, PartialEq, Eq, Structural)]
pub enum Mode {
    Receive,
    Send,
    List,
}

/// What a mode word on the command line means: `send`, `receive` or
/// `list`, and nothing else.
pub open spec fn mode_of_str(s: Seq<char>) -> Option<Mode> {
    if s == "send"@ {
        Some(Mode::Send)
    } else if s == "receive"@ {
        Some(Mode::Receive)
    } else if s == "list"@ {
        Some(Mode::List)
    } else {
        None
    }
}

impl Mode {
    /// Parse a mode word, accepting exactly `send`, `receive` and `list`.
    pub fn parse_mode(mode: &str) -> (r: Result<Mode, String>)
        ensures
            r is Ok <==> mode_of_str(mode@) is Some,
            r is Ok ==> Some(r->Ok_0) == mode_of_str(mode@),
            r matches Err(e) ==> e@ == "Expected either 'send' or 'receive' or 'list'"@,
    {
        if strutil::str_eq(mode, "send") {
            Ok(Mode::Send)
        } else if strutil::str_eq(mode, "receive") {
            Ok(Mode::Receive)
        } else if strutil::str_eq(mode, "list") {
            Ok(Mode::List)
        } else {
            Err("Expected either 'send' or 'receive' or 'list'".to_owned())
        }
    }
}

impl core::str::FromStr for Mode {
    type Err = String;

    fn from_str(mode: &str) -> Result<Self, Self::Err> {
        Mode::parse_mode(mode)
    }
}

} // verus!
