//! `cloche setup`: install the hotkey, register the MCP server, and verify.
//!
//! The decisions live here; the application runs the commands, edits the
//! files and prints the report.

pub mod agents;
pub mod flow;
pub mod hotkey;
pub mod verify;

use vstd::prelude::*;

verus! {

/// Agent clients `cloche setup agent --client` can target.
#[derive(Debug, Clone, Copy, PartialEq, Eq, Structural)]
pub enum AgentClient {
    ClaudeCode,
    Openclaw,
    Codex,
    Print,
}

/// Output format of the setup report.
#[derive(Debug, Clone, Copy, PartialEq, Eq, Structural)]
pub enum SetupFormat {
    Text,
    Json,
}

} // verus!
