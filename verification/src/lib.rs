//! A policy-enforced command execution broker, with the logic verified.
//!
//! The broker mediates between network-capable callers and host tools: a
//! request names an executable, arguments and environment; the policy engine
//! decides it, the executor composes the child's environment and captures
//! its output — capped and rendered for the buffered tool call, uncapped and
//! framed as a byte-accurate event stream for the raw endpoint — and a
//! companion client replays such a stream locally. The modules here hold the
//! decisions and data handling with their contracts; process, filesystem and
//! network plumbing lives outside the library and hands in plain values.

pub mod cli_error;
pub mod client;
pub mod digest;
pub mod engine;
pub mod envmap;
pub mod events;
pub mod executor;
pub mod jsonenc;
pub mod network;
pub mod policy_rules;
pub mod projects;
pub mod rego;
pub mod resolve;
pub mod session;
pub mod text;

use vstd::prelude::*;

verus! {

/// Byte cap applied to each captured output stream in buffered mode.
pub const MAX_OUTPUT_BYTES: usize = 1024 * 1024;

/// Marker appended to a captured stream that overflowed the byte cap.
pub const TRUNCATION_MARKER: &'static str = "\n...truncated...";

/// Exit code the remote replay client reserves for local and transport failures.
pub const LOCAL_FAILURE_EXIT_CODE: i32 = 125;

} // verus!
