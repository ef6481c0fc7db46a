//! A verified core for a generic MCP (Model Context Protocol) command-line
//! client: identifier sanitizing, template expansion, the line-delimited
//! JSON-RPC envelope codec, the protocol session state machine, and the
//! decision logic of the daemon supervisor and the dispatch orchestrator.
//! Process spawning, file reading and socket traffic live outside; they hand
//! the core plain values and carry its decisions out.

use vstd::prelude::*;

pub mod daemon;
pub mod dispatch;
pub mod envelope;
pub mod escape;
pub mod num;
pub mod session;
pub mod template;
pub mod text;
pub mod wire;

pub use text::sanitize_server_name;
pub use template::expand_template_vars;

verus! {

} // verus!
