//! Session management for a terminal multiplexer: a registry of pseudo-terminal
//! sessions, the decisions of each session's worker, and the routing of
//! commands addressed to sessions.
pub mod ident;
pub mod size;
pub mod state;
pub mod term;
pub mod terminal;
