//! Core of a conversational agent that delegates work to external tool
//! servers speaking a JSON-RPC protocol over three wire transports, and
//! interleaves tool execution with language-model completions until the
//! model stops requesting tools or an iteration cap is reached.
//!
//! The wire layer lives in [`frames`], [`jsonrpc`], [`pending`], [`ids`]
//! and [`transport`]; the per-server session state in [`client`]; the
//! merged tool catalog and its routing in [`catalog`] and [`tools`]; the
//! bounded tool-calling loop in [`agent`]. Around them stand the
//! conversation records of [`llm`] and [`memory`], the prompt assembly of
//! [`prompt`], the retention bands of [`retention`], and the plain
//! configuration records of [`config`].

use vstd::prelude::*;

pub mod agent;
pub mod catalog;
pub mod client;
pub mod clock;
pub mod config;
pub mod errors;
pub mod evaluation;
pub mod frames;
pub mod ids;
pub mod jsonrpc;
pub mod llm;
pub mod memory;
pub mod pending;
pub mod prompt;
pub mod retention;
pub mod text;
pub mod tools;
pub mod transport;

verus! {

/// Library version.
pub const VERSION: &'static str = "0.1.0";

} // verus!
