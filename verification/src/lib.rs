//! A verified core for a command-line HTTP action runner.
//!
//! Named HTTP request templates ("actions") are grouped under projects,
//! chained into flows, and checked as test suites.  The logic verified here
//! covers template resolution against a mutable cross-step context,
//! content-type-aware body planning, response-driven value extraction,
//! context persistence, history recording decisions, and pass/fail test
//! evaluation.  Actual network, storage and terminal I/O live outside this
//! crate; JSON encoding and decoding is delegated to `serde_json` behind
//! trusted declarations.

pub mod dto;
pub mod engine;
pub mod encode;
pub mod error;
pub mod extract;
pub mod flow;
pub mod history;
pub mod jsonio;
pub mod template;
pub mod text;
pub mod kv;
pub mod resolver;
pub mod suite;
