//! A compatibility shim's argument engine: it parses a command line written in
//! Node's CLI dialect and re-expresses it as an equivalent Deno invocation.
//!
//! The crate has two components, composed as a pipeline:
//! - [`parser`] turns the raw argument tokens into a structured
//!   [`request::ParsedRequest`], or a list of error messages;
//! - [`translator`] maps a `ParsedRequest` onto the target argument vector,
//!   resolving mode precedence and flag composition.
//!
//! Launching the target runtime, and all other I/O, is left to the caller.

pub mod laws;
pub mod parser;
pub mod request;
pub mod strutil;
pub mod translator;
