//! Typed extraction of HTTP request fields.
//!
//! Given an immutable view of one inbound exchange and a declared target
//! shape, each extractor in this crate either produces a populated value
//! of that shape or a structured failure naming the field concerned, the
//! raw value observed, and a reason code. Extraction is a pure function of
//! the request: it performs no I/O, holds no state across requests, and
//! makes at most one pass over its declared source, so it is deterministic
//! and a retry on an unchanged request cannot succeed where the first
//! attempt failed.
//!
//! Listening, routing, and response formatting are the caller's business:
//! the transport layer builds a [`request::Request`] from the raw pieces
//! it received, calls one extractor — or [`dispatch::extract`] with the
//! declared [`dispatch::TargetShape`] — and maps a
//! [`failure::ExtractionFailure`] to the HTTP status its reason names.

pub mod body;
pub mod dispatch;
pub mod failure;
pub mod header;
pub mod json;
pub mod path;
pub mod query;
pub mod request;
pub mod shapes;
pub mod text;
