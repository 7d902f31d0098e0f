//! Format detection and dispatch for heterogeneous document bytes.
//!
//! A buffer, optionally paired with a file name, is classified into one of
//! a closed set of formats ([`detector`], [`format`]) and routed to the
//! decoder of its format ([`parser`], [`decoders`]), behind a ceiling on
//! its size. Plain text is decoded with a single fallback tier
//! ([`normalizer`]). Failures are surfaced uniformly ([`error`]).

pub mod bytes;
pub mod decoders;
pub mod detector;
pub mod error;
pub mod extension;
pub mod format;
pub mod normalizer;
pub mod parser;
pub mod text;
