//! A forward/tunneling proxy engine: request parsing, admission control
//! (host allow-listing, Basic credentials, hashed secret tokens), request
//! dispatch, relay sequencing, and wire-level response rendering.
//!
//! The surrounding process (listeners, TLS setup, socket I/O) hands this
//! library plain values — parsed request lines, header lists, policy sets —
//! and performs the actions the library decides on.

pub mod admission;
pub mod codec;
pub mod config;
pub mod digest;
pub mod dispatch;
pub mod glob;
pub mod parse;
pub mod relay;
pub mod response;
pub mod text;
