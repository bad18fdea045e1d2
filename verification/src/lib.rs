//! A compile service for typesetting source text: stage the text to a
//! temporary file, run an external compiler over it, harvest the rendered
//! document, delete both temporary artifacts on every path, and hand the
//! result back base64-encoded.
//!
//! The service is a state machine ([`machine`]) that only decides; an
//! unverified performer carries out the filesystem and process work and
//! reports back what happened. [`runs`] states and proves the laws of whole
//! invocations — among them that no run leaves residue behind and that
//! compiler diagnostics pass through verbatim. [`paths`] derives the output
//! artifact's path, and [`encode`] renders harvested bytes for transport.

pub mod encode;
pub mod errors;
pub mod machine;
pub mod paths;
pub mod runs;
