//! A path-to-URL redirect engine.
//!
//! A mapping source associates request paths with redirect targets. The
//! router resolves an incoming path against a source and decides between a
//! redirect, a diagnostic page for unmatched single-segment paths, and the
//! default not-found outcome for everything else.

pub mod html;
pub mod laws;
pub mod router;
pub mod source;
pub mod startup;
pub mod store;
