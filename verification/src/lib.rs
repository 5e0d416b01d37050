//! Checks that find misuse of pinning in Rust source files.
//!
//! The checks work on a [`workspace::Workspace`]: the syntax trees of the files of interest,
//! together with what name resolution and type inference know about them. Each check returns
//! the diagnostics for one file of a well-formed workspace:
//!
//! - [`workspace::Workspace::pin_consistency`]: fields that are projected both structurally and
//!   non-structurally, and `Drop` and `Unpin` impls that break a structural projection,
//! - [`workspace::Workspace::pin_misuse`]: hand-rolled projections, and `Pin::new` on values that
//!   are not `Unpin`,
//! - [`workspace::Workspace::pin_unpina`]: unsound `Unpin` impls and `Pin::new_unchecked` calls.

pub mod diagnostic;
pub mod drop_laws;
pub mod facts;
pub mod foundation_laws;
pub mod laws;
pub mod misuse_laws;
pub mod pin_consistency;
pub mod pin_drop_analysis;
pub mod pin_misuse;
pub mod pin_unpin_analysis;
pub mod projection_laws;
pub mod sequences;
pub mod text;
pub mod tree;
pub mod unpin_laws;
pub mod wellformed;
pub mod workspace;
