//! An access layer over a versioned, tree-structured document.
//!
//! The document itself lives in an `automerge::AutoCommit`. This crate adds
//! what callers address it with: identifiers and their string forms, slash
//! delimited object paths, typed values, reads at a point in history, the
//! transaction life cycle and the patches that report what changed.
pub mod error;
pub mod text;
pub mod hexcode;
pub mod value;
pub mod rawpatch;
pub mod replica;
pub mod convert;
pub mod ident;
pub mod pathtext;
pub mod document;
pub mod resolve;
pub mod reads;
pub mod branch;
pub mod patch;
pub mod laws;
