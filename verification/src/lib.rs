//! Core library of a data-curation tool for building retrieval benchmark
//! datasets from scanned documents.
//!
//! The heart of the library is an on-disk derived-image cache: a store of
//! resized, re-encoded page images keyed by `(tier, namespace, id)`, together
//! with the classifier and the orchestrator that decide, for each logical
//! page, where its pixels come from (a directly servable source file, a
//! cached render, a fresh render, or a database blob).
//!
//! Everything here is pure with respect to the outside world: the store keeps
//! the authoritative in-memory image of the cache directory, and the thin
//! shell around the library mirrors each mutation onto disk and performs the
//! database and subprocess work the orchestrator asks for.

pub mod classify;
pub mod dataurl;
pub mod dbconfig;
pub mod error;
pub mod export_rows;
pub mod image_ops;
pub mod models;
pub mod numfmt;
pub mod paths;
pub mod pdfinfo;
pub mod progress;
pub mod resolve;
pub mod store;
pub mod text;
