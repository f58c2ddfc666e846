//! A verified core for a file-based REST-client workbench.
//!
//! The crate covers the request execution engine — variable interpolation,
//! declarative request schemas, request building with validation, the
//! cancellation-aware outcome model and response normalization — together
//! with the collection tree builder that materializes a walked directory
//! listing into a browsable tree of named nodes.

pub mod strutil;
pub mod interp;
pub mod schema;
pub mod builder;
pub mod outcome;
pub mod collection;
pub mod demo;
