//! A client model for a strongly consistent, keyed object store.
//!
//! The crate models the client-visible contract of a remote bucket of keyed
//! objects: request builders for get/put/list, the value types they compose
//! (ranges, conditionals, metadata), a single-consumption streaming body on
//! the response side, and cursor-based pagination for listings.  The store
//! semantics (strong consistency, prefix filtering, delimiter grouping,
//! pagination) are implemented against an in-memory state held by [`Bucket`]
//! and proved against the contracts stated here.
//!
//! Every operation executes synchronously and atomically: a call either
//! completes in full or returns a typed error leaving the bucket unchanged,
//! so there is no in-flight state and no partially committed write to
//! reason about.

pub mod bucket;
pub mod builder;
pub mod conditional;
pub mod data;
pub mod date;
pub mod digest;
pub mod error;
pub mod laws;
pub mod metadata;
pub mod object;
pub mod range;
pub mod text;

pub use object::ByteStream;
pub use object::Object;
pub use object::Objects;
pub use object::ObjectBody;

pub use bucket::Bucket;
pub use bucket::Entry;
pub use builder::GetOptionsBuilder;
pub use builder::ListOptionsBuilder;
pub use builder::PutOptionsBuilder;
pub use conditional::R2Conditional;
pub use data::R2Data;
pub use data::StreamChunk;
pub use date::Date;
pub use error::Error;
pub use metadata::HttpMetadata;
pub use metadata::Include;
pub use range::R2Range;
pub use range::Range;
