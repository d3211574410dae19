//! Configuration types for Mercurial client hotfixes, with their Thrift
//! wire form.
//!
//! A value is written as a stream of protocol events (`Token`), the same
//! events that a Thrift protocol writer receives, and read back from such a
//! stream the way a Thrift protocol reader hands them out. The contracts of
//! the writers and readers are stated over the views of the types, and
//! `laws` proves that reading what was written gives the value back.
//!
//! `revision` decodes the percent-encoded revisions of an ancestry request,
//! and `lfs` builds the base URL of large-file requests.

pub mod ttype;
pub mod token;
pub mod types;
pub mod write;
pub mod read;
pub mod locality;
pub mod laws;
pub mod union;
pub mod schema;
pub mod failures;
pub mod skipping;
pub mod revision;
pub mod lfs;

pub use types::{ClientConfig, Condition, Hotfix, TimeShard};
