//! A small journal store: dated text entries kept in chronological order,
//! rendered as text and framed as bytes for storage.
use vstd::prelude::*;

pub mod codec;
pub mod db;
pub mod entry;
pub mod location;
pub mod text;
pub mod timestamp;

pub use db::{Db, DbError};
pub use entry::Entry;
pub use location::DbLocation;
pub use text::{truncate, truncate_clusters};
pub use timestamp::Timestamp;

verus! {

} // verus!
