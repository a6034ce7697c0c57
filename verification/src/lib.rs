//! An archive library: packs a sequence of file entries (path, content,
//! metadata) into a deterministic binary container, compresses the container
//! under a selectable compression scheme tagged by a leading id byte, and
//! reverses the whole process bit-for-bit.

pub mod compress;
pub mod container;
pub mod error;
pub mod meta;
pub mod schema;
pub mod wire;

pub use compress::{select_best, CompressedArchive};
pub use container::{Archive, ArchiveEntry, SerializedArchive};
pub use error::FormatError;
pub use meta::{FileMetadata, FilePermissions, Timestamp};
pub use schema::CompressionSchema;
