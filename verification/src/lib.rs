//! Storage layer of an FTP server, without the input and output: what a
//! backend decides and computes, for the caller to carry out on the platform.
//!
//! - [`path`]: request paths as text, their names, and the relation "is below".
//! - [`filesystem`]: the backend on a directory of the local disk. It resolves
//!   each request path below its root and refuses every path that leads out.
//! - [`metadata`] and [`fileinfo`]: what is known of an entry, and the line
//!   that shows it in a listing.
//! - [`listing`]: listings as the bytes that go over the data connection.
//! - [`error`]: the two kinds of failure.
//! - [`text`]: numbers as text, set to the right of a field.
//!
//! Two calls leave the library: `path_abs` makes a path absolute, and `chrono`
//! writes a time on the clock of this machine. Each stands behind one function
//! whose contract is taken on trust; everything else is proved.

pub mod error;
pub mod fileinfo;
pub mod filesystem;
pub mod listing;
pub mod metadata;
pub mod outside;
pub mod path;
pub mod text;

pub use crate::error::Error;
pub use crate::fileinfo::Fileinfo;
pub use crate::filesystem::Filesystem;
pub use crate::metadata::Metadata;
