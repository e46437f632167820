//! A content-addressed upload store: short public identifiers, checksums and
//! original filenames kept consistent in a sled database.

pub mod db;
pub mod error;
pub mod file;
pub mod laws;
pub mod pipeline;
pub mod random;
pub mod store;
pub mod text;
pub mod util;
