//! Resolution of module requests against a file system, in the manner of
//! JavaScript package ecosystems: extension probing, directory entry files,
//! package `exports` maps with self-reference, and the upward search through
//! module-storage directories.

pub mod exports;
pub mod fs;
pub mod path;
pub mod plugin;
pub mod request;
pub mod resolver;
pub mod state;
