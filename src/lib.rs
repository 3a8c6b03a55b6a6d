//! A small content-addressed snapshot store: commits chained by parent
//! hashes, branch refs, and a HEAD that is either a branch or a commit.

pub mod digest;
pub mod format;
pub mod hex;
pub mod laws;
pub mod meta;
pub mod nest;
pub mod refs;
pub mod text;
