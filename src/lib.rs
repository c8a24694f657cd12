//! Reader for `.dat` containers: a fixed header, a manifest of data chunks,
//! and an index table that maps file and base identifiers to manifest slots.
pub mod archive;
pub mod le;
pub mod lemmas;
pub mod path;
pub mod preview;
