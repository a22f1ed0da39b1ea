//! What the library's plans and edits achieve, stated over the model of the
//! disk and over the lines of a configuration, and proved.

pub mod editing;
pub mod idempotence;
pub mod ordering;
pub mod outcome;
pub mod rerun;
pub mod restore;
pub mod roundtrip;
pub mod scan;
pub mod search;
pub mod targets;
