//! Locating files by extension and laying them out into an output area,
//! either flat (with collision renaming) or mirroring their source tree.

pub mod text;
pub mod timing;
pub mod paths;
pub mod discovery;
pub mod materialize;
pub mod report;
