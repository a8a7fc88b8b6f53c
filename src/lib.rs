//! Verified core of a desktop Git client: unified-diff parsing, image
//! header inspection, and the decisions that the repository commands make
//! around the Git engine.

pub mod text;
pub mod models;
pub mod scan;
pub mod diff;
pub mod image;
pub mod merging;
pub mod records;
pub mod recent;
pub mod bundle;
