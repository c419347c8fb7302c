//! The decisions of an updater for self-contained command line tools that are
//! published as GitHub releases: which tools to update, where to find their
//! assets, whether an update is due, whether a download can be trusted, and in
//! which order files are replaced.
use vstd::prelude::*;

pub mod archive;
pub mod checksum;
pub mod client;
pub mod download;
pub mod error;
pub mod history;
pub mod paths;
pub mod platform;
pub mod release;
pub mod report;
pub mod template;
pub mod text;
pub mod tool;
pub mod update;
pub mod version;

verus! {

} // verus!
