//! Adding package dependencies to a project manifest: classifying the requested
//! packages, selecting a version range for each resolved package, merging the
//! entries into the manifest's dependency map and patching the manifest text.

pub mod driver;
pub mod entries;
pub mod imports;
pub mod manifest;
pub mod order;
pub mod patch;
pub mod requirement;
pub mod resolve;
pub mod text;
pub mod update;
