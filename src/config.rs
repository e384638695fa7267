//! The settings file in its full form.
use vstd::prelude::*;

verus! {

/// The local root and how the drive is reached.
#[derive(Clone, Debug)]
pub struct Config {
    pub local_dir: String,
    pub drive: DriveConfig,
}

/// Where the credentials lie, which drive is used, and which of its folders
/// is synchronized.
#[derive(Clone, Debug)]
pub struct DriveConfig {
    pub creds_file: String,
    pub name: String,
    pub dir: String,
}

} // verus!
