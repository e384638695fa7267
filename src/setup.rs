//! Settings of the engine.
use vstd::prelude::*;
use crate::google_drive::Config as DriveConfig;

verus! {

/// The local root and the remote folder kept in agreement with it.
#[derive(Clone, Debug)]
pub struct Config {
    pub local_dir: String,
    pub drive: DriveConfig,
}

} // verus!
