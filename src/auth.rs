//! Credentials of the application at the drive service.
use vstd::prelude::*;

verus! {

/// The client credentials of the application.
#[derive(Clone, Debug)]
pub struct Creds {
    pub client_id: String,
    pub client_secret: String,
}

} // verus!
