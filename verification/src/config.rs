//! What the services are configured with.

use vstd::prelude::*;

verus! {

/// The credential of the OpenWeatherMap service.
#[derive(Debug, PartialEq, Eq)]
pub struct Owm {
    pub key: String,
}

/// The credential of the Met Office service.
#[derive(Debug, PartialEq, Eq)]
pub struct Met {
    pub key: String,
}

/// The credential of the inverter vendor's cloud: the base of its interface,
/// the access key, and the secret that requests are signed with.
#[derive(Debug, PartialEq, Eq)]
pub struct Solis {
    pub api: String,
    pub key: String,
    pub secret: String,
}

} // verus!
