//! Telemetry of solar inverters, from the vendor's cloud to a time-series
//! sink.
//!
//! The crate signs the requests of the vendor's interface ([`sign`]), reads
//! the time of an observation ([`timestamp`]), takes the known metrics out of
//! a device's raw detail with their units brought to a base unit
//! ([`classify`]), passes on what is left under canonical keys
//! ([`fallback`]), and writes the metrics as lines of JSON ([`vm`]). One
//! polling step for one device is [`soliscloud::observe`]; the order and the
//! pauses of the steps are in [`schedule`].
//!
//! Nothing here touches the network or the disk, and nothing computes in
//! floating point: a number is held by its literal, and a conversion is a
//! power of ten beside it ([`units::Quantity`]).
//!
//! Every function is verified against its contract, but for the few that
//! call into other crates ([`crypto`], [`naming`], [`json`], [`clock`]): of
//! those the contracts are taken on trust, and say so.

pub mod classify;
pub mod clock;
pub mod config;
pub mod crypto;
pub mod decimal;
pub mod fallback;
pub mod json;
pub mod laws;
pub mod naming;
pub mod noise;
pub mod numeric;
pub mod pairing;
pub mod rules;
pub mod schedule;
pub mod sign;
pub mod soliscloud;
pub mod text;
pub mod timestamp;
pub mod units;
pub mod value;
pub mod vm;
pub mod weather;
