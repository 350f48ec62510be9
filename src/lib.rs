//! Decoders for Victron serial telemetry: the VE.Direct text protocol and the
//! MK3 binary protocol, with contracts stated over byte sequences.
pub mod buffer;
pub mod mk3;
pub mod number;
pub mod mppt;
pub mod ve_direct;
