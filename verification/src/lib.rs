//! State cells for pressure, volume and temperature, and a coordinator that
//! gathers their readings, combines them and caches the result.
//!
//! Every scalar is carried as the 64 bits of its IEEE-754 double encoding, so
//! the library stores, forwards and compares values bit for bit and leaves
//! the arithmetic on them to its callers.

pub mod cell;
pub mod gather;
pub mod coordinator;
