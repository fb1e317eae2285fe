//! Lennard-Jones particles in a periodic cubic box.
//!
//! The library holds what a run decides exactly: which texts are particle
//! records, whether two particles coincide, which periodic images a pass
//! visits and which pairs count in it, whether the summed force is in
//! balance, and which momenta a seed draws. Numbers are held by their
//! IEEE-754 encoding and compared as the numbers they stand for; the sums
//! and products of a pass are left to the caller.
pub mod balance;
pub mod double;
pub mod generator;
pub mod interaction;
pub mod number;
pub mod particles;
pub mod record;
pub mod seed;
pub mod thermostat;
