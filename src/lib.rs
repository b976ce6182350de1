//! A small evolution engine: genomes, selection, crossover and a neural
//! network whose weights form the genome, with the bookkeeping of a
//! simulation that advances generation by generation.
use vstd::prelude::*;

pub mod random;
pub mod chromosome;
pub mod individual;
pub mod selection;
pub mod crossover;
pub mod mutation;
pub mod genetic;
pub mod network;
pub mod observer;
pub mod generation;
pub mod vision;

verus! {

} // verus!
