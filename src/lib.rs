//! Epidemic spread among moving particles: the disease state machine of each particle, the
//! resolution of contacts into infections, and the per-tick update of a population.
pub mod handle;
pub mod infection;
pub mod model;
pub mod particle;
pub mod population;
pub mod settings;
