use vstd::prelude::*;

pub mod bit_generator;
pub mod laws;
pub mod pcg64;
pub mod ziggurat;

pub use bit_generator::SeedState;
pub use pcg64::Pcg64;

verus! {

/// The NumPy release whose `default_rng` PCG64 stream this crate reproduces.
pub fn target_numpy_version() -> (version: &'static str)
    ensures
        version@ == "2.5.1"@,
{
    "2.5.1"
}

/// The NumPy sources whose behaviour this crate reproduces.
pub fn target_numpy_notes() -> (notes: &'static str)
    ensures
        notes@ == "Matched against NumPy 2.5.1 source: SeedSequence in random/bit_generator.pyx, the PCG64 seeding path in random/_pcg64.pyx, standard normal and Poisson in random/src/distributions/distributions.c, and double ziggurat tables in random/src/distributions/ziggurat_constants.h. The low-level PCG64 core is provided by rand_pcg."@,
{
    "Matched against NumPy 2.5.1 source: SeedSequence in random/bit_generator.pyx, the PCG64 seeding path in random/_pcg64.pyx, standard normal and Poisson in random/src/distributions/distributions.c, and double ziggurat tables in random/src/distributions/ziggurat_constants.h. The low-level PCG64 core is provided by rand_pcg."
}

} // verus!
