# numpy_rust

NumPy-compatible seeding and sampling for the PCG64 generator of
`numpy.random.default_rng`, targeting NumPy 2.5.1.

- `src/` is the verified library (Verus):
  - `bit_generator.rs`: NumPy's `SeedSequence` (seed values to 32-bit entropy
    words, entropy mixing, generation of the four PCG64 seed words), with a
    mathematical model of every step.
  - `pcg64.rs`: the `Pcg64` generator, seeded from `SeedSequence` words and
    stepped by `rand_pcg`; its contracts state the PCG XSL RR 128/64 recurrence.
  - `ziggurat.rs`: how one raw draw is split into the layer, sign and magnitude
    read by the ziggurat normal sampler.
  - `laws.rs`: seeding properties proved for every seed.
- `app/` holds the floating-point samplers (uniform doubles, standard normal,
  normal, Poisson) as the `NumpyDistributions` trait on `Pcg64`.
- `tests/` checks seeding and raw draws against NumPy reference values.
