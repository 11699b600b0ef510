//! Backends that consume a compiled circuit.
pub mod halo2;
