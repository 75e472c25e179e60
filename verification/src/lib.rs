//! Batch generation of zero-knowledge membership proofs for a list of
//! Ethereum addresses.
//!
//! The crate holds the decisions of the address-to-proof pipeline: how an
//! address becomes circuit inputs, which toolchain commands are issued and
//! what a failed one means, how a proof artifact is read, and how the results
//! are gathered and rendered. Processes and files are left to the caller,
//! which performs each [`driver::Action`] and reports back an
//! [`driver::Event`].

pub mod artifact;
pub mod circuit;
pub mod driver;
pub mod encoder;
pub mod gateway;
pub mod json;
pub mod results;
pub mod text;
