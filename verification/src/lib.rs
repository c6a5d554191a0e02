//! Decoders for a family of legacy binary game-asset formats: map geometry
//! containers, block-compressed texture containers, and a three-file skinned
//! model format, together with the cache state machine that deduplicates
//! concurrent model loads.
//!
//! Every decoder works on an in-memory byte buffer through [`binary::Reader`];
//! reading files, spawning workers and floating-point post-processing are left
//! to the embedding application.  Fields that hold IEEE 754 single-precision
//! values on disk are carried as their raw 32-bit patterns.

pub mod binary;
pub mod decode;
pub mod error;
pub mod ibsp;
pub mod iwi;
pub mod loader;
pub mod material;
pub mod math;
pub mod path;
pub mod xmodel;
pub mod xmodelpart;
pub mod xmodelsurf;
