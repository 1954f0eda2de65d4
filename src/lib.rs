//! Light-client state transition for a relay chain finalized by GRANDPA and
//! one of its parachains.

pub mod types;
pub mod ancestry;
pub mod proofs;
pub mod step;
pub mod laws;

pub use step::{verify_parachain_headers_with_grandpa_finality_proof, FixedVerdict, JustificationVerifier};
