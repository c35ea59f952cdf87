//! Proving-oriented validation of travelling-salesman tours: a verified
//! guest computation that checks a tour and sums its closed-loop length, the
//! journal codec that binds the committed outputs to bytes, the byte-order
//! encodings of the guest program's identity, and the host orchestration
//! around an external zero-knowledge proving engine.

pub mod codec;
pub mod guest;
pub mod host;
pub mod identity;

pub use guest::{run_guest, tour_length, validate_tour, GuestError, GuestOutput};
pub use host::{extract_onchain_proof_data, tsp, verify_and_export, HostError};
