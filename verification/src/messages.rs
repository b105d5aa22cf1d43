//! The request and response bodies of the transport layer, as plain data.
//!
//! The transport itself (HTTP framing, JSON encoding, session storage) is
//! outside the library; it converts between these types and its own wire
//! representations.  Commitments, scalars and group elements travel as
//! decimal strings of their canonical little-endian encodings.

use vstd::prelude::*;

verus! {

/// Creates a session: the declared number of input bits and the bits.
#[derive(Debug)]
pub struct NewRunnerRequest {
    pub n: i32,
    pub x: Vec<u8>,
}

/// The input commitments.
pub struct GetCommitsResponse {
    pub commits: Vec<String>,
}

/// Supplies the private noise bits of a session.
#[derive(Debug)]
pub struct InputRandomnessRequest {
    pub bits: Vec<u8>,
    pub session_id: String,
}

/// Replaces the effective noise bits of a session (the cheat surface).
#[derive(Debug)]
pub struct OverwriteXorBitRequest {
    pub bits: Vec<u8>,
    pub session_id: String,
}

/// The commitments to the private noise bits.
pub struct GetPrivateCommitsResponse {
    pub private_commits: Vec<String>,
}

/// The public coin outcomes.
pub struct GetRandomResponse {
    pub random_bits: Vec<u8>,
}

/// The effective noise bits.
pub struct GetXorBitsResponse {
    pub xor_bits: Vec<u8>,
}

/// The commitments to the effective noise.
pub struct GetXorCommitsResponse {
    pub xor_commits: Vec<String>,
}

/// The published count.
pub struct ComputeSumResponse {
    pub final_sum: u64,
}

/// The claimed blinding aggregate.
pub struct GetZResponse {
    pub z: String,
}

/// The two sides of the soundness identity.
pub struct GetLhsRhsResponse {
    pub lhs: String,
    pub rhs: String,
}

}
