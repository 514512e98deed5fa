//! Aggregatable lottery schemes: the vector-commitment lottery (Jack) and
//! the folklore BLS-plus-hash lottery it is compared against.

/// The BLS+Hash lottery: one wins when the hash of one's signature starts
/// with enough zero bits.
pub mod bls_hash;

/// Jack: the lottery from the KZG vector commitment over BLS12-381.
pub mod jack;

/// Jack with eagerly precomputed openings.
pub mod jack_pre;

/// The reduction from an aggregatable vector commitment to a lottery.
pub mod vcbased;
