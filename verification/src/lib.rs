//! Jack: an aggregatable cryptographic lottery scheme over BLS12-381.
//!
//! A user commits to a random vector with a hiding, simulation-extractable
//! KZG vector commitment; for each lottery a hash-derived challenge decides
//! whether the user won, a constant-size opening of the commitment proves it,
//! and many winners' proofs for one lottery compress into a single opening.
//!
//! One behavioural note: when the hash-derived challenge point of a fresh
//! commitment lands inside the evaluation domain (a cryptographically
//! negligible event whose continuation would leak the committed vector),
//! the scheme is meant to abort. Verified functions here cannot panic, so
//! `commit` and key generation report that event as `None` instead; callers
//! must treat it as fatal rather than retry or recover.

/// Trusted bindings to the arkworks curve arithmetic for BLS12-381.
pub mod curve;
/// The radix-2 evaluation domain and its verified view.
pub mod domain;
/// Byte-level encodings shared by hashing and serialization.
pub mod encoding;
/// The aggregatable vector commitment that backs the lottery.
pub mod vectorcommitment;
/// The lottery schemes built on the vector commitment.
pub mod lotteryscheme;
