//! The KZG-based simulation-extractable aggregatable vector commitment.

/// The concrete scheme over BLS12-381 and a radix-2 evaluation domain.
pub mod kzg;
