//! Integrity checking for a labeled corpus of on-chain program fixtures.
//!
//! The corpus is a tree of small program sources, each carrying inline
//! `HYDRA_VULN:<class>` markers that label single instructions with a
//! vulnerability class. The library registers the closed taxonomy of
//! classes, extracts per-instruction labels from fixture text, classifies
//! each fixture into its partition (control / seeded / holdout), validates
//! the whole corpus against the partition rules (no unknown or duplicate
//! tags, no leakage of a class from holdout into calibration partitions,
//! role profiles and coverage), and renders a deterministic manifest.

pub mod bytes;
pub mod corpus;
pub mod extract;
pub mod manifest;
pub mod partition;
pub mod taxonomy;
pub mod validate;
