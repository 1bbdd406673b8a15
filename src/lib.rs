//! Parsing and classification of security-advisory identifiers.
//!
//! An identifier such as `RUSTSEC-2018-0001`, `CVE-2017-1000168`,
//! `GHSA-4mmc-49vf-jmcp` or `TALOS-2017-0468` is classified by its prefix,
//! validated according to its scheme, and exposed as an immutable value with
//! its kind, publication year, numerical suffix and canonical URL.

pub mod id;
pub mod laws;
pub mod text;
