//! Deterministic fortune slips derived from a SHA-256 digest of a year and a seed.
//!
//! `hash` derives the digest and decodes its bit fields, `luck` classifies the
//! per-category scores, `art` renders the digest as bar glyphs, `output`
//! assembles and renders a complete slip, and `cli` holds the run options and the
//! January-first gating rule.
pub mod art;
pub mod cli;
pub mod hash;
pub mod luck;
pub mod output;
pub mod text;
