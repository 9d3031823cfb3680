//! Procedural generation of a self-consistent fictional language: a phoneme
//! inventory, a syllable grammar, spelling rules, and a small stock of
//! function words and name morphemes, from which pronounceable words and
//! place, region and person names are composed.
//!
//! Every generation step draws its randomness from a caller-supplied
//! [`RandomSource`], so a deterministic source reproduces the same language
//! and the same names call for call.

use vstd::prelude::*;

pub mod language;
pub mod orthography;
pub mod phonemes;
pub mod random;
pub mod text;
pub mod words;

pub use language::Language;
pub use language::seed_bytes;
pub use orthography::Orthography;
pub use random::RandomSource;
pub use text::capitalize;
pub use text::capitalize_spec;
pub use text::upper_of;
