//! A tamper-evident, append-only deed ledger with a concurrent-safe resource
//! budget kernel, an advisory reputation scoring engine, and a reversal
//! protection kernel.
//!
//! Every accepted deed is hash-chained to its predecessor and must pass
//! independent ethics, safety-ceiling and per-subject fairness checks before
//! it is committed and becomes eligible for an advisory recommendation.

pub mod budget;
pub mod chain;
pub mod codec;
pub mod hash;
pub mod lineage;
pub mod neuromorph;
pub mod record;
pub mod reversal;
pub mod runtime;
pub mod scoring;
pub mod sponsor;
pub mod strutil;
pub mod topology;
pub mod util;
pub mod validator;
pub mod value;

pub use hash::genesis_hash;
