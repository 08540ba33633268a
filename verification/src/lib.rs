//! Deterministic evaluation of remotely configured feature flags and
//! contextual bandits.
//!
//! A configuration is an immutable snapshot of flag and bandit definitions.
//! Given a flag key, a subject key and the subject's attributes, the
//! evaluator walks the flag's allocations in order, matches targeting rules,
//! shards the subject deterministically into a split and returns the chosen
//! variation, or a structured failure that explains why every allocation was
//! rejected.  Bandit-linked variations are resolved further through an
//! external action-selection capability, and observer hooks trace every
//! evaluation stage at no cost when unused.
//!
//! Around the evaluator stand a few companions: a chainable builder for the
//! regular-expression patterns that targeting conditions use ([`rgx`]),
//! dates of partial precision for date-valued attributes ([`fuzzy_date`]),
//! row statistics and sorted search over plain arrays ([`toolkit`]), and
//! position-based filtering of VCF text ([`vcf`]).

pub mod attributes;
pub mod configuration;
pub mod error;
pub mod eval_assignment;
pub mod eval_bandits;
pub mod eval_rules;
pub mod eval_visitor;
pub mod fuzzy_date;
pub mod regexp;
pub mod rgx;
pub mod sharder;
pub mod strings;
pub mod toolkit;
pub mod ufc;
pub mod vcf;
