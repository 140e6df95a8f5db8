//! Present-value calculator core.
//!
//! Given a location string (a URL whose query string or fragment carries
//! `key=value` parameters) and the current date, this library extracts the
//! raw parameters, resolves the typed inputs of a compound-interest
//! valuation (principal, annual rate, start date, compounding frequency),
//! and computes the elapsed-days base and the compounding label. The
//! floating-point growth formula itself is left to the caller, which feeds
//! it from the resolved fields.

pub mod date;
pub mod num;
pub mod params;
pub mod valuation;

pub use date::Date;
pub use date::days_between;
pub use date::parse_date;
pub use num::parse_u32;
pub use params::extract_pairs;
pub use params::lookup_first;
pub use valuation::Evaluation;
pub use valuation::ResolvedInputs;
pub use valuation::compounding_label;
pub use valuation::effective_frequency;
pub use valuation::evaluate;
pub use valuation::resolve_frequency;
pub use valuation::resolve_inputs;
pub use valuation::resolve_start_date;
