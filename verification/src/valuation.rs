//! Resolution of the typed valuation inputs from the extracted pairs, and
//! the date-elapsed and label computations of the valuation itself.
//!
//! Every input has a default, used whenever its parameter is missing or
//! malformed: resolution never fails. The principal (`amount`) and annual
//! rate (`interest`) are floating-point quantities, so the library resolves
//! their raw parameter text and leaves numeric parsing to the caller, with
//! the documented default of zero for text that does not parse.

use vstd::prelude::*;

use crate::date::Date;
use crate::date::date_day_number;
use crate::date::days_between;
use crate::date::parse_date;
use crate::date::parse_date_spec;
use crate::num::parse_u32;
use crate::num::parse_u32_spec;
use crate::params::extract_pairs;
use crate::params::extract_pairs_spec;
use crate::params::lookup_first;
use crate::params::lookup_spec;

verus! {

/// The parameter names, as they appear in the location string.
pub open spec fn amount_key() -> Seq<char> {
    "amount"@
}

pub open spec fn rate_key() -> Seq<char> {
    "interest"@
}

pub open spec fn start_date_key() -> Seq<char> {
    "start_date"@
}

pub open spec fn frequency_key() -> Seq<char> {
    "compound"@
}

/// The start date a pair sequence resolves to: the first `start_date`
/// value when it is a strict `YYYY-MM-DD` calendar date, else `today`.
pub open spec fn resolved_start_date(
    ps: Seq<(Seq<char>, Seq<char>)>,
    today: Date,
) -> Date {
    match lookup_spec(ps, start_date_key()) {
        Some(v) => match parse_date_spec(v) {
            Some(d) => d,
            None => today,
        },
        None => today,
    }
}

/// The compounding frequency a pair sequence resolves to: the first
/// `compound` value when it is a strict base-10 unsigned integer, else 1.
pub open spec fn resolved_frequency(ps: Seq<(Seq<char>, Seq<char>)>) -> u32 {
    match lookup_spec(ps, frequency_key()) {
        Some(v) => match parse_u32_spec(v) {
            Some(n) => n,
            None => 1u32,
        },
        None => 1u32,
    }
}

/// The frequency the formula divides by: a frequency of 0 compounds like 1.
pub open spec fn effective_frequency_of(f: u32) -> u32 {
    if f == 0 {
        1u32
    } else {
        f
    }
}

/// The label of a compounding frequency: the five conventional frequencies
/// by name, every other value `Custom`.
pub open spec fn label_of(f: u32) -> Seq<char> {
    if f == 1 {
        "Annual"@
    } else if f == 2 {
        "Semi-annual"@
    } else if f == 4 {
        "Quarterly"@
    } else if f == 12 {
        "Monthly"@
    } else if f == 365 {
        "Daily"@
    } else {
        "Custom"@
    }
}

/// Resolve the start date from the pairs, defaulting to `today`.
pub fn resolve_start_date(params: &Vec<(String, String)>, today: Date) -> (r: Date)
    requires
        today.valid(),
    ensures
        r == resolved_start_date(params.deep_view(), today),
        r.valid(),
{
    match lookup_first(params, "start_date") {
        Some(v) => match parse_date(v.as_str()) {
            Some(d) => d,
            None => today,
        },
        None => today,
    }
}

/// Resolve the compounding frequency from the pairs, defaulting to 1.
pub fn resolve_frequency(params: &Vec<(String, String)>) -> (r: u32)
    ensures
        r == resolved_frequency(params.deep_view()),
{
    match lookup_first(params, "compound") {
        Some(v) => match parse_u32(v.as_str()) {
            Some(n) => n,
            None => 1,
        },
        None => 1,
    }
}

/// The frequency the formula divides by: a frequency of 0 compounds like 1,
/// so the formula never divides by zero.
pub fn effective_frequency(f: u32) -> (r: u32)
    ensures
        r == effective_frequency_of(f),
{
    if f == 0 {
        1
    } else {
        f
    }
}

/// The human-readable name of a compounding frequency. Exact matches only:
/// 1 is `Annual`, 2 `Semi-annual`, 4 `Quarterly`, 12 `Monthly`, 365 `Daily`,
/// and every other value, 0 and 3 and 1000 alike, is `Custom`.
pub fn compounding_label(f: u32) -> (r: String)
    ensures
        r@ == label_of(f),
{
    if f == 1 {
        "Annual".to_owned()
    } else if f == 2 {
        "Semi-annual".to_owned()
    } else if f == 4 {
        "Quarterly".to_owned()
    } else if f == 12 {
        "Monthly".to_owned()
    } else if f == 365 {
        "Daily".to_owned()
    } else {
        "Custom".to_owned()
    }
}

/// The typed inputs of a valuation, resolved from the pairs. The principal
/// and rate stay as the raw text of their parameters (first occurrence),
/// to be parsed as base-10 floating point by the caller, defaulting to zero.
pub struct ResolvedInputs {
    pub amount_text: Option<String>,
    pub rate_text: Option<String>,
    pub start_date: Date,
    pub frequency: u32,
}

/// Resolve all four typed inputs from the pairs: each from the first pair
/// with its key, falling back to its default (`today` for the start date,
/// 1 for the frequency, an absent text for principal and rate).
pub fn resolve_inputs(params: &Vec<(String, String)>, today: Date) -> (r: ResolvedInputs)
    requires
        today.valid(),
    ensures
        r.amount_text.deep_view() == lookup_spec(params.deep_view(), amount_key()),
        r.rate_text.deep_view() == lookup_spec(params.deep_view(), rate_key()),
        r.start_date == resolved_start_date(params.deep_view(), today),
        r.start_date.valid(),
        r.frequency == resolved_frequency(params.deep_view()),
{
    ResolvedInputs {
        amount_text: lookup_first(params, "amount"),
        rate_text: lookup_first(params, "interest"),
        start_date: resolve_start_date(params, today),
        frequency: resolve_frequency(params),
    }
}

/// Everything a valuation derives from a location string and the current
/// date, short of the floating-point growth formula: the resolved inputs,
/// the elapsed whole days from the start date to today (negative for a
/// start date in the future), the frequency the formula divides by, and
/// the compounding label.
pub struct Evaluation {
    pub inputs: ResolvedInputs,
    pub days_elapsed: i64,
    pub effective_frequency: u32,
    pub compounding_label: String,
}

/// The ghost value of an [`Evaluation`]: the same fields over sequences.
pub struct EvaluationModel {
    pub amount_text: Option<Seq<char>>,
    pub rate_text: Option<Seq<char>>,
    pub start_date: Date,
    pub frequency: u32,
    pub days_elapsed: int,
    pub effective_frequency: u32,
    pub compounding_label: Seq<char>,
}

impl Evaluation {
    /// The evaluation as a mathematical value.
    pub open spec fn model(&self) -> EvaluationModel {
        EvaluationModel {
            amount_text: self.inputs.amount_text.deep_view(),
            rate_text: self.inputs.rate_text.deep_view(),
            start_date: self.inputs.start_date,
            frequency: self.inputs.frequency,
            days_elapsed: self.days_elapsed as int,
            effective_frequency: self.effective_frequency,
            compounding_label: self.compounding_label@,
        }
    }
}

/// The evaluation any location string and current date determine: pairs are
/// extracted, the inputs resolved with their defaults, the elapsed days are
/// the day-number difference from the start date to today, and the label
/// names the resolved frequency.
pub open spec fn evaluation_of(location: Seq<char>, today: Date) -> EvaluationModel {
    let ps = extract_pairs_spec(location);
    let start = resolved_start_date(ps, today);
    let f = resolved_frequency(ps);
    EvaluationModel {
        amount_text: lookup_spec(ps, amount_key()),
        rate_text: lookup_spec(ps, rate_key()),
        start_date: start,
        frequency: f,
        days_elapsed: date_day_number(today) - date_day_number(start),
        effective_frequency: effective_frequency_of(f),
        compounding_label: label_of(f),
    }
}

/// Evaluate a location string against the current date: extract the pairs,
/// resolve the typed inputs, count the elapsed days and name the frequency.
/// The caller turns this into the present value by the growth formula
/// `amount * (1 + rate/f)^(f * days/365)` with `f` the effective frequency.
pub fn evaluate(location: &str, today: Date) -> (r: Evaluation)
    requires
        today.valid(),
    ensures
        r.model() == evaluation_of(location@, today),
        r.inputs.start_date.valid(),
{
    let params = extract_pairs(location);
    let inputs = resolve_inputs(&params, today);
    let days_elapsed = days_between(&today, &inputs.start_date);
    let f = inputs.frequency;
    Evaluation {
        inputs,
        days_elapsed,
        effective_frequency: effective_frequency(f),
        compounding_label: compounding_label(f),
    }
}

/// Evaluation is a pure function of the location string and the current
/// date: any two results of [`evaluate`] on the same inputs agree, field
/// for field, down to the raw parameter text handed on for the
/// floating-point formula.
pub proof fn lemma_evaluate_deterministic(
    r1: Evaluation,
    r2: Evaluation,
    location: Seq<char>,
    today: Date,
)
    requires
        r1.model() == evaluation_of(location, today),
        r2.model() == evaluation_of(location, today),
    ensures
        r1.model() == r2.model(),
{
}

} // verus!
