use debt_value::Date;
use debt_value::compounding_label;
use debt_value::effective_frequency;
use debt_value::evaluate;
use debt_value::extract_pairs;
use debt_value::resolve_frequency;
use debt_value::resolve_inputs;
use debt_value::resolve_start_date;

/// The growth formula the resolved fields feed: principal times
/// `(1 + rate/f)^(f * years)`, with years counted as days over 365.
fn present_value(amount: f64, rate_percent: f64, days_elapsed: i64, frequency: u32) -> f64 {
    let f = effective_frequency(frequency) as f64;
    let years = days_elapsed as f64 / 365.0;
    amount * (1.0 + (rate_percent / 100.0) / f).powf(f * years)
}

#[test]
fn labels_of_the_conventional_frequencies() {
    assert_eq!(compounding_label(1), "Annual");
    assert_eq!(compounding_label(2), "Semi-annual");
    assert_eq!(compounding_label(4), "Quarterly");
    assert_eq!(compounding_label(12), "Monthly");
    assert_eq!(compounding_label(365), "Daily");
}

#[test]
fn every_other_frequency_is_custom() {
    assert_eq!(compounding_label(0), "Custom");
    assert_eq!(compounding_label(3), "Custom");
    assert_eq!(compounding_label(6), "Custom");
    assert_eq!(compounding_label(1000), "Custom");
    assert_eq!(compounding_label(u32::MAX), "Custom");
}

#[test]
fn frequency_zero_compounds_like_one() {
    assert_eq!(effective_frequency(0), 1);
    assert_eq!(effective_frequency(1), 1);
    assert_eq!(effective_frequency(2), 2);
    assert_eq!(effective_frequency(12), 12);
}

#[test]
fn frequency_resolution_defaults_and_duplicates() {
    assert_eq!(resolve_frequency(&extract_pairs("?compound=12")), 12);
    assert_eq!(resolve_frequency(&extract_pairs("?compound=2&compound=12")), 2);
    assert_eq!(resolve_frequency(&extract_pairs("?compound=abc")), 1);
    assert_eq!(resolve_frequency(&extract_pairs("?compound=-2")), 1);
    assert_eq!(resolve_frequency(&extract_pairs("?amount=5")), 1);
    assert_eq!(resolve_frequency(&extract_pairs("nothing")), 1);
}

#[test]
fn start_date_resolution_defaults_to_today() {
    let today = Date { year: 2023, month: 5, day: 10 };
    let given = Date { year: 2022, month: 6, day: 15 };
    assert_eq!(
        resolve_start_date(&extract_pairs("?start_date=2022-06-15"), today),
        given
    );
    assert_eq!(
        resolve_start_date(&extract_pairs("?start_date=2022-6-15"), today),
        today
    );
    assert_eq!(
        resolve_start_date(&extract_pairs("?start_date=2023-02-29"), today),
        today
    );
    assert_eq!(resolve_start_date(&extract_pairs("?amount=5"), today), today);
}

#[test]
fn inputs_resolve_first_occurrences_with_defaults() {
    let today = Date { year: 2023, month: 5, day: 10 };
    let params = extract_pairs("?amount=1000&interest=5&amount=9");
    let inputs = resolve_inputs(&params, today);
    assert_eq!(inputs.amount_text, Some("1000".to_string()));
    assert_eq!(inputs.rate_text, Some("5".to_string()));
    assert_eq!(inputs.start_date, today);
    assert_eq!(inputs.frequency, 1);
}

#[test]
fn zero_elapsed_time_keeps_the_principal() {
    let today = Date { year: 2023, month: 5, day: 10 };
    let ev = evaluate(
        "?amount=1000&interest=5&start_date=2023-05-10",
        today,
    );
    assert_eq!(ev.days_elapsed, 0);
    assert_eq!(ev.inputs.amount_text, Some("1000".to_string()));
    let amount: f64 = ev.inputs.amount_text.as_deref().unwrap().parse().unwrap();
    let rate: f64 = ev.inputs.rate_text.as_deref().unwrap().parse().unwrap();
    let value = present_value(amount, rate, ev.days_elapsed, ev.inputs.frequency);
    assert_eq!(value, 1000.0);
}

#[test]
fn one_annual_year_grows_by_the_rate() {
    let today = Date { year: 2022, month: 1, day: 1 };
    let ev = evaluate("?amount=1000&interest=5&start_date=2021-01-01", today);
    assert_eq!(ev.days_elapsed, 365);
    assert_eq!(ev.compounding_label, "Annual");
    let value = present_value(1000.0, 5.0, ev.days_elapsed, ev.inputs.frequency);
    assert!((value - 1050.0).abs() < 1e-9, "value {value}");
}

#[test]
fn monthly_compounding_over_one_year() {
    let today = Date { year: 2022, month: 1, day: 1 };
    let ev = evaluate(
        "?amount=10000&interest=7&start_date=2021-01-01&compound=12",
        today,
    );
    assert_eq!(ev.days_elapsed, 365);
    assert_eq!(ev.inputs.frequency, 12);
    assert_eq!(ev.compounding_label, "Monthly");
    let value = present_value(10000.0, 7.0, ev.days_elapsed, ev.inputs.frequency);
    let expected = 10000.0 * (1.0f64 + 0.07 / 12.0).powi(12);
    assert!(
        (value / expected - 1.0).abs() < 1e-6,
        "value {value}, expected {expected}"
    );
    assert!((value - 10722.90).abs() < 0.01, "value {value}");
}

#[test]
fn future_start_date_extrapolates_backward() {
    let today = Date { year: 2023, month: 1, day: 1 };
    let ev = evaluate("?amount=1000&interest=5&start_date=2024-01-01", today);
    assert_eq!(ev.days_elapsed, -365);
    let value = present_value(1000.0, 5.0, ev.days_elapsed, ev.inputs.frequency);
    assert!((value - 1000.0 / 1.05).abs() < 1e-9, "value {value}");
}

#[test]
fn evaluation_is_deterministic() {
    let location = "?amount=1234.5&interest=3.75&start_date=2020-03-01&compound=4";
    let today = Date { year: 2023, month: 5, day: 10 };
    let a = evaluate(location, today);
    let b = evaluate(location, today);
    assert_eq!(a.inputs.amount_text, b.inputs.amount_text);
    assert_eq!(a.inputs.rate_text, b.inputs.rate_text);
    assert_eq!(a.inputs.start_date, b.inputs.start_date);
    assert_eq!(a.inputs.frequency, b.inputs.frequency);
    assert_eq!(a.days_elapsed, b.days_elapsed);
    assert_eq!(a.effective_frequency, b.effective_frequency);
    assert_eq!(a.compounding_label, b.compounding_label);
    let va = present_value(1234.5, 3.75, a.days_elapsed, a.inputs.frequency);
    let vb = present_value(1234.5, 3.75, b.days_elapsed, b.inputs.frequency);
    assert_eq!(va.to_bits(), vb.to_bits());
}

#[test]
fn degenerate_rate_yields_a_non_finite_sentinel() {
    let today = Date { year: 2022, month: 1, day: 2 };
    let ev = evaluate("?amount=1000&interest=-200&start_date=2021-01-01", today);
    let value = present_value(1000.0, -200.0, ev.days_elapsed, ev.inputs.frequency);
    assert!(!value.is_finite());
}

#[test]
fn zero_amount_stays_zero() {
    let today = Date { year: 2023, month: 1, day: 1 };
    let ev = evaluate("?interest=5&start_date=2020-01-01", today);
    assert_eq!(ev.inputs.amount_text, None);
    let amount: f64 = ev
        .inputs
        .amount_text
        .as_deref()
        .and_then(|s| s.parse().ok())
        .unwrap_or(0.0);
    let value = present_value(amount, 5.0, ev.days_elapsed, ev.inputs.frequency);
    assert_eq!(value, 0.0);
}
