use htap_sql::answers::Answers;
use htap_sql::calendar::{add_calendar_interval, parse_date_to_timestamp_micros, timestamp_date};
use htap_sql::convert::{cast_value, compare};
use htap_sql::decimal::{
    check_decimal_precision, decimal_div_round_half_away, decimal_rescale, decimal_to_text,
    parse_decimal_text,
};
use htap_sql::double::Double;
use htap_sql::expr::CalendarIntervalUnit;
use htap_sql::rounding::{double_of_count, multiply, reciprocal, sum, truncate};
use htap_sql::stats::{
    estimate_join_cardinality, estimate_range_selectivity, ColumnStats, EstimateSource,
    StatsLookup, TableStats,
};
use htap_sql::value::{DataType, HtapError, Value};
use std::cmp::Ordering;

fn double(x: f64) -> Double {
    Double { bits: x.to_bits() }
}

fn number(d: Double) -> f64 {
    f64::from_bits(d.bits)
}

/// Numbers that spread over the bits of a `u64`.
fn spread(n: usize) -> Vec<u64> {
    let mut x: u64 = 0x9e37_79b9_7f4a_7c15;
    let mut out = vec![0, 1, 2, 3, 1 << 53, (1 << 53) + 1, (1 << 53) + 3, u64::MAX, u64::MAX - 1];
    for i in 0..n {
        x ^= x << 13;
        x ^= x >> 7;
        x ^= x << 17;
        out.push(x >> (i % 64));
    }
    out
}

/// Doubles that are neither negative nor a NaN.
fn doubles() -> Vec<f64> {
    let mut out = vec![
        0.0,
        1.0,
        0.1,
        0.3,
        1.5,
        f64::MIN_POSITIVE,
        f64::from_bits(1),
        f64::MAX,
        f64::EPSILON,
        1e300,
        1e-300,
    ];
    for x in spread(400) {
        let candidate = f64::from_bits(x & 0x7fff_ffff_ffff_ffff);
        if candidate.is_finite() {
            out.push(candidate);
        }
    }
    out
}

#[test]
fn counts_become_the_nearest_doubles() {
    for n in spread(2000) {
        assert_eq!(number(double_of_count(n)), n as f64, "{n}");
    }
}

#[test]
fn products_and_sums_are_those_of_the_hardware() {
    let list = doubles();
    for a in &list {
        for b in list.iter().step_by(7) {
            assert_eq!(number(multiply(double(*a), double(*b))), a * b, "{a} * {b}");
            assert_eq!(number(sum(double(*a), double(*b))), a + b, "{a} + {b}");
        }
    }
    let inf = f64::INFINITY;
    assert_eq!(number(multiply(double(inf), double(1e-300))), inf);
    assert_eq!(number(multiply(double(inf), double(0.0))), 0.0);
}

#[test]
fn reciprocals_are_those_of_the_hardware() {
    for n in spread(2000) {
        let d = n.max(1) as f64;
        assert_eq!(number(reciprocal(double(d))), 1.0 / d, "{n}");
    }
}

#[test]
fn whole_parts_are_those_of_the_hardware() {
    for d in doubles() {
        assert_eq!(truncate(double(d)), d as u64, "{d}");
    }
    assert_eq!(truncate(double(f64::INFINITY)), u64::MAX);
}

#[test]
fn join_estimates_are_those_of_the_hardware() {
    let shares = [
        0.0,
        1.0,
        0.1,
        0.3,
        1e-9,
        2.0,
        -1.0,
        -0.0,
        f64::INFINITY,
        f64::NEG_INFINITY,
        f64::NAN,
        1e-320,
    ];
    for l in spread(20) {
        for r in spread(10) {
            for a in shares {
                for b in shares {
                    let expected = ((l as f64 * r as f64 * a * b) as u64).max(1);
                    assert_eq!(
                        estimate_join_cardinality(l, r, double(a), double(b)),
                        expected,
                        "{l} {r} {a} {b}"
                    );
                }
            }
        }
    }
}

#[test]
fn ranges_use_statistics_of_numbers_and_times() {
    let bounds = |v: Value| StatsLookup {
        tables: vec![(
            "t".into(),
            TableStats {
                row_count: 5,
                analyzed_at_version: 1,
                columns: vec![ColumnStats {
                    null_count: 0,
                    min: Some(v.clone()),
                    max: Some(v),
                    distinct_count: None,
                }],
            },
        )],
    };
    let source = |v: Value| estimate_range_selectivity(&bounds(v), "t", 0).1;
    assert_eq!(source(Value::Int32(1)), EstimateSource::Stats);
    assert_eq!(source(Value::Int64(1)), EstimateSource::Stats);
    assert_eq!(source(Value::Timestamp(1)), EstimateSource::Stats);
    assert_eq!(source(Value::Float64(double(1.0))), EstimateSource::Stats);
    assert_eq!(source(Value::Bool(true)), EstimateSource::Default);
    assert_eq!(source(Value::String("a".into())), EstimateSource::Default);
}

#[test]
fn dates_count_from_the_epoch() {
    assert_eq!(parse_date_to_timestamp_micros("1970-01-01").unwrap(), 0);
    assert_eq!(
        parse_date_to_timestamp_micros("2000-03-01").unwrap(),
        951_868_800_000_000
    );
    assert!(parse_date_to_timestamp_micros("2023-02-29").is_err());
    assert!(parse_date_to_timestamp_micros("yesterday").is_err());
    assert_eq!(timestamp_date(0).unwrap(), (1970, 1, 1));
    assert_eq!(timestamp_date(-1).unwrap(), (1969, 12, 31));
    for day in (-200_000..200_000).step_by(997) {
        let micros: i64 = day * 86_400_000_000;
        let (y, m, d) = timestamp_date(micros).unwrap();
        assert_eq!(
            parse_date_to_timestamp_micros(&format!("{y:04}-{m:02}-{d:02}")).unwrap(),
            micros
        );
    }
}

#[test]
fn intervals_stay_within_the_month() {
    let at = |text: &str| parse_date_to_timestamp_micros(text).unwrap();
    let add = |text: &str, n: i64, unit: CalendarIntervalUnit, negated: bool| {
        add_calendar_interval(at(text), n, unit, negated).unwrap()
    };
    assert_eq!(
        add("2024-01-31", 1, CalendarIntervalUnit::Month, false),
        Value::Timestamp(at("2024-02-29"))
    );
    assert_eq!(
        add("2024-02-29", 1, CalendarIntervalUnit::Year, false),
        Value::Timestamp(at("2025-02-28"))
    );
    assert_eq!(
        add("2024-03-01", 1, CalendarIntervalUnit::Day, true),
        Value::Timestamp(at("2024-02-29"))
    );
}

#[test]
fn decimals_round_half_away_from_zero() {
    assert_eq!(decimal_div_round_half_away(5, 2).unwrap(), 3);
    assert_eq!(decimal_div_round_half_away(-5, 2).unwrap(), -3);
    assert_eq!(decimal_div_round_half_away(4, 3).unwrap(), 1);
    assert!(decimal_div_round_half_away(1, 0).is_err());
    assert_eq!(decimal_rescale(125, 2, 1).unwrap(), 13);
    assert_eq!(decimal_rescale(7, 0, 3).unwrap(), 7000);
    assert_eq!(decimal_rescale(decimal_rescale(-42, 1, 4).unwrap(), 4, 1).unwrap(), -42);
    assert_eq!(parse_decimal_text("1.005", 2).unwrap(), 101);
    assert!(parse_decimal_text("1.0.5", 2).is_err());
    assert_eq!(decimal_to_text(-5, 2), "-0.05");
    assert_eq!(check_decimal_precision(99, 2, 0).unwrap(), 99);
    assert!(check_decimal_precision(100, 2, 0).is_err());
}

#[test]
fn values_compare_after_promotion() {
    let answers = Answers::new();
    let c = |l: Value, r: Value| compare(&l, &r, &answers);
    assert_eq!(c(Value::Null, Value::Int64(1)).unwrap(), None);
    assert_eq!(
        c(Value::Int32(1), Value::Int64(2)).unwrap(),
        Some(Ordering::Less)
    );
    assert_eq!(
        c(Value::String("b".into()), Value::String("a".into())).unwrap(),
        Some(Ordering::Greater)
    );
    assert_eq!(
        c(Value::Timestamp(3), Value::Int64(3)).unwrap(),
        Some(Ordering::Equal)
    );
    assert!(matches!(
        c(Value::Bool(true), Value::Int64(1)),
        Err(HtapError::InvalidArgument(_))
    ));
}

#[test]
fn casts_give_their_target() {
    let answers = Answers::new();
    let cast = |v: Value, to: DataType| cast_value(&v, to, &answers);
    assert_eq!(
        cast(Value::String(" 42 ".into()), DataType::Int64).unwrap(),
        Value::Int64(42)
    );
    assert_eq!(
        cast(Value::Bool(true), DataType::String).unwrap(),
        Value::String("1".into())
    );
    assert_eq!(
        cast(Value::String("TRUE".into()), DataType::Bool).unwrap(),
        Value::Bool(true)
    );
    assert_eq!(
        cast(Value::Bytes(vec![104, 105]), DataType::String).unwrap(),
        Value::String("hi".into())
    );
    assert!(cast(Value::Bytes(vec![0xff]), DataType::String).is_err());
    assert!(cast(Value::Int64(1 << 40), DataType::Int32).is_err());
    assert_eq!(cast(Value::Null, DataType::Bytes).unwrap(), Value::Null);
}
