use htap_sql::answers::{Answers, Reply};
use htap_sql::calendar::{parse_date_to_timestamp_micros, timestamp_date};
use htap_sql::decimal::decimal_rescale;
use htap_sql::double::{Double, DoubleOp};
use htap_sql::eval::{like_match, EvalContext, EvalServices, SubqueryBudget};
use htap_sql::expr::{
    arithmetic_result_type, BinOp, CalendarIntervalUnit, Expr, ExprType, ScalarFn,
};
use htap_sql::requests::{begin, finish, Work};
use htap_sql::value::{DataType, HtapError, Request, Row, Value, MAX_DECIMAL_PRECISION};

fn double(x: f64) -> Double {
    Double { bits: x.to_bits() }
}

fn float(x: f64) -> Value {
    Value::Float64(double(x))
}

/// Answers a request about doubles.
fn answer(op: &DoubleOp) -> Reply {
    let f = |d: &Double| f64::from_bits(d.bits);
    match op {
        DoubleOp::Add(a, b) => Reply::Double(double(f(a) + f(b))),
        DoubleOp::Sub(a, b) => Reply::Double(double(f(a) - f(b))),
        DoubleOp::Mul(a, b) => Reply::Double(double(f(a) * f(b))),
        DoubleOp::Div(a, b) => Reply::Double(double(f(a) / f(b))),
        DoubleOp::Rem(a, b) => Reply::Double(double(f(a) % f(b))),
        DoubleOp::FromInteger(i) => Reply::Double(double(*i as f64)),
        DoubleOp::FromDecimal(v, s) => {
            Reply::Double(double(*v as f64 / 10_f64.powi(i32::from(*s))))
        }
        DoubleOp::FromText(t) => Reply::Parsed(t.parse::<f64>().ok().map(double)),
        DoubleOp::ToText(d) => Reply::Text(f(d).to_string()),
        DoubleOp::ToInteger(d) => {
            let r = f(d).round();
            let fits = r.is_finite() && r >= i64::MIN as f64 && r < i64::MAX as f64;
            Reply::Integer(if fits { Some(r as i64) } else { None })
        }
        DoubleOp::ToScaled(d, s) => {
            let r = (f(d) * 10_f64.powi(i32::from(*s))).round();
            let fits = r.is_finite() && r >= i64::MIN as f64 && r <= i64::MAX as f64;
            Reply::Integer(if fits { Some(r as i64) } else { None })
        }
    }
}

/// Repeats a computation until it waits for no answer about doubles.
fn settle<T>(run: impl Fn(&Answers) -> Result<T, HtapError>) -> Result<T, HtapError> {
    let mut answers = Answers::new();
    loop {
        match run(&answers) {
            Err(HtapError::Pending(Request::Double(op))) => {
                let reply = answer(&op);
                answers.add(Request::Double(op), reply);
            }
            other => return other,
        }
    }
}

trait Settled {
    fn constant(&self) -> Result<Value, HtapError>;
    fn on_row(&self, row: &[Value]) -> Result<Value, HtapError>;
}

impl Settled for Expr {
    fn constant(&self) -> Result<Value, HtapError> {
        settle(|answers| self.eval_constant(answers))
    }

    fn on_row(&self, row: &[Value]) -> Result<Value, HtapError> {
        settle(|answers| self.eval(&EvalContext::row_only(row, answers)))
    }
}

fn cast_value(v: Value, to: DataType) -> Result<Value, HtapError> {
    settle(|answers| htap_sql::convert::cast_value(&v, to, answers))
}

fn arithmetic(op: BinOp, l: &Value, r: &Value) -> Result<Value, HtapError> {
    settle(|answers| htap_sql::arithmetic::arithmetic(op, l, r, answers))
}

fn text(v: &Value) -> String {
    settle(|answers| htap_sql::convert::text_of_value(v, answers)).unwrap()
}

fn date_text(micros: i64) -> String {
    let (y, m, d) = timestamp_date(micros).unwrap();
    format!("{y:04}-{m:02}-{d:02}")
}

fn lit(v: Value) -> Expr {
    Expr::Literal(v)
}

fn bin(op: BinOp, l: Expr, r: Expr) -> Expr {
    Expr::BinaryOp {
        op,
        left: Box::new(l),
        right: Box::new(r),
    }
}

#[test]
fn three_valued_logic_tables() {
    let t = || lit(Value::Bool(true));
    let f = || lit(Value::Bool(false));
    let n = || Expr::null();
    let ev = |e: Expr| e.constant().unwrap();
    assert_eq!(ev(bin(BinOp::And, t(), n())), Value::Null);
    assert_eq!(ev(bin(BinOp::And, f(), n())), Value::Bool(false));
    assert_eq!(ev(bin(BinOp::And, n(), f())), Value::Bool(false));
    assert_eq!(ev(bin(BinOp::Or, t(), n())), Value::Bool(true));
    assert_eq!(ev(bin(BinOp::Or, n(), t())), Value::Bool(true));
    assert_eq!(ev(bin(BinOp::Or, f(), n())), Value::Null);
    assert_eq!(ev(Expr::Not(Box::new(n()))), Value::Null);
    assert_eq!(ev(Expr::Not(Box::new(t()))), Value::Bool(false));
    assert_eq!(ev(bin(BinOp::Eq, lit(Value::Int64(1)), n())), Value::Null);
    assert_eq!(ev(Expr::IsNull(Box::new(n()))), Value::Bool(true));
    assert_eq!(ev(Expr::IsNotNull(Box::new(n()))), Value::Bool(false));
    let answers = Answers::new();
    assert!(!bin(BinOp::Eq, lit(Value::Int64(1)), n())
        .eval_predicate(&EvalContext::row_only(&[], &answers))
        .unwrap());
}

#[test]
fn numeric_promotion_and_overflow() {
    let ev = |e: Expr| e.constant().unwrap();
    assert_eq!(
        ev(bin(BinOp::Add, lit(Value::Int32(1)), lit(Value::Int64(2)))),
        Value::Int64(3)
    );
    assert_eq!(
        ev(bin(
            BinOp::Add,
            lit(Value::Int64(1)),
            lit(float(0.5))
        )),
        float(1.5)
    );
    assert_eq!(
        ev(bin(BinOp::Div, lit(Value::Int64(7)), lit(Value::Int64(2)))),
        float(3.5)
    );
    assert_eq!(
        ev(bin(BinOp::Div, lit(Value::Int64(7)), lit(Value::Int64(0)))),
        Value::Null
    );
    assert_eq!(
        ev(bin(
            BinOp::IntDiv,
            lit(Value::Int64(-7)),
            lit(Value::Int64(2))
        )),
        Value::Int64(-3)
    );
    assert_eq!(
        ev(bin(
            BinOp::IntDiv,
            lit(Value::Int64(7)),
            lit(Value::Int64(0))
        )),
        Value::Null
    );
    assert!(bin(
        BinOp::IntDiv,
        lit(Value::Int64(i64::MIN)),
        lit(Value::Int64(-1))
    )
    .constant()
    .is_err());
    assert_eq!(
        ev(bin(BinOp::Mod, lit(Value::Int64(7)), lit(Value::Int64(3)))),
        Value::Int64(1)
    );
    assert!(bin(
        BinOp::Add,
        lit(Value::Int64(i64::MAX)),
        lit(Value::Int64(1))
    )
    .constant()
    .is_err());
    assert!(bin(
        BinOp::Add,
        lit(Value::String("a".into())),
        lit(Value::Int64(1))
    )
    .constant()
    .is_err());
    assert_eq!(
        ev(bin(
            BinOp::Lt,
            lit(Value::Int32(1)),
            lit(float(1.5))
        )),
        Value::Bool(true)
    );
    assert_eq!(
        ev(Expr::Negate(Box::new(lit(Value::Int32(5))))),
        Value::Int64(-5)
    );
    assert_eq!(
        arithmetic_result_type(BinOp::Add, DataType::Int32, DataType::Int32).unwrap(),
        DataType::Int64
    );
    assert_eq!(
        arithmetic_result_type(BinOp::Div, DataType::Int32, DataType::Int32).unwrap(),
        DataType::Float64
    );
}

#[test]
fn test_decimal_exact_sum_and_float_difference() {
    let decimal_4_2 = DataType::Decimal {
        precision: 4,
        scale: 2,
    };
    let penny = Value::Decimal {
        value: 1,
        precision: 4,
        scale: 2,
    };
    let mut decimal_sum = Value::Decimal {
        value: 0,
        precision: 4,
        scale: 2,
    };
    let mut float_sum = 0.0_f64;

    for _ in 0..100 {
        // Keep the accumulator at its declared type rather than letting derived
        // arithmetic precision grow once per addition.
        decimal_sum = cast_value(
            arithmetic(BinOp::Add, &decimal_sum, &penny).unwrap(),
            decimal_4_2,
        )
        .unwrap();
        float_sum += 0.01_f64;
    }

    assert_eq!(
        decimal_sum,
        Value::Decimal {
            value: 100,
            precision: 4,
            scale: 2,
        }
    );
    assert_eq!(text(&decimal_sum), "1.00");
    assert_ne!(float_sum, 1.0_f64);
}

#[test]
fn test_decimal_rounding_half_away_from_zero_for_rescale_division_and_cast() {
    let assert_decimal = |result: Value, expected_value, expected_precision, expected_scale| {
        let Value::Decimal {
            value,
            precision,
            scale,
        } = result
        else {
            panic!("expected DECIMAL");
        };
        assert_eq!(value, expected_value);
        assert_eq!(precision, expected_precision);
        assert_eq!(scale, expected_scale);
    };

    // Arithmetic rescaling uses DECIMAL's round-half-away-from-zero rule.
    assert_eq!(decimal_rescale(1_005, 3, 2).unwrap(), 101);
    assert_eq!(decimal_rescale(-1_005, 3, 2).unwrap(), -101);

    let one = Value::Decimal {
        value: 1,
        precision: 1,
        scale: 0,
    };
    let three = Value::Decimal {
        value: 3,
        precision: 1,
        scale: 0,
    };
    assert_decimal(
        arithmetic(BinOp::Div, &one, &three).unwrap(),
        3_333,
        MAX_DECIMAL_PRECISION,
        4,
    );
    assert_decimal(
        arithmetic(
            BinOp::Div,
            &Value::Decimal {
                value: 2,
                precision: 1,
                scale: 0,
            },
            &three,
        )
        .unwrap(),
        6_667,
        MAX_DECIMAL_PRECISION,
        4,
    );
    assert_decimal(
        arithmetic(
            BinOp::Div,
            &Value::Decimal {
                value: 12_345,
                precision: 5,
                scale: 2,
            },
            &one,
        )
        .unwrap(),
        123_450_000,
        MAX_DECIMAL_PRECISION,
        6,
    );

    let decimal_5_2 = DataType::Decimal {
        precision: 5,
        scale: 2,
    };
    assert_decimal(
        cast_value(Value::String("1.005".into()), decimal_5_2).unwrap(),
        101,
        5,
        2,
    );
    assert_decimal(
        cast_value(Value::String("-1.005".into()), decimal_5_2).unwrap(),
        -101,
        5,
        2,
    );
}

#[test]
fn decimal_casts_integral_sources_at_target_scale() {
    let decimal_5_2 = DataType::Decimal {
        precision: 5,
        scale: 2,
    };

    assert_eq!(
        cast_value(Value::Int32(42), decimal_5_2).unwrap(),
        Value::Decimal {
            value: 4_200,
            precision: 5,
            scale: 2,
        }
    );
    assert_eq!(
        cast_value(Value::Int64(-42), decimal_5_2).unwrap(),
        Value::Decimal {
            value: -4_200,
            precision: 5,
            scale: 2,
        }
    );
    assert_eq!(
        cast_value(Value::Timestamp(7), decimal_5_2).unwrap(),
        Value::Decimal {
            value: 700,
            precision: 5,
            scale: 2,
        }
    );
}

#[test]
fn d9_decimal_division_rounding_direction_uses_exact_quotient_sign() {
    let assert_decimal = |result: Value, expected_value| {
        let Value::Decimal {
            value,
            precision,
            scale,
        } = result
        else {
            panic!("expected DECIMAL");
        };
        assert_eq!(value, expected_value);
        assert_eq!(precision, MAX_DECIMAL_PRECISION);
        assert_eq!(scale, 4);
    };

    assert_eq!(decimal_rescale(-5, 2, 1).unwrap(), -1);
    assert_eq!(decimal_rescale(5, 2, 1).unwrap(), 1);

    let decimal = |value| Value::Decimal {
        value,
        precision: 1,
        scale: 0,
    };

    // Cover all dividend/divisor sign combinations through the division path. The first
    // division is exact; the last truncates to zero before rounding away from zero.
    assert_decimal(
        arithmetic(BinOp::Div, &decimal(1), &decimal(2)).unwrap(),
        5_000,
    );
    assert_decimal(
        arithmetic(BinOp::Div, &decimal(-1), &decimal(3)).unwrap(),
        -3_333,
    );
    assert_decimal(
        arithmetic(BinOp::Div, &decimal(1), &decimal(-3)).unwrap(),
        -3_333,
    );
    assert_decimal(
        arithmetic(BinOp::Div, &decimal(-1), &decimal(-1_500_000)).unwrap(),
        0,
    );
}

#[test]
fn test_decimal_arithmetic_overflow_and_precision_errors() {
    // A DECIMAL result that fits its at-most-18-digit declaration also fits i64, so
    // stored-integer overflow of a valid result is unreachable. Derived precision is clamped.
    let precision_overflow = arithmetic(
        BinOp::Mul,
        &Value::Decimal {
            value: 999_999_999_999_999_999,
            precision: 18,
            scale: 0,
        },
        &Value::Decimal {
            value: 2,
            precision: 1,
            scale: 0,
        },
    )
    .unwrap_err()
    .message();
    assert!(
        precision_overflow.contains("1999999999999999998")
            && precision_overflow.contains("DECIMAL(18,0)"),
        "{precision_overflow}"
    );

    let cast_precision_overflow = cast_value(
        Value::Int64(12_345),
        DataType::Decimal {
            precision: 3,
            scale: 2,
        },
    )
    .unwrap_err()
    .message();
    assert!(
        cast_precision_overflow.contains("cannot cast"),
        "{cast_precision_overflow}"
    );
}

#[test]
fn test_decimal_required_precision_is_clamped_to_supported_bound() {
    assert_eq!(
        arithmetic_result_type(
            BinOp::Mul,
            DataType::Decimal {
                precision: 18,
                scale: 0,
            },
            DataType::Decimal {
                precision: 18,
                scale: 0,
            },
        )
        .unwrap(),
        DataType::Decimal {
            precision: 18,
            scale: 0,
        }
    );
}

#[test]
fn test_decimal_string_parsing_is_exact_and_rejects_non_decimal_syntax() {
    let decimal_18_2 = DataType::Decimal {
        precision: 18,
        scale: 2,
    };

    assert_eq!(
        cast_value(Value::String("1234567890123456.78".into()), decimal_18_2).unwrap(),
        Value::Decimal {
            value: 123_456_789_012_345_678,
            precision: 18,
            scale: 2,
        }
    );
    assert_eq!(
        cast_value(Value::String("000001.20".into()), decimal_18_2).unwrap(),
        Value::Decimal {
            value: 120,
            precision: 18,
            scale: 2,
        }
    );
    assert_eq!(
        cast_value(Value::String("1.2".into()), decimal_18_2).unwrap(),
        Value::Decimal {
            value: 120,
            precision: 18,
            scale: 2,
        }
    );
    assert!(cast_value(Value::String("1e-2".into()), decimal_18_2).is_err());
    assert!(cast_value(Value::String("not-a-number".into()), decimal_18_2).is_err());
}

#[test]
fn d7_decimal_division_rounds_non_tie_remainders_correctly() {
    let third = Value::Decimal {
        value: 3,
        precision: 1,
        scale: 0,
    };
    let expected_positive = Value::Decimal {
        value: 3_333,
        precision: MAX_DECIMAL_PRECISION,
        scale: 4,
    };
    let expected_negative = Value::Decimal {
        value: -3_333,
        precision: MAX_DECIMAL_PRECISION,
        scale: 4,
    };

    assert_eq!(
        arithmetic(
            BinOp::Div,
            &Value::Decimal {
                value: 1,
                precision: 1,
                scale: 0,
            },
            &third,
        )
        .unwrap(),
        expected_positive
    );
    assert_eq!(
        arithmetic(
            BinOp::Div,
            &Value::Decimal {
                value: -1,
                precision: 1,
                scale: 0,
            },
            &third,
        )
        .unwrap(),
        expected_negative
    );
}

#[test]
fn decimal_arithmetic_and_comparison() {
    let ev = |e: Expr| e.constant().unwrap();

    assert_eq!(
        ev(bin(
            BinOp::Add,
            lit(Value::Decimal {
                value: 125,
                precision: 3,
                scale: 2,
            }),
            lit(Value::Decimal {
                value: 25,
                precision: 2,
                scale: 1,
            }),
        )),
        Value::Decimal {
            value: 375,
            precision: 4,
            scale: 2,
        }
    );
    assert_eq!(
        ev(bin(
            BinOp::Mul,
            lit(Value::Decimal {
                value: 125,
                precision: 3,
                scale: 2,
            }),
            lit(Value::Decimal {
                value: 20,
                precision: 2,
                scale: 1,
            }),
        )),
        Value::Decimal {
            value: 2500,
            precision: 6,
            scale: 3,
        }
    );
    assert_eq!(
        ev(bin(
            BinOp::Div,
            lit(Value::Decimal {
                value: 1000,
                precision: 4,
                scale: 2,
            }),
            lit(Value::Decimal {
                value: 400,
                precision: 3,
                scale: 2,
            }),
        )),
        Value::Decimal {
            value: 2_500_000,
            precision: MAX_DECIMAL_PRECISION,
            scale: 6,
        }
    );
    assert_eq!(
        ev(bin(
            BinOp::Eq,
            lit(Value::Decimal {
                value: 100,
                precision: 3,
                scale: 2,
            }),
            lit(Value::Decimal {
                value: 10,
                precision: 2,
                scale: 1,
            }),
        )),
        Value::Bool(true)
    );
    assert_eq!(
        arithmetic_result_type(
            BinOp::Add,
            DataType::Decimal {
                precision: 5,
                scale: 2,
            },
            DataType::Int32,
        )
        .unwrap(),
        DataType::Decimal {
            precision: 13,
            scale: 2,
        }
    );
}

#[test]
fn like_in_between_case_cast() {
    let ev = |e: Expr| e.constant().unwrap();
    assert!(like_match("Apple pie", "a%"));
    assert!(like_match("abc", "a_c"));
    assert!(!like_match("abc", "a_"));
    assert!(like_match("", "%"));
    let like = Expr::Like {
        expr: Box::new(lit(Value::String("hello".into()))),
        pattern: Box::new(lit(Value::String("h%o".into()))),
        negated: true,
    };
    assert_eq!(ev(like), Value::Bool(false));

    let in_list = |v: Value, negated: bool| Expr::In {
        expr: Box::new(lit(v)),
        list: vec![lit(Value::Int64(1)), Expr::null(), lit(Value::Int64(3))],
        negated,
    };
    assert_eq!(ev(in_list(Value::Int64(3), false)), Value::Bool(true));
    assert_eq!(ev(in_list(Value::Int64(2), false)), Value::Null);
    assert_eq!(ev(in_list(Value::Int64(3), true)), Value::Bool(false));
    assert_eq!(
        ev(Expr::In {
            expr: Box::new(lit(Value::Int64(2))),
            list: vec![lit(Value::Int64(1))],
            negated: true
        }),
        Value::Bool(true)
    );

    let between = |v: Value| Expr::Between {
        expr: Box::new(lit(v)),
        low: Box::new(lit(Value::Int64(1))),
        high: Box::new(lit(Value::Int64(3))),
        negated: false,
    };
    assert_eq!(ev(between(Value::Int64(3))), Value::Bool(true));
    assert_eq!(ev(between(Value::Int64(4))), Value::Bool(false));
    assert_eq!(ev(between(Value::Null)), Value::Null);

    let case = Expr::Case {
        operand: None,
        branches: vec![(
            bin(BinOp::Gt, lit(Value::Int64(1)), lit(Value::Int64(0))),
            lit(Value::String("pos".into())),
        )],
        else_result: Some(Box::new(bin(
            BinOp::Add,
            lit(Value::String("boom".into())),
            lit(Value::Int64(1)),
        ))),
        data_type: DataType::String,
        nullable: true,
    };
    // The ELSE branch would error if evaluated eagerly.
    assert_eq!(ev(case), Value::String("pos".into()));
    let simple_case = Expr::Case {
        operand: Some(Box::new(lit(Value::Int64(2)))),
        branches: vec![
            (lit(Value::Int64(1)), lit(Value::String("one".into()))),
            (lit(Value::Int64(2)), lit(Value::String("two".into()))),
        ],
        else_result: None,
        data_type: DataType::String,
        nullable: true,
    };
    assert_eq!(ev(simple_case), Value::String("two".into()));

    assert_eq!(
        cast_value(Value::String(" 42 ".into()), DataType::Int32).unwrap(),
        Value::Int32(42)
    );
    assert_eq!(
        cast_value(float(2.6), DataType::Int64).unwrap(),
        Value::Int64(3)
    );
    assert_eq!(
        cast_value(Value::Int64(7), DataType::String).unwrap(),
        Value::String("7".into())
    );
    assert_eq!(
        cast_value(Value::Bool(true), DataType::Float64).unwrap(),
        float(1.0)
    );
    assert!(cast_value(Value::String("x".into()), DataType::Int64).is_err());
    assert!(cast_value(Value::Int64(1 << 40), DataType::Int32).is_err());
    assert_eq!(
        cast_value(Value::Null, DataType::Int32).unwrap(),
        Value::Null
    );
}

#[test]
fn scalar_functions() {
    let ev = |e: Expr| e.constant().unwrap();
    let sf = |func, args: Vec<Expr>, dt| Expr::ScalarFunction {
        func,
        args,
        data_type: dt,
        nullable: true,
    };
    assert_eq!(
        ev(sf(
            ScalarFn::Upper,
            vec![lit(Value::String("ab".into()))],
            DataType::String
        )),
        Value::String("AB".into())
    );
    assert_eq!(
        ev(sf(
            ScalarFn::Length,
            vec![lit(Value::String("héllo".into()))],
            DataType::Int64
        )),
        Value::Int64(6)
    );
    assert_eq!(
        ev(sf(
            ScalarFn::CharLength,
            vec![lit(Value::String("héllo".into()))],
            DataType::Int64
        )),
        Value::Int64(5)
    );
    assert_eq!(
        ev(sf(
            ScalarFn::Concat,
            vec![
                lit(Value::String("a".into())),
                lit(Value::Int64(1)),
                lit(Value::Bool(true))
            ],
            DataType::String
        )),
        Value::String("a11".into())
    );
    assert_eq!(
        ev(sf(
            ScalarFn::Concat,
            vec![lit(Value::String("a".into())), Expr::null()],
            DataType::String
        )),
        Value::Null
    );
    assert_eq!(
        ev(sf(
            ScalarFn::Coalesce,
            vec![Expr::null(), lit(Value::Int64(2))],
            DataType::Int64
        )),
        Value::Int64(2)
    );
    assert_eq!(
        ev(sf(
            ScalarFn::NullIf,
            vec![lit(Value::Int64(2)), lit(Value::Int64(2))],
            DataType::Int64
        )),
        Value::Null
    );
    assert_eq!(
        ev(sf(
            ScalarFn::Abs,
            vec![lit(float(-1.5))],
            DataType::Float64
        )),
        float(1.5)
    );
}

#[test]
fn calendar_intervals_extract_and_substring() {
    let date = |value| parse_date_to_timestamp_micros(value).unwrap();
    let date_expr = |value, quantity, unit, negated| Expr::CalendarInterval {
        expr: Box::new(lit(Value::Timestamp(date(value)))),
        quantity: Box::new(lit(Value::Int64(quantity))),
        unit,
        negated,
    };
    let as_date = |expr: Expr| match expr.constant().unwrap() {
        Value::Timestamp(value) => date_text(value),
        other => panic!("expected timestamp, found {other:?}"),
    };

    assert_eq!(
        as_date(date_expr(
            "2023-01-31",
            1,
            CalendarIntervalUnit::Month,
            false
        )),
        "2023-02-28"
    );
    assert_eq!(
        as_date(date_expr(
            "2024-01-31",
            1,
            CalendarIntervalUnit::Month,
            false
        )),
        "2024-02-29"
    );
    assert_eq!(
        as_date(date_expr(
            "2024-02-29",
            1,
            CalendarIntervalUnit::Year,
            false
        )),
        "2025-02-28"
    );
    assert_eq!(
        as_date(date_expr("2024-03-01", 1, CalendarIntervalUnit::Day, true)),
        "2024-02-29"
    );
    assert_eq!(
        Expr::CalendarInterval {
            expr: Box::new(Expr::null()),
            quantity: Box::new(lit(Value::Int64(1))),
            unit: CalendarIntervalUnit::Day,
            negated: false,
        }
        .constant()
        .unwrap(),
        Value::Null
    );

    let extract = |unit| Expr::ScalarFunction {
        func: ScalarFn::Extract(unit),
        args: vec![lit(Value::Timestamp(date("2024-02-29")))],
        data_type: DataType::Int64,
        nullable: true,
    };
    assert_eq!(
        extract(CalendarIntervalUnit::Year).constant().unwrap(),
        Value::Int64(2024)
    );
    assert_eq!(
        extract(CalendarIntervalUnit::Month)
            .constant()
            .unwrap(),
        Value::Int64(2)
    );
    assert_eq!(
        extract(CalendarIntervalUnit::Day).constant().unwrap(),
        Value::Int64(29)
    );
    assert_eq!(
        Expr::ScalarFunction {
            func: ScalarFn::Extract(CalendarIntervalUnit::Day),
            args: vec![Expr::null()],
            data_type: DataType::Int64,
            nullable: true,
        }
        .constant()
        .unwrap(),
        Value::Null
    );

    let substring = |value: &str, start: i64, length: i64| Expr::ScalarFunction {
        func: ScalarFn::Substring,
        args: vec![
            lit(Value::String(value.into())),
            lit(Value::Int64(start)),
            lit(Value::Int64(length)),
        ],
        data_type: DataType::String,
        nullable: true,
    };
    assert_eq!(
        substring("abcdef", 2, 3).constant().unwrap(),
        Value::String("bcd".into())
    );
    assert_eq!(
        substring("abcdef", 20, 3).constant().unwrap(),
        Value::String(String::new())
    );
    assert_eq!(
        substring("abcdef", 2, 0).constant().unwrap(),
        Value::String(String::new())
    );
    assert_eq!(
        substring("abcdef", 2, -1).constant().unwrap(),
        Value::String(String::new())
    );
    assert_eq!(
        substring("héllo", 2, 2).constant().unwrap(),
        Value::String("él".into())
    );
}

#[test]
fn subquery_and_aggregate_context() {
    let subqueries = vec![
        vec![Row::new(vec![Value::Int64(5)])],
        vec![],
        vec![
            Row::new(vec![Value::Int64(1)]),
            Row::new(vec![Value::Int64(2)]),
        ],
    ];
    let aggregates = vec![Value::Int64(9)];
    let answers = Answers::new();
    let ctx = EvalContext {
        row: &[],
        current_outer_row: None,
        aggregates: &aggregates,
        output: None,
        subqueries: &subqueries,
        services: EvalServices::none(),
        answers: &answers,
    };
    let scalar = |index| Expr::ScalarSubquery {
        index,
        data_type: DataType::Int64,
        correlated: false,
    };
    assert_eq!(scalar(0).eval(&ctx).unwrap(), Value::Int64(5));
    assert_eq!(scalar(1).eval(&ctx).unwrap(), Value::Null);
    assert!(scalar(2).eval(&ctx).is_err());
    assert_eq!(
        Expr::Exists {
            index: 1,
            negated: false,
            correlated: false,
        }
        .eval(&ctx)
        .unwrap(),
        Value::Bool(false)
    );
    assert_eq!(
        Expr::InSubquery {
            expr: Box::new(lit(Value::Int64(2))),
            index: 2,
            negated: false,
            correlated: false,
        }
        .eval(&ctx)
        .unwrap(),
        Value::Bool(true)
    );
    assert_eq!(
        Expr::AggregateRef {
            index: 0,
            data_type: DataType::Int64,
            nullable: true
        }
        .eval(&ctx)
        .unwrap(),
        Value::Int64(9)
    );
}

trait SubqueryRunner {
    fn run(&self, index: usize, outer_row: &[Value], budget: &mut SubqueryBudget) -> Result<Vec<Row>, HtapError>;
}

struct EchoOuterRow;

impl SubqueryRunner for EchoOuterRow {
    fn run(&self, _index: usize, outer_row: &[Value], _budget: &mut SubqueryBudget) -> Result<Vec<Row>, HtapError> {
        Ok(vec![Row::new(vec![outer_row[0].clone()])])
    }
}

/// Evaluates an expression, running the correlated subqueries that it asks for.
fn eval_running(
    expr: &Expr,
    row: &[Value],
    current_outer_row: Option<&[Value]>,
    runner: &dyn SubqueryRunner,
    budget: &mut SubqueryBudget,
) -> Result<Value, HtapError> {
    let mut answers = Answers::new();
    loop {
        let ctx = EvalContext {
            row,
            current_outer_row,
            aggregates: &[],
            output: None,
            subqueries: &[],
            services: EvalServices {
                variables: false,
                subquery_runner: true,
                subquery_budget: true,
            },
            answers: &answers,
        };
        let request = match expr.eval(&ctx) {
            Err(HtapError::Pending(request)) => request,
            other => return other,
        };
        let reply = match begin(request.clone(), budget) {
            Work::Done(reply) => reply,
            Work::Run { index, outer_row } => {
                let result = runner.run(index, &outer_row, budget);
                finish(result, budget)
            }
            other => panic!("unexpected work {other:?}"),
        };
        answers.add(request, reply);
    }
}

#[test]
fn subquery_runner_trait_and_correlation_eval() {
    let mut budget = SubqueryBudget::new(10, 5);
    let runner = EchoOuterRow;
    let outer_row = [Value::Int64(42)];
    let expr = Expr::ScalarSubquery {
        index: 0,
        data_type: DataType::Int64,
        correlated: true,
    };

    // Correlated subqueries receive the row of the query they stand in, not the row of the one
    // around it.
    assert_eq!(
        eval_running(&expr, &[Value::Int64(999)], Some(&outer_row), &runner, &mut budget).unwrap(),
        Value::Int64(999)
    );

    let answers = Answers::new();
    let unwired = EvalContext::row_only(&[], &answers);
    let err = expr.eval(&unwired).unwrap_err().message();
    assert!(err.contains("without a subquery runner"), "{err}");
}

struct RecursiveRunner {
    calls: std::cell::Cell<usize>,
}

impl SubqueryRunner for RecursiveRunner {
    fn run(&self, index: usize, outer_row: &[Value], budget: &mut SubqueryBudget) -> Result<Vec<Row>, HtapError> {
        self.calls.set(self.calls.get() + 1);
        let expr = Expr::ScalarSubquery {
            index,
            data_type: DataType::Int64,
            correlated: true,
        };
        eval_running(&expr, &[], Some(outer_row), self, budget)?;
        unreachable!("the nesting-depth cap must stop recursion")
    }
}

#[test]
fn subquery_invocation_and_nesting_caps() {
    let mut depth_budget = SubqueryBudget::new(100, 5);
    let runner = RecursiveRunner {
        calls: std::cell::Cell::new(0),
    };
    let outer_row = [Value::Int64(1)];
    let expr = Expr::ScalarSubquery {
        index: 0,
        data_type: DataType::Int64,
        correlated: true,
    };
    let err = eval_running(&expr, &[], Some(&outer_row), &runner, &mut depth_budget)
        .unwrap_err()
        .message();
    assert!(err.contains("nesting-depth cap (5) exceeded"), "{err}");
    assert_eq!(runner.calls.get(), 5);

    let mut invocation_budget = SubqueryBudget::new(10_000, 1);
    for _ in 0..10_000 {
        invocation_budget.enter().unwrap();
        invocation_budget.exit();
    }
    let err = invocation_budget.enter().unwrap_err().message();
    assert!(err.contains("invocation cap (10000) exceeded"), "{err}");
}

#[test]
fn expr_type_inference() {
    let col = Expr::ColumnRef {
        slot: 0,
        column: 1,
        offset: 1,
        name: "a".into(),
        data_type: DataType::Int32,
        nullable: true,
    };
    assert_eq!(
        bin(BinOp::Add, col.clone(), lit(Value::Int64(1))).expr_type(),
        ExprType::new(DataType::Int64, true)
    );
    assert_eq!(
        bin(BinOp::Gt, col.clone(), lit(Value::Int64(1))).expr_type(),
        ExprType::new(DataType::Bool, true)
    );
    assert_eq!(
        Expr::IsNull(Box::new(col.clone())).expr_type(),
        ExprType::new(DataType::Bool, false)
    );
    assert!(Expr::null().expr_type().is_null_literal);
    assert_eq!(col.referenced_columns(), vec![(0, 1)]);
    assert!(!col.contains_aggregate());
    assert_eq!(
        Expr::Cast {
            expr: Box::new(col),
            to: DataType::String
        }
        .expr_type()
        .data_type,
        DataType::String
    );
    let window = Expr::WindowRef {
        index: 0,
        data_type: DataType::Int64,
        nullable: false,
    };
    assert_eq!(window.expr_type(), ExprType::new(DataType::Int64, false));
    assert!(window.contains_window());
    assert!(!window.contains_aggregate());

    let var = Expr::Variable {
        name: "x".into(),
        is_system: false,
    };
    let t = var.expr_type();
    assert!(t.is_dynamic);
    assert!(t.is_permissive());
    assert!(t.nullable);
}

struct FakeVars(std::collections::BTreeMap<&'static str, Value>);

impl FakeVars {
    fn lookup(&self, name: &str, is_system: bool) -> Result<Value, HtapError> {
        match self.0.get(name) {
            Some(v) => Ok(v.clone()),
            None if is_system => Err(HtapError::Unsupported(format!(
                "unknown system variable '{name}'"
            ))),
            None => Ok(Value::Null),
        }
    }

    fn eval(&self, expr: &Expr) -> Result<Value, HtapError> {
        let mut answers = Answers::new();
        loop {
            let ctx = EvalContext {
                row: &[],
                current_outer_row: None,
                aggregates: &[],
                output: None,
                subqueries: &[],
                services: EvalServices {
                    variables: true,
                    subquery_runner: false,
                    subquery_budget: false,
                },
                answers: &answers,
            };
            match expr.eval(&ctx) {
                Err(HtapError::Pending(Request::Variable { name, is_system })) => {
                    let reply = match self.lookup(&name, is_system) {
                        Ok(v) => Reply::Value(v),
                        Err(e) => Reply::Refused(e),
                    };
                    answers.add(Request::Variable { name, is_system }, reply);
                }
                other => return other,
            }
        }
    }
}

fn assert_decimal(
    value: Value,
    expected_value: i64,
    expected_precision: u8,
    expected_scale: u8,
) {
    let Value::Decimal {
        value,
        precision,
        scale,
    } = value
    else {
        panic!("expected DECIMAL");
    };
    assert_eq!(value, expected_value);
    assert_eq!(precision, expected_precision);
    assert_eq!(scale, expected_scale);
}

#[test]
fn decimal_cast_negation_and_abs() {
    let decimal = |value, precision, scale| Value::Decimal {
        value,
        precision,
        scale,
    };

    assert_eq!(
        cast_value(decimal(1_234, 4, 2), DataType::Int64).unwrap(),
        Value::Int64(12)
    );
    assert_eq!(
        cast_value(decimal(1_250, 4, 2), DataType::Int64).unwrap(),
        Value::Int64(13)
    );
    assert_eq!(
        cast_value(decimal(-1_250, 4, 2), DataType::Int64).unwrap(),
        Value::Int64(-13)
    );

    let column = Expr::ColumnRef {
        slot: 0,
        column: 0,
        offset: 0,
        name: "amount".into(),
        data_type: DataType::Decimal {
            precision: 18,
            scale: 0,
        },
        nullable: false,
    };
    let row = [decimal(-999_999_999_999_999_999, 18, 0)];
    assert_decimal(
        Expr::Negate(Box::new(column)).on_row(&row).unwrap(),
        999_999_999_999_999_999,
        18,
        0,
    );

    let expression = Expr::Negate(Box::new(bin(
        BinOp::Add,
        lit(decimal(125, 3, 2)),
        lit(decimal(25, 2, 1)),
    )));
    assert_decimal(expression.constant().unwrap(), -375, 4, 2);

    let abs = |value| Expr::ScalarFunction {
        func: ScalarFn::Abs,
        args: vec![lit(decimal(value, 4, 2))],
        data_type: DataType::Decimal {
            precision: 4,
            scale: 2,
        },
        nullable: false,
    };
    assert_decimal(abs(123).constant().unwrap(), 123, 4, 2);
    assert_decimal(abs(-123).constant().unwrap(), 123, 4, 2);
    assert_decimal(abs(0).constant().unwrap(), 0, 4, 2);
}

#[test]
fn conditional_integer_branch_conforms_to_declared_decimal_type() {
    let expression = Expr::Case {
        operand: None,
        branches: vec![(lit(Value::Bool(true)), lit(Value::Int64(7)))],
        else_result: Some(Box::new(lit(Value::Decimal {
            value: 125,
            precision: 5,
            scale: 2,
        }))),
        data_type: DataType::Decimal {
            precision: 12,
            scale: 2,
        },
        nullable: false,
    };

    assert_decimal(expression.constant().unwrap(), 700, 12, 2);
}

#[test]
fn null_coalescing_integer_column_conforms_to_declared_decimal_type() {
    let expression = Expr::ScalarFunction {
        func: ScalarFn::Coalesce,
        args: vec![
            Expr::ColumnRef {
                slot: 0,
                column: 0,
                offset: 0,
                name: "whole_amount".into(),
                data_type: DataType::Int64,
                nullable: true,
            },
            Expr::ColumnRef {
                slot: 0,
                column: 1,
                offset: 1,
                name: "decimal_amount".into(),
                data_type: DataType::Decimal {
                    precision: 12,
                    scale: 2,
                },
                nullable: true,
            },
        ],
        data_type: DataType::Decimal {
            precision: 12,
            scale: 2,
        },
        nullable: true,
    };
    let row = [
        Value::Int64(7),
        Value::Decimal {
            value: 125,
            precision: 12,
            scale: 2,
        },
    ];

    assert_decimal(
        expression.on_row(&row).unwrap(),
        700,
        12,
        2,
    );
}

#[test]
fn variable_evaluation() {
    let user_var = Expr::Variable {
        name: "x".into(),
        is_system: false,
    };
    let sys_var = Expr::Variable {
        name: "autocommit".into(),
        is_system: true,
    };

    // No variable context at all: user variable defaults to NULL, system variable errors.
    assert_eq!(
        user_var.on_row(&[]).unwrap(),
        Value::Null
    );
    assert!(sys_var.on_row(&[]).is_err());

    // With a lookup: values come from it, and unknown system variables still error.
    let mut vars = std::collections::BTreeMap::new();
    vars.insert("x", Value::Int64(7));
    vars.insert("autocommit", Value::Int64(1));
    let fake = FakeVars(vars);
    assert_eq!(fake.eval(&user_var).unwrap(), Value::Int64(7));
    assert_eq!(fake.eval(&sys_var).unwrap(), Value::Int64(1));
    let unknown = Expr::Variable {
        name: "no_such_var".into(),
        is_system: true,
    };
    assert!(fake.eval(&unknown).is_err());
}
