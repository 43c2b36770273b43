use htap_sql::answers::{Answers, Reply};
use htap_sql::eval::{and3, like_match, or3, EvalContext, EvalServices, SubqueryBudget};
use htap_sql::expr::{BinOp, Expr, ExprType, ScalarFn};
use htap_sql::names::{rebase_expr, union_type};
use htap_sql::query::{PeerFrameBound, RowFrameBound, WindowFrameDirection};
use htap_sql::requests::{begin, finish, Work};
use htap_sql::typing::{
    peer_frame_bound_position, row_frame_bound_position, validate_peer_frame_bounds,
    validate_row_frame_bounds,
};
use htap_sql::value::{DataType, HtapError, Request, Row, Value};

fn value(e: &Expr) -> Result<Value, HtapError> {
    e.eval_constant(&Answers::new())
}

fn lit(v: Value) -> Expr {
    Expr::Literal(v)
}

fn text(s: &str) -> Expr {
    lit(Value::String(s.into()))
}

fn values() -> Vec<Expr> {
    vec![
        lit(Value::Null),
        lit(Value::Int64(1)),
        lit(Value::Int64(2)),
        lit(Value::Int64(3)),
    ]
}

fn opposite(v: Value) -> Value {
    match v {
        Value::Bool(b) => Value::Bool(!b),
        other => other,
    }
}

#[test]
fn connectives_are_those_of_kleene() {
    let all = [None, Some(false), Some(true)];
    for a in all {
        for b in all {
            assert_eq!(and3(a, b), and3(b, a));
            assert_eq!(or3(a, b), or3(b, a));
            assert_eq!(
                and3(a, b).map(|x| !x),
                or3(a.map(|x| !x), b.map(|x| !x))
            );
        }
    }
    assert_eq!(and3(None, Some(false)), Some(false));
    assert_eq!(or3(None, Some(true)), Some(true));
    assert_eq!(and3(None, Some(true)), None);
}

#[test]
fn negated_tests_give_the_opposite() {
    for x in values() {
        for low in values() {
            for high in values() {
                let between = |negated: bool| {
                    value(&Expr::Between {
                        expr: Box::new(x.clone()),
                        low: Box::new(low.clone()),
                        high: Box::new(high.clone()),
                        negated,
                    })
                    .unwrap()
                };
                assert_eq!(between(true), opposite(between(false)));
                let among = |negated: bool| {
                    value(&Expr::In {
                        expr: Box::new(x.clone()),
                        list: vec![low.clone(), high.clone()],
                        negated,
                    })
                    .unwrap()
                };
                assert_eq!(among(true), opposite(among(false)));
            }
        }
    }
}

#[test]
fn comparisons_turn() {
    let turned = [
        (BinOp::Eq, BinOp::Eq),
        (BinOp::NotEq, BinOp::NotEq),
        (BinOp::Lt, BinOp::Gt),
        (BinOp::Lte, BinOp::Gte),
    ];
    for (op, other) in turned {
        for a in values() {
            for b in values() {
                let e = Expr::BinaryOp {
                    op,
                    left: Box::new(a.clone()),
                    right: Box::new(b.clone()),
                };
                let f = Expr::BinaryOp {
                    op: other,
                    left: Box::new(b.clone()),
                    right: Box::new(a.clone()),
                };
                assert_eq!(value(&e).unwrap(), value(&f).unwrap());
            }
        }
    }
}

#[test]
fn false_decides_a_conjunction() {
    let overflow = Expr::BinaryOp {
        op: BinOp::Add,
        left: Box::new(lit(Value::Int64(i64::MAX))),
        right: Box::new(lit(Value::Int64(1))),
    };
    let with = |first: Value| Expr::BinaryOp {
        op: BinOp::And,
        left: Box::new(lit(first)),
        right: Box::new(Expr::BinaryOp {
            op: BinOp::Gt,
            left: Box::new(overflow.clone()),
            right: Box::new(lit(Value::Int64(0))),
        }),
    };
    assert_eq!(value(&with(Value::Bool(false))).unwrap(), Value::Bool(false));
    assert!(value(&with(Value::Bool(true))).is_err());
}

#[test]
fn cases_take_the_first_true_branch() {
    let e = Expr::Case {
        operand: None,
        branches: vec![
            (lit(Value::Null), text("null")),
            (lit(Value::Bool(true)), text("first")),
            (lit(Value::Bool(true)), text("second")),
        ],
        else_result: Some(Box::new(text("else"))),
        data_type: DataType::String,
        nullable: false,
    };
    assert_eq!(value(&e).unwrap(), Value::String("first".into()));
}

#[test]
fn patterns_match_in_any_case() {
    assert!(like_match("STRASSE", "str%"));
    assert!(like_match("ÄPFEL", "ä_fel"));
    assert!(!like_match("abc", "ab"));
    assert!(like_match("", "%"));
    assert!(like_match("a%b", "a%b"));
    assert!(!like_match("", "_"));
}

#[test]
fn case_of_text_follows_unicode() {
    let call = |func: ScalarFn, s: &str| {
        value(&Expr::ScalarFunction {
            func,
            args: vec![text(s)],
            data_type: DataType::String,
            nullable: false,
        })
        .unwrap()
    };
    assert_eq!(call(ScalarFn::Upper, "straße"), Value::String("STRASSE".into()));
    assert_eq!(call(ScalarFn::Lower, "ÉTÉ"), Value::String("été".into()));
}

#[test]
fn a_subquery_counts_once() {
    let row = vec![Value::Int64(7), Value::Null];
    let mut budget = SubqueryBudget::new(2, 1);
    let request = Request::Subquery {
        index: 3,
        outer_row: row.clone(),
    };
    match begin(request.clone(), &mut budget) {
        Work::Run { index, outer_row } => {
            assert_eq!(index, 3);
            assert_eq!(outer_row, row);
        }
        other => panic!("{other:?}"),
    }
    assert_eq!((budget.invocations, budget.depth), (1, 1));
    match begin(request.clone(), &mut budget) {
        Work::Done(Reply::Refused(e)) => assert_eq!(
            e,
            HtapError::InvalidArgument("correlated subquery nesting-depth cap (1) exceeded".into())
        ),
        other => panic!("{other:?}"),
    }
    assert_eq!((budget.invocations, budget.depth), (1, 1));
    match finish(Err(HtapError::Internal("lost".into())), &mut budget) {
        Reply::Refused(e) => assert_eq!(e, HtapError::Internal("lost".into())),
        other => panic!("{other:?}"),
    }
    assert_eq!((budget.invocations, budget.depth), (1, 0));
    assert!(matches!(begin(request.clone(), &mut budget), Work::Run { .. }));
    match finish(Ok(vec![Row::new(row.clone())]), &mut budget) {
        Reply::Rows(rows) => assert_eq!(rows, vec![Row::new(row)]),
        other => panic!("{other:?}"),
    }
    match begin(request, &mut budget) {
        Work::Done(Reply::Refused(e)) => assert_eq!(
            e,
            HtapError::InvalidArgument("correlated subquery invocation cap (2) exceeded".into())
        ),
        other => panic!("{other:?}"),
    }
    let variable = Request::Variable {
        name: "a".into(),
        is_system: true,
    };
    assert!(matches!(
        begin(variable, &mut budget),
        Work::Look { name, is_system: true } if name == "a"
    ));
    assert_eq!((budget.invocations, budget.depth), (2, 0));
}

#[test]
fn a_subquery_is_asked_for_with_the_row() {
    let expr = Expr::ScalarSubquery {
        index: 0,
        data_type: DataType::Int64,
        correlated: true,
    };
    let asked = |row: &[Value], answers: &Answers| {
        expr.eval(&EvalContext {
            row,
            current_outer_row: Some(&[Value::Int64(5)]),
            aggregates: &[],
            output: None,
            subqueries: &[],
            services: EvalServices {
                variables: false,
                subquery_runner: true,
                subquery_budget: true,
            },
            answers,
        })
    };
    let request = |n: i64| Request::Subquery {
        index: 0,
        outer_row: vec![Value::Int64(n)],
    };
    let mut answers = Answers::new();
    assert_eq!(
        asked(&[Value::Int64(1)], &answers),
        Err(HtapError::Pending(request(1)))
    );
    answers.add(request(1), Reply::Rows(vec![Row::new(vec![Value::Int64(10)])]));
    assert_eq!(asked(&[Value::Int64(1)], &answers), Ok(Value::Int64(10)));
    assert_eq!(
        asked(&[Value::Int64(2)], &answers),
        Err(HtapError::Pending(request(2)))
    );
}

#[test]
fn leaving_a_subquery_undoes_entering_it() {
    let mut budget = SubqueryBudget::new(3, 2);
    budget.enter().unwrap();
    budget.enter().unwrap();
    assert_eq!(
        budget.enter().unwrap_err(),
        HtapError::InvalidArgument("correlated subquery nesting-depth cap (2) exceeded".into())
    );
    budget.exit();
    budget.enter().unwrap();
    assert_eq!(
        budget.enter().unwrap_err(),
        HtapError::InvalidArgument("correlated subquery invocation cap (3) exceeded".into())
    );
    budget.exit();
    budget.exit();
    assert_eq!(budget.depth, 0);
}

#[test]
fn further_answers_change_no_settled_value() {
    let e = Expr::Variable {
        name: "x".into(),
        is_system: false,
    };
    let request = || Request::Variable {
        name: "x".into(),
        is_system: false,
    };
    let mut answers = Answers::new();
    let at = |answers: &Answers| {
        let mut c = EvalContext::row_only(&[], answers);
        c.services.variables = true;
        e.eval(&c)
    };
    assert_eq!(at(&answers).unwrap_err(), HtapError::Pending(request()));
    answers.add(request(), Reply::Value(Value::Int64(5)));
    assert_eq!(at(&answers).unwrap(), Value::Int64(5));
    answers.add(request(), Reply::Value(Value::Int64(6)));
    assert_eq!(at(&answers).unwrap(), Value::Int64(5));
}

#[test]
fn common_types_do_not_depend_on_the_order() {
    let types = [
        DataType::Bool,
        DataType::Int32,
        DataType::Int64,
        DataType::Float64,
        DataType::String,
        DataType::Timestamp,
        DataType::Decimal {
            precision: 5,
            scale: 2,
        },
    ];
    for a in types {
        for b in types {
            assert_eq!(union_type(a, b), union_type(b, a));
        }
    }
    assert_eq!(
        union_type(DataType::Int32, DataType::Float64).unwrap(),
        DataType::Float64
    );
}

#[test]
fn frames_do_not_end_before_they_start() {
    let back = RowFrameBound::Offset {
        value: 2,
        direction: WindowFrameDirection::Preceding,
    };
    let here = RowFrameBound::CurrentRow;
    assert!(validate_row_frame_bounds(&back, &here).is_ok());
    assert!(validate_row_frame_bounds(&here, &back).is_err());
    assert!(row_frame_bound_position(&back) < row_frame_bound_position(&here));
    assert!(validate_peer_frame_bounds(
        PeerFrameBound::CurrentRow,
        PeerFrameBound::CurrentRow
    )
    .is_ok());
    assert_eq!(peer_frame_bound_position(PeerFrameBound::CurrentRow), 0);
}

#[test]
fn rebasing_by_nothing_changes_nothing() {
    let e = Expr::ColumnRef {
        slot: 1,
        column: 2,
        offset: 5,
        name: "c".into(),
        data_type: DataType::Int64,
        nullable: true,
    };
    assert_eq!(rebase_expr(&e, 0, 0).unwrap(), e);
    match rebase_expr(&e, 3, 0).unwrap() {
        Expr::ColumnRef { offset, .. } => assert_eq!(offset, 2),
        other => panic!("{other:?}"),
    }
    assert!(rebase_expr(&e, 6, 0).is_err());
}

#[test]
fn expressions_tell_what_they_refer_to() {
    let column = Expr::ColumnRef {
        slot: 0,
        column: 1,
        offset: 1,
        name: "c".into(),
        data_type: DataType::Int64,
        nullable: true,
    };
    assert!(Expr::IsNull(Box::new(column)).references_columns());
    assert!(!text("a").references_columns());
}

#[test]
fn types_without_null_have_values() {
    let pair = |op: BinOp, a: i64, b: i64| Expr::BinaryOp {
        op,
        left: Box::new(lit(Value::Int64(a))),
        right: Box::new(lit(Value::Int64(b))),
    };
    for op in [BinOp::IntDiv, BinOp::Mod] {
        assert!(pair(op, 7, 0).expr_type().nullable);
        assert_eq!(value(&pair(op, 7, 0)), Ok(Value::Null));
    }
    assert!(pair(BinOp::Div, 7, 2).expr_type().nullable);
    for (op, expected) in [
        (BinOp::Add, Value::Int64(9)),
        (BinOp::Sub, Value::Int64(5)),
        (BinOp::Mul, Value::Int64(14)),
        (BinOp::Lt, Value::Bool(false)),
    ] {
        assert!(!pair(op, 7, 2).expr_type().nullable);
        assert_eq!(value(&pair(op, 7, 2)), Ok(expected));
    }
    let either = Expr::ScalarFunction {
        func: ScalarFn::Coalesce,
        args: vec![lit(Value::Null), lit(Value::Int64(3))],
        data_type: DataType::Int64,
        nullable: false,
    };
    assert_eq!(value(&either), Ok(Value::Int64(3)));
}

#[test]
fn integers_and_doubles_are_numeric() {
    for data_type in [DataType::Int32, DataType::Int64, DataType::Float64] {
        assert!(ExprType::new(data_type, true).is_numeric());
    }
    for data_type in [
        DataType::Bool,
        DataType::String,
        DataType::Timestamp,
        DataType::Decimal { precision: 9, scale: 2 },
    ] {
        assert!(!ExprType::new(data_type, true).is_numeric());
    }
}
