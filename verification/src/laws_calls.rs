//! Laws of calls: a bound function, aggregate or window is the one that is written.

use crate::expr::{AggFn, ExprView, ScalarFn};
use crate::laws_queries::{numerals_denote_their_numbers, sorts_as_written, writes};
use crate::model_calls::{aggregate_named, scalar_call, HeadView, Mode};
use crate::model_expr::{
    bind_aggregate_of, bind_frame_of, bind_list_of, bind_of, bind_over_of, bind_window_order_of,
    window_head_of,
};
use crate::query::{
    FrameView, OrderView, PeerFrameBound, RowFrameBound, WindowFrameDirection, WindowFunctionKind,
};
use crate::scope::{Env, ScopeView, StateView};
use crate::sql::{
    FrameBound, FrameUnits, FunctionArg, OrderByExpr, SqlExpr, SqlFrame, SqlValue, SqlWindow,
};
use crate::typing::literal_view;
use crate::value::{DataType, ErrorView, ValueView};
use vstd::prelude::*;

verus! {

/// Whether a scalar function has a name.
pub open spec fn function_has_name(func: ScalarFn, name: Seq<char>) -> bool {
    match func {
        ScalarFn::Upper => name == "UPPER"@ || name == "UCASE"@,
        ScalarFn::Lower => name == "LOWER"@ || name == "LCASE"@,
        ScalarFn::Length => name == "LENGTH"@ || name == "OCTET_LENGTH"@,
        ScalarFn::CharLength => name == "CHAR_LENGTH"@ || name == "CHARACTER_LENGTH"@,
        ScalarFn::Concat => name == "CONCAT"@,
        ScalarFn::Abs => name == "ABS"@,
        ScalarFn::Coalesce => name == "COALESCE"@,
        ScalarFn::IfNull => name == "IFNULL"@,
        ScalarFn::NullIf => name == "NULLIF"@,
        ScalarFn::Substring => false,
        ScalarFn::Extract(_) => false,
    }
}

/// A call is bound to the function of its name, with the arguments in their order, and calls of the
/// same function under another of its names are bound alike.
pub proof fn calls_are_those_of_their_names(name: Seq<char>, args: Seq<ExprView>)
    requires
        scalar_call(name, args) is Ok,
    ensures
        scalar_call(name, args)->Ok_0 matches ExprView::ScalarFunction { func, args: list, .. }
            && list == args && function_has_name(func, name),
{
}

/// The name of an aggregate.
pub open spec fn aggregate_name(func: AggFn) -> Seq<char> {
    match func {
        AggFn::CountStar => "COUNT"@,
        AggFn::Count => "COUNT"@,
        AggFn::Sum => "SUM"@,
        AggFn::Avg => "AVG"@,
        AggFn::Min => "MIN"@,
        AggFn::Max => "MAX"@,
    }
}

/// The names of aggregates are those of the five functions, and each names its own.
pub proof fn aggregates_are_those_of_their_names(name: Seq<char>)
    ensures
        match aggregate_named(name) {
            Some(f) => aggregate_name(f) == name && f != AggFn::CountStar,
            None => name != "COUNT"@ && name != "SUM"@ && name != "AVG"@ && name != "MIN"@ && name
                != "MAX"@,
        },
{
}

proof fn lemma_collected(st: StateView, spec: crate::expr::AggregateView)
    ensures
        ({
            let (e, after) = crate::model_calls::aggregate_ref(st, spec);
            &&& e is AggregateRef
            &&& st.aggregates.len() < usize::MAX ==> e->AggregateRef_index < after.aggregates.len()
                && after.aggregates[e->AggregateRef_index as int] == spec
            &&& st.aggregates.is_prefix_of(after.aggregates)
            &&& after.subqueries == st.subqueries
            &&& after.windows == st.windows
        }),
{
    crate::names::lemma_first_at(st.aggregates, crate::model_calls::same_aggregate(spec), 0);
}

/// A bound aggregate refers to one that is collected: the written function of the written argument,
/// of distinct values where `DISTINCT` is written, and `COUNT(*)` where the argument is `*`.
pub proof fn aggregates_are_collected_as_written(
    cx: Env<'_>,
    sc: ScopeView,
    st: StateView,
    m: Mode,
    func: AggFn,
    distinct: bool,
    args: Vec<FunctionArg>,
    name: Seq<char>,
)
    requires
        bind_aggregate_of(cx, sc, st, m, func, distinct, args, name) is Ok,
    ensures
        ({
            let (b, after) = bind_aggregate_of(cx, sc, st, m, func, distinct, args, name)->Ok_0;
            match args@[0] {
                FunctionArg::Wildcard => {
                    &&& func == AggFn::Count
                    &&& !distinct
                    &&& st.aggregates.len() < usize::MAX ==> refers_to_aggregate(
                        b,
                        after,
                        AggFn::CountStar,
                        false,
                        None,
                    )
                },
                FunctionArg::Expr(e) => bind_of(
                    cx,
                    sc,
                    st,
                    Mode { in_aggregate: true, in_window: m.in_window },
                    e,
                ) matches Ok((x, st2)) && (st2.aggregates.len() < usize::MAX
                    ==> refers_to_aggregate(b, after, func, distinct, Some(x))),
                FunctionArg::Other => false,
            }
        }),
{
    match args@[0] {
        FunctionArg::Wildcard => {
            lemma_collected(st, crate::model_calls::count_star());
        },
        FunctionArg::Expr(e) => {
            let inner = Mode { in_aggregate: true, in_window: m.in_window };
            match bind_of(cx, sc, st, inner, e) {
                Ok((x, st2)) => {
                    match crate::model_calls::aggregate_type(func, x, name) {
                        Ok((data_type, nullable)) => {
                            lemma_collected(
                                st2,
                                crate::expr::AggregateView {
                                    func,
                                    distinct,
                                    arg: Some(x),
                                    data_type,
                                    nullable,
                                    name: crate::model_calls::aggregate_display(
                                        name,
                                        distinct,
                                        e.text@,
                                    ),
                                },
                            );
                        },
                        Err(_) => {},
                    }
                },
                Err(_) => {},
            }
        },
        FunctionArg::Other => {},
    }
}

/// Whether an expression refers to a collected aggregate of the given kind.
pub open spec fn refers_to_aggregate(
    b: ExprView,
    after: StateView,
    func: AggFn,
    distinct: bool,
    arg: Option<ExprView>,
) -> bool {
    b matches ExprView::AggregateRef { index, .. } && index < after.aggregates.len() && {
        let a = after.aggregates[index as int];
        a.func == func && a.distinct == distinct && a.arg == arg
    }
}

/// The name of a window function.
pub open spec fn window_name(kind: WindowFunctionKind) -> Seq<char> {
    match kind {
        WindowFunctionKind::RowNumber => "ROW_NUMBER"@,
        WindowFunctionKind::Rank => "RANK"@,
        WindowFunctionKind::DenseRank => "DENSE_RANK"@,
        WindowFunctionKind::Ntile => "NTILE"@,
        WindowFunctionKind::Lag => "LAG"@,
        WindowFunctionKind::Lead => "LEAD"@,
        WindowFunctionKind::CountStar => "COUNT"@,
        WindowFunctionKind::Count => "COUNT"@,
        WindowFunctionKind::Sum => "SUM"@,
        WindowFunctionKind::Avg => "AVG"@,
        WindowFunctionKind::Min => "MIN"@,
        WindowFunctionKind::Max => "MAX"@,
        WindowFunctionKind::FirstValue => "FIRST_VALUE"@,
        WindowFunctionKind::LastValue => "LAST_VALUE"@,
    }
}

/// Whether a window function has a name and the arguments it is written with: `COUNT` of `*` counts
/// rows, and `LAG` and `LEAD` look one row away and give `NULL` where nothing else is written.
pub open spec fn head_fits(head: HeadView, args: Seq<FunctionArg>, name: Seq<char>) -> bool {
    &&& window_name(head.kind) == name
    &&& (head.kind is CountStar ==> args[0] is Wildcard)
    &&& (head.kind is Count ==> args[0] is Expr)
    &&& (head.kind is Lag || head.kind is Lead) && args.len() == 1 ==> head.args.len() == 3
        && head.args[1] == ExprView::Literal(ValueView::Int64(1)) && head.args[2]
        == ExprView::Literal(ValueView::Null)
}

proof fn lemma_lag(
    cx: Env<'_>,
    sc: ScopeView,
    st: StateView,
    m: Mode,
    args: Vec<FunctionArg>,
    name: Seq<char>,
)
    requires
        name == "LAG"@ || name == "LEAD"@,
        args@.len() > 0 ==> args@[0] is Expr,
    ensures
        crate::model_expr::window_lag_of(cx, sc, st, m, args, name) matches Ok(h) ==> head_fits(
            h,
            args@,
            name,
        ),
{
}

proof fn lemma_one_argument(name: Seq<char>, b: ExprView)
    requires
        crate::model_calls::is_framed(name),
        name != "COUNT"@,
    ensures
        crate::model_calls::one_argument_window(name, b) matches Ok((kind, _)) ==> window_name(kind)
            == name && !(kind is CountStar) && !(kind is Count) && !(kind is Lag) && !(
        kind is Lead),
{
}

proof fn lemma_value_window(
    cx: Env<'_>,
    sc: ScopeView,
    st: StateView,
    m: Mode,
    args: Vec<FunctionArg>,
    name: Seq<char>,
)
    requires
        crate::model_calls::is_framed(name),
        name != "COUNT"@,
        args@.len() > 0 ==> args@[0] is Expr,
    ensures
        crate::model_expr::window_value_of(cx, sc, st, m, args, name) matches Ok(h) ==> head_fits(
            h,
            args@,
            name,
        ),
{
    if args@.len() == 1 {
        match args@[0] {
            FunctionArg::Expr(e) => match bind_of(
                cx,
                sc,
                st,
                crate::model_expr::inside_window(m),
                e,
            ) {
                Ok((b, _)) => {
                    lemma_one_argument(name, b);
                },
                Err(_) => {},
            },
            _ => {},
        }
    }
}

proof fn lemma_count_window(
    cx: Env<'_>,
    sc: ScopeView,
    st: StateView,
    m: Mode,
    args: Vec<FunctionArg>,
)
    ensures
        crate::model_expr::window_count_of(cx, sc, st, m, args) matches Ok(h) ==> head_fits(
            h,
            args@,
            "COUNT"@,
        ),
{
}

proof fn lemma_numbering(name: Seq<char>, args: Seq<FunctionArg>, st: StateView)
    ensures
        (name == "ROW_NUMBER"@ || name == "RANK"@ || name == "DENSE_RANK"@) ==> (
        crate::model_calls::numbering_head(name, args.len(), st) matches Ok(h) ==> head_fits(
            h,
            args,
            name,
        )),
        name == "NTILE"@ ==> (crate::model_calls::ntile_head(name, args, st) matches Ok(h)
            ==> head_fits(h, args, name)),
{
}

/// A window function is the one that is named, with the arguments it is written with.
pub proof fn windows_are_those_of_their_names(
    cx: Env<'_>,
    sc: ScopeView,
    st: StateView,
    m: Mode,
    args: Vec<FunctionArg>,
    name: Seq<char>,
)
    requires
        window_head_of(cx, sc, st, m, args, name) is Ok,
        name != "COUNT"@ ==> forall|k: int| 0 <= k < args@.len() ==> (#[trigger] args@[k]) is Expr,
    ensures
        head_fits(window_head_of(cx, sc, st, m, args, name)->Ok_0, args@, name),
{
    lemma_numbering(name, args@, st);
    lemma_count_window(cx, sc, st, m, args);
    if name == "LAG"@ || name == "LEAD"@ {
        reveal_strlit("COUNT");
        reveal_strlit("LAG");
        reveal_strlit("LEAD");
        lemma_lag(cx, sc, st, m, args, name);
    } else if crate::model_calls::is_framed(name) && name != "COUNT"@ {
        lemma_value_window(cx, sc, st, m, args, name);
    }
}

/// Where a bound of a `ROWS` frame lies, counted in rows from the current one.
pub open spec fn lies_at(b: RowFrameBound, n: int) -> bool {
    match b {
        RowFrameBound::CurrentRow => n == 0,
        RowFrameBound::Offset { value, direction: WindowFrameDirection::Preceding } => n == -(
        value as int),
        RowFrameBound::Offset { value, direction: WindowFrameDirection::Following } => n
            == value as int,
        RowFrameBound::Unbounded(_) => false,
    }
}

/// Whether a bound of a `ROWS` frame is the written one: so many rows before or behind the current
/// one, or no bound at all on a side.
pub open spec fn row_bound_is(b: RowFrameBound, written: FrameBound, n: u64) -> bool {
    match written {
        FrameBound::CurrentRow => lies_at(b, 0),
        FrameBound::Preceding(None) => b == RowFrameBound::Unbounded(WindowFrameDirection::Preceding),
        FrameBound::Following(None) => b == RowFrameBound::Unbounded(WindowFrameDirection::Following),
        FrameBound::Preceding(Some(e)) => writes(*e, n as nat) ==> lies_at(b, -(n as int)),
        FrameBound::Following(Some(e)) => writes(*e, n as nat) ==> lies_at(b, n as int),
    }
}

/// Whether a bound of a `RANGE` frame without offsets is the written one.
pub open spec fn peer_bound_is(b: PeerFrameBound, written: FrameBound) -> bool {
    match written {
        FrameBound::CurrentRow => b == PeerFrameBound::CurrentRow,
        FrameBound::Preceding(None) => b == PeerFrameBound::Unbounded(
            WindowFrameDirection::Preceding,
        ),
        FrameBound::Following(None) => b == PeerFrameBound::Unbounded(
            WindowFrameDirection::Following,
        ),
        _ => false,
    }
}

/// The written end of a frame; the current row where none is written.
pub open spec fn written_end(f: SqlFrame) -> FrameBound {
    match f.end {
        Some(b) => b,
        None => FrameBound::CurrentRow,
    }
}

/// A frame reaches from where its start is written to where its end is written. Without a frame it
/// reaches from the first row of the partition to the peers of the current row where there is an
/// order, and over the whole partition where there is none.
pub proof fn frames_reach_as_written(
    cx: Env<'_>,
    sc: ScopeView,
    st: StateView,
    m: Mode,
    frame: Option<SqlFrame>,
    order_by: Seq<OrderView>,
    first: u64,
    last: u64,
)
    requires
        bind_frame_of(cx, sc, st, m, frame, order_by) is Ok,
    ensures
        match (frame, bind_frame_of(cx, sc, st, m, frame, order_by)->Ok_0.0) {
            (None, FrameView::Whole) => order_by.len() == 0,
            (None, FrameView::PeerRange { start, end }) => order_by.len() > 0 && start
                == PeerFrameBound::Unbounded(WindowFrameDirection::Preceding) && end
                == PeerFrameBound::CurrentRow,
            (Some(f), FrameView::Rows { start, end }) => f.units is Rows && row_bound_is(
                start,
                f.start,
                first,
            ) && row_bound_is(end, written_end(f), last),
            (Some(f), FrameView::PeerRange { start, end }) => f.units is Range && peer_bound_is(
                start,
                f.start,
            ) && peer_bound_is(end, written_end(f)),
            (Some(f), FrameView::ValueRange { .. }) => f.units is Range,
            _ => false,
        },
{
    numerals_denote_their_numbers(first as nat);
    numerals_denote_their_numbers(last as nat);
    match frame {
        Some(f) => match f.units {
            FrameUnits::Range => {
                if crate::model_calls::has_offset(f.start) || crate::model_calls::has_offset(
                    crate::model_calls::frame_end(f),
                ) {
                    assert(bind_frame_of(cx, sc, st, m, frame, order_by)
                        == crate::model_expr::bind_range_of(cx, sc, st, m, f, order_by));
                }
            },
            _ => {},
        },
        None => {},
    }
}

/// The order of a window has a key for each written one, and each sorts as it is written.
pub proof fn windows_are_ordered_as_written(
    cx: Env<'_>,
    sc: ScopeView,
    st: StateView,
    m: Mode,
    list: Vec<OrderByExpr>,
    i: int,
    acc: Seq<OrderView>,
)
    requires
        0 <= i <= list@.len(),
        acc.len() == i,
        bind_window_order_of(cx, sc, st, m, list, i, acc) is Ok,
    ensures
        ({
            let all = bind_window_order_of(cx, sc, st, m, list, i, acc)->Ok_0.0;
            &&& all.len() == list@.len()
            &&& forall|k: int| 0 <= k < i ==> all[k] == acc[k]
            &&& forall|k: int| i <= k < all.len() ==> sorts_as_written(#[trigger] all[k], list@[k])
            &&& i < list@.len() ==> (bind_of(cx, sc, st, m, list@[i].expr) matches Ok((key, _))
                && all[i].expr == key)
        }),
    decreases list@.len() - i,
{
    if i < list@.len() {
        let (key, st2) = bind_of(cx, sc, st, m, list@[i].expr)->Ok_0;
        let item = crate::model_expr::order_item(list@[i], key);
        windows_are_ordered_as_written(cx, sc, st2, m, list, i + 1, acc.push(item));
        assert(acc.push(item)[i] == item);
    }
}

proof fn lemma_list(
    cx: Env<'_>,
    sc: ScopeView,
    st: StateView,
    m: Mode,
    list: Vec<SqlExpr>,
    i: int,
    acc: Seq<ExprView>,
)
    requires
        0 <= i <= list@.len(),
        acc.len() == i,
        bind_list_of(cx, sc, st, m, list, i, acc) is Ok,
    ensures
        bind_list_of(cx, sc, st, m, list, i, acc)->Ok_0.0.len() == list@.len(),
    decreases list@.len() - i,
{
    if i < list@.len() {
        let (b, st2) = bind_of(cx, sc, st, m, list@[i])->Ok_0;
        lemma_list(cx, sc, st2, m, list, i + 1, acc.push(b));
    }
}

/// A window function is collected with its function, its arguments, as many partition keys and order
/// keys as are written, and refers to what is collected.
pub proof fn windows_are_collected_as_written(
    cx: Env<'_>,
    sc: ScopeView,
    m: Mode,
    head: HeadView,
    name: Seq<char>,
    w: SqlWindow,
)
    requires
        bind_over_of(cx, sc, m, head, name, w) is Ok,
    ensures
        ({
            let (b, after) = bind_over_of(cx, sc, m, head, name, w)->Ok_0;
            let spec = after.windows.last();
            &&& b is WindowRef
            &&& b->WindowRef_index == (after.windows.len() - 1) as usize
            &&& spec.func == head.kind
            &&& spec.args == head.args
            &&& spec.data_type == head.data_type
            &&& spec.partition_by.len() == w.partition_by@.len()
            &&& spec.order_by.len() == w.order_by@.len()
            &&& forall|k: int|
                0 <= k < spec.order_by.len() ==> sorts_as_written(
                    #[trigger] spec.order_by[k],
                    w.order_by@[k],
                )
        }),
{
    let inside = crate::model_expr::inside_window(m);
    lemma_list(cx, sc, head.st, inside, w.partition_by, 0, Seq::empty());
    let st2 = bind_list_of(cx, sc, head.st, inside, w.partition_by, 0, Seq::empty())->Ok_0.1;
    windows_are_ordered_as_written(cx, sc, st2, inside, w.order_by, 0, Seq::empty());
}

/// A written literal is bound to its value: `NULL`, a truth value, a text, or the number that a
/// numeral denotes.
pub proof fn literals_are_bound_to_their_values(v: SqlValue, text: Seq<char>, n: nat)
    ensures
        match v {
            SqlValue::Null => literal_view(v, text) == Ok::<ExprView, ErrorView>(
                ExprView::Literal(ValueView::Null),
            ),
            SqlValue::Boolean(b) => literal_view(v, text) == Ok::<ExprView, ErrorView>(
                ExprView::Literal(ValueView::Bool(b)),
            ),
            SqlValue::SingleQuoted(s) => literal_view(v, text) == Ok::<ExprView, ErrorView>(
                ExprView::Literal(ValueView::String(s@)),
            ),
            SqlValue::DoubleQuoted(s) => literal_view(v, text) == Ok::<ExprView, ErrorView>(
                ExprView::Literal(ValueView::String(s@)),
            ),
            SqlValue::Number { digits, .. } => digits@ == crate::text::nat_text(n) && n <= i64::MAX
                ==> literal_view(v, text) == Ok::<ExprView, ErrorView>(
                ExprView::Literal(ValueView::Int64(n as i64)),
            ),
            _ => true,
        },
{
    numerals_denote_their_numbers(n);
    crate::laws_conditions::lemma_numeral_text(n);
}

/// The type and nullability of an aggregate: a count is an integer and never `NULL`; the least and the
/// greatest value have the type of the argument; a sum is a double of doubles, keeps the digits behind
/// the point of decimals, and is else an integer; an average has four more digits behind the point of
/// decimals, at most as many as there are, and is else a double. All but counts can be `NULL`.
pub proof fn aggregates_have_their_types(func: AggFn, arg: ExprView, name: Seq<char>)
    requires
        crate::model_calls::aggregate_type(func, arg, name) is Ok,
    ensures
        ({
            let (t, nullable) = crate::model_calls::aggregate_type(func, arg, name)->Ok_0;
            let a = crate::expr::type_of(arg).data_type;
            &&& nullable == (func != AggFn::Count && func != AggFn::CountStar)
            &&& match func {
                AggFn::Count => t == DataType::Int64,
                AggFn::CountStar => t == DataType::Int64,
                AggFn::Min => t == a,
                AggFn::Max => t == a,
                AggFn::Sum => match a {
                    DataType::Float64 => t == DataType::Float64,
                    DataType::Decimal { scale, .. } => t matches DataType::Decimal { scale: s, .. }
                        && s == scale,
                    _ => t == DataType::Int64,
                },
                AggFn::Avg => match a {
                    DataType::Decimal { scale, .. } => t matches DataType::Decimal {
                        precision,
                        scale: s,
                    } && (s == scale + 4 || (s == precision && scale + 4 > precision)),
                    _ => t == DataType::Float64,
                },
            }
        }),
{
}

/// `@name` is a variable of the user, and `@@name` one of the system, each under the name behind the
/// signs; other names are no variables.
pub proof fn variables_are_marked_by_signs(raw: Seq<char>)
    ensures
        match crate::typing::variable_ident(raw) {
            Ok(Some(e)) => e matches ExprView::Variable { name, is_system } && name.len() > 0 && (
            if is_system {
                raw == seq!['@', '@'] + name
            } else {
                raw == seq!['@'] + name && name[0] != '@'
            }),
            Ok(None) => raw.len() == 0 || raw[0] != '@',
            Err(_) => raw == seq!['@'] || raw == seq!['@', '@'],
        },
{
    if raw.len() > 0 && raw[0] == '@' {
        if raw.len() > 1 && raw[1] == '@' {
            assert(raw =~= seq!['@', '@'] + raw.skip(2));
        } else {
            assert(raw =~= seq!['@'] + raw.skip(1));
        }
    }
}

/// `EXTRACT` and intervals are of the written unit.
pub open spec fn unit_is_written(
    unit: crate::expr::CalendarIntervalUnit,
    field: crate::sql::DateTimeField,
) -> bool {
    match unit {
        crate::expr::CalendarIntervalUnit::Year => field is Year,
        crate::expr::CalendarIntervalUnit::Month => field is Month,
        crate::expr::CalendarIntervalUnit::Day => field is Day,
    }
}

/// `EXTRACT` reads the written field, and an interval is the written number of the written unit, taken
/// off where a minus sign stands before it.
pub proof fn intervals_are_as_written(
    timestamp: ExprView,
    value: SqlExpr,
    unit: Option<crate::sql::DateTimeField>,
    negated: bool,
    field: crate::sql::DateTimeField,
    n: nat,
)
    ensures
        crate::model_calls::extract_unit(field) matches Ok(u) ==> unit_is_written(u, field),
        crate::model_calls::shifted(timestamp, value, unit, negated) matches Ok(e) ==> (
        e matches ExprView::CalendarInterval { expr, quantity, unit: u, negated: m } && *expr
            == timestamp && m == negated && (unit matches Some(f) && unit_is_written(u, f)) && (
        writes(value, n) && n <= i64::MAX ==> *quantity == ExprView::Literal(
            ValueView::Int64(n as i64),
        ))),
{
    numerals_denote_their_numbers(n);
}

/// A call is an aggregate where its name is that of one, in any letter case, and then of distinct
/// values exactly where `DISTINCT` is written; else it is a scalar function.
pub proof fn calls_take_over_distinct(
    cx: Env<'_>,
    sc: ScopeView,
    st: StateView,
    m: Mode,
    f: crate::sql::Function,
    list: crate::sql::ArgumentList,
    written: Seq<char>,
)
    requires
        f.over is None,
        f.args == crate::sql::FunctionArguments::List(list),
        crate::names::single_name(f.name) == Ok::<Seq<char>, ErrorView>(written),
        crate::model_expr::bind_function_of(cx, sc, st, m, f) is Ok,
    ensures
        match aggregate_named(crate::text::upper(written)) {
            Some(func) => crate::model_expr::bind_function_of(cx, sc, st, m, f)
                == bind_aggregate_of(
                cx,
                sc,
                st,
                m,
                func,
                list.duplicates matches Some(d) && d is Distinct,
                list.args,
                crate::text::upper(written),
            ),
            None => !(list.duplicates matches Some(d) && d is Distinct),
        },
{
    let name = crate::text::upper(written);
    assert(crate::model_expr::bind_function_of(cx, sc, st, m, f) == crate::model_expr::bind_call_of(
        cx,
        sc,
        st,
        m,
        f,
        name,
    ));
}

} // verus!
