//! The model of grouping checks, output columns and references of bound queries.

use crate::expr::{has_window, nodes, outer_refs, type_of, ExprView};
use crate::names::{common_of, first_at};
use crate::query::{
    BodyView, FrameView, JoinKind, OrderView, ProjectionView, QueryView, SelectView, SlotView,
    TreeView, ValueBoundView, WindowView,
};
use crate::expr::AggregateView;
use crate::text::{lower, nat_text};
use crate::value::{invalid_view, ColumnView, ErrorView};
use vstd::prelude::*;

verus! {

/// The grouping keys that are columns at an offset.
pub open spec fn groups_offset(offset: usize) -> spec_fn(ExprView) -> bool {
    |e: ExprView|
        match e {
            ExprView::ColumnRef { offset: o, .. } => o == offset,
            _ => false,
        }
}

/// The refusal of a column that is not grouped.
pub open spec fn not_grouped(name: Seq<char>, what: Seq<char>) -> Result<(), ErrorView> {
    invalid_view(
        "column '"@ + name + "' in '"@ + what
            + "' must appear in the GROUP BY clause or be used in an aggregate function"@,
    )
}

/// Whether the outer references of a subquery from the `i`-th on are grouped.
pub open spec fn refs_grouped_check(
    refs: Seq<ExprView>,
    group_by: Seq<ExprView>,
    what: Seq<char>,
    i: int,
) -> Result<(), ErrorView>
    decreases refs.len() - i,
{
    if i < 0 || i >= refs.len() {
        Ok(())
    } else {
        match refs[i] {
            ExprView::CorrelatedColumnRef { offset, name, .. } => if first_at(
                group_by,
                groups_offset(offset),
                0,
            ) is Some {
                refs_grouped_check(refs, group_by, what, i + 1)
            } else {
                not_grouped(name, what)
            },
            _ => refs_grouped_check(refs, group_by, what, i + 1),
        }
    }
}

/// Whether a subquery depends on grouped columns only.
pub open spec fn subquery_grouped_check(
    index: usize,
    group_by: Seq<ExprView>,
    what: Seq<char>,
    subqueries: Seq<QueryView>,
) -> Result<(), ErrorView> {
    if index < subqueries.len() {
        refs_grouped_check(
            subqueries[index as int].correlated_outer_refs,
            group_by,
            what,
            0,
        )
    } else {
        Ok(())
    }
}

/// Whether an expression depends on grouped expressions only, and if not, on what it does.
///
/// In the argument of an aggregate (`strict` is false) local columns are free, and only what
/// subqueries refer to has to be grouped.
pub open spec fn grouped_check(
    e: ExprView,
    group_by: Seq<ExprView>,
    what: Seq<char>,
    subqueries: Seq<QueryView>,
    strict: bool,
) -> Result<(), ErrorView>
    decreases e, 0int,
{
    if strict && group_by.contains(e) {
        Ok(())
    } else {
        match e {
            ExprView::ColumnRef { name, .. } => if strict {
                not_grouped(name, what)
            } else {
                Ok(())
            },
            ExprView::ScalarSubquery { index, .. } => subquery_grouped_check(
                index,
                group_by,
                what,
                subqueries,
            ),
            ExprView::Exists { index, .. } => subquery_grouped_check(
                index,
                group_by,
                what,
                subqueries,
            ),
            ExprView::BinaryOp { left, right, .. } => match grouped_check(
                *left,
                group_by,
                what,
                subqueries,
                strict,
            ) {
                Err(x) => Err(x),
                Ok(_) => grouped_check(*right, group_by, what, subqueries, strict),
            },
            ExprView::Not(x) => grouped_check(*x, group_by, what, subqueries, strict),
            ExprView::Negate(x) => grouped_check(*x, group_by, what, subqueries, strict),
            ExprView::IsNull(x) => grouped_check(*x, group_by, what, subqueries, strict),
            ExprView::IsNotNull(x) => grouped_check(*x, group_by, what, subqueries, strict),
            ExprView::Like { expr, pattern, .. } => match grouped_check(
                *expr,
                group_by,
                what,
                subqueries,
                strict,
            ) {
                Err(x) => Err(x),
                Ok(_) => grouped_check(*pattern, group_by, what, subqueries, strict),
            },
            ExprView::In { expr, list, .. } => match grouped_check(
                *expr,
                group_by,
                what,
                subqueries,
                strict,
            ) {
                Err(x) => Err(x),
                Ok(_) => list_grouped_check(list, group_by, what, subqueries, strict, 0),
            },
            ExprView::Between { expr, low, high, .. } => match grouped_check(
                *expr,
                group_by,
                what,
                subqueries,
                strict,
            ) {
                Err(x) => Err(x),
                Ok(_) => match grouped_check(*low, group_by, what, subqueries, strict) {
                    Err(x) => Err(x),
                    Ok(_) => grouped_check(*high, group_by, what, subqueries, strict),
                },
            },
            ExprView::Case { operand, branches, else_result, .. } => {
                let first = match operand {
                    Some(x) => grouped_check(*x, group_by, what, subqueries, strict),
                    None => Ok(()),
                };
                match first {
                    Err(x) => Err(x),
                    Ok(_) => match branches_grouped_check(
                        branches,
                        group_by,
                        what,
                        subqueries,
                        strict,
                        0,
                    ) {
                        Err(x) => Err(x),
                        Ok(_) => match else_result {
                            Some(x) => grouped_check(*x, group_by, what, subqueries, strict),
                            None => Ok(()),
                        },
                    },
                }
            },
            ExprView::Cast { expr, .. } => grouped_check(*expr, group_by, what, subqueries, strict),
            ExprView::CalendarInterval { expr, quantity, .. } => match grouped_check(
                *expr,
                group_by,
                what,
                subqueries,
                strict,
            ) {
                Err(x) => Err(x),
                Ok(_) => grouped_check(*quantity, group_by, what, subqueries, strict),
            },
            ExprView::ScalarFunction { args, .. } => list_grouped_check(
                args,
                group_by,
                what,
                subqueries,
                strict,
                0,
            ),
            ExprView::InSubquery { expr, index, .. } => match grouped_check(
                *expr,
                group_by,
                what,
                subqueries,
                strict,
            ) {
                Err(x) => Err(x),
                Ok(_) => subquery_grouped_check(index, group_by, what, subqueries),
            },
            _ => Ok(()),
        }
    }
}

/// Whether the expressions of a list from the `i`-th on depend on grouped expressions only.
pub open spec fn list_grouped_check(
    list: Seq<ExprView>,
    group_by: Seq<ExprView>,
    what: Seq<char>,
    subqueries: Seq<QueryView>,
    strict: bool,
    i: int,
) -> Result<(), ErrorView>
    decreases list, list.len() - i,
{
    if i < 0 || i >= list.len() {
        Ok(())
    } else {
        match grouped_check(list[i], group_by, what, subqueries, strict) {
            Err(x) => Err(x),
            Ok(_) => list_grouped_check(list, group_by, what, subqueries, strict, i + 1),
        }
    }
}

/// Whether the branches of a `CASE` from the `i`-th on depend on grouped expressions only.
pub open spec fn branches_grouped_check(
    list: Seq<(ExprView, ExprView)>,
    group_by: Seq<ExprView>,
    what: Seq<char>,
    subqueries: Seq<QueryView>,
    strict: bool,
    i: int,
) -> Result<(), ErrorView>
    decreases list, list.len() - i,
{
    if i < 0 || i >= list.len() {
        Ok(())
    } else {
        match grouped_check(list[i].0, group_by, what, subqueries, strict) {
            Err(x) => Err(x),
            Ok(_) => match grouped_check(list[i].1, group_by, what, subqueries, strict) {
                Err(x) => Err(x),
                Ok(_) => branches_grouped_check(
                    list,
                    group_by,
                    what,
                    subqueries,
                    strict,
                    i + 1,
                ),
            },
        }
    }
}

/// Whether the order keys of a window from the `i`-th on depend on grouped expressions only.
pub open spec fn order_grouped_check(
    list: Seq<OrderView>,
    group_by: Seq<ExprView>,
    what: Seq<char>,
    subqueries: Seq<QueryView>,
    i: int,
) -> Result<(), ErrorView>
    decreases list.len() - i,
{
    if i < 0 || i >= list.len() {
        Ok(())
    } else {
        match grouped_check(list[i].expr, group_by, what, subqueries, true) {
            Err(x) => Err(x),
            Ok(_) => order_grouped_check(list, group_by, what, subqueries, i + 1),
        }
    }
}

/// Whether the windows from the `i`-th on depend on grouped expressions only.
pub open spec fn windows_grouped_check(
    list: Seq<WindowView>,
    group_by: Seq<ExprView>,
    subqueries: Seq<QueryView>,
    i: int,
) -> Result<(), ErrorView>
    decreases list.len() - i,
{
    if i < 0 || i >= list.len() {
        Ok(())
    } else {
        let what = "window function"@;
        match list_grouped_check(list[i].args, group_by, what, subqueries, true, 0) {
            Err(x) => Err(x),
            Ok(_) => match list_grouped_check(
                list[i].partition_by,
                group_by,
                what,
                subqueries,
                true,
                0,
            ) {
                Err(x) => Err(x),
                Ok(_) => match order_grouped_check(
                    list[i].order_by,
                    group_by,
                    what,
                    subqueries,
                    0,
                ) {
                    Err(x) => Err(x),
                    Ok(_) => windows_grouped_check(list, group_by, subqueries, i + 1),
                },
            },
        }
    }
}

/// Whether the subqueries in aggregates from the `i`-th on depend on grouped columns only.
pub open spec fn aggregates_grouped_check(
    list: Seq<AggregateView>,
    group_by: Seq<ExprView>,
    subqueries: Seq<QueryView>,
    i: int,
) -> Result<(), ErrorView>
    decreases list.len() - i,
{
    if i < 0 || i >= list.len() {
        Ok(())
    } else {
        match list[i].arg {
            None => aggregates_grouped_check(list, group_by, subqueries, i + 1),
            Some(a) => match grouped_check(a, group_by, "aggregate"@, subqueries, false) {
                Err(x) => Err(x),
                Ok(_) => aggregates_grouped_check(list, group_by, subqueries, i + 1),
            },
        }
    }
}

/// Whether the output columns from the `i`-th on depend on grouped expressions only.
pub open spec fn projection_grouped_check(
    list: Seq<ProjectionView>,
    group_by: Seq<ExprView>,
    subqueries: Seq<QueryView>,
    i: int,
) -> Result<(), ErrorView>
    decreases list.len() - i,
{
    if i < 0 || i >= list.len() {
        Ok(())
    } else {
        match grouped_check(list[i].expr, group_by, list[i].name, subqueries, true) {
            Err(x) => Err(x),
            Ok(_) => projection_grouped_check(list, group_by, subqueries, i + 1),
        }
    }
}

/// Whether a grouped select block depends on grouped expressions only.
pub open spec fn select_grouped_check(
    windows: Seq<WindowView>,
    aggregates: Seq<AggregateView>,
    projection: Seq<ProjectionView>,
    having: Option<ExprView>,
    group_by: Seq<ExprView>,
    subqueries: Seq<QueryView>,
) -> Result<(), ErrorView> {
    match windows_grouped_check(windows, group_by, subqueries, 0) {
        Err(x) => Err(x),
        Ok(_) => match aggregates_grouped_check(aggregates, group_by, subqueries, 0) {
            Err(x) => Err(x),
            Ok(_) => match projection_grouped_check(projection, group_by, subqueries, 0) {
                Err(x) => Err(x),
                Ok(_) => match having {
                    None => Ok(()),
                    Some(h) => grouped_check(h, group_by, "HAVING"@, subqueries, true),
                },
            },
        },
    }
}

/// Whether an expression contains a window function, also behind output columns.
pub open spec fn shows_window(e: ExprView, projection: Seq<ProjectionView>) -> bool {
    exists|i: int| 0 <= i < nodes(e).len() && node_shows_window(#[trigger] nodes(e)[i], projection)
}

/// Whether a node is a window function or an output column that contains one.
pub open spec fn node_shows_window(e: ExprView, projection: Seq<ProjectionView>) -> bool {
    match e {
        ExprView::WindowRef { .. } => true,
        ExprView::OutputColumn { index, .. } => index < projection.len() && has_window(
            projection[index as int].expr,
        ),
        _ => false,
    }
}

/// The output column of an expression.
pub open spec fn projected(p: ProjectionView) -> ColumnView {
    ColumnView {
        name: p.name,
        data_type: type_of(p.expr).data_type,
        nullable: type_of(p.expr).nullable,
        primary_key: false,
    }
}

/// The output columns of a projection.
pub open spec fn projection_columns(p: Seq<ProjectionView>) -> Seq<ColumnView> {
    Seq::new(p.len(), |i: int| projected(p[i]))
}

/// The smaller of two counts.
pub open spec fn fewer(a: nat, b: nat) -> nat {
    if a <= b {
        a
    } else {
        b
    }
}

/// The output column of a set operation.
pub open spec fn set_column(l: ColumnView, r: ColumnView) -> ColumnView {
    ColumnView {
        name: l.name,
        data_type: match common_of(l.data_type, r.data_type) {
            Some(t) => t,
            None => l.data_type,
        },
        nullable: l.nullable || r.nullable,
        primary_key: false,
    }
}

/// The output columns of a set operation.
pub open spec fn set_columns(l: Seq<ColumnView>, r: Seq<ColumnView>) -> Seq<ColumnView> {
    Seq::new(fewer(l.len(), r.len()), |i: int| set_column(l[i], r[i]))
}

/// The output columns of a body.
pub open spec fn body_columns(b: BodyView) -> Seq<ColumnView> {
    match b {
        BodyView::Select(s) => projection_columns(s.projection),
        BodyView::SetOp { left, right, .. } => set_columns(
            left.output_columns,
            right.output_columns,
        ),
        BodyView::RecursiveQueryBody { output_columns, .. } => output_columns,
    }
}

/// The references of a body to the enclosing query.
pub open spec fn body_refs(b: BodyView) -> Seq<ExprView> {
    match b {
        BodyView::Select(s) => s.correlated_outer_refs,
        BodyView::SetOp { left, right, .. } => left.correlated_outer_refs
            + right.correlated_outer_refs,
        BodyView::RecursiveQueryBody { anchor, recursive_term, .. } => anchor.correlated_outer_refs
            + recursive_term.correlated_outer_refs,
    }
}

/// A query of a body alone.
pub open spec fn bare_query(body: BodyView, subqueries: Seq<QueryView>) -> QueryView {
    QueryView {
        body,
        order_by: Seq::empty(),
        limit: None,
        offset: None,
        subqueries,
        correlated: body_refs(body).len() > 0,
        correlated_outer_refs: body_refs(body),
        output_columns: body_columns(body),
    }
}

/// A query that yields no rows, with the columns of another.
pub open spec fn empty_like(q: QueryView) -> QueryView {
    QueryView { order_by: Seq::empty(), limit: Some(0), offset: None, ..q }
}

/// The outer references of an expression that may be missing.
pub open spec fn option_refs(e: Option<ExprView>) -> Seq<ExprView> {
    match e {
        Some(x) => outer_refs(x),
        None => Seq::empty(),
    }
}

/// The outer references of the join conditions of a tree, inner joins first.
pub open spec fn tree_refs(t: TreeView) -> Seq<ExprView>
    decreases t,
{
    match t {
        TreeView::Leaf(_) => Seq::empty(),
        TreeView::Join { left, right, on, .. } => tree_refs(*left) + tree_refs(*right)
            + option_refs(on),
    }
}

/// The outer references of the first `n` expressions.
pub open spec fn list_refs(list: Seq<ExprView>, n: int) -> Seq<ExprView>
    decreases n,
{
    if n <= 0 || n > list.len() {
        Seq::empty()
    } else {
        list_refs(list, n - 1) + outer_refs(list[n - 1])
    }
}

/// The outer references of the first `n` aggregates.
pub open spec fn aggregate_refs(list: Seq<AggregateView>, n: int) -> Seq<ExprView>
    decreases n,
{
    if n <= 0 || n > list.len() {
        Seq::empty()
    } else {
        aggregate_refs(list, n - 1) + option_refs(list[n - 1].arg)
    }
}

/// The outer references of the first `n` order keys.
pub open spec fn order_refs(list: Seq<OrderView>, n: int) -> Seq<ExprView>
    decreases n,
{
    if n <= 0 || n > list.len() {
        Seq::empty()
    } else {
        order_refs(list, n - 1) + outer_refs(list[n - 1].expr)
    }
}

/// The outer references of a frame bound.
pub open spec fn bound_refs(b: ValueBoundView) -> Seq<ExprView> {
    match b {
        ValueBoundView::Offset { value, .. } => outer_refs(value),
        _ => Seq::empty(),
    }
}

/// The outer references of a frame.
pub open spec fn frame_refs(f: FrameView) -> Seq<ExprView> {
    match f {
        FrameView::ValueRange { start, end } => bound_refs(start) + bound_refs(end),
        _ => Seq::empty(),
    }
}

/// The outer references of a window function.
pub open spec fn one_window_refs(w: WindowView) -> Seq<ExprView> {
    list_refs(w.args, w.args.len() as int) + list_refs(
        w.partition_by,
        w.partition_by.len() as int,
    ) + order_refs(w.order_by, w.order_by.len() as int) + frame_refs(w.frame)
}

/// The outer references of the first `n` window functions.
pub open spec fn window_refs(list: Seq<WindowView>, n: int) -> Seq<ExprView>
    decreases n,
{
    if n <= 0 || n > list.len() {
        Seq::empty()
    } else {
        window_refs(list, n - 1) + one_window_refs(list[n - 1])
    }
}

/// The outer references of the first `n` output columns.
pub open spec fn projection_refs(list: Seq<ProjectionView>, n: int) -> Seq<ExprView>
    decreases n,
{
    if n <= 0 || n > list.len() {
        Seq::empty()
    } else {
        projection_refs(list, n - 1) + outer_refs(list[n - 1].expr)
    }
}

/// The outer references of a select block, clause by clause.
pub open spec fn select_refs(s: SelectView) -> Seq<ExprView> {
    tree_refs(s.join_tree) + option_refs(s.filter) + list_refs(
        s.group_by,
        s.group_by.len() as int,
    ) + aggregate_refs(s.aggregates, s.aggregates.len() as int) + window_refs(
        s.windows,
        s.windows.len() as int,
    ) + option_refs(s.having) + projection_refs(s.projection, s.projection.len() as int)
}

/// The refusal of branches with different numbers of columns.
pub open spec fn column_count_mismatch<T>(l: nat, r: nat) -> Result<T, ErrorView> {
    invalid_view(
        "UNION branches have different column counts ("@ + nat_text(l) + " vs "@ + nat_text(r)
            + ")"@,
    )
}

/// The refusal of branches whose columns have no common type.
pub open spec fn column_type_mismatch<T>(l: ColumnView, r: ColumnView) -> Result<T, ErrorView> {
    invalid_view(
        "UNION column '"@ + l.name + "' has incompatible types "@ + l.data_type.keyword()
            + " and "@ + r.data_type.keyword(),
    )
}

/// Whether the columns of two branches from the `i`-th on have common types.
pub open spec fn column_types_check(l: Seq<ColumnView>, r: Seq<ColumnView>, i: int) -> Result<
    (),
    ErrorView,
>
    decreases l.len() - i,
{
    if i < 0 || i >= l.len() || i >= r.len() {
        Ok(())
    } else if common_of(l[i].data_type, r[i].data_type) is None {
        column_type_mismatch(l[i], r[i])
    } else {
        column_types_check(l, r, i + 1)
    }
}

/// Whether the columns of two branches fit each other.
pub open spec fn branches_check(l: QueryView, r: QueryView) -> Result<(), ErrorView> {
    if l.output_columns.len() != r.output_columns.len() {
        column_count_mismatch(l.output_columns.len(), r.output_columns.len())
    } else {
        column_types_check(l.output_columns, r.output_columns, 0)
    }
}

/// Whether one of the first `n` columns has a name, up to letter case.
pub open spec fn name_taken(columns: Seq<ColumnView>, name: Seq<char>, n: int) -> bool
    decreases n,
{
    0 < n <= columns.len() && (name_taken(columns, name, n - 1) || lower(columns[n - 1].name)
        == lower(name))
}

/// Whether the columns from the `i`-th on have names that occur once, up to letter case.
pub open spec fn unique_names_check(columns: Seq<ColumnView>, what: Seq<char>, i: int) -> Result<
    (),
    ErrorView,
>
    decreases columns.len() - i,
{
    if i < 0 || i >= columns.len() {
        Ok(())
    } else if name_taken(columns, columns[i].name, i) {
        invalid_view("duplicate column name '"@ + columns[i].name + "' in '"@ + what + "'"@)
    } else {
        unique_names_check(columns, what, i + 1)
    }
}

/// Whether the repeated term of a recursive query is free of what it cannot use.
pub open spec fn recursive_term_check(q: QueryView) -> Result<(), ErrorView> {
    if q.order_by.len() > 0 {
        invalid_view("recursive CTE recursive term cannot use ORDER BY"@)
    } else if q.limit is Some || q.offset is Some {
        invalid_view("recursive CTE recursive term cannot use LIMIT"@)
    } else {
        match q.body {
            BodyView::Select(s) => if s.aggregates.len() > 0 {
                invalid_view("recursive CTE recursive term cannot use aggregates"@)
            } else if s.group_by.len() > 0 {
                invalid_view("recursive CTE recursive term cannot use GROUP BY"@)
            } else if s.distinct {
                invalid_view("recursive CTE recursive term cannot use DISTINCT"@)
            } else {
                Ok(())
            },
            _ => Ok(()),
        }
    }
}

/// Whether a query reads a working table anywhere.
pub open spec fn reads_working(q: QueryView) -> bool
    decreases q, 1int, 0int,
{
    match q.body {
        BodyView::Select(s) => has_working(s.slots, s.slots.len() as int) || slots_read_working(
            s.slots,
            s.slots.len() as int,
        ) || list_reads_working(q.subqueries, q.subqueries.len() as int),
        BodyView::SetOp { left, right, .. } => reads_working(*left) || reads_working(*right),
        BodyView::RecursiveQueryBody { anchor, recursive_term, .. } => reads_working(*anchor)
            || reads_working(*recursive_term),
    }
}

/// Whether any of the first `n` queries reads a working table.
pub open spec fn list_reads_working(list: Seq<QueryView>, n: int) -> bool
    decreases list, 0int, n,
{
    0 < n <= list.len() && (list_reads_working(list, n - 1) || reads_working(list[n - 1]))
}

/// Whether a subquery among the first `n` slots reads a working table.
pub open spec fn slots_read_working(slots: Seq<SlotView>, n: int) -> bool
    decreases slots, 0int, n,
{
    0 < n <= slots.len() && (slots_read_working(slots, n - 1) || match slots[n - 1] {
        SlotView::Derived { query, .. } => reads_working(*query),
        _ => false,
    })
}

/// Whether one of the first `n` slots is a working table.
pub open spec fn has_working(slots: Seq<SlotView>, n: int) -> bool
    decreases n,
{
    0 < n <= slots.len() && (has_working(slots, n - 1) || slots[n - 1] is WorkingTableSlot)
}

/// The working tables among the first `n` slots.
pub open spec fn working_slots(slots: Seq<SlotView>, n: int) -> Seq<int>
    decreases n,
{
    if n <= 0 || n > slots.len() {
        Seq::empty()
    } else if slots[n - 1] is WorkingTableSlot {
        working_slots(slots, n - 1).push(n - 1)
    } else {
        working_slots(slots, n - 1)
    }
}

/// Whether a join tree contains a slot.
pub open spec fn tree_has(t: TreeView, slot: int) -> bool
    decreases t,
{
    match t {
        TreeView::Leaf(s) => s == slot,
        TreeView::Join { left, right, .. } => tree_has(*left, slot) || tree_has(*right, slot),
    }
}

/// Whether a slot can be padded with `NULL` by an outer join of the tree.
pub open spec fn null_supplied(t: TreeView, slot: int) -> bool
    decreases t,
{
    match t {
        TreeView::Leaf(_) => false,
        TreeView::Join { kind, left, right, .. } => {
            let here = match kind {
                JoinKind::Left => tree_has(*right, slot),
                JoinKind::Right => tree_has(*left, slot),
                JoinKind::Full => tree_has(*left, slot) || tree_has(*right, slot),
                _ => false,
            };
            here || null_supplied(*left, slot) || null_supplied(*right, slot)
        },
    }
}

/// Whether a recursive query names itself once, at the top of its FROM clause.
pub open spec fn recursive_reference_check(q: QueryView) -> Result<(), ErrorView> {
    match q.body {
        BodyView::Select(s) => {
            let n = s.slots.len() as int;
            if list_reads_working(q.subqueries, q.subqueries.len() as int) || slots_read_working(
                s.slots,
                n,
            ) {
                invalid_view("recursive CTE cannot be referenced inside a subquery"@)
            } else if working_slots(s.slots, n).len() != 1 {
                invalid_view(
                    "recursive CTE must reference itself exactly once at top level of FROM"@,
                )
            } else if null_supplied(s.join_tree, working_slots(s.slots, n)[0]) {
                invalid_view(
                    "recursive CTE cannot be referenced on the null-supplying side of an outer join"@,
                )
            } else {
                Ok(())
            }
        },
        _ => invalid_view("recursive CTE must reference itself exactly once at top level of FROM"@),
    }
}

/// The columns of a recursive query from the `i`-th on, behind those of `acc`, or a refusal.
pub open spec fn recursive_columns(
    names: Seq<ColumnView>,
    l: Seq<ColumnView>,
    r: Seq<ColumnView>,
    i: int,
    acc: Seq<ColumnView>,
) -> Result<Seq<ColumnView>, ErrorView>
    decreases names.len() - i,
{
    if i < 0 || i >= names.len() || i >= l.len() || i >= r.len() {
        Ok(acc)
    } else {
        match common_of(l[i].data_type, r[i].data_type) {
            None => column_type_mismatch(l[i], r[i]),
            Some(t) => recursive_columns(
                names,
                l,
                r,
                i + 1,
                acc.push(
                    ColumnView {
                        name: names[i].name,
                        data_type: t,
                        nullable: l[i].nullable || r[i].nullable,
                        primary_key: false,
                    },
                ),
            ),
        }
    }
}

/// The query that a recursive common table expression stands for, or its refusal.
pub open spec fn recursive_query(
    anchor: QueryView,
    term: QueryView,
    names: Seq<ColumnView>,
    distinct: bool,
) -> Result<QueryView, ErrorView> {
    match recursive_term_check(term) {
        Err(x) => Err(x),
        Ok(_) => match recursive_reference_check(term) {
            Err(x) => Err(x),
            Ok(_) => if anchor.output_columns.len() != term.output_columns.len() {
                column_count_mismatch(anchor.output_columns.len(), term.output_columns.len())
            } else {
                match recursive_columns(
                    names,
                    anchor.output_columns,
                    term.output_columns,
                    0,
                    Seq::empty(),
                ) {
                    Err(x) => Err(x),
                    Ok(columns) => Ok(
                        QueryView {
                            body: BodyView::RecursiveQueryBody {
                                anchor: Box::new(anchor),
                                recursive_term: Box::new(term),
                                distinct,
                                output_columns: columns,
                            },
                            order_by: Seq::empty(),
                            limit: None,
                            offset: None,
                            subqueries: Seq::empty(),
                            correlated: false,
                            correlated_outer_refs: Seq::empty(),
                            output_columns: columns,
                        },
                    ),
                }
            },
        },
    }
}

/// Whether every order key from the `i`-th on is an output column.
pub open spec fn ordered_by_output(order_by: Seq<OrderView>, i: int) -> bool
    decreases order_by.len() - i,
{
    i < 0 || i >= order_by.len() || (order_by[i].expr is OutputColumn && ordered_by_output(
        order_by,
        i + 1,
    ))
}

/// Whether a `SELECT DISTINCT` is ordered by its output only.
pub open spec fn distinct_order_check(body: BodyView, order_by: Seq<OrderView>) -> Result<
    (),
    ErrorView,
> {
    match body {
        BodyView::Select(s) => if s.distinct && !ordered_by_output(order_by, 0) {
            invalid_view(
                "ORDER BY expressions must appear in the select list when SELECT DISTINCT is used"@,
            )
        } else {
            Ok(())
        },
        _ => Ok(()),
    }
}

} // verus!
