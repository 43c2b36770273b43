//! Binding of single-table queries of a narrow shape: reads by primary key, and analytical scans
//! with pushed-down filters.

use crate::ast::{
    AggregateFunction, AnalyticExpr, AnalyticFilter, AnalyticOrderBy, AnalyticSelect, AnalyticView,
    BoundStatement, ComparisonOp, FilterView, PointSelect, StatementView, view_filters,
};
use crate::catalog::{
    first_named, key_check, no_table, schema_of, table_not_found,
    validate_table_descriptor_primary_key, Schema, TableDescriptor,
};
use crate::key_predicate::{
    and_leaves, bind_pk_where_predicate, binary_text, collect_and_leaves, is_pk_equality_where,
    key_of, names_whole_key, targets, text_of_binary,
};
use crate::lists::has_index;
use crate::literals::{column_literal, parse_literal_value, unnest, unnested};
use crate::names::{object_name_single, single_name};
use crate::scope::Env;
use crate::sql::{
    BinaryOperator, DuplicateTreatment, Function, FunctionArg, FunctionArguments, GroupBy,
    ObjectNamePart, OrderBy, OrderByExpr, Query, Select, SelectItem, SetExpr, SqlExpr, SqlNode,
    SqlValue, TableFactor, UnaryOperator,
};
use crate::text::{
    cat2, cat3, cat4, cat5, count_text, nat_text, owned, same_text, to_upper, unsigned_text, upper,
};
use crate::value::{
    invalid, invalid_view, lemma_views_push, option_view, outcome, unsupported, unsupported_view,
    views, ColumnDef, ColumnView, DataType, ErrorView, HtapError,
};
use vstd::prelude::*;

verus! {

/// Whether an expression is the bare name of a column, and not of a variable.
pub open spec fn plain_column(e: SqlExpr) -> bool {
    match unnested(e).node {
        SqlNode::Identifier(s) => !(s@.len() > 0 && s@[0] == '@'),
        _ => false,
    }
}

fn is_plain_column(e: &SqlExpr) -> (r: bool)
    ensures
        r == plain_column(*e),
{
    match &unnest(e).node {
        SqlNode::Identifier(s) => {
            let text = s.as_str();
            !(text.unicode_len() > 0 && text.get_char(0) == '@')
        },
        _ => false,
    }
}

/// Whether an expression is a literal, or a literal with a minus sign.
pub open spec fn plain_literal(e: SqlExpr) -> bool {
    match unnested(e).node {
        SqlNode::Value(_) => true,
        SqlNode::UnaryOp { op: UnaryOperator::Minus, expr } => unnested(*expr).node is Value,
        _ => false,
    }
}

fn is_plain_literal(e: &SqlExpr) -> (r: bool)
    ensures
        r == plain_literal(*e),
{
    match &unnest(e).node {
        SqlNode::Value(_) => true,
        SqlNode::UnaryOp { op: UnaryOperator::Minus, expr } => match &unnest(expr).node {
            SqlNode::Value(_) => true,
            _ => false,
        },
        _ => false,
    }
}

/// Whether a call is `COUNT(*)`, or `COUNT`, `SUM`, `MIN` or `MAX` of a column.
pub open spec fn narrow_call(f: Function) -> bool {
    match f.args {
        FunctionArguments::List(list) => {
            &&& f.name.parts@.len() == 1
            &&& f.over is None
            &&& !f.filter
            &&& list.duplicates is None
            &&& !list.clauses
            &&& list.args@.len() == 1
            &&& match f.name.parts@[0] {
                ObjectNamePart::Identifier(s) => match list.args@[0] {
                    FunctionArg::Wildcard => upper(s@) == "COUNT"@,
                    FunctionArg::Expr(e) => (upper(s@) == "COUNT"@ || upper(s@) == "SUM"@ || upper(
                        s@,
                    ) == "MIN"@ || upper(s@) == "MAX"@) && plain_column(e),
                    FunctionArg::Other => false,
                },
                ObjectNamePart::Function => false,
            }
        },
        _ => false,
    }
}

fn is_narrow_call(f: &Function) -> (r: bool)
    ensures
        r == narrow_call(*f),
{
    if f.name.parts.len() != 1 || f.over.is_some() || f.filter {
        return false;
    }
    let name = match &f.name.parts[0] {
        ObjectNamePart::Identifier(s) => to_upper(s.as_str()),
        ObjectNamePart::Function => {
            return false;
        },
    };
    match &f.args {
        FunctionArguments::List(list) => {
            if list.duplicates.is_some() || list.clauses || list.args.len() != 1 {
                return false;
            }
            match &list.args[0] {
                FunctionArg::Wildcard => same_text(name.as_str(), "COUNT"),
                FunctionArg::Expr(e) => (same_text(name.as_str(), "COUNT") || same_text(
                    name.as_str(),
                    "SUM",
                ) || same_text(name.as_str(), "MIN") || same_text(name.as_str(), "MAX"))
                    && is_plain_column(e),
                FunctionArg::Other => false,
            }
        },
        _ => false,
    }
}

/// Whether an item of the select list is `*`, a column, or a narrow call.
pub open spec fn narrow_item(item: SelectItem) -> bool {
    match item {
        SelectItem::Wildcard { .. } => true,
        SelectItem::UnnamedExpr(e) => match unnested(e).node {
            SqlNode::Identifier(_) => plain_column(e),
            SqlNode::Function(f) => narrow_call(*f),
            _ => false,
        },
        _ => false,
    }
}

fn is_narrow_item(item: &SelectItem) -> (r: bool)
    ensures
        r == narrow_item(*item),
{
    match item {
        SelectItem::Wildcard { .. } => true,
        SelectItem::UnnamedExpr(e) => match &unnest(e).node {
            SqlNode::Identifier(_) => is_plain_column(e),
            SqlNode::Function(f) => is_narrow_call(f),
            _ => false,
        },
        _ => false,
    }
}

/// Whether an operator compares.
pub open spec fn compares(op: BinaryOperator) -> bool {
    op is Eq || op is NotEq || op is Lt || op is LtEq || op is Gt || op is GtEq
}

/// Whether a condition is a conjunction of comparisons of a column with a literal and of tests of
/// a column for `NULL`.
pub open spec fn narrow_filter(e: SqlExpr) -> bool
    decreases e,
{
    match e.node {
        SqlNode::Nested(inner) => narrow_filter(*inner),
        SqlNode::BinaryOp { left, op: BinaryOperator::And, right } => narrow_filter(*left)
            && narrow_filter(*right),
        SqlNode::BinaryOp { left, op, right } => compares(op) && plain_column(*left)
            && plain_literal(*right),
        SqlNode::IsNull(inner) => plain_column(*inner),
        SqlNode::IsNotNull(inner) => plain_column(*inner),
        _ => false,
    }
}

fn is_narrow_filter(e: &SqlExpr) -> (r: bool)
    ensures
        r == narrow_filter(*e),
    decreases *e,
{
    match &e.node {
        SqlNode::Nested(inner) => is_narrow_filter(inner),
        SqlNode::BinaryOp { left, op: BinaryOperator::And, right } => is_narrow_filter(left)
            && is_narrow_filter(right),
        SqlNode::BinaryOp { left, op, right } => {
            let comparison = match op {
                BinaryOperator::Eq | BinaryOperator::NotEq | BinaryOperator::Lt
                | BinaryOperator::LtEq | BinaryOperator::Gt | BinaryOperator::GtEq => true,
                _ => false,
            };
            comparison && is_plain_column(left) && is_plain_literal(right)
        },
        SqlNode::IsNull(inner) => is_plain_column(inner),
        SqlNode::IsNotNull(inner) => is_plain_column(inner),
        _ => false,
    }
}

/// Whether a query has no clause besides its body and its order.
pub open spec fn bare_query(q: Query) -> bool {
    !(q.with is Some || q.limit is Some || q.fetch || q.locks || q.for_clause || q.settings
        || q.format || q.pipes)
}

/// Whether a select block has only a list, one table, a condition and a grouping.
pub open spec fn bare_select(s: Select) -> bool {
    !(s.distinct is Some || s.top || s.into || s.lateral_views || s.prewhere || s.having is Some
        || s.named_window || s.qualify || s.modifiers.given() || s.sort_clauses.given() || s.connect_by)
}

/// Whether a query reads one table by its own name.
pub open spec fn reads_one_table(s: Select) -> bool {
    s.from@.len() == 1 && s.from@[0].joins@.len() == 0 && (match s.from@[0].relation {
        TableFactor::Table { alias, .. } => alias is None,
        _ => false,
    })
}

/// Whether grouping is by columns.
pub open spec fn narrow_grouping(g: GroupBy) -> bool {
    match g {
        GroupBy::Expressions { exprs, modifiers } => !modifiers && forall|i: int|
            0 <= i < exprs@.len() ==> plain_column(#[trigger] exprs@[i]),
        GroupBy::All => false,
    }
}

/// Whether ordering is by columns.
pub open spec fn narrow_order(o: OrderBy) -> bool {
    !o.interpolate && !o.all && forall|i: int|
        0 <= i < o.exprs@.len() ==> !(#[trigger] o.exprs@[i]).with_fill && plain_column(
            o.exprs@[i].expr,
        )
}

/// Whether a query has the narrow shape: one unaliased table, no joins, subqueries or set
/// operations, no `LIMIT`, `HAVING` or `DISTINCT`, a list of columns and of `COUNT`, `SUM`, `MIN`
/// and `MAX` of a column, a conjunction of simple tests, and grouping and ordering by columns. A
/// name that begins with `@` is a variable and is no column.
pub open spec fn narrow_shape(q: Query) -> bool {
    bare_query(q) && (match *q.body {
        SetExpr::Select(s) => {
            &&& bare_select(*s)
            &&& reads_one_table(*s)
            &&& s.projection@.len() > 0
            &&& forall|i: int| 0 <= i < s.projection@.len() ==> narrow_item(#[trigger] s.projection@[i])
            &&& (s.selection matches Some(e) ==> narrow_filter(e))
            &&& narrow_grouping(s.group_by)
            &&& (q.order_by matches Some(o) ==> narrow_order(o))
        },
        _ => false,
    })
}

fn all_narrow_items(list: &Vec<SelectItem>) -> (r: bool)
    ensures
        r == (forall|i: int| 0 <= i < list@.len() ==> narrow_item(#[trigger] list@[i])),
{
    let mut i: usize = 0;
    while i < list.len()
        invariant
            i <= list.len(),
            forall|k: int| 0 <= k < i ==> narrow_item(#[trigger] list@[k]),
        decreases list.len() - i,
    {
        if !is_narrow_item(&list[i]) {
            return false;
        }
        i = i + 1;
    }
    true
}

fn is_narrow_grouping(g: &GroupBy) -> (r: bool)
    ensures
        r == narrow_grouping(*g),
{
    match g {
        GroupBy::All => false,
        GroupBy::Expressions { exprs, modifiers } => {
            !*modifiers && all_plain_columns(exprs)
        },
    }
}

fn all_plain_columns(exprs: &Vec<SqlExpr>) -> (r: bool)
    ensures
        r == (forall|i: int| 0 <= i < exprs@.len() ==> plain_column(#[trigger] exprs@[i])),
{
    let mut i: usize = 0;
    while i < exprs.len()
        invariant
            i <= exprs.len(),
            forall|k: int| 0 <= k < i ==> plain_column(#[trigger] exprs@[k]),
        decreases exprs.len() - i,
    {
        if !is_plain_column(&exprs[i]) {
            return false;
        }
        i = i + 1;
    }
    true
}

fn is_narrow_order(o: &OrderBy) -> (r: bool)
    ensures
        r == narrow_order(*o),
{
    if o.interpolate || o.all {
        return false;
    }
    let mut i: usize = 0;
    while i < o.exprs.len()
        invariant
            i <= o.exprs.len(),
            !o.interpolate,
            !o.all,
            forall|k: int|
                0 <= k < i ==> !(#[trigger] o.exprs@[k]).with_fill && plain_column(
                    o.exprs@[k].expr,
                ),
        decreases o.exprs.len() - i,
    {
        if o.exprs[i].with_fill || !is_plain_column(&o.exprs[i].expr) {
            return false;
        }
        i = i + 1;
    }
    true
}

fn is_bare_query(q: &Query) -> (r: bool)
    ensures
        r == bare_query(*q),
{
    !(q.with.is_some() || q.limit.is_some() || q.fetch || q.locks || q.for_clause || q.settings
        || q.format || q.pipes)
}

fn is_bare_select(s: &Select) -> (r: bool)
    ensures
        r == bare_select(*s),
{
    !(s.distinct.is_some() || s.top || s.into || s.lateral_views || s.prewhere
        || s.having.is_some() || s.named_window || s.qualify || s.modifiers.given() || s.sort_clauses.given()
        || s.connect_by)
}

/// Whether a query has the narrow shape.
pub fn is_narrow_select_shape(q: &Query) -> (r: bool)
    ensures
        r == narrow_shape(*q),
{
    if !is_bare_query(q) {
        return false;
    }
    match &*q.body {
        SetExpr::Select(s) => {
            if !is_bare_select(s) || s.from.len() != 1 || s.from[0].joins.len() != 0 {
                return false;
            }
            match &s.from[0].relation {
                TableFactor::Table { alias, .. } => {
                    if alias.is_some() {
                        return false;
                    }
                },
                _ => {
                    return false;
                },
            }
            if s.projection.len() == 0 || !all_narrow_items(&s.projection) {
                return false;
            }
            match &s.selection {
                Some(e) => {
                    if !is_narrow_filter(e) {
                        return false;
                    }
                },
                None => {},
            }
            if !is_narrow_grouping(&s.group_by) {
                return false;
            }
            match &q.order_by {
                Some(o) => is_narrow_order(o),
                None => true,
            }
        },
        _ => false,
    }
}

/// How a type is shown in a message on `SUM`.
pub open spec fn type_shown(t: DataType) -> Seq<char> {
    match t {
        DataType::Bool => "Bool"@,
        DataType::Int32 => "Int32"@,
        DataType::Int64 => "Int64"@,
        DataType::Float64 => "Float64"@,
        DataType::String => "String"@,
        DataType::Bytes => "Bytes"@,
        DataType::Timestamp => "Timestamp"@,
        DataType::Decimal { precision, scale } => "Decimal { precision: "@ + nat_text(
            precision as nat,
        ) + ", scale: "@ + nat_text(scale as nat) + " }"@,
    }
}

fn show_type(t: DataType) -> (r: String)
    ensures
        r@ == type_shown(t),
{
    match t {
        DataType::Bool => owned("Bool"),
        DataType::Int32 => owned("Int32"),
        DataType::Int64 => owned("Int64"),
        DataType::Float64 => owned("Float64"),
        DataType::String => owned("String"),
        DataType::Bytes => owned("Bytes"),
        DataType::Timestamp => owned("Timestamp"),
        DataType::Decimal { precision, scale } => {
            let p = unsigned_text(precision as u64);
            let s = unsigned_text(scale as u64);
            cat5("Decimal { precision: ", p.as_str(), ", scale: ", s.as_str(), " }")
        },
    }
}

/// The refusal of a name that no column has.
pub open spec fn no_column<T>(name: Seq<char>, table: Seq<char>) -> Result<T, ErrorView> {
    invalid_view("unknown column '"@ + name + "' in table '"@ + table + "'"@)
}

fn no_column_error(name: &str, table: &str) -> (r: HtapError)
    ensures
        no_column::<int>(name@, table@) == Err::<int, ErrorView>(r@),
        r@ == no_column::<int>(name@, table@)->Err_0,
{
    invalid(cat5("unknown column '", name, "' in table '", table, "'"))
}

/// The projection of a column.
pub open spec fn column_item(t: TableDescriptor, i: int) -> AnalyticView {
    AnalyticView::Column {
        index: i as usize,
        name: t.schema.columns@[i].name@,
        data_type: t.schema.columns@[i].data_type,
        nullable: t.schema.columns@[i].nullable,
    }
}

fn project_column(t: &TableDescriptor, i: usize) -> (r: AnalyticExpr)
    requires
        i < t.schema.columns@.len(),
    ensures
        r@ == column_item(*t, i as int),
{
    let c = &t.schema.columns[i];
    AnalyticExpr::Column {
        index: i,
        name: c.name.clone(),
        data_type: c.data_type,
        nullable: c.nullable,
    }
}

/// An aggregate of a column whose result can be `NULL`.
pub open spec fn column_aggregate(
    function: AggregateFunction,
    keyword: Seq<char>,
    name: Seq<char>,
    column: int,
    data_type: DataType,
    nullable: bool,
) -> AnalyticView {
    AnalyticView::Aggregate {
        function,
        column_index: Some(column as usize),
        name: keyword + "("@ + name + ")"@,
        data_type,
        nullable,
    }
}

/// The aggregate of a column by its keyword, or its refusal.
pub open spec fn aggregate_of_column(
    keyword: Seq<char>,
    name: Seq<char>,
    t: TableDescriptor,
    table: Seq<char>,
) -> Result<AnalyticView, ErrorView> {
    match first_named(t.schema.columns@, name, 0) {
        None => no_column(name, table),
        Some(i) => {
            let source = t.schema.columns@[i].data_type;
            if keyword == "COUNT"@ {
                Ok(
                    column_aggregate(
                        AggregateFunction::Count,
                        keyword,
                        name,
                        i,
                        DataType::Int64,
                        false,
                    ),
                )
            } else if keyword == "SUM"@ {
                match source {
                    DataType::Int32 => Ok(
                        column_aggregate(
                            AggregateFunction::Sum,
                            keyword,
                            name,
                            i,
                            DataType::Int64,
                            true,
                        ),
                    ),
                    DataType::Int64 => Ok(
                        column_aggregate(
                            AggregateFunction::Sum,
                            keyword,
                            name,
                            i,
                            DataType::Int64,
                            true,
                        ),
                    ),
                    DataType::Float64 => Ok(
                        column_aggregate(
                            AggregateFunction::Sum,
                            keyword,
                            name,
                            i,
                            DataType::Float64,
                            true,
                        ),
                    ),
                    _ => invalid_view(
                        "SUM cannot be applied to non-numeric column '"@ + name + "' of type "@
                            + type_shown(source),
                    ),
                }
            } else if keyword == "MIN"@ {
                Ok(column_aggregate(AggregateFunction::Min, keyword, name, i, source, true))
            } else {
                Ok(column_aggregate(AggregateFunction::Max, keyword, name, i, source, true))
            }
        },
    }
}

fn bind_column_aggregate(keyword: &str, name: &str, t: &TableDescriptor, table: &str) -> (r: Result<
    AnalyticExpr,
    HtapError,
>)
    ensures
        outcome(r) == aggregate_of_column(keyword@, name@, *t, table@),
{
    let i: usize = match t.schema.column_index(name) {
        Some(i) => i,
        None => {
            return Err(no_column_error(name, table));
        },
    };
    let source = t.schema.columns[i].data_type;
    let shown = cat4(keyword, "(", name, ")");
    let (function, data_type, nullable) = if same_text(keyword, "COUNT") {
        (AggregateFunction::Count, DataType::Int64, false)
    } else if same_text(keyword, "SUM") {
        match source {
            DataType::Int32 | DataType::Int64 => (AggregateFunction::Sum, DataType::Int64, true),
            DataType::Float64 => (AggregateFunction::Sum, DataType::Float64, true),
            _ => {
                let kind = show_type(source);
                return Err(
                    invalid(
                        cat4(
                            "SUM cannot be applied to non-numeric column '",
                            name,
                            "' of type ",
                            kind.as_str(),
                        ),
                    ),
                );
            },
        }
    } else if same_text(keyword, "MIN") {
        (AggregateFunction::Min, source, true)
    } else {
        (AggregateFunction::Max, source, true)
    };
    Ok(
        AnalyticExpr::Aggregate {
            function,
            column_index: Some(i),
            name: shown,
            data_type,
            nullable,
        },
    )
}

/// The aggregate that a call with one kind of argument is, or its refusal.
pub open spec fn aggregate_call(
    keyword: Seq<char>,
    args: Seq<FunctionArg>,
    t: TableDescriptor,
    table: Seq<char>,
) -> Result<AnalyticView, ErrorView> {
    if keyword == "COUNT"@ || keyword == "SUM"@ || keyword == "MIN"@ || keyword == "MAX"@ {
        if args.len() != 1 {
            invalid_view(
                keyword + " requires exactly 1 argument, found "@ + nat_text(args.len()),
            )
        } else {
            match args[0] {
                FunctionArg::Wildcard if keyword == "COUNT"@ => Ok(
                    AnalyticView::Aggregate {
                        function: AggregateFunction::CountStar,
                        column_index: None,
                        name: "COUNT(*)"@,
                        data_type: DataType::Int64,
                        nullable: false,
                    },
                ),
                FunctionArg::Expr(e) if e.node is Identifier => aggregate_of_column(
                    keyword,
                    e.node->Identifier_0@,
                    t,
                    table,
                ),
                _ => if keyword == "COUNT"@ {
                    invalid_view("COUNT argument must be '*' or a column identifier"@)
                } else {
                    invalid_view(keyword + " argument must be a column identifier"@)
                },
            }
        }
    } else if keyword == "AVG"@ {
        unsupported_view("AVG aggregate function is not supported"@)
    } else {
        unsupported_view("unsupported aggregate function: '"@ + keyword + "'"@)
    }
}

/// The aggregate that a call is, or its refusal.
pub open spec fn aggregate_of(f: Function, t: TableDescriptor, table: Seq<char>) -> Result<
    AnalyticView,
    ErrorView,
> {
    match single_name(f.name) {
        Err(e) => Err(e),
        Ok(name) => if f.over is Some {
            unsupported_view("window functions (OVER clause) not supported"@)
        } else if f.filter {
            unsupported_view("aggregate FILTER clause not supported"@)
        } else {
            match f.args {
                FunctionArguments::Missing => invalid_view(
                    "function '"@ + upper(name) + "' requires arguments"@,
                ),
                FunctionArguments::Subquery => unsupported_view(
                    "subqueries in function arguments not supported"@,
                ),
                FunctionArguments::List(list) => if list.duplicates == Some(
                    DuplicateTreatment::Distinct,
                ) {
                    unsupported_view("DISTINCT in aggregate functions not supported"@)
                } else if list.clauses {
                    unsupported_view("clauses in aggregate functions not supported"@)
                } else {
                    aggregate_call(upper(name), list.args@, t, table)
                },
            }
        },
    }
}

fn bind_aggregate_call(keyword: &str, args: &Vec<FunctionArg>, t: &TableDescriptor, table: &str) -> (r:
    Result<AnalyticExpr, HtapError>)
    ensures
        outcome(r) == aggregate_call(keyword@, args@, *t, table@),
{
    let count = same_text(keyword, "COUNT");
    if count || same_text(keyword, "SUM") || same_text(keyword, "MIN") || same_text(
        keyword,
        "MAX",
    ) {
        if args.len() != 1 {
            let n = count_text(args.len());
            return Err(
                invalid(cat3(keyword, " requires exactly 1 argument, found ", n.as_str())),
            );
        }
        match &args[0] {
            FunctionArg::Wildcard => {
                if count {
                    return Ok(
                        AnalyticExpr::Aggregate {
                            function: AggregateFunction::CountStar,
                            column_index: None,
                            name: owned("COUNT(*)"),
                            data_type: DataType::Int64,
                            nullable: false,
                        },
                    );
                }
            },
            FunctionArg::Expr(e) => match &e.node {
                SqlNode::Identifier(s) => {
                    return bind_column_aggregate(keyword, s.as_str(), t, table);
                },
                _ => {},
            },
            FunctionArg::Other => {},
        }
        if count {
            return Err(invalid(owned("COUNT argument must be '*' or a column identifier")));
        }
        return Err(invalid(cat2(keyword, " argument must be a column identifier")));
    }
    if same_text(keyword, "AVG") {
        return Err(unsupported(owned("AVG aggregate function is not supported")));
    }
    Err(unsupported(cat3("unsupported aggregate function: '", keyword, "'")))
}

/// Binds an aggregate of an analytical query.
pub(crate) fn bind_analytic_function(f: &Function, t: &TableDescriptor, table: &str) -> (r: Result<
    AnalyticExpr,
    HtapError,
>)
    ensures
        outcome(r) == aggregate_of(*f, *t, table@),
{
    let name = match object_name_single(&f.name) {
        Ok(n) => to_upper(n.as_str()),
        Err(e) => {
            return Err(e);
        },
    };
    if f.over.is_some() {
        return Err(unsupported(owned("window functions (OVER clause) not supported")));
    }
    if f.filter {
        return Err(unsupported(owned("aggregate FILTER clause not supported")));
    }
    match &f.args {
        FunctionArguments::Missing => Err(
            invalid(cat3("function '", name.as_str(), "' requires arguments")),
        ),
        FunctionArguments::Subquery => Err(
            unsupported(owned("subqueries in function arguments not supported")),
        ),
        FunctionArguments::List(list) => {
            let distinct = match list.duplicates {
                Some(DuplicateTreatment::Distinct) => true,
                _ => false,
            };
            if distinct {
                return Err(unsupported(owned("DISTINCT in aggregate functions not supported")));
            }
            if list.clauses {
                return Err(unsupported(owned("clauses in aggregate functions not supported")));
            }
            bind_aggregate_call(name.as_str(), &list.args, t, table)
        },
    }
}

/// The refusal of an item of the select list that is neither an expression of its own nor alone.
pub open spec fn item_refusal(item: SelectItem) -> Option<ErrorView> {
    match item {
        SelectItem::Wildcard { .. } => Some(
            ErrorView::InvalidArgument("wildcard '*' cannot be combined with specific columns"@),
        ),
        SelectItem::QualifiedWildcard(_) => Some(
            ErrorView::Unsupported("qualified wildcard not supported in projection"@),
        ),
        SelectItem::ExprWithAlias { .. } => Some(
            ErrorView::Unsupported("aliases not supported in projection"@),
        ),
        SelectItem::ExprWithAliases => Some(
            ErrorView::Unsupported("aliases not supported in projection"@),
        ),
        SelectItem::UnnamedExpr(_) => None,
    }
}

fn refuse_item(item: &SelectItem) -> (r: Option<HtapError>)
    ensures
        option_view(r) == item_refusal(*item),
{
    match item {
        SelectItem::Wildcard { .. } => Some(
            invalid(owned("wildcard '*' cannot be combined with specific columns")),
        ),
        SelectItem::QualifiedWildcard(_) => Some(
            unsupported(owned("qualified wildcard not supported in projection")),
        ),
        SelectItem::ExprWithAlias { .. } => Some(
            unsupported(owned("aliases not supported in projection")),
        ),
        SelectItem::ExprWithAliases => Some(
            unsupported(owned("aliases not supported in projection")),
        ),
        SelectItem::UnnamedExpr(_) => None,
    }
}

/// What an item of an analytical projection is, or its refusal.
pub open spec fn analytic_item(item: SelectItem, t: TableDescriptor, table: Seq<char>) -> Result<
    AnalyticView,
    ErrorView,
> {
    match item {
        SelectItem::UnnamedExpr(e) => match e.node {
            SqlNode::Identifier(s) => match first_named(t.schema.columns@, s@, 0) {
                None => no_column(s@, table),
                Some(i) => Ok(column_item(t, i)),
            },
            SqlNode::CompoundIdentifier(_) => unsupported_view(
                "qualified column names not supported in projection"@,
            ),
            SqlNode::Function(f) => aggregate_of(*f, t, table),
            _ => unsupported_view("expressions not supported in projection"@),
        },
        _ => Err(item_refusal(item)->0),
    }
}

fn bind_analytic_item(item: &SelectItem, t: &TableDescriptor, table: &str) -> (r: Result<
    AnalyticExpr,
    HtapError,
>)
    ensures
        outcome(r) == analytic_item(*item, *t, table@),
{
    match refuse_item(item) {
        Some(e) => {
            return Err(e);
        },
        None => {},
    }
    match item {
        SelectItem::UnnamedExpr(e) => match &e.node {
            SqlNode::Identifier(s) => match t.schema.column_index(s.as_str()) {
                None => Err(no_column_error(s.as_str(), table)),
                Some(i) => Ok(project_column(t, i)),
            },
            SqlNode::CompoundIdentifier(_) => Err(
                unsupported(owned("qualified column names not supported in projection")),
            ),
            SqlNode::Function(f) => bind_analytic_function(f, t, table),
            _ => Err(unsupported(owned("expressions not supported in projection"))),
        },
        _ => Err(unsupported(owned("expressions not supported in projection"))),
    }
}

/// Whether a select list is `*` alone.
pub open spec fn star_alone(items: Seq<SelectItem>) -> bool {
    items.len() == 1 && items[0] is Wildcard
}

fn is_star_alone(items: &Vec<SelectItem>) -> (r: bool)
    ensures
        r == star_alone(items@),
{
    if items.len() != 1 {
        return false;
    }
    match &items[0] {
        SelectItem::Wildcard { .. } => true,
        _ => false,
    }
}

/// The analytical projections of the items from the `i`-th on, behind `acc`.
pub open spec fn analytic_items(
    items: Seq<SelectItem>,
    i: int,
    t: TableDescriptor,
    table: Seq<char>,
    acc: Seq<AnalyticView>,
) -> Result<Seq<AnalyticView>, ErrorView>
    decreases items.len() - i,
{
    if i < 0 || i >= items.len() {
        Ok(acc)
    } else {
        match analytic_item(items[i], t, table) {
            Err(e) => Err(e),
            Ok(x) => analytic_items(items, i + 1, t, table, acc.push(x)),
        }
    }
}

/// The analytical projection of a select list, or its refusal.
pub open spec fn analytic_projection(
    items: Seq<SelectItem>,
    t: TableDescriptor,
    table: Seq<char>,
) -> Result<Seq<AnalyticView>, ErrorView> {
    if star_alone(items) {
        Ok(Seq::new(t.schema.columns@.len(), |i: int| column_item(t, i)))
    } else {
        analytic_items(items, 0, t, table, Seq::empty())
    }
}

fn bind_analytic_projection(items: &Vec<SelectItem>, t: &TableDescriptor, table: &str) -> (r: Result<
    Vec<AnalyticExpr>,
    HtapError,
>)
    ensures
        match r {
            Ok(v) => analytic_projection(items@, *t, table@) == Ok::<Seq<AnalyticView>, ErrorView>(
                views(v@),
            ),
            Err(e) => analytic_projection(items@, *t, table@) == Err::<
                Seq<AnalyticView>,
                ErrorView,
            >(e@),
        },
{
    let mut out: Vec<AnalyticExpr> = Vec::new();
    let mut i: usize = 0;
    if is_star_alone(items) {
        while i < t.schema.columns.len()
            invariant
                i <= t.schema.columns.len(),
                out@.len() == i,
                forall|k: int| 0 <= k < i ==> (#[trigger] out@[k])@ == column_item(*t, k),
            decreases t.schema.columns.len() - i,
        {
            out.push(project_column(t, i));
            i = i + 1;
        }
        assert(views(out@) =~= Seq::new(t.schema.columns@.len(), |i: int| column_item(*t, i)));
        return Ok(out);
    }
    assert(views(out@) =~= Seq::empty());
    while i < items.len()
        invariant
            i <= items.len(),
            !star_alone(items@),
            analytic_items(items@, 0, *t, table@, Seq::empty()) == analytic_items(
                items@,
                i as int,
                *t,
                table@,
                views(out@),
            ),
        decreases items.len() - i,
    {
        match bind_analytic_item(&items[i], t, table) {
            Ok(x) => {
                proof {
                    lemma_views_push(out@, x);
                }
                out.push(x);
            },
            Err(e) => {
                return Err(e);
            },
        }
        i = i + 1;
    }
    Ok(out)
}

/// The column that an expression of `GROUP BY` names, `acc` being those before it; or its refusal.
pub open spec fn group_column(e: SqlExpr, t: TableDescriptor, acc: Seq<usize>) -> Result<
    usize,
    ErrorView,
> {
    match e.node {
        SqlNode::Identifier(s) => match first_named(t.schema.columns@, s@, 0) {
            None => invalid_view("unknown column '"@ + s@ + "' in GROUP BY"@),
            Some(i) => if acc.contains(i as usize) {
                invalid_view("duplicate column '"@ + s@ + "' in GROUP BY"@)
            } else {
                Ok(i as usize)
            },
        },
        SqlNode::CompoundIdentifier(_) => unsupported_view(
            "qualified column names not supported in GROUP BY"@,
        ),
        _ => invalid_view(
            "GROUP BY expression must be a simple column identifier, found: "@ + e.text@,
        ),
    }
}

/// The grouping columns from the `i`-th on, behind `acc`.
pub open spec fn group_columns(exprs: Seq<SqlExpr>, i: int, t: TableDescriptor, acc: Seq<usize>) -> Result<
    Seq<usize>,
    ErrorView,
>
    decreases exprs.len() - i,
{
    if i < 0 || i >= exprs.len() {
        Ok(acc)
    } else {
        match group_column(exprs[i], t, acc) {
            Err(e) => Err(e),
            Ok(c) => group_columns(exprs, i + 1, t, acc.push(c)),
        }
    }
}

/// The grouping columns of an analytical query, or their refusal.
pub open spec fn analytic_grouping(g: GroupBy, t: TableDescriptor) -> Result<
    Seq<usize>,
    ErrorView,
> {
    match g {
        GroupBy::All => unsupported_view("GROUP BY ALL is not supported"@),
        GroupBy::Expressions { exprs, modifiers } => if modifiers {
            unsupported_view("GROUP BY modifiers not supported"@)
        } else {
            group_columns(exprs@, 0, t, Seq::empty())
        },
    }
}

fn find_group_column(e: &SqlExpr, t: &TableDescriptor, acc: &Vec<usize>) -> (r: Result<
    usize,
    HtapError,
>)
    ensures
        match r {
            Ok(c) => group_column(*e, *t, acc@) == Ok::<usize, ErrorView>(c),
            Err(x) => group_column(*e, *t, acc@) == Err::<usize, ErrorView>(x@),
        },
{
    match &e.node {
        SqlNode::Identifier(s) => match t.schema.column_index(s.as_str()) {
            None => Err(invalid(cat3("unknown column '", s.as_str(), "' in GROUP BY"))),
            Some(i) => if has_index(acc, i) {
                Err(invalid(cat3("duplicate column '", s.as_str(), "' in GROUP BY")))
            } else {
                Ok(i)
            },
        },
        SqlNode::CompoundIdentifier(_) => Err(
            unsupported(owned("qualified column names not supported in GROUP BY")),
        ),
        _ => Err(
            invalid(
                cat2(
                    "GROUP BY expression must be a simple column identifier, found: ",
                    e.text.as_str(),
                ),
            ),
        ),
    }
}

fn bind_analytic_group_by(g: &GroupBy, t: &TableDescriptor) -> (r: Result<Vec<usize>, HtapError>)
    ensures
        match r {
            Ok(v) => analytic_grouping(*g, *t) == Ok::<Seq<usize>, ErrorView>(v@),
            Err(e) => analytic_grouping(*g, *t) == Err::<Seq<usize>, ErrorView>(e@),
        },
{
    match g {
        GroupBy::All => Err(unsupported(owned("GROUP BY ALL is not supported"))),
        GroupBy::Expressions { exprs, modifiers } => {
            if *modifiers {
                return Err(unsupported(owned("GROUP BY modifiers not supported")));
            }
            let ghost model = group_columns(exprs@, 0, *t, Seq::empty());
            assert(model == analytic_grouping(*g, *t));
            let mut out: Vec<usize> = Vec::new();
            let mut i: usize = 0;
            while i < exprs.len()
                invariant
                    i <= exprs.len(),
                    model == analytic_grouping(*g, *t),
                    model == group_columns(exprs@, i as int, *t, out@),
                decreases exprs.len() - i,
            {
                match find_group_column(&exprs[i], t, &out) {
                    Ok(c) => {
                        out.push(c);
                    },
                    Err(e) => {
                        return Err(e);
                    },
                }
                i = i + 1;
            }
            Ok(out)
        },
    }
}

/// An item of an analytical order, or its refusal. Without `NULLS FIRST` or `NULLS LAST`, `NULL`
/// comes first in ascending order and last in descending order.
pub open spec fn order_item(
    o: OrderByExpr,
    t: TableDescriptor,
    group_by: Seq<usize>,
    grouped: bool,
) -> Result<AnalyticOrderBy, ErrorView> {
    if o.with_fill {
        unsupported_view("WITH FILL not supported in ORDER BY"@)
    } else {
        match o.expr.node {
            SqlNode::Identifier(s) => match first_named(t.schema.columns@, s@, 0) {
                None => invalid_view("unknown column '"@ + s@ + "' in ORDER BY"@),
                Some(i) => if grouped && !group_by.contains(i as usize) {
                    invalid_view("column '"@ + s@ + "' must appear in the GROUP BY clause"@)
                } else {
                    let asc = match o.asc {
                        Some(b) => b,
                        None => true,
                    };
                    Ok(
                        AnalyticOrderBy {
                            column: i as usize,
                            asc,
                            nulls_first: match o.nulls_first {
                                Some(b) => b,
                                None => asc,
                            },
                        },
                    )
                },
            },
            SqlNode::CompoundIdentifier(_) => unsupported_view(
                "qualified column names not supported in ORDER BY"@,
            ),
            SqlNode::Function(_) => unsupported_view(
                "aggregate ordering not supported in ORDER BY"@,
            ),
            _ => unsupported_view("expressions not supported in ORDER BY"@),
        }
    }
}

fn bind_order_item(o: &OrderByExpr, t: &TableDescriptor, group_by: &Vec<usize>, grouped: bool) -> (r:
    Result<AnalyticOrderBy, HtapError>)
    ensures
        outcome(r) == order_item(*o, *t, group_by@, grouped),
{
    if o.with_fill {
        return Err(unsupported(owned("WITH FILL not supported in ORDER BY")));
    }
    match &o.expr.node {
        SqlNode::Identifier(s) => match t.schema.column_index(s.as_str()) {
            None => Err(invalid(cat3("unknown column '", s.as_str(), "' in ORDER BY"))),
            Some(i) => {
                if grouped && !has_index(group_by, i) {
                    return Err(
                        invalid(
                            cat3("column '", s.as_str(), "' must appear in the GROUP BY clause"),
                        ),
                    );
                }
                let asc = match o.asc {
                    Some(b) => b,
                    None => true,
                };
                let nulls_first = match o.nulls_first {
                    Some(b) => b,
                    None => asc,
                };
                Ok(AnalyticOrderBy::new(i, asc, nulls_first))
            },
        },
        SqlNode::CompoundIdentifier(_) => Err(
            unsupported(owned("qualified column names not supported in ORDER BY")),
        ),
        SqlNode::Function(_) => Err(
            unsupported(owned("aggregate ordering not supported in ORDER BY")),
        ),
        _ => Err(unsupported(owned("expressions not supported in ORDER BY"))),
    }
}

/// The items of an analytical order from the `i`-th on, behind `acc`.
pub open spec fn order_items(
    exprs: Seq<OrderByExpr>,
    i: int,
    t: TableDescriptor,
    group_by: Seq<usize>,
    grouped: bool,
    acc: Seq<AnalyticOrderBy>,
) -> Result<Seq<AnalyticOrderBy>, ErrorView>
    decreases exprs.len() - i,
{
    if i < 0 || i >= exprs.len() {
        Ok(acc)
    } else {
        match order_item(exprs[i], t, group_by, grouped) {
            Err(e) => Err(e),
            Ok(x) => order_items(exprs, i + 1, t, group_by, grouped, acc.push(x)),
        }
    }
}

/// The order of an analytical query, or its refusal.
pub open spec fn analytic_order(
    order_by: Option<OrderBy>,
    t: TableDescriptor,
    group_by: Seq<usize>,
    aggregates: bool,
) -> Result<Seq<AnalyticOrderBy>, ErrorView> {
    match order_by {
        None => Ok(Seq::empty()),
        Some(o) => if o.interpolate {
            unsupported_view("INTERPOLATE not supported in ORDER BY"@)
        } else if o.all {
            unsupported_view("ORDER BY ALL not supported"@)
        } else {
            order_items(
                o.exprs@,
                0,
                t,
                group_by,
                group_by.len() > 0 || aggregates,
                Seq::empty(),
            )
        },
    }
}

fn bind_analytic_order_by(
    order_by: &Option<OrderBy>,
    t: &TableDescriptor,
    group_by: &Vec<usize>,
    aggregates: bool,
) -> (r: Result<Vec<AnalyticOrderBy>, HtapError>)
    ensures
        match r {
            Ok(v) => analytic_order(*order_by, *t, group_by@, aggregates) == Ok::<
                Seq<AnalyticOrderBy>,
                ErrorView,
            >(v@),
            Err(e) => analytic_order(*order_by, *t, group_by@, aggregates) == Err::<
                Seq<AnalyticOrderBy>,
                ErrorView,
            >(e@),
        },
{
    let mut out: Vec<AnalyticOrderBy> = Vec::new();
    let o = match order_by {
        Some(o) => o,
        None => {
            return Ok(out);
        },
    };
    if o.interpolate {
        return Err(unsupported(owned("INTERPOLATE not supported in ORDER BY")));
    }
    if o.all {
        return Err(unsupported(owned("ORDER BY ALL not supported")));
    }
    let grouped = group_by.len() > 0 || aggregates;
    let ghost model = order_items(o.exprs@, 0, *t, group_by@, grouped, Seq::empty());
    assert(model == analytic_order(*order_by, *t, group_by@, aggregates));
    let mut i: usize = 0;
    while i < o.exprs.len()
        invariant
            i <= o.exprs.len(),
            model == analytic_order(*order_by, *t, group_by@, aggregates),
            model == order_items(o.exprs@, i as int, *t, group_by@, grouped, out@),
        decreases o.exprs.len() - i,
    {
        match bind_order_item(&o.exprs[i], t, group_by, grouped) {
            Ok(x) => {
                out.push(x);
            },
            Err(e) => {
                return Err(e);
            },
        }
        i = i + 1;
    }
    Ok(out)
}

/// The comparison that an operator makes, or its refusal.
pub open spec fn comparison_of(op: BinaryOperator) -> Result<ComparisonOp, ErrorView> {
    match op {
        BinaryOperator::Eq => Ok(ComparisonOp::Eq),
        BinaryOperator::NotEq => Ok(ComparisonOp::NotEq),
        BinaryOperator::Lt => Ok(ComparisonOp::Lt),
        BinaryOperator::LtEq => Ok(ComparisonOp::Lte),
        BinaryOperator::Gt => Ok(ComparisonOp::Gt),
        BinaryOperator::GtEq => Ok(ComparisonOp::Gte),
        BinaryOperator::Or => invalid_view("OR is not supported in WHERE clause"@),
        _ => invalid_view(
            "unsupported operator in WHERE clause: '"@ + binary_text(op) + "'"@,
        ),
    }
}

fn find_comparison(op: &BinaryOperator) -> (r: Result<ComparisonOp, HtapError>)
    ensures
        match r {
            Ok(c) => comparison_of(*op) == Ok::<ComparisonOp, ErrorView>(c),
            Err(e) => comparison_of(*op) == Err::<ComparisonOp, ErrorView>(e@),
        },
{
    match op {
        BinaryOperator::Eq => Ok(ComparisonOp::Eq),
        BinaryOperator::NotEq => Ok(ComparisonOp::NotEq),
        BinaryOperator::Lt => Ok(ComparisonOp::Lt),
        BinaryOperator::LtEq => Ok(ComparisonOp::Lte),
        BinaryOperator::Gt => Ok(ComparisonOp::Gt),
        BinaryOperator::GtEq => Ok(ComparisonOp::Gte),
        BinaryOperator::Or => Err(invalid(owned("OR is not supported in WHERE clause"))),
        _ => Err(
            invalid(cat3("unsupported operator in WHERE clause: '", text_of_binary(op), "'")),
        ),
    }
}

/// The column that a test for `NULL` is about, or its refusal.
pub open spec fn tested_column(e: SqlExpr, test: Seq<char>, t: TableDescriptor) -> Result<
    usize,
    ErrorView,
> {
    match unnested(e).node {
        SqlNode::Identifier(s) => match first_named(t.schema.columns@, s@, 0) {
            None => no_column(s@, t.name@),
            Some(i) => Ok(i as usize),
        },
        SqlNode::CompoundIdentifier(_) => unsupported_view(
            "qualified column names not supported in WHERE clause"@,
        ),
        _ => invalid_view(test + " requires a column identifier"@),
    }
}

fn find_tested_column(e: &SqlExpr, test: &str, t: &TableDescriptor) -> (r: Result<usize, HtapError>)
    ensures
        match r {
            Ok(c) => tested_column(*e, test@, *t) == Ok::<usize, ErrorView>(c),
            Err(x) => tested_column(*e, test@, *t) == Err::<usize, ErrorView>(x@),
        },
{
    match &unnest(e).node {
        SqlNode::Identifier(s) => match t.schema.column_index(s.as_str()) {
            None => Err(no_column_error(s.as_str(), t.name.as_str())),
            Some(i) => Ok(i),
        },
        SqlNode::CompoundIdentifier(_) => Err(
            unsupported(owned("qualified column names not supported in WHERE clause")),
        ),
        _ => Err(invalid(cat2(test, " requires a column identifier"))),
    }
}

/// The comparison of a column with a literal, `seen` being the columns that were set equal to one
/// before; or its refusal.
pub open spec fn comparison_leaf(
    left: SqlExpr,
    op: BinaryOperator,
    right: SqlExpr,
    t: TableDescriptor,
    seen: Seq<usize>,
) -> Result<FilterView, ErrorView> {
    match comparison_of(op) {
        Err(e) => Err(e),
        Ok(c) => {
            let l = unnested(left);
            let r = unnested(right);
            if l.node is Identifier && r.node is Identifier {
                invalid_view("cross-column comparisons not supported in WHERE clause"@)
            } else if l.node is Value || r.node is Identifier {
                invalid_view(
                    "reversed operands in comparison predicate: expected column <op> value"@,
                )
            } else {
                match l.node {
                    SqlNode::Identifier(s) => match first_named(t.schema.columns@, s@, 0) {
                        None => no_column(s@, t.name@),
                        Some(i) => if c == ComparisonOp::Eq && seen.contains(i as usize) {
                            invalid_view(
                                "duplicate predicate on column '"@ + t.schema.columns@[i].name@
                                    + "'"@,
                            )
                        } else if r.node matches SqlNode::Value(SqlValue::Null) {
                            invalid_view(
                                "NULL literal not permitted in comparison predicate for column '"@
                                    + s@ + "'; use IS NULL or IS NOT NULL"@,
                            )
                        } else {
                            match column_literal(r, t.schema.columns@[i]@) {
                                Err(e) => Err(e),
                                Ok(value) => Ok(
                                    FilterView::Comparison { column: i as usize, op: c, value },
                                ),
                            }
                        },
                    },
                    SqlNode::CompoundIdentifier(_) => unsupported_view(
                        "qualified column names not supported in WHERE clause"@,
                    ),
                    _ => invalid_view("left side of comparison must be a column identifier"@),
                }
            }
        },
    }
}

fn bind_comparison_leaf(
    left: &SqlExpr,
    op: &BinaryOperator,
    right: &SqlExpr,
    t: &TableDescriptor,
    seen: &Vec<usize>,
) -> (r: Result<AnalyticFilter, HtapError>)
    ensures
        outcome(r) == comparison_leaf(*left, *op, *right, *t, seen@),
{
    let c = match find_comparison(op) {
        Ok(c) => c,
        Err(e) => {
            return Err(e);
        },
    };
    let l = unnest(left);
    let r = unnest(right);
    match (&l.node, &r.node) {
        (SqlNode::Identifier(_), SqlNode::Identifier(_)) => {
            return Err(
                invalid(owned("cross-column comparisons not supported in WHERE clause")),
            );
        },
        (SqlNode::Value(_), _) | (_, SqlNode::Identifier(_)) => {
            return Err(
                invalid(
                    owned("reversed operands in comparison predicate: expected column <op> value"),
                ),
            );
        },
        _ => {},
    }
    let name = match &l.node {
        SqlNode::Identifier(s) => s.as_str(),
        SqlNode::CompoundIdentifier(_) => {
            return Err(
                unsupported(owned("qualified column names not supported in WHERE clause")),
            );
        },
        _ => {
            return Err(invalid(owned("left side of comparison must be a column identifier")));
        },
    };
    let i: usize = match t.schema.column_index(name) {
        Some(i) => i,
        None => {
            return Err(no_column_error(name, t.name.as_str()));
        },
    };
    if c == ComparisonOp::Eq && has_index(seen, i) {
        return Err(
            invalid(
                cat3(
                    "duplicate predicate on column '",
                    t.schema.columns[i].name.as_str(),
                    "'",
                ),
            ),
        );
    }
    match &r.node {
        SqlNode::Value(SqlValue::Null) => {
            return Err(
                invalid(
                    cat3(
                        "NULL literal not permitted in comparison predicate for column '",
                        name,
                        "'; use IS NULL or IS NOT NULL",
                    ),
                ),
            );
        },
        _ => {},
    }
    match parse_literal_value(r, &t.schema.columns[i]) {
        Ok(value) => Ok(AnalyticFilter::Comparison { column: i, op: c, value }),
        Err(e) => Err(e),
    }
}

/// What a term of a condition tests, `seen` being the columns that were set equal to a literal
/// before; or its refusal.
pub open spec fn filter_leaf(leaf: SqlExpr, t: TableDescriptor, seen: Seq<usize>) -> Result<
    FilterView,
    ErrorView,
> {
    let e = unnested(leaf);
    match e.node {
        SqlNode::IsNull(inner) => match tested_column(*inner, "IS NULL"@, t) {
            Err(x) => Err(x),
            Ok(column) => Ok(FilterView::IsNull { column }),
        },
        SqlNode::IsNotNull(inner) => match tested_column(*inner, "IS NOT NULL"@, t) {
            Err(x) => Err(x),
            Ok(column) => Ok(FilterView::IsNotNull { column }),
        },
        SqlNode::BinaryOp { left, op, right } => comparison_leaf(*left, op, *right, t, seen),
        SqlNode::UnaryOp { op: UnaryOperator::Not, .. } => invalid_view(
            "NOT is not supported in WHERE clause"@,
        ),
        _ => invalid_view("unsupported predicate in WHERE clause: "@ + e.text@),
    }
}

fn bind_filter_leaf(leaf: &SqlExpr, t: &TableDescriptor, seen: &Vec<usize>) -> (r: Result<
    AnalyticFilter,
    HtapError,
>)
    ensures
        outcome(r) == filter_leaf(*leaf, *t, seen@),
{
    let e = unnest(leaf);
    match &e.node {
        SqlNode::IsNull(inner) => match find_tested_column(inner, "IS NULL", t) {
            Err(x) => Err(x),
            Ok(column) => Ok(AnalyticFilter::IsNull { column }),
        },
        SqlNode::IsNotNull(inner) => match find_tested_column(inner, "IS NOT NULL", t) {
            Err(x) => Err(x),
            Ok(column) => Ok(AnalyticFilter::IsNotNull { column }),
        },
        SqlNode::BinaryOp { left, op, right } => bind_comparison_leaf(left, op, right, t, seen),
        SqlNode::UnaryOp { op: UnaryOperator::Not, .. } => Err(
            invalid(owned("NOT is not supported in WHERE clause")),
        ),
        _ => Err(invalid(cat2("unsupported predicate in WHERE clause: ", e.text.as_str()))),
    }
}

/// The columns that are set equal to a literal, with that of a further test.
pub open spec fn equated(seen: Seq<usize>, f: FilterView) -> Seq<usize> {
    match f {
        FilterView::Comparison { column, op: ComparisonOp::Eq, .. } => seen.push(column),
        _ => seen,
    }
}

/// The tests of the terms from the `i`-th on, behind `acc`.
pub open spec fn filter_terms(
    leaves: Seq<SqlExpr>,
    i: int,
    t: TableDescriptor,
    seen: Seq<usize>,
    acc: Seq<FilterView>,
) -> Result<Seq<FilterView>, ErrorView>
    decreases leaves.len() - i,
{
    if i < 0 || i >= leaves.len() {
        Ok(acc)
    } else {
        match filter_leaf(leaves[i], t, seen) {
            Err(e) => Err(e),
            Ok(f) => filter_terms(leaves, i + 1, t, equated(seen, f), acc.push(f)),
        }
    }
}

/// The filter of an analytical query, or its refusal.
pub open spec fn analytic_filter(selection: Option<SqlExpr>, t: TableDescriptor) -> Result<
    Option<FilterView>,
    ErrorView,
> {
    match selection {
        None => Ok(None),
        Some(e) => match filter_terms(and_leaves(e), 0, t, Seq::empty(), Seq::empty()) {
            Err(x) => Err(x),
            Ok(terms) => if terms.len() == 1 {
                Ok(Some(terms[0]))
            } else {
                Ok(Some(FilterView::And(terms)))
            },
        },
    }
}

fn bind_analytic_filter(selection: &Option<SqlExpr>, t: &TableDescriptor) -> (r: Result<
    Option<AnalyticFilter>,
    HtapError,
>)
    ensures
        match r {
            Ok(f) => analytic_filter(*selection, *t) == Ok::<Option<FilterView>, ErrorView>(
                option_view(f),
            ),
            Err(e) => analytic_filter(*selection, *t) == Err::<Option<FilterView>, ErrorView>(e@),
        },
{
    let e = match selection {
        Some(e) => e,
        None => {
            return Ok(None);
        },
    };
    let leaves = collect_and_leaves(e);
    let ghost list = targets(leaves@);
    let mut seen: Vec<usize> = Vec::new();
    let mut out: Vec<AnalyticFilter> = Vec::new();
    let mut i: usize = 0;
    assert(views(out@) =~= Seq::empty());
    while i < leaves.len()
        invariant
            i <= leaves.len(),
            list == targets(leaves@),
            list == and_leaves(*e),
            *selection == Some(*e),
            filter_terms(list, 0, *t, Seq::empty(), Seq::empty()) == filter_terms(
                list,
                i as int,
                *t,
                seen@,
                views(out@),
            ),
        decreases leaves.len() - i,
    {
        assert(list[i as int] == *leaves@[i as int]);
        let f = match bind_filter_leaf(leaves[i], t, &seen) {
            Ok(f) => f,
            Err(x) => {
                return Err(x);
            },
        };
        match &f {
            AnalyticFilter::Comparison { column, op: ComparisonOp::Eq, .. } => {
                seen.push(*column);
            },
            _ => {},
        }
        proof {
            lemma_views_push(out@, f);
        }
        out.push(f);
        i = i + 1;
    }
    if out.len() == 1 {
        assert(views(out@)[0] == out@[0]@);
        Ok(Some(out[0].copy()))
    } else {
        assert(view_filters(out) =~= views(out@));
        Ok(Some(AnalyticFilter::And(out)))
    }
}

/// Whether a select list is `*` alone, or names of columns.
pub open spec fn simple_projection(items: Seq<SelectItem>) -> bool {
    items.len() > 0 && (star_alone(items) || forall|i: int|
        0 <= i < items.len() ==> simple_item(#[trigger] items[i]))
}

/// Whether an item of the select list is a bare name.
pub open spec fn simple_item(item: SelectItem) -> bool {
    match item {
        SelectItem::UnnamedExpr(e) => e.node is Identifier,
        _ => false,
    }
}

fn is_simple_or_wildcard_projection(items: &Vec<SelectItem>) -> (r: bool)
    ensures
        r == simple_projection(items@),
{
    if items.len() == 0 {
        return false;
    }
    if is_star_alone(items) {
        return true;
    }
    let mut i: usize = 0;
    while i < items.len()
        invariant
            0 < items@.len(),
            i <= items.len(),
            !star_alone(items@),
            forall|k: int| 0 <= k < i ==> simple_item(#[trigger] items@[k]),
        decreases items.len() - i,
    {
        let ok = match &items[i] {
            SelectItem::UnnamedExpr(e) => match &e.node {
                SqlNode::Identifier(_) => true,
                _ => false,
            },
            _ => false,
        };
        if !ok {
            assert(!simple_item(items@[i as int]));
            return false;
        }
        i = i + 1;
    }
    true
}

/// The column that an item of a point projection names, or its refusal.
pub open spec fn point_item(item: SelectItem, t: TableDescriptor, table: Seq<char>) -> Result<
    usize,
    ErrorView,
> {
    match item {
        SelectItem::UnnamedExpr(e) => match e.node {
            SqlNode::Identifier(s) => match first_named(t.schema.columns@, s@, 0) {
                None => no_column(s@, table),
                Some(i) => Ok(i as usize),
            },
            SqlNode::CompoundIdentifier(_) => unsupported_view(
                "qualified column names not supported in projection"@,
            ),
            _ => unsupported_view("expressions not supported in projection"@),
        },
        _ => Err(item_refusal(item)->0),
    }
}

/// The columns of a point projection from the `i`-th item on, behind `acc`.
pub open spec fn point_items(
    items: Seq<SelectItem>,
    i: int,
    t: TableDescriptor,
    table: Seq<char>,
    acc: Seq<usize>,
) -> Result<Seq<usize>, ErrorView>
    decreases items.len() - i,
{
    if i < 0 || i >= items.len() {
        Ok(acc)
    } else {
        match point_item(items[i], t, table) {
            Err(e) => Err(e),
            Ok(c) => point_items(items, i + 1, t, table, acc.push(c)),
        }
    }
}

/// The columns of a point projection, or its refusal.
pub open spec fn point_projection(
    items: Seq<SelectItem>,
    t: TableDescriptor,
    table: Seq<char>,
) -> Result<Seq<usize>, ErrorView> {
    if star_alone(items) {
        Ok(Seq::new(t.schema.columns@.len(), |i: int| i as usize))
    } else {
        point_items(items, 0, t, table, Seq::empty())
    }
}

fn bind_point_item(item: &SelectItem, t: &TableDescriptor, table: &str) -> (r: Result<
    usize,
    HtapError,
>)
    ensures
        match r {
            Ok(c) => point_item(*item, *t, table@) == Ok::<usize, ErrorView>(c),
            Err(e) => point_item(*item, *t, table@) == Err::<usize, ErrorView>(e@),
        },
{
    match refuse_item(item) {
        Some(e) => {
            return Err(e);
        },
        None => {},
    }
    match item {
        SelectItem::UnnamedExpr(e) => match &e.node {
            SqlNode::Identifier(s) => match t.schema.column_index(s.as_str()) {
                None => Err(no_column_error(s.as_str(), table)),
                Some(i) => Ok(i),
            },
            SqlNode::CompoundIdentifier(_) => Err(
                unsupported(owned("qualified column names not supported in projection")),
            ),
            _ => Err(unsupported(owned("expressions not supported in projection"))),
        },
        _ => Err(unsupported(owned("expressions not supported in projection"))),
    }
}

fn bind_point_projection(items: &Vec<SelectItem>, t: &TableDescriptor, table: &str) -> (r: Result<
    Vec<usize>,
    HtapError,
>)
    ensures
        match r {
            Ok(v) => point_projection(items@, *t, table@) == Ok::<Seq<usize>, ErrorView>(v@),
            Err(e) => point_projection(items@, *t, table@) == Err::<Seq<usize>, ErrorView>(e@),
        },
{
    let mut out: Vec<usize> = Vec::new();
    let mut i: usize = 0;
    if is_star_alone(items) {
        while i < t.schema.columns.len()
            invariant
                i <= t.schema.columns.len(),
                out@.len() == i,
                forall|k: int| 0 <= k < i ==> #[trigger] out@[k] == k as usize,
            decreases t.schema.columns.len() - i,
        {
            out.push(i);
            i = i + 1;
        }
        assert(out@ =~= Seq::new(t.schema.columns@.len(), |i: int| i as usize));
        return Ok(out);
    }
    while i < items.len()
        invariant
            i <= items.len(),
            !star_alone(items@),
            point_items(items@, 0, *t, table@, Seq::empty()) == point_items(
                items@,
                i as int,
                *t,
                table@,
                out@,
            ),
        decreases items.len() - i,
    {
        match bind_point_item(&items[i], t, table) {
            Ok(c) => {
                out.push(c);
            },
            Err(e) => {
                return Err(e);
            },
        }
        i = i + 1;
    }
    Ok(out)
}

/// Whether a query has only the clauses that a narrow query can have; if not, why it is refused.
pub open spec fn narrow_clauses_check(q: Query) -> Result<(), ErrorView> {
    if q.with is Some {
        unsupported_view("CTEs (WITH clause) not supported"@)
    } else if q.limit is Some {
        unsupported_view("LIMIT clause not supported in SELECT"@)
    } else if q.fetch {
        unsupported_view("FETCH clause not supported in SELECT"@)
    } else if q.locks {
        unsupported_view("locking clauses not supported in SELECT"@)
    } else if q.for_clause {
        unsupported_view("FOR clause not supported in SELECT"@)
    } else {
        match *q.body {
            SetExpr::Select(s) => if s.distinct is Some {
                unsupported_view("DISTINCT not supported in SELECT"@)
            } else if s.top {
                unsupported_view("TOP not supported in SELECT"@)
            } else if s.into {
                unsupported_view("INTO not supported in SELECT"@)
            } else if s.lateral_views {
                unsupported_view("LATERAL VIEW not supported in SELECT"@)
            } else if s.prewhere {
                unsupported_view("PREWHERE not supported in SELECT"@)
            } else if s.having is Some {
                unsupported_view("HAVING not supported in SELECT"@)
            } else if s.named_window {
                unsupported_view("WINDOW clauses not supported in SELECT"@)
            } else if s.qualify {
                unsupported_view("QUALIFY not supported in SELECT"@)
            } else if s.from@.len() != 1 {
                unsupported_view("joins or multiple tables in FROM not supported"@)
            } else if s.from@[0].joins@.len() != 0 {
                unsupported_view("JOIN not supported in SELECT"@)
            } else {
                match s.from@[0].relation {
                    TableFactor::Table { alias, options, .. } => if alias is Some {
                        unsupported_view("table aliases not supported in SELECT"@)
                    } else if options.given() {
                        unsupported_view("unsupported table factor options in SELECT"@)
                    } else {
                        Ok(())
                    },
                    _ => unsupported_view("unsupported table relation in SELECT"@),
                }
            },
            SetExpr::SetOperation { .. } => unsupported_view(
                "set operations (UNION/EXCEPT/INTERSECT) not supported"@,
            ),
            _ => unsupported_view("unsupported query body in SELECT"@),
        }
    }
}

fn check_narrow_clauses(q: &Query) -> (r: Result<(), HtapError>)
    ensures
        outcome(r) == narrow_clauses_check(*q),
{
    let what = if q.with.is_some() {
        "CTEs (WITH clause) not supported"
    } else if q.limit.is_some() {
        "LIMIT clause not supported in SELECT"
    } else if q.fetch {
        "FETCH clause not supported in SELECT"
    } else if q.locks {
        "locking clauses not supported in SELECT"
    } else if q.for_clause {
        "FOR clause not supported in SELECT"
    } else {
        match &*q.body {
            SetExpr::Select(s) => {
                if s.distinct.is_some() {
                    "DISTINCT not supported in SELECT"
                } else if s.top {
                    "TOP not supported in SELECT"
                } else if s.into {
                    "INTO not supported in SELECT"
                } else if s.lateral_views {
                    "LATERAL VIEW not supported in SELECT"
                } else if s.prewhere {
                    "PREWHERE not supported in SELECT"
                } else if s.having.is_some() {
                    "HAVING not supported in SELECT"
                } else if s.named_window {
                    "WINDOW clauses not supported in SELECT"
                } else if s.qualify {
                    "QUALIFY not supported in SELECT"
                } else if s.from.len() != 1 {
                    "joins or multiple tables in FROM not supported"
                } else if s.from[0].joins.len() != 0 {
                    "JOIN not supported in SELECT"
                } else {
                    match &s.from[0].relation {
                        TableFactor::Table { alias, options, .. } => {
                            if alias.is_some() {
                                "table aliases not supported in SELECT"
                            } else if options.given() {
                                "unsupported table factor options in SELECT"
                            } else {
                                return Ok(());
                            }
                        },
                        _ => "unsupported table relation in SELECT",
                    }
                }
            },
            SetExpr::SetOperation { .. } => "set operations (UNION/EXCEPT/INTERSECT) not supported",
            _ => "unsupported query body in SELECT",
        }
    };
    Err(unsupported(owned(what)))
}

/// Whether a query reads a row by its primary key.
pub open spec fn reads_by_key(q: Query, s: Select, t: TableDescriptor) -> bool {
    &&& q.order_by is None
    &&& (s.group_by matches GroupBy::Expressions { exprs, .. } && exprs@.len() == 0)
    &&& (s.selection matches Some(e) && names_whole_key(e, t))
    &&& simple_projection(s.projection@)
}

fn is_read_by_key(q: &Query, s: &Select, t: &TableDescriptor) -> (r: bool)
    ensures
        r == reads_by_key(*q, *s, *t),
{
    let ungrouped = match &s.group_by {
        GroupBy::Expressions { exprs, .. } => exprs.len() == 0,
        GroupBy::All => false,
    };
    if q.order_by.is_some() || !ungrouped || !is_simple_or_wildcard_projection(&s.projection) {
        return false;
    }
    match &s.selection {
        Some(e) => is_pk_equality_where(e, t),
        None => false,
    }
}

/// Whether one of the first `n` expressions is an aggregate.
pub open spec fn any_aggregate(items: Seq<AnalyticView>, n: int) -> bool
    decreases n,
{
    0 < n <= items.len() && (items[n - 1] is Aggregate || any_aggregate(items, n - 1))
}

/// The refusal of the first column from the `i`-th expression on that is not grouped by.
pub open spec fn grouping_refusal(
    items: Seq<AnalyticView>,
    i: int,
    group_by: Seq<usize>,
    aggregates: bool,
) -> Option<ErrorView>
    decreases items.len() - i,
{
    if i < 0 || i >= items.len() {
        None
    } else {
        match items[i] {
            AnalyticView::Column { index, name, .. } if !group_by.contains(index) => Some(
                ErrorView::InvalidArgument(
                    if aggregates {
                        "column '"@ + name
                            + "' must appear in the GROUP BY clause or be used in an aggregate function"@
                    } else {
                        "column '"@ + name + "' must appear in the GROUP BY clause"@
                    },
                ),
            ),
            _ => grouping_refusal(items, i + 1, group_by, aggregates),
        }
    }
}

fn has_aggregate(items: &Vec<AnalyticExpr>) -> (r: bool)
    ensures
        r == any_aggregate(views(items@), items@.len() as int),
{
    let mut found = false;
    let mut i: usize = 0;
    while i < items.len()
        invariant
            i <= items.len(),
            found == any_aggregate(views(items@), i as int),
        decreases items.len() - i,
    {
        assert(views(items@)[i as int] == items@[i as int]@);
        if items[i].is_aggregate() {
            found = true;
        }
        i = i + 1;
    }
    found
}

fn refuse_grouping(items: &Vec<AnalyticExpr>, group_by: &Vec<usize>, aggregates: bool) -> (r: Option<
    HtapError,
>)
    ensures
        option_view(r) == grouping_refusal(views(items@), 0, group_by@, aggregates),
{
    let mut i: usize = 0;
    while i < items.len()
        invariant
            i <= items.len(),
            grouping_refusal(views(items@), 0, group_by@, aggregates) == grouping_refusal(
                views(items@),
                i as int,
                group_by@,
                aggregates,
            ),
        decreases items.len() - i,
    {
        assert(views(items@)[i as int] == items@[i as int]@);
        match &items[i] {
            AnalyticExpr::Column { index, name, .. } => {
                if !has_index(group_by, *index) {
                    return Some(
                        invalid(
                            if aggregates {
                                cat3(
                                    "column '",
                                    name.as_str(),
                                    "' must appear in the GROUP BY clause or be used in an aggregate function",
                                )
                            } else {
                                cat3(
                                    "column '",
                                    name.as_str(),
                                    "' must appear in the GROUP BY clause",
                                )
                            },
                        ),
                    );
                }
            },
            _ => {},
        }
        i = i + 1;
    }
    None
}

/// The output columns of a projection.
pub open spec fn output_columns(items: Seq<AnalyticView>) -> Seq<ColumnView> {
    Seq::new(items.len(), |i: int| items[i].column_def())
}

fn columns_of_projection(items: &Vec<AnalyticExpr>) -> (r: Vec<ColumnDef>)
    ensures
        views(r@) == output_columns(views(items@)),
{
    let mut out: Vec<ColumnDef> = Vec::new();
    let mut i: usize = 0;
    while i < items.len()
        invariant
            i <= items.len(),
            out@.len() == i,
            forall|k: int|
                0 <= k < i ==> (#[trigger] out@[k])@ == output_columns(views(items@))[k],
        decreases items.len() - i,
    {
        assert(views(items@)[i as int] == items@[i as int]@);
        out.push(items[i].to_column_def());
        i = i + 1;
    }
    assert(views(out@) =~= output_columns(views(items@)));
    out
}

/// The analytical query of a select block, or its refusal.
pub open spec fn analytic_of(q: Query, s: Select, t: TableDescriptor, table: Seq<char>) -> Result<
    StatementView,
    ErrorView,
> {
    match analytic_projection(s.projection@, t, table) {
        Err(e) => Err(e),
        Ok(projection) => match analytic_grouping(s.group_by, t) {
            Err(e) => Err(e),
            Ok(group_by) => {
                let aggregates = any_aggregate(projection, projection.len() as int);
                if (aggregates || group_by.len() > 0) && grouping_refusal(
                    projection,
                    0,
                    group_by,
                    aggregates,
                ) is Some {
                    Err(grouping_refusal(projection, 0, group_by, aggregates)->0)
                } else {
                    match analytic_order(q.order_by, t, group_by, aggregates) {
                        Err(e) => Err(e),
                        Ok(order_by) => match analytic_filter(s.selection, t) {
                            Err(e) => Err(e),
                            Ok(filter) => match schema_of(output_columns(projection)) {
                                Err(e) => Err(e),
                                Ok(output_schema) => Ok(
                                    StatementView::AnalyticSelect {
                                        table,
                                        projection,
                                        filter,
                                        group_by,
                                        order_by,
                                        output_schema,
                                    },
                                ),
                            },
                        },
                    }
                }
            },
        },
    }
}

/// What a query of the narrow shape reads, or its refusal.
pub open spec fn narrow_of(cx: Env<'_>, q: Query) -> Result<StatementView, ErrorView> {
    match narrow_clauses_check(q) {
        Err(e) => Err(e),
        Ok(_) => {
            let s = *((*q.body)->Select_0);
            match single_name(s.from@[0].relation->Table_name) {
                Err(e) => Err(e),
                Ok(table) => match cx.catalog.table(table) {
                    None => Err(no_table(table)),
                    Some(t) => match key_check(t) {
                        Err(e) => Err(e),
                        Ok(_) => if s.projection@.len() == 0 {
                            invalid_view("SELECT projection cannot be empty"@)
                        } else if reads_by_key(q, s, t) {
                            match point_projection(s.projection@, t, table) {
                                Err(e) => Err(e),
                                Ok(projection) => match key_of(t, s.selection) {
                                    Err(e) => Err(e),
                                    Ok(key) => Ok(StatementView::Select { table, projection, key }),
                                },
                            }
                        } else {
                            analytic_of(q, s, t, table)
                        },
                    },
                },
            }
        },
    }
}

fn bind_analytic(q: &Query, s: &Select, t: &TableDescriptor, table: &str) -> (r: Result<
    BoundStatement,
    HtapError,
>)
    ensures
        outcome(r) == analytic_of(*q, *s, *t, table@),
{
    let projection = match bind_analytic_projection(&s.projection, t, table) {
        Ok(p) => p,
        Err(e) => {
            return Err(e);
        },
    };
    let group_by = match bind_analytic_group_by(&s.group_by, t) {
        Ok(g) => g,
        Err(e) => {
            return Err(e);
        },
    };
    let aggregates = has_aggregate(&projection);
    if aggregates || group_by.len() > 0 {
        match refuse_grouping(&projection, &group_by, aggregates) {
            Some(e) => {
                return Err(e);
            },
            None => {},
        }
    }
    let order_by = match bind_analytic_order_by(&q.order_by, t, &group_by, aggregates) {
        Ok(o) => o,
        Err(e) => {
            return Err(e);
        },
    };
    let filter = match bind_analytic_filter(&s.selection, t) {
        Ok(f) => f,
        Err(e) => {
            return Err(e);
        },
    };
    let columns = columns_of_projection(&projection);
    let output_schema = match Schema::new(columns) {
        Ok(x) => x,
        Err(e) => {
            return Err(e);
        },
    };
    Ok(
        BoundStatement::AnalyticSelect(
            AnalyticSelect::new(table, projection, filter, group_by, order_by, output_schema),
        ),
    )
}

/// Binds a query of the narrow shape.
pub(crate) fn bind_narrow_select(cx: Env<'_>, q: &Query) -> (r: Result<BoundStatement, HtapError>)
    ensures
        outcome(r) == narrow_of(cx, *q),
{
    match check_narrow_clauses(q) {
        Ok(_) => {},
        Err(e) => {
            return Err(e);
        },
    }
    match &*q.body {
        SetExpr::Select(s) => match &s.from[0].relation {
            TableFactor::Table { name, .. } => {
                let table = match object_name_single(name) {
                    Ok(t) => t,
                    Err(e) => {
                        return Err(e);
                    },
                };
                let t = match cx.catalog.table_by_name(table.as_str()) {
                    Some(t) => t,
                    None => {
                        return Err(table_not_found(table.as_str()));
                    },
                };
                match validate_table_descriptor_primary_key(t) {
                    Ok(_) => {},
                    Err(e) => {
                        return Err(e);
                    },
                }
                if s.projection.len() == 0 {
                    return Err(invalid(owned("SELECT projection cannot be empty")));
                }
                if is_read_by_key(q, s, t) {
                    let projection = match bind_point_projection(
                        &s.projection,
                        t,
                        table.as_str(),
                    ) {
                        Ok(p) => p,
                        Err(e) => {
                            return Err(e);
                        },
                    };
                    return match bind_pk_where_predicate(t, &s.selection) {
                        Ok(key) => Ok(
                            BoundStatement::Select(
                                PointSelect::new(table.as_str(), projection, key),
                            ),
                        ),
                        Err(e) => Err(e),
                    };
                }
                bind_analytic(q, s, t, table.as_str())
            },
            _ => Err(unsupported(owned("unsupported table relation in SELECT"))),
        },
        _ => Err(unsupported(owned("unsupported query body in SELECT"))),
    }
}

} // verus!
