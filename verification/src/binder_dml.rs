//! Binding of `INSERT`, `UPDATE`, `DELETE` and `TRUNCATE`.

use crate::ast::{
    view_assignments, BoundStatement, DeleteByPrimaryKey, DeleteStatement, Insert, SourceView,
    StatementView, TargetView, UpdateStatement, UpdateTarget,
};
use crate::binder_expr::{agrees, bind};
use crate::binder_query::bind_query;
use crate::catalog::{
    first_named, key_check, no_table, table_not_found, validate_table_descriptor_primary_key,
    TableDescriptor,
};
use crate::expr::{type_of, Expr, ExprView};
use crate::key_predicate::{
    bind_pk_where_predicate, is_pk_equality_where, key_of, names_whole_key,
};
use crate::lists::{find_place, has_index, lemma_place_of, place_of};
use crate::literals::{column_literal, parse_literal_value};
use crate::model_calls::Mode;
use crate::model_expr::bind_of;
use crate::model_query::{alias_has_columns, alias_name, query_of, top_mode};
use crate::names::{
    name_parts, object_name_parts, object_name_single, single_name, CteEntry, InfoView, SlotInfo,
};
use crate::query::{BodyView, BoundQuery, QueryBody, QueryView};
use crate::scope::{plain_scope, BindState, Env, Scope, ScopeView, StateView};
use crate::sql::{ObjectName, ObjectNamePart, Query, SetExpr, SqlExpr, TableAlias, TableFactor};
use crate::statement::{
    Assignment, AssignmentTarget, SqlDelete, SqlInsert, SqlTruncate, SqlUpdate,
};
use crate::text::{
    cat2, cat3, cat4, cat5, cat6, count_text, folds_to, nat_text, owned, same_folded,
};
use crate::typing::{assigned, bool_check, coerce_to_column, require_bool};
use crate::value::{
    copy_columns, invalid, invalid_view, lemma_views_push, outcome, unsupported, unsupported_view,
    views, ColumnDef, ColumnView, ErrorView, HtapError, Row, Value, ValueView,
};
use vstd::prelude::*;

verus! {

/// Whether `INSERT` has only clauses that are supported, and if not, why it is refused.
pub open spec fn insert_clauses_check(s: SqlInsert) -> Result<(), ErrorView> {
    if s.ignore {
        unsupported_view("INSERT IGNORE is not supported"@)
    } else if s.replace_into {
        unsupported_view("REPLACE INTO is not supported"@)
    } else if s.on {
        unsupported_view("ON DUPLICATE KEY UPDATE is not supported"@)
    } else if s.returning {
        unsupported_view("RETURNING clause is not supported in INSERT"@)
    } else if s.assignments {
        unsupported_view("INSERT ... SET is not supported"@)
    } else if s.alias.given() {
        unsupported_view("table aliases in INSERT not supported"@)
    } else {
        Ok(())
    }
}

fn check_insert_clauses(s: &SqlInsert) -> (r: Result<(), HtapError>)
    ensures
        outcome(r) == insert_clauses_check(*s),
{
    let what = if s.ignore {
        "INSERT IGNORE is not supported"
    } else if s.replace_into {
        "REPLACE INTO is not supported"
    } else if s.on {
        "ON DUPLICATE KEY UPDATE is not supported"
    } else if s.returning {
        "RETURNING clause is not supported in INSERT"
    } else if s.assignments {
        "INSERT ... SET is not supported"
    } else if s.alias.given() {
        "table aliases in INSERT not supported"
    } else {
        return Ok(());
    };
    Err(unsupported(owned(what)))
}

/// The literal rows of a source, `None` where it is a query; or its refusal.
pub open spec fn literal_rows(q: Query) -> Result<Option<Seq<Vec<SqlExpr>>>, ErrorView> {
    match *q.body {
        SetExpr::Values(rows) => if q.with is Some {
            unsupported_view("CTEs not supported in INSERT VALUES"@)
        } else if q.order_by is Some || q.limit is Some {
            unsupported_view("ORDER BY / LIMIT not supported in INSERT VALUES"@)
        } else if rows@.len() == 0 {
            invalid_view("INSERT VALUES cannot be empty"@)
        } else {
            Ok(Some(rows@))
        },
        SetExpr::Other => unsupported_view("unsupported INSERT source"@),
        _ => Ok(None),
    }
}

fn find_literal_rows(q: &Query) -> (r: Result<Option<&Vec<Vec<SqlExpr>>>, HtapError>)
    ensures
        match r {
            Ok(None) => literal_rows(*q) == Ok::<Option<Seq<Vec<SqlExpr>>>, ErrorView>(None),
            Ok(Some(rows)) => literal_rows(*q) == Ok::<Option<Seq<Vec<SqlExpr>>>, ErrorView>(
                Some(rows@),
            ),
            Err(e) => literal_rows(*q) == Err::<Option<Seq<Vec<SqlExpr>>>, ErrorView>(e@),
        },
{
    match &*q.body {
        SetExpr::Values(rows) => {
            if q.with.is_some() {
                return Err(unsupported(owned("CTEs not supported in INSERT VALUES")));
            }
            if q.order_by.is_some() || q.limit.is_some() {
                return Err(unsupported(owned("ORDER BY / LIMIT not supported in INSERT VALUES")));
            }
            if rows.len() == 0 {
                return Err(invalid(owned("INSERT VALUES cannot be empty")));
            }
            Ok(Some(rows))
        },
        SetExpr::Other => Err(unsupported(owned("unsupported INSERT source"))),
        _ => Ok(None),
    }
}

/// The name of a column that `INSERT` lists, or its refusal.
pub open spec fn listed_name(n: ObjectName) -> Result<Seq<char>, ErrorView> {
    if n.parts@.len() != 1 {
        unsupported_view("qualified column names not supported in INSERT: "@ + n.text@)
    } else {
        match n.parts@[0] {
            ObjectNamePart::Identifier(s) => Ok(s@),
            ObjectNamePart::Function => unsupported_view("unsupported column name: "@ + n.text@),
        }
    }
}

/// The positions of the listed columns from the `i`-th on, behind `acc`; or the refusal of one.
pub open spec fn listed_columns(
    list: Seq<ObjectName>,
    i: int,
    t: TableDescriptor,
    table: Seq<char>,
    acc: Seq<usize>,
) -> Result<Seq<usize>, ErrorView>
    decreases list.len() - i,
{
    if i < 0 || i >= list.len() {
        Ok(acc)
    } else {
        match listed_name(list[i]) {
            Err(e) => Err(e),
            Ok(name) => match first_named(t.schema.columns@, name, 0) {
                None => invalid_view(
                    "unknown column '"@ + name + "' in table '"@ + table + "'"@,
                ),
                Some(c) => if acc.contains(c as usize) {
                    invalid_view("duplicate column '"@ + name + "' in INSERT column list"@)
                } else {
                    listed_columns(list, i + 1, t, table, acc.push(c as usize))
                },
            },
        }
    }
}

fn bind_listed_columns(list: &Vec<ObjectName>, t: &TableDescriptor, table: &str) -> (r: Result<
    Vec<usize>,
    HtapError,
>)
    ensures
        match r {
            Ok(v) => listed_columns(list@, 0, *t, table@, Seq::empty()) == Ok::<
                Seq<usize>,
                ErrorView,
            >(v@) && v@.len() == list@.len() && forall|k: int|
                0 <= k < v@.len() ==> (#[trigger] v@[k]) < t.schema.columns@.len(),
            Err(e) => listed_columns(list@, 0, *t, table@, Seq::empty()) == Err::<
                Seq<usize>,
                ErrorView,
            >(e@),
        },
{
    let mut out: Vec<usize> = Vec::new();
    let mut i: usize = 0;
    while i < list.len()
        invariant
            i <= list.len(),
            out@.len() == i,
            forall|k: int| 0 <= k < out@.len() ==> (#[trigger] out@[k]) < t.schema.columns@.len(),
            listed_columns(list@, 0, *t, table@, Seq::empty()) == listed_columns(
                list@,
                i as int,
                *t,
                table@,
                out@,
            ),
        decreases list.len() - i,
    {
        let n = &list[i];
        if n.parts.len() != 1 {
            return Err(
                unsupported(
                    cat2("qualified column names not supported in INSERT: ", n.text.as_str()),
                ),
            );
        }
        let name = match &n.parts[0] {
            ObjectNamePart::Identifier(s) => s.as_str(),
            ObjectNamePart::Function => {
                return Err(unsupported(cat2("unsupported column name: ", n.text.as_str())));
            },
        };
        let c: usize = match t.schema.column_index(name) {
            Some(c) => c,
            None => {
                return Err(
                    invalid(cat5("unknown column '", name, "' in table '", table, "'")),
                );
            },
        };
        if has_index(&out, c) {
            return Err(invalid(cat3("duplicate column '", name, "' in INSERT column list")));
        }
        out.push(c);
        i = i + 1;
    }
    Ok(out)
}

/// The values of a row from the `i`-th on, in the order they are written, behind `acc`.
pub open spec fn row_values(
    exprs: Seq<SqlExpr>,
    i: int,
    columns: Seq<usize>,
    t: TableDescriptor,
    acc: Seq<ValueView>,
) -> Result<Seq<ValueView>, ErrorView>
    decreases exprs.len() - i,
{
    if i < 0 || i >= exprs.len() {
        Ok(acc)
    } else {
        match column_literal(exprs[i], t.schema.columns@[columns[i] as int]@) {
            Err(e) => Err(e),
            Ok(v) => row_values(exprs, i + 1, columns, t, acc.push(v)),
        }
    }
}

/// The values in the order of the table's columns.
pub open spec fn in_table_order(values: Seq<ValueView>, columns: Seq<usize>, width: nat) -> Seq<
    ValueView,
> {
    Seq::new(
        width,
        |j: int|
            match place_of(columns, j as usize, 0) {
                Some(k) => values[k],
                None => ValueView::Null,
            },
    )
}

/// A value comes to stand at the position of the column it was written for.
pub proof fn values_stand_at_their_columns(
    values: Seq<ValueView>,
    columns: Seq<usize>,
    width: nat,
    k: int,
)
    requires
        columns.no_duplicates(),
        values.len() == columns.len(),
        0 <= k < columns.len(),
        columns[k] < width,
    ensures
        in_table_order(values, columns, width)[columns[k] as int] == values[k],
{
    lemma_place_of(columns, columns[k], 0);
}

/// The rows from the `i`-th on in the order of the table's columns, behind `acc`.
pub open spec fn insert_rows(
    rows: Seq<Vec<SqlExpr>>,
    i: int,
    columns: Seq<usize>,
    t: TableDescriptor,
    acc: Seq<Seq<ValueView>>,
) -> Result<Seq<Seq<ValueView>>, ErrorView>
    decreases rows.len() - i,
{
    if i < 0 || i >= rows.len() {
        Ok(acc)
    } else if rows[i]@.len() != columns.len() {
        invalid_view(
            "row "@ + nat_text(i as nat) + " arity mismatch: expected "@ + nat_text(columns.len())
                + " values, got "@ + nat_text(rows[i]@.len()),
        )
    } else {
        match row_values(rows[i]@, 0, columns, t, Seq::empty()) {
            Err(e) => Err(e),
            Ok(values) => insert_rows(
                rows,
                i + 1,
                columns,
                t,
                acc.push(in_table_order(values, columns, t.schema.columns@.len())),
            ),
        }
    }
}

fn bind_row(exprs: &Vec<SqlExpr>, columns: &Vec<usize>, t: &TableDescriptor) -> (r: Result<
    Vec<Value>,
    HtapError,
>)
    requires
        exprs@.len() == columns@.len(),
        forall|k: int| 0 <= k < columns@.len() ==> (#[trigger] columns@[k]) < t.schema.columns@.len(),
    ensures
        match r {
            Ok(v) => row_values(exprs@, 0, columns@, *t, Seq::empty()) == Ok::<
                Seq<ValueView>,
                ErrorView,
            >(views(v@)) && v@.len() == exprs@.len(),
            Err(e) => row_values(exprs@, 0, columns@, *t, Seq::empty()) == Err::<
                Seq<ValueView>,
                ErrorView,
            >(e@),
        },
{
    let mut out: Vec<Value> = Vec::new();
    let mut i: usize = 0;
    assert(views(out@) =~= Seq::empty());
    while i < exprs.len()
        invariant
            i <= exprs.len(),
            exprs@.len() == columns@.len(),
            out@.len() == i,
            forall|k: int|
                0 <= k < columns@.len() ==> (#[trigger] columns@[k]) < t.schema.columns@.len(),
            row_values(exprs@, 0, columns@, *t, Seq::empty()) == row_values(
                exprs@,
                i as int,
                columns@,
                *t,
                views(out@),
            ),
        decreases exprs.len() - i,
    {
        match parse_literal_value(&exprs[i], &t.schema.columns[columns[i]]) {
            Ok(v) => {
                proof {
                    lemma_views_push(out@, v);
                }
                out.push(v);
            },
            Err(e) => {
                return Err(e);
            },
        }
        i = i + 1;
    }
    Ok(out)
}

fn arrange_row(values: &Vec<Value>, columns: &Vec<usize>, width: usize) -> (r: Vec<Value>)
    requires
        values@.len() == columns@.len(),
    ensures
        views(r@) == in_table_order(views(values@), columns@, width as nat),
{
    let mut out: Vec<Value> = Vec::new();
    let mut j: usize = 0;
    while j < width
        invariant
            j <= width,
            out@.len() == j,
            values@.len() == columns@.len(),
            forall|k: int|
                0 <= k < j ==> (#[trigger] out@[k])@ == in_table_order(
                    views(values@),
                    columns@,
                    width as nat,
                )[k],
        decreases width - j,
    {
        let v = match find_place(columns, j) {
            Some(k) => values[k].copy(),
            None => Value::Null,
        };
        out.push(v);
        j = j + 1;
    }
    assert(views(out@) =~= in_table_order(views(values@), columns@, width as nat));
    out
}

fn bind_rows(rows: &Vec<Vec<SqlExpr>>, columns: &Vec<usize>, t: &TableDescriptor) -> (r: Result<
    Vec<Row>,
    HtapError,
>)
    requires
        forall|k: int| 0 <= k < columns@.len() ==> (#[trigger] columns@[k]) < t.schema.columns@.len(),
    ensures
        match r {
            Ok(v) => insert_rows(rows@, 0, columns@, *t, Seq::empty()) == Ok::<
                Seq<Seq<ValueView>>,
                ErrorView,
            >(views(v@)),
            Err(e) => insert_rows(rows@, 0, columns@, *t, Seq::empty()) == Err::<
                Seq<Seq<ValueView>>,
                ErrorView,
            >(e@),
        },
{
    let mut out: Vec<Row> = Vec::new();
    let mut i: usize = 0;
    assert(views(out@) =~= Seq::empty());
    while i < rows.len()
        invariant
            i <= rows.len(),
            forall|k: int|
                0 <= k < columns@.len() ==> (#[trigger] columns@[k]) < t.schema.columns@.len(),
            insert_rows(rows@, 0, columns@, *t, Seq::empty()) == insert_rows(
                rows@,
                i as int,
                columns@,
                *t,
                views(out@),
            ),
        decreases rows.len() - i,
    {
        if rows[i].len() != columns.len() {
            let a = count_text(i);
            let b = count_text(columns.len());
            let c = count_text(rows[i].len());
            return Err(
                invalid(
                    cat6(
                        "row ",
                        a.as_str(),
                        " arity mismatch: expected ",
                        b.as_str(),
                        " values, got ",
                        c.as_str(),
                    ),
                ),
            );
        }
        let values = match bind_row(&rows[i], columns, t) {
            Ok(v) => v,
            Err(e) => {
                return Err(e);
            },
        };
        let row = Row::new(arrange_row(&values, columns, t.schema.columns.len()));
        proof {
            lemma_views_push(out@, row);
        }
        out.push(row);
        i = i + 1;
    }
    Ok(out)
}

/// The columns at the given positions.
pub open spec fn columns_at(columns: Seq<ColumnDef>, positions: Seq<usize>) -> Seq<ColumnView> {
    Seq::new(positions.len(), |i: int| columns[positions[i] as int]@)
}

/// Whether an output of a query, from the `i`-th on, fits the column it fills; if not, why.
///
/// A literal `NULL` and a variable fit every column.
pub open spec fn fits_from(q: QueryView, columns: Seq<ColumnView>, i: int) -> Result<(), ErrorView>
    decreases q.output_columns.len() - i,
{
    if i < 0 || i >= q.output_columns.len() || i >= columns.len() {
        Ok(())
    } else {
        match q.body {
            BodyView::Select(s) if i >= s.projection.len() => Ok(()),
            _ => {
                let free = match q.body {
                    BodyView::Select(s) => type_of(s.projection[i].expr).permissive(),
                    _ => false,
                };
                let source = q.output_columns[i];
                if source.data_type != columns[i].data_type && !free {
                    invalid_view(
                        "type mismatch for column '"@ + columns[i].name + "': expected "@
                            + columns[i].data_type.keyword() + ", found "@
                            + source.data_type.keyword(),
                    )
                } else if source.nullable && !columns[i].nullable && !free {
                    invalid_view("column '"@ + columns[i].name + "' is NOT NULL"@)
                } else {
                    fits_from(q, columns, i + 1)
                }
            },
        }
    }
}

/// Whether the output of a query fits the columns it fills; if not, why.
pub open spec fn fits_columns(q: QueryView, columns: Seq<ColumnView>) -> Result<(), ErrorView> {
    if q.output_columns.len() != columns.len() {
        invalid_view(
            "INSERT SELECT column count mismatch: expected "@ + nat_text(columns.len()) + ", got "@
                + nat_text(q.output_columns.len()),
        )
    } else {
        fits_from(q, columns, 0)
    }
}

/// Checks that the output of a query fits the columns it fills.
pub(crate) fn validate_insert_query_types(q: &BoundQuery, columns: &Vec<ColumnDef>) -> (r: Result<
    (),
    HtapError,
>)
    ensures
        outcome(r) == fits_columns(q@, views(columns@)),
{
    if q.output_columns.len() != columns.len() {
        let a = count_text(columns.len());
        let b = count_text(q.output_columns.len());
        return Err(
            invalid(
                cat4(
                    "INSERT SELECT column count mismatch: expected ",
                    a.as_str(),
                    ", got ",
                    b.as_str(),
                ),
            ),
        );
    }
    assert(q@.body == q.body@);
    let mut i: usize = 0;
    while i < columns.len()
        invariant
            i <= columns.len(),
            q.output_columns@.len() == columns@.len(),
            q@.body == q.body@,
            fits_columns(q@, views(columns@)) == fits_from(q@, views(columns@), i as int),
        decreases columns.len() - i,
    {
        let free = match &q.body {
            QueryBody::Select(s) => {
                if i >= s.projection.len() {
                    return Ok(());
                }
                let t = s.projection[i].expr.static_type();
                t.is_permissive()
            },
            _ => false,
        };
        let source = &q.output_columns[i];
        let target = &columns[i];
        assert(q@.output_columns[i as int] == source@);
        assert(views(columns@)[i as int] == target@);
        if source.data_type != target.data_type && !free {
            return Err(
                invalid(
                    cat6(
                        "type mismatch for column '",
                        target.name.as_str(),
                        "': expected ",
                        target.data_type.name(),
                        ", found ",
                        source.data_type.name(),
                    ),
                ),
            );
        }
        if source.nullable && !target.nullable && !free {
            return Err(invalid(cat3("column '", target.name.as_str(), "' is NOT NULL")));
        }
        i = i + 1;
    }
    Ok(())
}

/// What `INSERT` inserts, or its refusal.
pub open spec fn insertion_of(cx: Env<'_>, s: SqlInsert) -> Result<StatementView, ErrorView> {
    match insert_clauses_check(s) {
        Err(e) => Err(e),
        Ok(_) => match s.table {
            None => unsupported_view("unsupported table factor in INSERT"@),
            Some(n) => match single_name(n) {
                Err(e) => Err(e),
                Ok(table) => match cx.catalog.table(table) {
                    None => Err(no_table(table)),
                    Some(t) => match key_check(t) {
                        Err(e) => Err(e),
                        Ok(_) => if s.columns@.len() == 0 {
                            invalid_view("INSERT statement requires an explicit column list"@)
                        } else {
                            match s.source {
                                None => invalid_view("INSERT statement missing source query"@),
                                Some(q) => inserted_rows(cx, s.columns@, *q, t, table),
                            }
                        },
                    },
                },
            },
        },
    }
}

/// What a source with its column list inserts into a table, or its refusal.
pub open spec fn inserted_rows(
    cx: Env<'_>,
    columns: Seq<ObjectName>,
    q: Query,
    t: TableDescriptor,
    table: Seq<char>,
) -> Result<StatementView, ErrorView> {
    match literal_rows(q) {
        Err(e) => Err(e),
        Ok(literal) => if columns.len() != t.schema.columns@.len() {
            invalid_view(
                "INSERT column count mismatch: expected all "@ + nat_text(
                    t.schema.columns@.len(),
                ) + " schema columns, got "@ + nat_text(columns.len()),
            )
        } else {
            match listed_columns(columns, 0, t, table, Seq::empty()) {
                Err(e) => Err(e),
                Ok(positions) => match literal {
                    None => match query_of(cx, Seq::empty(), Seq::empty(), 0, q) {
                        Err(e) => Err(e),
                        Ok(query) => match fits_columns(
                            query,
                            columns_at(t.schema.columns@, positions),
                        ) {
                            Err(e) => Err(e),
                            Ok(_) => Ok(
                                StatementView::Insert {
                                    table,
                                    source: SourceView::Query { query, columns: positions },
                                },
                            ),
                        },
                    },
                    Some(rows) => match insert_rows(rows, 0, positions, t, Seq::empty()) {
                        Err(e) => Err(e),
                        Ok(values) => Ok(
                            StatementView::Insert { table, source: SourceView::Values(values) },
                        ),
                    },
                },
            }
        },
    }
}

fn copy_columns_at(columns: &Vec<ColumnDef>, positions: &Vec<usize>) -> (r: Vec<ColumnDef>)
    requires
        forall|k: int| 0 <= k < positions@.len() ==> (#[trigger] positions@[k]) < columns@.len(),
    ensures
        views(r@) == columns_at(columns@, positions@),
{
    let mut out: Vec<ColumnDef> = Vec::new();
    let mut i: usize = 0;
    while i < positions.len()
        invariant
            i <= positions.len(),
            out@.len() == i,
            forall|k: int|
                0 <= k < positions@.len() ==> (#[trigger] positions@[k]) < columns@.len(),
            forall|k: int|
                0 <= k < i ==> (#[trigger] out@[k])@ == columns_at(columns@, positions@)[k],
        decreases positions.len() - i,
    {
        out.push(columns[positions[i]].copy());
        i = i + 1;
    }
    assert(views(out@) =~= columns_at(columns@, positions@));
    out
}

/// Binds `INSERT`.
pub(crate) fn bind_insert(cx: Env<'_>, s: &SqlInsert) -> (r: Result<BoundStatement, HtapError>)
    ensures
        outcome(r) == insertion_of(cx, *s),
{
    match check_insert_clauses(s) {
        Ok(_) => {},
        Err(e) => {
            return Err(e);
        },
    }
    let table = match &s.table {
        Some(n) => match object_name_single(n) {
            Ok(t) => t,
            Err(e) => {
                return Err(e);
            },
        },
        None => {
            return Err(unsupported(owned("unsupported table factor in INSERT")));
        },
    };
    let t = match cx.catalog.table_by_name(table.as_str()) {
        Some(t) => t,
        None => {
            return Err(table_not_found(table.as_str()));
        },
    };
    match validate_table_descriptor_primary_key(t) {
        Ok(_) => {},
        Err(e) => {
            return Err(e);
        },
    }
    if s.columns.len() == 0 {
        return Err(invalid(owned("INSERT statement requires an explicit column list")));
    }
    let q = match &s.source {
        Some(q) => q,
        None => {
            return Err(invalid(owned("INSERT statement missing source query")));
        },
    };
    let literal = match find_literal_rows(q) {
        Ok(x) => x,
        Err(e) => {
            return Err(e);
        },
    };
    if s.columns.len() != t.schema.columns.len() {
        let a = count_text(t.schema.columns.len());
        let b = count_text(s.columns.len());
        return Err(
            invalid(
                cat4(
                    "INSERT column count mismatch: expected all ",
                    a.as_str(),
                    " schema columns, got ",
                    b.as_str(),
                ),
            ),
        );
    }
    let positions = match bind_listed_columns(&s.columns, t, table.as_str()) {
        Ok(p) => p,
        Err(e) => {
            return Err(e);
        },
    };
    match literal {
        None => {
            let query = match bind_query(cx, q) {
                Ok(x) => x,
                Err(e) => {
                    return Err(e);
                },
            };
            let columns = copy_columns_at(&t.schema.columns, &positions);
            match validate_insert_query_types(&query, &columns) {
                Ok(_) => {},
                Err(e) => {
                    return Err(e);
                },
            }
            Ok(BoundStatement::Insert(Insert::from_query(table.as_str(), query, positions)))
        },
        Some(rows) => match bind_rows(rows, &positions, t) {
            Ok(values) => Ok(BoundStatement::Insert(Insert::new(table.as_str(), values))),
            Err(e) => Err(e),
        },
    }
}

/// The scope of an expression about the rows of one table.
pub open spec fn table_scope(alias: Seq<char>, t: TableDescriptor) -> ScopeView {
    ScopeView {
        allow_aggregates: false,
        allow_subqueries: false,
        ..plain_scope(
            seq![InfoView { alias, columns: views(t.schema.columns@), offset: 0 }],
            Seq::empty(),
            Seq::empty(),
            0,
        )
    }
}

/// Nothing collected.
pub open spec fn empty_state() -> StateView {
    StateView { aggregates: Seq::empty(), subqueries: Seq::empty(), windows: Seq::empty() }
}

/// The rows of a table that a condition selects, or its refusal.
pub open spec fn target_of(
    cx: Env<'_>,
    t: TableDescriptor,
    alias: Seq<char>,
    st: StateView,
    selection: Option<SqlExpr>,
) -> Result<TargetView, ErrorView> {
    match selection {
        None => Ok(TargetView::Filter(None)),
        Some(e) => if names_whole_key(e, t) {
            match key_of(t, selection) {
                Err(x) => Err(x),
                Ok(key) => Ok(TargetView::PrimaryKey(key)),
            }
        } else {
            match bind_of(cx, table_scope(alias, t), st, top_mode(), e) {
                Err(x) => Err(x),
                Ok(b) => match bool_check(type_of(b.0), "WHERE"@) {
                    Err(x) => Err(x),
                    Ok(_) => Ok(TargetView::Filter(Some(b.0))),
                },
            }
        },
    }
}

fn one_slot(alias: &str, t: &TableDescriptor) -> (r: Vec<SlotInfo>)
    ensures
        views(r@) == seq![
            InfoView { alias: alias@, columns: views(t.schema.columns@), offset: 0 },
        ],
        r@.len() == 1,
{
    let info = SlotInfo {
        alias: owned(alias),
        columns: copy_columns(&t.schema.columns),
        offset: 0,
    };
    let mut out: Vec<SlotInfo> = Vec::new();
    out.push(info);
    assert(views(out@) =~= seq![
        InfoView { alias: alias@, columns: views(t.schema.columns@), offset: 0 },
    ]);
    out
}

fn bind_in_table(cx: Env<'_>, slots: &Vec<SlotInfo>, st: &mut BindState, e: &SqlExpr) -> (r: Result<
    Expr,
    HtapError,
>)
    ensures
        agrees(
            r,
            final(st)@,
            bind_of(
                cx,
                ScopeView {
                    allow_aggregates: false,
                    allow_subqueries: false,
                    ..plain_scope(views(slots@), Seq::empty(), Seq::empty(), 0)
                },
                old(st)@,
                top_mode(),
                *e,
            ),
        ),
{
    let ctes: Vec<CteEntry> = Vec::new();
    let outer: Vec<SlotInfo> = Vec::new();
    assert(views(ctes@) =~= Seq::empty());
    assert(views(outer@) =~= Seq::empty());
    let mut sc = Scope::new(slots, &ctes, &outer, 0);
    sc.allow_aggregates = false;
    sc.allow_subqueries = false;
    assert(sc@ == (ScopeView {
        allow_aggregates: false,
        allow_subqueries: false,
        ..plain_scope(views(slots@), Seq::empty(), Seq::empty(), 0)
    }));
    let m = Mode { in_aggregate: false, in_window: false };
    bind(cx, &sc, st, m, e)
}

fn bind_target(
    cx: Env<'_>,
    t: &TableDescriptor,
    alias: &str,
    st: &mut BindState,
    selection: &Option<SqlExpr>,
) -> (r: Result<UpdateTarget, HtapError>)
    ensures
        outcome(r) == target_of(cx, *t, alias@, old(st)@, *selection),
{
    match selection {
        None => Ok(UpdateTarget::Filter(None)),
        Some(e) => {
            if is_pk_equality_where(e, t) {
                return match bind_pk_where_predicate(t, selection) {
                    Ok(key) => Ok(UpdateTarget::PrimaryKey(key)),
                    Err(x) => Err(x),
                };
            }
            let slots = one_slot(alias, t);
            match bind_in_table(cx, &slots, st, e) {
                Err(x) => Err(x),
                Ok(f) => match require_bool(&f, "WHERE") {
                    Err(x) => Err(x),
                    Ok(_) => Ok(UpdateTarget::Filter(Some(f))),
                },
            }
        },
    }
}

fn empty_bind_state() -> (r: BindState)
    ensures
        r@ == empty_state(),
{
    let none: Vec<BoundQuery> = Vec::new();
    assert(views(none@) =~= Seq::empty());
    BindState::with_subqueries(none)
}

fn name_or(alias: &Option<TableAlias>, table: &str) -> (r: String)
    ensures
        r@ == alias_name(*alias, table@),
{
    match alias {
        Some(a) => a.name.clone(),
        None => owned(table),
    }
}

/// Which rows `DELETE` deletes, or its refusal.
pub open spec fn deletion_of(cx: Env<'_>, s: SqlDelete) -> Result<StatementView, ErrorView> {
    if s.tables {
        unsupported_view("multi-table DELETE not supported"@)
    } else if s.using {
        unsupported_view("USING clause not supported in DELETE"@)
    } else if s.returning {
        unsupported_view("RETURNING clause not supported in DELETE"@)
    } else if s.ordered.given() {
        unsupported_view("DELETE with ORDER BY / LIMIT not supported"@)
    } else if s.from@.len() != 1 {
        unsupported_view("joins or multiple tables in DELETE not supported"@)
    } else if s.from@[0].joins@.len() != 0 {
        unsupported_view("JOIN not supported in DELETE"@)
    } else {
        match s.from@[0].relation {
            TableFactor::Table { name, alias, options, extras } => if options.given() || extras.given() {
                unsupported_view("unsupported table factor options in DELETE"@)
            } else if alias_has_columns(alias) {
                unsupported_view("table alias column lists not supported"@)
            } else {
                match single_name(name) {
                    Err(e) => Err(e),
                    Ok(table) => match cx.catalog.table(table) {
                        None => Err(no_table(table)),
                        Some(t) => match key_check(t) {
                            Err(e) => Err(e),
                            Ok(_) => match target_of(
                                cx,
                                t,
                                alias_name(alias, table),
                                empty_state(),
                                s.selection,
                            ) {
                                Err(e) => Err(e),
                                Ok(TargetView::PrimaryKey(key)) => Ok(
                                    StatementView::Delete { table, key },
                                ),
                                Ok(TargetView::Filter(filter)) => Ok(
                                    StatementView::DeleteRows { table, filter, if_exists: false },
                                ),
                            },
                        },
                    },
                }
            },
            _ => unsupported_view("DELETE target must be a table"@),
        }
    }
}

/// Binds `DELETE`.
pub(crate) fn bind_delete(cx: Env<'_>, s: &SqlDelete) -> (r: Result<BoundStatement, HtapError>)
    ensures
        outcome(r) == deletion_of(cx, *s),
{
    if s.tables {
        return Err(unsupported(owned("multi-table DELETE not supported")));
    }
    if s.using {
        return Err(unsupported(owned("USING clause not supported in DELETE")));
    }
    if s.returning {
        return Err(unsupported(owned("RETURNING clause not supported in DELETE")));
    }
    if s.ordered.given() {
        return Err(unsupported(owned("DELETE with ORDER BY / LIMIT not supported")));
    }
    if s.from.len() != 1 {
        return Err(unsupported(owned("joins or multiple tables in DELETE not supported")));
    }
    if s.from[0].joins.len() != 0 {
        return Err(unsupported(owned("JOIN not supported in DELETE")));
    }
    match &s.from[0].relation {
        TableFactor::Table { name, alias, options, extras } => {
            if options.given() || extras.given() {
                return Err(unsupported(owned("unsupported table factor options in DELETE")));
            }
            match alias {
                Some(a) => {
                    if a.columns {
                        return Err(unsupported(owned("table alias column lists not supported")));
                    }
                },
                None => {},
            }
            let table = match object_name_single(name) {
                Ok(t) => t,
                Err(e) => {
                    return Err(e);
                },
            };
            let t = match cx.catalog.table_by_name(table.as_str()) {
                Some(t) => t,
                None => {
                    return Err(table_not_found(table.as_str()));
                },
            };
            match validate_table_descriptor_primary_key(t) {
                Ok(_) => {},
                Err(e) => {
                    return Err(e);
                },
            }
            let shown = name_or(alias, table.as_str());
            let mut st = empty_bind_state();
            match bind_target(cx, t, shown.as_str(), &mut st, &s.selection) {
                Err(e) => Err(e),
                Ok(UpdateTarget::PrimaryKey(key)) => Ok(
                    BoundStatement::Delete(DeleteByPrimaryKey::new(table.as_str(), key)),
                ),
                Ok(UpdateTarget::Filter(filter)) => Ok(
                    BoundStatement::DeleteRows(
                        DeleteStatement { table, filter, if_exists: false },
                    ),
                ),
            }
        },
        _ => Err(unsupported(owned("DELETE target must be a table"))),
    }
}

/// What `TRUNCATE` deletes, or its refusal.
pub open spec fn truncation_of(cx: Env<'_>, s: SqlTruncate) -> Result<StatementView, ErrorView> {
    if s.table_names@.len() != 1 {
        unsupported_view("TRUNCATE with multiple tables is not supported"@)
    } else if s.partitions {
        unsupported_view("TRUNCATE with partitions is not supported"@)
    } else if s.identity {
        unsupported_view("TRUNCATE with identity is not supported"@)
    } else if s.cascade {
        unsupported_view("TRUNCATE with cascade is not supported"@)
    } else if s.on_cluster {
        unsupported_view("TRUNCATE with ON CLUSTER is not supported"@)
    } else if s.table_names@[0].only {
        unsupported_view("TRUNCATE with ONLY is not supported"@)
    } else if s.table_names@[0].has_asterisk {
        unsupported_view("TRUNCATE with an asterisk is not supported"@)
    } else {
        match single_name(s.table_names@[0].name) {
            Err(e) => Err(e),
            Ok(table) => if cx.catalog.table(table) is None && !s.if_exists {
                Err(no_table(table))
            } else {
                Ok(StatementView::DeleteRows { table, filter: None, if_exists: s.if_exists })
            },
        }
    }
}

/// Binds `TRUNCATE`: a deletion of every row.
pub(crate) fn bind_truncate(cx: Env<'_>, s: &SqlTruncate) -> (r: Result<BoundStatement, HtapError>)
    ensures
        outcome(r) == truncation_of(cx, *s),
{
    if s.table_names.len() != 1 {
        return Err(unsupported(owned("TRUNCATE with multiple tables is not supported")));
    }
    let target = &s.table_names[0];
    let what = if s.partitions {
        "TRUNCATE with partitions is not supported"
    } else if s.identity {
        "TRUNCATE with identity is not supported"
    } else if s.cascade {
        "TRUNCATE with cascade is not supported"
    } else if s.on_cluster {
        "TRUNCATE with ON CLUSTER is not supported"
    } else if target.only {
        "TRUNCATE with ONLY is not supported"
    } else if target.has_asterisk {
        "TRUNCATE with an asterisk is not supported"
    } else {
        let table = match object_name_single(&target.name) {
            Ok(t) => t,
            Err(e) => {
                return Err(e);
            },
        };
        if !s.if_exists && cx.catalog.table_by_name(table.as_str()).is_none() {
            return Err(table_not_found(table.as_str()));
        }
        return Ok(
            BoundStatement::DeleteRows(
                DeleteStatement { table, filter: None, if_exists: s.if_exists },
            ),
        );
    };
    Err(unsupported(owned(what)))
}

/// The first `n` parts of a name with points between them.
pub open spec fn dotted(parts: Seq<Seq<char>>, n: int) -> Seq<char>
    decreases n,
{
    if n <= 0 || n > parts.len() {
        ""@
    } else if n == 1 {
        parts[0]
    } else {
        dotted(parts, n - 1) + "."@ + parts[n - 1]
    }
}

fn join_dots(parts: &Vec<String>) -> (r: String)
    ensures
        r@ == dotted(views(parts@), parts@.len() as int),
{
    let mut out = owned("");
    let mut i: usize = 0;
    while i < parts.len()
        invariant
            i <= parts.len(),
            out@ == dotted(views(parts@), i as int),
        decreases parts.len() - i,
    {
        if i == 0 {
            out = parts[0].clone();
        } else {
            out = cat3(out.as_str(), ".", parts[i].as_str());
        }
        i = i + 1;
    }
    out
}

/// The name of the column that an assignment changes, or its refusal.
pub open spec fn assigned_name(target: AssignmentTarget, alias: Seq<char>) -> Result<
    Seq<char>,
    ErrorView,
> {
    match target {
        AssignmentTarget::Tuple => unsupported_view("tuple assignments not supported in UPDATE"@),
        AssignmentTarget::ColumnName(n) => match name_parts(n, 0, Seq::empty()) {
            Err(e) => Err(e),
            Ok(parts) => if parts.len() == 1 {
                Ok(parts[0])
            } else if parts.len() == 2 && folds_to(parts[0], alias) {
                Ok(parts[1])
            } else {
                invalid_view(
                    "unknown assignment target '"@ + dotted(parts, parts.len() as int) + "'"@,
                )
            },
        },
    }
}

fn find_assigned_name(target: &AssignmentTarget, alias: &str) -> (r: Result<String, HtapError>)
    ensures
        outcome(r) == assigned_name(*target, alias@),
{
    match target {
        AssignmentTarget::Tuple => Err(
            unsupported(owned("tuple assignments not supported in UPDATE")),
        ),
        AssignmentTarget::ColumnName(n) => {
            let parts = match object_name_parts(n) {
                Ok(p) => p,
                Err(e) => {
                    return Err(e);
                },
            };
            if parts.len() == 1 {
                return Ok(parts[0].clone());
            }
            if parts.len() == 2 && same_folded(parts[0].as_str(), alias) {
                return Ok(parts[1].clone());
            }
            let shown = join_dots(&parts);
            Err(invalid(cat3("unknown assignment target '", shown.as_str(), "'")))
        },
    }
}

/// The position of the column that an assignment changes, `seen` being changed already; or its
/// refusal.
pub open spec fn assigned_column(
    name: Seq<char>,
    t: TableDescriptor,
    table: Seq<char>,
    seen: Seq<usize>,
) -> Result<usize, ErrorView> {
    match first_named(t.schema.columns@, name, 0) {
        None => invalid_view("unknown column '"@ + name + "' in table '"@ + table + "'"@),
        Some(c) => if seen.contains(c as usize) {
            invalid_view("column '"@ + name + "' assigned more than once"@)
        } else if t.primary_key@.contains(c as usize) {
            unsupported_view("updating primary key column '"@ + name + "' is not supported"@)
        } else if t.partitioning matches Some(p) && p.key_column == c {
            unsupported_view("updating partition key column '"@ + name + "' is not supported"@)
        } else {
            Ok(c as usize)
        },
    }
}

fn find_assigned_column(name: &str, t: &TableDescriptor, table: &str, seen: &Vec<usize>) -> (r:
    Result<usize, HtapError>)
    ensures
        match r {
            Ok(c) => c < t.schema.columns@.len() && assigned_column(name@, *t, table@, seen@)
                == Ok::<usize, ErrorView>(c),
            Err(e) => assigned_column(name@, *t, table@, seen@) == Err::<usize, ErrorView>(e@),
        },
{
    let c: usize = match t.schema.column_index(name) {
        Some(c) => c,
        None => {
            return Err(invalid(cat5("unknown column '", name, "' in table '", table, "'")));
        },
    };
    if has_index(seen, c) {
        return Err(invalid(cat3("column '", name, "' assigned more than once")));
    }
    if has_index(&t.primary_key, c) {
        return Err(
            unsupported(cat3("updating primary key column '", name, "' is not supported")),
        );
    }
    match t.partitioning {
        Some(p) => {
            if p.key_column == c {
                return Err(
                    unsupported(
                        cat3("updating partition key column '", name, "' is not supported"),
                    ),
                );
            }
        },
        None => {},
    }
    Ok(c)
}

/// The assignments from the `i`-th on behind `acc`, the columns behind `seen`; or the refusal of
/// one.
pub open spec fn assignments_of(
    cx: Env<'_>,
    list: Seq<Assignment>,
    i: int,
    t: TableDescriptor,
    table: Seq<char>,
    alias: Seq<char>,
    st: StateView,
    seen: Seq<usize>,
    acc: Seq<(usize, ExprView)>,
) -> Result<(Seq<(usize, ExprView)>, StateView), ErrorView>
    decreases list.len() - i,
{
    if i < 0 || i >= list.len() {
        Ok((acc, st))
    } else {
        match assigned_name(list[i].target, alias) {
            Err(e) => Err(e),
            Ok(name) => match assigned_column(name, t, table, seen) {
                Err(e) => Err(e),
                Ok(c) => match bind_of(cx, table_scope(alias, t), st, top_mode(), list[i].value) {
                    Err(e) => Err(e),
                    Ok(b) => match assigned(b.0, t.schema.columns@[c as int]@, *cx.answers) {
                        Err(e) => Err(e),
                        Ok(v) => assignments_of(
                            cx,
                            list,
                            i + 1,
                            t,
                            table,
                            alias,
                            b.1,
                            seen.push(c),
                            acc.push((c, v)),
                        ),
                    },
                },
            },
        }
    }
}

fn bind_assignments(
    cx: Env<'_>,
    list: &Vec<Assignment>,
    t: &TableDescriptor,
    table: &str,
    alias: &str,
    st: &mut BindState,
) -> (r: Result<Vec<(usize, Expr)>, HtapError>)
    ensures
        match r {
            Ok(v) => assignments_of(
                cx,
                list@,
                0,
                *t,
                table@,
                alias@,
                old(st)@,
                Seq::empty(),
                Seq::empty(),
            ) == Ok::<(Seq<(usize, ExprView)>, StateView), ErrorView>(
                (view_assignments(v@), final(st)@),
            ),
            Err(e) => assignments_of(
                cx,
                list@,
                0,
                *t,
                table@,
                alias@,
                old(st)@,
                Seq::empty(),
                Seq::empty(),
            ) == Err::<(Seq<(usize, ExprView)>, StateView), ErrorView>(e@),
        },
{
    let ghost start = st@;
    let slots = one_slot(alias, t);
    let mut seen: Vec<usize> = Vec::new();
    let mut out: Vec<(usize, Expr)> = Vec::new();
    let mut i: usize = 0;
    assert(view_assignments(out@) =~= Seq::empty());
    while i < list.len()
        invariant
            i <= list.len(),
            start == old(st)@,
            views(slots@) == seq![
                InfoView { alias: alias@, columns: views(t.schema.columns@), offset: 0 },
            ],
            assignments_of(
                cx,
                list@,
                0,
                *t,
                table@,
                alias@,
                start,
                Seq::empty(),
                Seq::empty(),
            ) == assignments_of(
                cx,
                list@,
                i as int,
                *t,
                table@,
                alias@,
                st@,
                seen@,
                view_assignments(out@),
            ),
        decreases list.len() - i,
    {
        let name = match find_assigned_name(&list[i].target, alias) {
            Ok(n) => n,
            Err(e) => {
                return Err(e);
            },
        };
        let c: usize = match find_assigned_column(name.as_str(), t, table, &seen) {
            Ok(c) => c,
            Err(e) => {
                return Err(e);
            },
        };
        let value = match bind_in_table(cx, &slots, st, &list[i].value) {
            Ok(v) => v,
            Err(e) => {
                return Err(e);
            },
        };
        let value = match coerce_to_column(value, &t.schema.columns[c], cx.answers) {
            Ok(v) => v,
            Err(e) => {
                return Err(e);
            },
        };
        let ghost before = out@;
        seen.push(c);
        out.push((c, value));
        assert(view_assignments(out@) =~= view_assignments(before).push((c, value@)));
        i = i + 1;
    }
    Ok(out)
}

/// What `UPDATE` changes, or its refusal.
pub open spec fn update_of(cx: Env<'_>, s: SqlUpdate) -> Result<StatementView, ErrorView> {
    if s.from {
        unsupported_view("UPDATE ... FROM not supported"@)
    } else if s.returning.given() {
        unsupported_view("UPDATE ... RETURNING/OUTPUT not supported"@)
    } else if s.or_clause {
        unsupported_view("UPDATE OR ... not supported"@)
    } else if s.ordered.given() {
        unsupported_view("UPDATE with ORDER BY / LIMIT not supported"@)
    } else if s.table.joins@.len() != 0 {
        unsupported_view("multi-table UPDATE not supported"@)
    } else {
        match s.table.relation {
            TableFactor::Table { name, alias, .. } => match single_name(name) {
                Err(e) => Err(e),
                Ok(table) => match cx.catalog.table(table) {
                    None => Err(no_table(table)),
                    Some(t) => match key_check(t) {
                        Err(e) => Err(e),
                        Ok(_) => if s.assignments@.len() == 0 {
                            invalid_view("UPDATE requires at least one assignment"@)
                        } else {
                            match assignments_of(
                                cx,
                                s.assignments@,
                                0,
                                t,
                                table,
                                alias_name(alias, table),
                                empty_state(),
                                Seq::empty(),
                                Seq::empty(),
                            ) {
                                Err(e) => Err(e),
                                Ok(a) => match target_of(
                                    cx,
                                    t,
                                    alias_name(alias, table),
                                    a.1,
                                    s.selection,
                                ) {
                                    Err(e) => Err(e),
                                    Ok(target) => Ok(
                                        StatementView::Update { table, assignments: a.0, target },
                                    ),
                                },
                            }
                        },
                    },
                },
            },
            _ => unsupported_view("UPDATE target must be a table"@),
        }
    }
}

/// Binds `UPDATE`.
pub(crate) fn bind_update(cx: Env<'_>, s: &SqlUpdate) -> (r: Result<BoundStatement, HtapError>)
    ensures
        outcome(r) == update_of(cx, *s),
{
    if s.from {
        return Err(unsupported(owned("UPDATE ... FROM not supported")));
    }
    if s.returning.given() {
        return Err(unsupported(owned("UPDATE ... RETURNING/OUTPUT not supported")));
    }
    if s.or_clause {
        return Err(unsupported(owned("UPDATE OR ... not supported")));
    }
    if s.ordered.given() {
        return Err(unsupported(owned("UPDATE with ORDER BY / LIMIT not supported")));
    }
    if s.table.joins.len() != 0 {
        return Err(unsupported(owned("multi-table UPDATE not supported")));
    }
    match &s.table.relation {
        TableFactor::Table { name, alias, .. } => {
            let table = match object_name_single(name) {
                Ok(t) => t,
                Err(e) => {
                    return Err(e);
                },
            };
            let t = match cx.catalog.table_by_name(table.as_str()) {
                Some(t) => t,
                None => {
                    return Err(table_not_found(table.as_str()));
                },
            };
            match validate_table_descriptor_primary_key(t) {
                Ok(_) => {},
                Err(e) => {
                    return Err(e);
                },
            }
            if s.assignments.len() == 0 {
                return Err(invalid(owned("UPDATE requires at least one assignment")));
            }
            let shown = name_or(alias, table.as_str());
            let mut st = empty_bind_state();
            let assignments = match bind_assignments(
                cx,
                &s.assignments,
                t,
                table.as_str(),
                shown.as_str(),
                &mut st,
            ) {
                Ok(a) => a,
                Err(e) => {
                    return Err(e);
                },
            };
            match bind_target(cx, t, shown.as_str(), &mut st, &s.selection) {
                Err(e) => Err(e),
                Ok(target) => Ok(
                    BoundStatement::Update(UpdateStatement { table, assignments, target }),
                ),
            }
        },
        _ => Err(unsupported(owned("UPDATE target must be a table"))),
    }
}

} // verus!
