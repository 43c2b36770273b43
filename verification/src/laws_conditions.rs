//! Laws of conditions: a bound statement concerns the rows for which its condition is true.

use crate::answers::Answers;
use crate::ast::{ComparisonOp, FilterView, StatementView, TargetView};
use crate::binder_dml::{deletion_of, empty_state, table_scope, update_of};
use crate::binder_narrow::{analytic_filter, filter_leaf, filter_terms, narrow_of};
use crate::catalog::{first_named, TableDescriptor};
use crate::convert::{compare_view, Rank};
use crate::eval::{eval_of, ContextView};
use crate::expr::ExprView;
use crate::key_predicate::{
    and_leaves, key_of, key_term, key_terms, named_key_is_whole, names_whole_key, value_for,
};
use crate::laws_bind::checked_keys_are_sound;
use crate::laws_queries::{numerals_denote_their_numbers, writes};
use crate::laws_values::{applied, is_bool};
use crate::literals::{column_literal, unnested};
use crate::model_calls::operator_of;
use crate::model_expr::bind_of;
use crate::model_query::{alias_name, top_mode};
use crate::names::single_name;
use crate::scope::{Env, StateView};
use crate::sql::{
    BinaryOperator, Query, SetExpr, SqlExpr, SqlNode, SqlValue, TableFactor, UnaryOperator,
};
use crate::statement::{SqlDelete, SqlUpdate};
use crate::value::{ColumnView, DataType, ErrorView, ValueView};
use vstd::prelude::*;

verus! {

/// What a written comparison says of how its operands stand to each other.
pub open spec fn says(op: BinaryOperator, k: Rank) -> bool {
    match op {
        BinaryOperator::Eq => k == Rank::Equal,
        BinaryOperator::NotEq => k == Rank::Less || k == Rank::Greater,
        BinaryOperator::Lt => k == Rank::Less,
        BinaryOperator::LtEq => k == Rank::Less || k == Rank::Equal,
        BinaryOperator::Gt => k == Rank::Greater,
        BinaryOperator::GtEq => k == Rank::Greater || k == Rank::Equal,
        _ => false,
    }
}

/// Whether an operator is one of the six comparisons.
pub open spec fn is_comparison(op: BinaryOperator) -> bool {
    op is Eq || op is NotEq || op is Lt || op is LtEq || op is Gt || op is GtEq
}

/// What a comparison of a scan says of how a column stands to a literal.
pub open spec fn holds(op: ComparisonOp, k: Rank) -> bool {
    match op {
        ComparisonOp::Eq => k == Rank::Equal,
        ComparisonOp::NotEq => k != Rank::Equal,
        ComparisonOp::Lt => k == Rank::Less,
        ComparisonOp::Lte => k != Rank::Greater,
        ComparisonOp::Gt => k == Rank::Greater,
        ComparisonOp::Gte => k != Rank::Less,
    }
}

/// Whether a column is the first with a name.
pub open spec fn is_column(t: TableDescriptor, name: Seq<char>, i: int) -> bool {
    &&& 0 <= i < t.schema.columns@.len()
    &&& t.schema.columns@[i].name@ == name
    &&& forall|j: int| 0 <= j < i ==> (#[trigger] t.schema.columns@[j]).name@ != name
}

/// Whether a column stands to a literal as a written comparison says.
pub open spec fn column_compares(
    name: Seq<char>,
    op: BinaryOperator,
    literal: SqlExpr,
    t: TableDescriptor,
    row: Seq<ValueView>,
    answers: Answers,
) -> bool {
    exists|i: int| #[trigger]
        is_column(t, name, i) && match column_literal(literal, t.schema.columns@[i]@) {
            Ok(w) => match compare_view(row[i], w, answers) {
                Ok(Some(k)) => says(op, k),
                _ => false,
            },
            Err(_) => false,
        }
}

/// Whether a written condition on the columns of one table is true of a row: a comparison of a
/// column with a literal, a test of a column for `NULL`, or a conjunction of conditions.
pub open spec fn condition_true(
    e: SqlExpr,
    t: TableDescriptor,
    row: Seq<ValueView>,
    answers: Answers,
) -> bool
    decreases e,
{
    match e.node {
        SqlNode::Nested(inner) => condition_true(*inner, t, row, answers),
        SqlNode::BinaryOp { left, op: BinaryOperator::And, right } => condition_true(
            *left,
            t,
            row,
            answers,
        ) && condition_true(*right, t, row, answers),
        SqlNode::BinaryOp { left, op, right } => match unnested(*left).node {
            SqlNode::Identifier(s) => column_compares(s@, op, *right, t, row, answers),
            _ => false,
        },
        SqlNode::IsNull(inner) => match unnested(*inner).node {
            SqlNode::Identifier(s) => exists|i: int| #[trigger]
                is_column(t, s@, i) && row[i] is Null,
            _ => false,
        },
        SqlNode::IsNotNull(inner) => match unnested(*inner).node {
            SqlNode::Identifier(s) => exists|i: int| #[trigger]
                is_column(t, s@, i) && !(row[i] is Null),
            _ => false,
        },
        _ => false,
    }
}

/// Whether the filter of a scan holds of a row.
pub open spec fn filter_true(f: FilterView, row: Seq<ValueView>, answers: Answers) -> bool
    decreases f,
{
    match f {
        FilterView::And(list) => all_true(list, list.len() as int, row, answers),
        FilterView::Comparison { column, op, value } => match compare_view(
            row[column as int],
            value,
            answers,
        ) {
            Ok(Some(k)) => holds(op, k),
            _ => false,
        },
        FilterView::IsNull { column } => row[column as int] is Null,
        FilterView::IsNotNull { column } => !(row[column as int] is Null),
    }
}

/// Whether the first `n` filters hold of a row.
pub open spec fn all_true(
    list: Seq<FilterView>,
    n: int,
    row: Seq<ValueView>,
    answers: Answers,
) -> bool
    decreases list, n,
{
    n <= 0 || n > list.len() || (all_true(list, n - 1, row, answers) && filter_true(
        list[n - 1],
        row,
        answers,
    ))
}

proof fn lemma_first_named(t: TableDescriptor, name: Seq<char>, i: int)
    requires
        0 <= i <= t.schema.columns@.len(),
        forall|j: int| 0 <= j < i ==> (#[trigger] t.schema.columns@[j]).name@ != name,
    ensures
        match first_named(t.schema.columns@, name, i) {
            Some(k) => is_column(t, name, k) && k as usize == k,
            None => forall|k: int| !#[trigger] is_column(t, name, k),
        },
    decreases t.schema.columns@.len() - i,
{
    assert(t.schema.columns.len() == t.schema.columns@.len());
    if i < t.schema.columns@.len() && t.schema.columns@[i].name@ != name {
        lemma_first_named(t, name, i + 1);
    }
}

proof fn lemma_one_column(t: TableDescriptor, name: Seq<char>, i: int, j: int)
    requires
        is_column(t, name, i),
        is_column(t, name, j),
    ensures
        i == j,
{
    if i < j {
        assert(t.schema.columns@[i].name@ != name);
    }
    if j < i {
        assert(t.schema.columns@[j].name@ != name);
    }
}

pub proof fn lemma_column_found(t: TableDescriptor, name: Seq<char>)
    ensures
        match first_named(t.schema.columns@, name, 0) {
            Some(k) => is_column(t, name, k) && k as usize == k && forall|j: int|
                #[trigger] is_column(t, name, j) ==> j == k,
            None => forall|k: int| !#[trigger] is_column(t, name, k),
        },
{
    lemma_first_named(t, name, 0);
    match first_named(t.schema.columns@, name, 0) {
        Some(k) => {
            assert forall|j: int| #[trigger] is_column(t, name, j) implies j == k by {
                lemma_one_column(t, name, j, k);
            }
        },
        None => {},
    }
}

proof fn lemma_unnested(e: SqlExpr, t: TableDescriptor, row: Seq<ValueView>, answers: Answers)
    ensures
        condition_true(unnested(e), t, row, answers) == condition_true(e, t, row, answers),
        unnested(unnested(e)) == unnested(e),
        !(unnested(e).node is Nested),
    decreases e,
{
    match e.node {
        SqlNode::Nested(inner) => {
            lemma_unnested(*inner, t, row, answers);
        },
        _ => {},
    }
}

proof fn lemma_literal_unnested(e: SqlExpr, col: ColumnView)
    ensures
        column_literal(unnested(e), col) == column_literal(e, col),
    decreases e,
{
    match e.node {
        SqlNode::Nested(inner) => {
            lemma_literal_unnested(*inner, col);
        },
        _ => {},
    }
}

/// Whether the terms from the `i`-th on are true of a row.
spec fn terms_true(
    leaves: Seq<SqlExpr>,
    i: int,
    t: TableDescriptor,
    row: Seq<ValueView>,
    answers: Answers,
) -> bool {
    forall|k: int| i <= k < leaves.len() ==> condition_true(#[trigger] leaves[k], t, row, answers)
}

proof fn lemma_terms_join(
    a: Seq<SqlExpr>,
    b: Seq<SqlExpr>,
    t: TableDescriptor,
    row: Seq<ValueView>,
    answers: Answers,
)
    ensures
        terms_true(a + b, 0, t, row, answers) == (terms_true(a, 0, t, row, answers) && terms_true(
            b,
            0,
            t,
            row,
            answers,
        )),
{
    let all = a + b;
    if terms_true(all, 0, t, row, answers) {
        assert forall|k: int| 0 <= k < a.len() implies condition_true(
            #[trigger] a[k],
            t,
            row,
            answers,
        ) by {
            assert(all[k] == a[k]);
        }
        assert forall|k: int| 0 <= k < b.len() implies condition_true(
            #[trigger] b[k],
            t,
            row,
            answers,
        ) by {
            assert(all[a.len() + k] == b[k]);
        }
    }
}

/// A condition is true where all its terms are.
proof fn lemma_leaves(e: SqlExpr, t: TableDescriptor, row: Seq<ValueView>, answers: Answers)
    ensures
        condition_true(e, t, row, answers) == terms_true(and_leaves(e), 0, t, row, answers),
    decreases e,
{
    match e.node {
        SqlNode::BinaryOp { left, op: BinaryOperator::And, right } => {
            lemma_leaves(*left, t, row, answers);
            lemma_leaves(*right, t, row, answers);
            lemma_terms_join(and_leaves(*left), and_leaves(*right), t, row, answers);
        },
        SqlNode::Nested(inner) => {
            lemma_leaves(*inner, t, row, answers);
        },
        _ => {
            assert(and_leaves(e)[0] == e);
        },
    }
}

/// What a term tests is what it says.
proof fn lemma_term(
    leaf: SqlExpr,
    t: TableDescriptor,
    seen: Seq<usize>,
    row: Seq<ValueView>,
    answers: Answers,
)
    requires
        filter_leaf(leaf, t, seen) is Ok,
    ensures
        filter_true(filter_leaf(leaf, t, seen)->Ok_0, row, answers) == condition_true(
            leaf,
            t,
            row,
            answers,
        ),
        !(filter_leaf(leaf, t, seen)->Ok_0 is And),
{
    lemma_unnested(leaf, t, row, answers);
    let e = unnested(leaf);
    match e.node {
        SqlNode::IsNull(inner) => match unnested(*inner).node {
            SqlNode::Identifier(s) => {
                lemma_column_found(t, s@);
            },
            _ => {},
        },
        SqlNode::IsNotNull(inner) => match unnested(*inner).node {
            SqlNode::Identifier(s) => {
                lemma_column_found(t, s@);
            },
            _ => {},
        },
        SqlNode::BinaryOp { left, op, right } => match unnested(*left).node {
            SqlNode::Identifier(s) => {
                lemma_column_found(t, s@);
                let i = first_named(t.schema.columns@, s@, 0)->0;
                lemma_literal_unnested(*right, t.schema.columns@[i]@);
                assert(is_column(t, s@, i));
            },
            _ => {},
        },
        _ => {},
    }
}

proof fn lemma_terms(
    leaves: Seq<SqlExpr>,
    i: int,
    t: TableDescriptor,
    seen: Seq<usize>,
    acc: Seq<FilterView>,
    row: Seq<ValueView>,
    answers: Answers,
)
    requires
        0 <= i <= leaves.len(),
        acc.len() == i,
        filter_terms(leaves, i, t, seen, acc) is Ok,
    ensures
        ({
            let all = filter_terms(leaves, i, t, seen, acc)->Ok_0;
            &&& all.len() == leaves.len()
            &&& forall|k: int| 0 <= k < i ==> all[k] == acc[k]
            &&& forall|k: int|
                i <= k < leaves.len() ==> filter_true(#[trigger] all[k], row, answers)
                    == condition_true(leaves[k], t, row, answers)
        }),
    decreases leaves.len() - i,
{
    if i < leaves.len() {
        let f = filter_leaf(leaves[i], t, seen)->Ok_0;
        lemma_term(leaves[i], t, seen, row, answers);
        lemma_terms(
            leaves,
            i + 1,
            t,
            crate::binder_narrow::equated(seen, f),
            acc.push(f),
            row,
            answers,
        );
        assert(acc.push(f)[i] == f);
    }
}

proof fn lemma_all_true(list: Seq<FilterView>, n: int, row: Seq<ValueView>, answers: Answers)
    requires
        0 <= n <= list.len(),
    ensures
        all_true(list, n, row, answers) == (forall|k: int|
            0 <= k < n ==> filter_true(#[trigger] list[k], row, answers)),
    decreases n,
{
    if n > 0 {
        lemma_all_true(list, n - 1, row, answers);
    }
}

/// The filter of a scan holds of a row exactly where the condition it was bound from is true of the
/// row.
pub proof fn filters_hold_where_conditions_do(
    e: SqlExpr,
    t: TableDescriptor,
    row: Seq<ValueView>,
    answers: Answers,
)
    requires
        analytic_filter(Some(e), t) is Ok,
    ensures
        analytic_filter(Some(e), t)->Ok_0 matches Some(f) && filter_true(f, row, answers)
            == condition_true(e, t, row, answers),
{
    let leaves = and_leaves(e);
    lemma_leaves(e, t, row, answers);
    lemma_terms(leaves, 0, t, Seq::empty(), Seq::empty(), row, answers);
    let terms = filter_terms(leaves, 0, t, Seq::empty(), Seq::empty())->Ok_0;
    let f = FilterView::And(terms);
    lemma_all_true(terms, terms.len() as int, row, answers);
    assert(filter_true(f, row, answers) == all_true(terms, terms.len() as int, row, answers));
    if terms_true(leaves, 0, t, row, answers) {
        assert forall|k: int| 0 <= k < terms.len() implies filter_true(
            #[trigger] terms[k],
            row,
            answers,
        ) by {
            assert(condition_true(leaves[k], t, row, answers));
        }
    }
    if forall|k: int| 0 <= k < terms.len() ==> filter_true(#[trigger] terms[k], row, answers) {
        assert forall|k: int| 0 <= k < leaves.len() implies condition_true(
            #[trigger] leaves[k],
            t,
            row,
            answers,
        ) by {
            assert(filter_true(terms[k], row, answers));
        }
    }
    if terms.len() == 1 {
        assert(filter_true(terms[0], row, answers) == condition_true(leaves[0], t, row, answers));
    }
}

/// Whether a column of a row equals a value.
pub open spec fn column_equals(
    row: Seq<ValueView>,
    column: usize,
    v: ValueView,
    answers: Answers,
) -> bool {
    compare_view(row[column as int], v, answers) == Ok::<Option<Rank>, ErrorView>(Some(Rank::Equal))
}

/// Whether a row has a primary key.
pub open spec fn has_key(
    t: TableDescriptor,
    key: Seq<ValueView>,
    row: Seq<ValueView>,
    answers: Answers,
) -> bool {
    key.len() == t.primary_key@.len() && forall|k: int|
        0 <= k < key.len() ==> #[trigger] column_equals(row, t.primary_key@[k], key[k], answers)
}

proof fn lemma_key_term(
    leaf: SqlExpr,
    t: TableDescriptor,
    found: Seq<(usize, ValueView)>,
    row: Seq<ValueView>,
    answers: Answers,
)
    requires
        key_term(leaf, t, found) is Ok,
    ensures
        ({
            let (c, v) = key_term(leaf, t, found)->Ok_0;
            &&& condition_true(leaf, t, row, answers) == column_equals(row, c, v, answers)
            &&& t.primary_key@.contains(c)
            &&& value_for(found, c, 0) is None
        }),
{
    lemma_unnested(leaf, t, row, answers);
    match unnested(leaf).node {
        SqlNode::BinaryOp { left, op, right } => match unnested(*left).node {
            SqlNode::Identifier(s) => {
                lemma_column_found(t, s@);
                let i = first_named(t.schema.columns@, s@, 0)->0;
                lemma_literal_unnested(*right, t.schema.columns@[i]@);
                assert(is_column(t, s@, i));
            },
            _ => {},
        },
        _ => {},
    }
}

proof fn lemma_value_for(found: Seq<(usize, ValueView)>, column: usize, i: int)
    requires
        0 <= i <= found.len(),
    ensures
        match value_for(found, column, i) {
            Some(v) => exists|k: int| i <= k < found.len() && #[trigger] found[k] == (column, v),
            None => forall|k: int| i <= k < found.len() ==> (#[trigger] found[k]).0 != column,
        },
    decreases found.len() - i,
{
    if i < found.len() {
        if found[i].0 != column {
            lemma_value_for(found, column, i + 1);
        } else {
            assert(found[i] == (column, found[i].1));
        }
    }
}

/// Whether no column stands twice among pairs.
spec fn once_each(found: Seq<(usize, ValueView)>) -> bool {
    forall|a: int, b: int|
        0 <= a < b < found.len() ==> (#[trigger] found[a]).0 != (#[trigger] found[b]).0
}

proof fn lemma_key_found(
    leaves: Seq<SqlExpr>,
    i: int,
    t: TableDescriptor,
    found: Seq<(usize, ValueView)>,
    row: Seq<ValueView>,
    answers: Answers,
)
    requires
        0 <= i <= leaves.len(),
        found.len() == i,
        once_each(found),
        key_terms(leaves, i, t, found) is Ok,
    ensures
        ({
            let all = key_terms(leaves, i, t, found)->Ok_0;
            &&& all.len() == leaves.len()
            &&& once_each(all)
            &&& forall|k: int| 0 <= k < i ==> all[k] == found[k]
            &&& forall|k: int|
                i <= k < leaves.len() ==> t.primary_key@.contains((#[trigger] all[k]).0)
                    && condition_true(leaves[k], t, row, answers) == column_equals(
                    row,
                    all[k].0,
                    all[k].1,
                    answers,
                )
        }),
    decreases leaves.len() - i,
{
    if i < leaves.len() {
        let x = key_term(leaves[i], t, found)->Ok_0;
        lemma_key_term(leaves[i], t, found, row, answers);
        lemma_value_for(found, x.0, 0);
        lemma_key_found(leaves, i + 1, t, found.push(x), row, answers);
        assert(found.push(x)[i] == x);
    }
}

/// The key that a condition names is that of exactly the rows for which the condition is true.
pub proof fn keys_are_those_of_the_condition(
    e: SqlExpr,
    t: TableDescriptor,
    row: Seq<ValueView>,
    answers: Answers,
)
    requires
        t.primary_key@.no_duplicates(),
        key_of(t, Some(e)) is Ok,
    ensures
        has_key(t, key_of(t, Some(e))->Ok_0, row, answers) == condition_true(e, t, row, answers),
{
    let leaves = and_leaves(e);
    let key = key_of(t, Some(e))->Ok_0;
    let pk = t.primary_key@;
    lemma_leaves(e, t, row, answers);
    lemma_key_found(leaves, 0, t, Seq::empty(), row, answers);
    named_key_is_whole(t, e);
    let found = key_terms(leaves, 0, t, Seq::empty())->Ok_0;
    if condition_true(e, t, row, answers) {
        assert forall|k: int| 0 <= k < key.len() implies #[trigger] column_equals(
            row,
            pk[k],
            key[k],
            answers,
        ) by {
            assert(value_for(found, pk[k], 0) == Some(key[k]));
            lemma_value_for(found, pk[k], 0);
            let j = choose|j: int| 0 <= j < found.len() && #[trigger] found[j] == (pk[k], key[k]);
            assert(condition_true(leaves[j], t, row, answers));
            assert(pk.contains(found[j].0));
        }
    }
    if has_key(t, key, row, answers) {
        assert forall|j: int| 0 <= j < leaves.len() implies condition_true(
            #[trigger] leaves[j],
            t,
            row,
            answers,
        ) by {
            assert(pk.contains(found[j].0));
            let k = choose|k: int| 0 <= k < pk.len() && pk[k] == found[j].0;
            assert(value_for(found, pk[k], 0) == Some(key[k]));
            lemma_value_for(found, pk[k], 0);
            let m = choose|m: int| 0 <= m < found.len() && #[trigger] found[m] == (pk[k], key[k]);
            if m < j {
                assert(found[m].0 != found[j].0);
            }
            if j < m {
                assert(found[j].0 != found[m].0);
            }
            assert(column_equals(row, pk[k], key[k], answers));
        }
    }
}

/// A comparison that the binder makes of a written one is `TRUE` exactly where its operands can be
/// compared and stand to each other as the written operator says, `FALSE` where they stand otherwise,
/// and `NULL` where one is `NULL`.
pub proof fn written_comparisons_evaluate(
    op: BinaryOperator,
    x: ExprView,
    y: ExprView,
    c: ContextView,
)
    requires
        is_comparison(op),
        eval_of(x, c) is Ok,
        eval_of(y, c) is Ok,
    ensures
        operator_of(op) matches Ok(b) && match compare_view(
            eval_of(x, c)->Ok_0,
            eval_of(y, c)->Ok_0,
            c.answers,
        ) {
            Ok(Some(k)) => is_bool(eval_of(applied(b, x, y), c), says(op, k)),
            Ok(None) => eval_of(applied(b, x, y), c) == Ok::<ValueView, ErrorView>(ValueView::Null),
            Err(_) => eval_of(applied(b, x, y), c) is Err,
        },
{
    let b = operator_of(op)->Ok_0;
    assert(eval_of(applied(b, x, y), c) == eval_of(applied(b, x, y), c));
}

/// A numeral for an integer column is its number, with the sign that stands before it, and a quoted
/// text for a text column is the text.
pub proof fn literals_are_taken_as_written(e: SqlExpr, col: ColumnView, n: nat)
    ensures
        writes(e, n) && col.data_type == DataType::Int64 && n <= i64::MAX ==> column_literal(e, col)
            == Ok::<ValueView, ErrorView>(ValueView::Int64(n as i64)),
        writes(e, n) && col.data_type == DataType::Int32 && n <= i32::MAX ==> column_literal(e, col)
            == Ok::<ValueView, ErrorView>(ValueView::Int32(n as i32)),
        writes(e, n) && col.data_type == DataType::Timestamp && n <= i64::MAX ==> column_literal(
            e,
            col,
        ) == Ok::<ValueView, ErrorView>(ValueView::Timestamp(n as i64)),
        e.node matches SqlNode::UnaryOp { op: UnaryOperator::Minus, expr } ==> writes(*expr, n)
            && col.data_type == DataType::Int64 && n <= i64::MAX ==> column_literal(e, col) == Ok::<
            ValueView,
            ErrorView,
        >(ValueView::Int64((-(n as int)) as i64)),
        e.node matches SqlNode::UnaryOp { op: UnaryOperator::Minus, expr } ==> writes(*expr, n)
            && col.data_type == DataType::Int32 && n <= i32::MAX ==> column_literal(e, col) == Ok::<
            ValueView,
            ErrorView,
        >(ValueView::Int32((-(n as int)) as i32)),
        e.node matches SqlNode::Value(SqlValue::SingleQuoted(s)) ==> col.data_type
            == DataType::String ==> column_literal(e, col) == Ok::<ValueView, ErrorView>(
            ValueView::String(s@),
        ),
        e.node matches SqlNode::Value(SqlValue::Boolean(b)) ==> col.data_type == DataType::Bool
            ==> column_literal(e, col) == Ok::<ValueView, ErrorView>(ValueView::Bool(b)),
{
    numerals_denote_their_numbers(n);
    lemma_numeral_text(n);
    reveal_strlit("-");
    reveal_strlit("");
    match e.node {
        SqlNode::UnaryOp { op: UnaryOperator::Minus, expr } => {
            let t = crate::text::nat_text(n);
            assert(("-"@ + t).skip(1) =~= t);
        },
        _ => {},
    }
    assert(""@ + crate::text::nat_text(n) =~= crate::text::nat_text(n));
}

pub proof fn lemma_numeral_text(n: nat)
    ensures
        !crate::text::nat_text(n).contains('.'),
        !crate::text::nat_text(n).contains('e'),
        !crate::text::nat_text(n).contains('E'),
{
    numerals_denote_their_numbers(n);
    let t = crate::text::nat_text(n);
    if t.contains('.') {
        let i = choose|i: int| 0 <= i < t.len() && t[i] == '.';
        assert('0' <= t[i]);
    }
    if t.contains('e') {
        let i = choose|i: int| 0 <= i < t.len() && t[i] == 'e';
        assert(t[i] <= '9');
    }
    if t.contains('E') {
        let i = choose|i: int| 0 <= i < t.len() && t[i] == 'E';
        assert(t[i] <= '9');
    }
}

/// Whether a target concerns a row of the table.
pub open spec fn concerns(
    target: TargetView,
    t: TableDescriptor,
    row: Seq<ValueView>,
    c: ContextView,
) -> bool {
    match target {
        TargetView::PrimaryKey(key) => has_key(t, key, row, c.answers),
        TargetView::Filter(None) => true,
        TargetView::Filter(Some(f)) => is_bool(eval_of(f, ContextView { row, ..c }), true),
    }
}

/// Whether a target is that of a condition: without one it concerns every row; a key is that of the
/// rows for which the condition is true; and a filter is the condition, bound over the columns of the
/// table.
pub open spec fn targets_condition(
    target: TargetView,
    selection: Option<SqlExpr>,
    cx: Env<'_>,
    t: TableDescriptor,
    alias: Seq<char>,
    st: StateView,
    row: Seq<ValueView>,
    c: ContextView,
) -> bool {
    match selection {
        None => concerns(target, t, row, c),
        Some(e) => match target {
            TargetView::PrimaryKey(_) => concerns(target, t, row, c) == condition_true(
                e,
                t,
                row,
                c.answers,
            ),
            TargetView::Filter(None) => false,
            TargetView::Filter(Some(_)) => match bind_of(
                cx,
                table_scope(alias, t),
                st,
                top_mode(),
                e,
            ) {
                Ok((f, _)) => concerns(target, t, row, c) == is_bool(
                    eval_of(f, ContextView { row, ..c }),
                    true,
                ),
                Err(_) => false,
            },
        },
    }
}

proof fn lemma_target(
    cx: Env<'_>,
    t: TableDescriptor,
    alias: Seq<char>,
    st: StateView,
    selection: Option<SqlExpr>,
    row: Seq<ValueView>,
    c: ContextView,
)
    requires
        t.primary_key@.no_duplicates(),
        crate::binder_dml::target_of(cx, t, alias, st, selection) is Ok,
    ensures
        targets_condition(
            crate::binder_dml::target_of(cx, t, alias, st, selection)->Ok_0,
            selection,
            cx,
            t,
            alias,
            st,
            row,
            c,
        ),
{
    match selection {
        Some(e) => {
            if names_whole_key(e, t) {
                keys_are_those_of_the_condition(e, t, row, c.answers);
            }
        },
        None => {},
    }
}

/// A bound `UPDATE` changes the rows of the named table for which its `WHERE` is `TRUE`, and all of
/// them where it has none.
pub proof fn updates_change_the_rows_of_their_condition(
    cx: Env<'_>,
    s: SqlUpdate,
    row: Seq<ValueView>,
    c: ContextView,
)
    requires
        update_of(cx, s) is Ok,
    ensures
        match (s.table.relation, update_of(cx, s)->Ok_0) {
            (
                TableFactor::Table { name, alias, .. },
                StatementView::Update { table, assignments, target },
            ) => {
                &&& single_name(name) == Ok::<Seq<char>, ErrorView>(table)
                &&& cx.catalog.table(table) matches Some(t) && exists|st: StateView| #[trigger]
                    targets_condition(
                        target,
                        s.selection,
                        cx,
                        t,
                        alias_name(alias, table),
                        st,
                        row,
                        c,
                    )
            },
            _ => false,
        },
{
    match s.table.relation {
        TableFactor::Table { name, alias, .. } => {
            let table = single_name(name)->Ok_0;
            let t = cx.catalog.table(table)->0;
            checked_keys_are_sound(t);
            let st = crate::binder_dml::assignments_of(
                cx,
                s.assignments@,
                0,
                t,
                table,
                alias_name(alias, table),
                empty_state(),
                Seq::empty(),
                Seq::empty(),
            )->Ok_0.1;
            lemma_target(cx, t, alias_name(alias, table), st, s.selection, row, c);
            let target = crate::binder_dml::target_of(
                cx,
                t,
                alias_name(alias, table),
                st,
                s.selection,
            )->Ok_0;
            assert(targets_condition(
                target,
                s.selection,
                cx,
                t,
                alias_name(alias, table),
                st,
                row,
                c,
            ));
        },
        _ => {},
    }
}

/// A bound `DELETE` deletes the rows of the named table for which its `WHERE` is `TRUE`, and all of
/// them where it has none.
pub proof fn deletions_drop_the_rows_of_their_condition(
    cx: Env<'_>,
    s: SqlDelete,
    row: Seq<ValueView>,
    c: ContextView,
)
    requires
        deletion_of(cx, s) is Ok,
    ensures
        match s.from@[0].relation {
            TableFactor::Table { name, alias, .. } => match single_name(name) {
                Ok(table) => match (cx.catalog.table(table), deletion_of(cx, s)->Ok_0) {
                    (Some(t), StatementView::Delete { table: named, key }) => named == table
                        && targets_condition(
                        TargetView::PrimaryKey(key),
                        s.selection,
                        cx,
                        t,
                        alias_name(alias, table),
                        empty_state(),
                        row,
                        c,
                    ),
                    (Some(t), StatementView::DeleteRows { table: named, filter, if_exists }) => named
                        == table && !if_exists && targets_condition(
                        TargetView::Filter(filter),
                        s.selection,
                        cx,
                        t,
                        alias_name(alias, table),
                        empty_state(),
                        row,
                        c,
                    ),
                    _ => false,
                },
                Err(_) => false,
            },
            _ => false,
        },
{
    match s.from@[0].relation {
        TableFactor::Table { name, alias, .. } => {
            let table = single_name(name)->Ok_0;
            let t = cx.catalog.table(table)->0;
            checked_keys_are_sound(t);
            lemma_target(cx, t, alias_name(alias, table), empty_state(), s.selection, row, c);
        },
        _ => {},
    }
}

/// A query of the narrow shape reads the rows of the named table for which its `WHERE` is true,
/// whether it reads them by key or by a scan, and all of them where it has none.
pub proof fn narrow_queries_read_the_rows_of_their_condition(
    cx: Env<'_>,
    q: Query,
    row: Seq<ValueView>,
    answers: Answers,
)
    requires
        narrow_of(cx, q) is Ok,
    ensures
        match *q.body {
            SetExpr::Select(s) => match s.from@[0].relation {
                TableFactor::Table { name, .. } => match single_name(name) {
                    Ok(table) => match (cx.catalog.table(table), narrow_of(cx, q)->Ok_0) {
                        (Some(t), StatementView::Select { table: named, key, .. }) => named == table
                            && (s.selection matches Some(e) && has_key(t, key, row, answers)
                            == condition_true(e, t, row, answers)),
                        (Some(t), StatementView::AnalyticSelect { table: named, filter, .. }) => named
                            == table && match s.selection {
                            None => filter is None,
                            Some(e) => filter matches Some(f) && filter_true(f, row, answers)
                                == condition_true(e, t, row, answers),
                        },
                        _ => false,
                    },
                    Err(_) => false,
                },
                _ => false,
            },
            _ => false,
        },
{
    match *q.body {
        SetExpr::Select(s) => match s.from@[0].relation {
            TableFactor::Table { name, .. } => {
                let table = single_name(name)->Ok_0;
                let t = cx.catalog.table(table)->0;
                checked_keys_are_sound(t);
                match s.selection {
                    Some(e) => {
                        if crate::binder_narrow::reads_by_key(q, *s, t) {
                            keys_are_those_of_the_condition(e, t, row, answers);
                        } else {
                            filters_hold_where_conditions_do(e, t, row, answers);
                        }
                    },
                    None => {},
                }
            },
            _ => {},
        },
        _ => {},
    }
}

} // verus!
