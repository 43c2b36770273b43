//! Predicates on the primary key of a table.

use crate::catalog::{first_named, TableDescriptor};
use crate::lists::has_index;
use crate::literals::{column_literal, parse_literal_value, unnest, unnested};
use crate::sql::{BinaryOperator, SqlExpr, SqlNode, SqlValue};
use crate::text::{cat3, cat4, cat5, count_text, nat_text, owned};
use crate::value::{
    invalid, invalid_view, unsupported, unsupported_view, views, ErrorView, HtapError, Value,
    ValueView,
};
use vstd::prelude::*;

verus! {

/// The terms of a conjunction from left to right, without the parentheses around them.
pub open spec fn and_leaves(e: SqlExpr) -> Seq<SqlExpr>
    decreases e,
{
    match e.node {
        SqlNode::BinaryOp { left, op: BinaryOperator::And, right } => and_leaves(*left)
            + and_leaves(*right),
        SqlNode::Nested(inner) => and_leaves(*inner),
        _ => seq![e],
    }
}

/// What references refer to.
pub open spec fn targets<'a>(list: Seq<&'a SqlExpr>) -> Seq<SqlExpr> {
    Seq::new(list.len(), |i: int| *list[i])
}

/// The terms of a conjunction from left to right, without the parentheses around them.
pub(crate) fn collect_and_leaves(e: &SqlExpr) -> (r: Vec<&SqlExpr>)
    ensures
        targets(r@) == and_leaves(*e),
        r@.len() > 0,
    decreases *e,
{
    match &e.node {
        SqlNode::BinaryOp { left, op: BinaryOperator::And, right } => {
            let mut a = collect_and_leaves(left);
            let mut b = collect_and_leaves(right);
            let ghost x = a@;
            let ghost y = b@;
            a.append(&mut b);
            assert(targets(a@) =~= targets(x) + targets(y));
            a
        },
        SqlNode::Nested(inner) => collect_and_leaves(inner),
        _ => {
            let mut out: Vec<&SqlExpr> = Vec::new();
            out.push(e);
            assert(targets(out@) =~= seq![*e]);
            out
        },
    }
}

/// How a binary operator is written.
pub open spec fn binary_text(op: BinaryOperator) -> Seq<char> {
    match op {
        BinaryOperator::Plus => "+"@,
        BinaryOperator::Minus => "-"@,
        BinaryOperator::Multiply => "*"@,
        BinaryOperator::Divide => "/"@,
        BinaryOperator::IntegerDivide => "DIV"@,
        BinaryOperator::Modulo => "%"@,
        BinaryOperator::Eq => "="@,
        BinaryOperator::NotEq => "<>"@,
        BinaryOperator::Lt => "<"@,
        BinaryOperator::LtEq => "<="@,
        BinaryOperator::Gt => ">"@,
        BinaryOperator::GtEq => ">="@,
        BinaryOperator::And => "AND"@,
        BinaryOperator::Or => "OR"@,
        BinaryOperator::Other(s) => s@,
    }
}

/// How a binary operator is written.
pub(crate) fn text_of_binary(op: &BinaryOperator) -> (r: &str)
    ensures
        r@ == binary_text(*op),
{
    match op {
        BinaryOperator::Plus => "+",
        BinaryOperator::Minus => "-",
        BinaryOperator::Multiply => "*",
        BinaryOperator::Divide => "/",
        BinaryOperator::IntegerDivide => "DIV",
        BinaryOperator::Modulo => "%",
        BinaryOperator::Eq => "=",
        BinaryOperator::NotEq => "<>",
        BinaryOperator::Lt => "<",
        BinaryOperator::LtEq => "<=",
        BinaryOperator::Gt => ">",
        BinaryOperator::GtEq => ">=",
        BinaryOperator::And => "AND",
        BinaryOperator::Or => "OR",
        BinaryOperator::Other(s) => s.as_str(),
    }
}

/// The column that a term sets equal to something that is no column, if that is what it does and
/// the column belongs to the primary key.
pub open spec fn key_column(leaf: SqlExpr, t: TableDescriptor) -> Option<usize> {
    match unnested(leaf).node {
        SqlNode::BinaryOp { left, op: BinaryOperator::Eq, right } => match unnested(*left).node {
            SqlNode::Identifier(s) => match first_named(t.schema.columns@, s@, 0) {
                Some(i) if !(unnested(*right).node is Identifier) && t.primary_key@.contains(
                    i as usize,
                ) => Some(i as usize),
                _ => None,
            },
            _ => None,
        },
        _ => None,
    }
}

/// Whether the terms from the `i`-th on are about distinct key columns that are not in `seen`.
pub open spec fn distinct_key_terms(
    leaves: Seq<SqlExpr>,
    i: int,
    t: TableDescriptor,
    seen: Seq<usize>,
) -> bool
    decreases leaves.len() - i,
{
    if i < 0 || i >= leaves.len() {
        seen.len() == t.primary_key@.len()
    } else {
        match key_column(leaves[i], t) {
            Some(c) => !seen.contains(c) && distinct_key_terms(leaves, i + 1, t, seen.push(c)),
            None => false,
        }
    }
}

/// Whether a condition sets every column of the primary key equal to something, and nothing else.
pub open spec fn names_whole_key(e: SqlExpr, t: TableDescriptor) -> bool {
    and_leaves(e).len() == t.primary_key@.len() && distinct_key_terms(
        and_leaves(e),
        0,
        t,
        Seq::empty(),
    )
}

fn find_key_column(leaf: &SqlExpr, t: &TableDescriptor) -> (r: Option<usize>)
    ensures
        r == key_column(*leaf, *t),
{
    match &unnest(leaf).node {
        SqlNode::BinaryOp { left, op: BinaryOperator::Eq, right } => {
            match &unnest(right).node {
                SqlNode::Identifier(_) => {
                    return None;
                },
                _ => {},
            }
            match &unnest(left).node {
                SqlNode::Identifier(s) => match t.schema.column_index(s.as_str()) {
                    Some(i) => if has_index(&t.primary_key, i) {
                        Some(i)
                    } else {
                        None
                    },
                    None => None,
                },
                _ => None,
            }
        },
        _ => None,
    }
}

/// Whether a condition sets every column of the primary key equal to something, and nothing else.
pub(crate) fn is_pk_equality_where(e: &SqlExpr, t: &TableDescriptor) -> (r: bool)
    ensures
        r == names_whole_key(*e, *t),
{
    let leaves = collect_and_leaves(e);
    let ghost list = targets(leaves@);
    if leaves.len() != t.primary_key.len() {
        return false;
    }
    let mut seen: Vec<usize> = Vec::new();
    let mut i: usize = 0;
    while i < leaves.len()
        invariant
            i <= leaves.len(),
            list == targets(leaves@),
            list == and_leaves(*e),
            distinct_key_terms(list, 0, *t, Seq::empty()) == distinct_key_terms(
                list,
                i as int,
                *t,
                seen@,
            ),
        decreases leaves.len() - i,
    {
        assert(list[i as int] == *leaves@[i as int]);
        match find_key_column(leaves[i], t) {
            Some(c) => {
                if has_index(&seen, c) {
                    return false;
                }
                seen.push(c);
            },
            None => {
                return false;
            },
        }
        i = i + 1;
    }
    seen.len() == t.primary_key.len()
}

/// The value of a column among pairs of a column and a value.
pub open spec fn value_for(found: Seq<(usize, ValueView)>, column: usize, i: int) -> Option<
    ValueView,
>
    decreases found.len() - i,
{
    if i < 0 || i >= found.len() {
        None
    } else if found[i].0 == column {
        Some(found[i].1)
    } else {
        value_for(found, column, i + 1)
    }
}

/// The key column and the value that a term of a key predicate gives it, `found` being those of
/// the terms before it; or its refusal.
pub open spec fn key_term(
    leaf: SqlExpr,
    t: TableDescriptor,
    found: Seq<(usize, ValueView)>,
) -> Result<(usize, ValueView), ErrorView> {
    match unnested(leaf).node {
        SqlNode::BinaryOp { left, op, right } => {
            let l = unnested(*left);
            let r = unnested(*right);
            if !(op is Eq) {
                invalid_view(
                    "unsupported operator in WHERE clause: expected '=', found '"@ + binary_text(op)
                        + "'"@,
                )
            } else if l.node is Value || r.node is Identifier {
                invalid_view(
                    "reversed operands in equality predicate: expected column = value"@,
                )
            } else {
                match l.node {
                    SqlNode::Identifier(s) => match first_named(t.schema.columns@, s@, 0) {
                        None => invalid_view(
                            "unknown column '"@ + s@ + "' in table '"@ + t.name@ + "'"@,
                        ),
                        Some(i) => if !t.primary_key@.contains(i as usize) {
                            invalid_view(
                                "predicate on non-primary-key column '"@ + s@ + "' in table '"@
                                    + t.name@ + "'"@,
                            )
                        } else if value_for(found, i as usize, 0) is Some {
                            invalid_view(
                                "duplicate predicate on primary key column '"@ + s@ + "'"@,
                            )
                        } else if r.node matches SqlNode::Value(SqlValue::Null) {
                            invalid_view(
                                "NULL literal not permitted in primary key predicate for column '"@
                                    + s@ + "'"@,
                            )
                        } else {
                            match column_literal(r, t.schema.columns@[i]@) {
                                Err(e) => Err(e),
                                Ok(v) => Ok((i as usize, v)),
                            }
                        },
                    },
                    SqlNode::CompoundIdentifier(_) => unsupported_view(
                        "qualified column names not supported in WHERE clause"@,
                    ),
                    _ => invalid_view(
                        "left side of equality predicate must be a column identifier"@,
                    ),
                }
            }
        },
        _ => invalid_view("WHERE clause must be a conjunction of equality predicates"@),
    }
}

/// The key columns with their values of the terms from the `i`-th on, behind `found`.
pub open spec fn key_terms(
    leaves: Seq<SqlExpr>,
    i: int,
    t: TableDescriptor,
    found: Seq<(usize, ValueView)>,
) -> Result<Seq<(usize, ValueView)>, ErrorView>
    decreases leaves.len() - i,
{
    if i < 0 || i >= leaves.len() {
        Ok(found)
    } else {
        match key_term(leaves[i], t, found) {
            Err(e) => Err(e),
            Ok(x) => key_terms(leaves, i + 1, t, found.push(x)),
        }
    }
}

/// The values of the primary key in its order.
pub open spec fn key_in_order(primary_key: Seq<usize>, found: Seq<(usize, ValueView)>) -> Seq<
    ValueView,
> {
    Seq::new(
        primary_key.len(),
        |k: int|
            match value_for(found, primary_key[k], 0) {
                Some(v) => v,
                None => ValueView::Null,
            },
    )
}

/// The primary key that a condition names, or its refusal.
pub open spec fn key_of(t: TableDescriptor, selection: Option<SqlExpr>) -> Result<
    Seq<ValueView>,
    ErrorView,
> {
    match selection {
        None => invalid_view(
            "statement requires a WHERE clause on table '"@ + t.name@ + "'"@,
        ),
        Some(e) => match key_terms(and_leaves(e), 0, t, Seq::empty()) {
            Err(x) => Err(x),
            Ok(found) => if found.len() != t.primary_key@.len() {
                invalid_view(
                    "partial primary key predicate: expected "@ + nat_text(t.primary_key@.len())
                        + " columns, got "@ + nat_text(found.len()),
                )
            } else {
                Ok(key_in_order(t.primary_key@, found))
            },
        },
    }
}

/// Pairs of a column and a value.
pub open spec fn view_pairs(list: Seq<(usize, Value)>) -> Seq<(usize, ValueView)> {
    Seq::new(list.len(), |i: int| (list[i].0, list[i].1@))
}

fn find_value<'a>(found: &'a Vec<(usize, Value)>, column: usize) -> (r: Option<&'a Value>)
    ensures
        match r {
            Some(v) => value_for(view_pairs(found@), column, 0) == Some(v@),
            None => value_for(view_pairs(found@), column, 0) is None,
        },
{
    let mut i: usize = 0;
    while i < found.len()
        invariant
            i <= found.len(),
            value_for(view_pairs(found@), column, 0) == value_for(
                view_pairs(found@),
                column,
                i as int,
            ),
        decreases found.len() - i,
    {
        if found[i].0 == column {
            return Some(&found[i].1);
        }
        i = i + 1;
    }
    None
}

fn bind_key_term(leaf: &SqlExpr, t: &TableDescriptor, found: &Vec<(usize, Value)>) -> (r: Result<
    (usize, Value),
    HtapError,
>)
    ensures
        match r {
            Ok(x) => key_term(*leaf, *t, view_pairs(found@)) == Ok::<
                (usize, ValueView),
                ErrorView,
            >((x.0, x.1@)),
            Err(e) => key_term(*leaf, *t, view_pairs(found@)) == Err::<
                (usize, ValueView),
                ErrorView,
            >(e@),
        },
{
    match &unnest(leaf).node {
        SqlNode::BinaryOp { left, op, right } => {
            match op {
                BinaryOperator::Eq => {},
                _ => {
                    return Err(
                        invalid(
                            cat3(
                                "unsupported operator in WHERE clause: expected '=', found '",
                                text_of_binary(op),
                                "'",
                            ),
                        ),
                    );
                },
            }
            let l = unnest(left);
            let r = unnest(right);
            let reversed = match (&l.node, &r.node) {
                (SqlNode::Value(_), _) => true,
                (_, SqlNode::Identifier(_)) => true,
                _ => false,
            };
            if reversed {
                return Err(
                    invalid(
                        owned("reversed operands in equality predicate: expected column = value"),
                    ),
                );
            }
            let name = match &l.node {
                SqlNode::Identifier(s) => s.as_str(),
                SqlNode::CompoundIdentifier(_) => {
                    return Err(
                        unsupported(owned("qualified column names not supported in WHERE clause")),
                    );
                },
                _ => {
                    return Err(
                        invalid(
                            owned("left side of equality predicate must be a column identifier"),
                        ),
                    );
                },
            };
            let i: usize = match t.schema.column_index(name) {
                Some(i) => i,
                None => {
                    return Err(
                        invalid(
                            cat5("unknown column '", name, "' in table '", t.name.as_str(), "'"),
                        ),
                    );
                },
            };
            if !has_index(&t.primary_key, i) {
                return Err(
                    invalid(
                        cat5(
                            "predicate on non-primary-key column '",
                            name,
                            "' in table '",
                            t.name.as_str(),
                            "'",
                        ),
                    ),
                );
            }
            if find_value(found, i).is_some() {
                return Err(
                    invalid(cat3("duplicate predicate on primary key column '", name, "'")),
                );
            }
            match &r.node {
                SqlNode::Value(SqlValue::Null) => {
                    return Err(
                        invalid(
                            cat3(
                                "NULL literal not permitted in primary key predicate for column '",
                                name,
                                "'",
                            ),
                        ),
                    );
                },
                _ => {},
            }
            match parse_literal_value(r, &t.schema.columns[i]) {
                Ok(v) => Ok((i, v)),
                Err(e) => Err(e),
            }
        },
        _ => Err(invalid(owned("WHERE clause must be a conjunction of equality predicates"))),
    }
}

/// Reads the primary key that a condition names.
pub(crate) fn bind_pk_where_predicate(t: &TableDescriptor, selection: &Option<SqlExpr>) -> (r:
    Result<Vec<Value>, HtapError>)
    ensures
        match r {
            Ok(v) => key_of(*t, *selection) == Ok::<Seq<ValueView>, ErrorView>(views(v@)),
            Err(e) => key_of(*t, *selection) == Err::<Seq<ValueView>, ErrorView>(e@),
        },
{
    let e = match selection {
        Some(e) => e,
        None => {
            return Err(
                invalid(cat3("statement requires a WHERE clause on table '", t.name.as_str(), "'")),
            );
        },
    };
    let leaves = collect_and_leaves(e);
    let ghost list = targets(leaves@);
    let mut found: Vec<(usize, Value)> = Vec::new();
    let mut i: usize = 0;
    assert(view_pairs(found@) =~= Seq::empty());
    while i < leaves.len()
        invariant
            i <= leaves.len(),
            list == targets(leaves@),
            key_terms(list, 0, *t, Seq::empty()) == key_terms(
                list,
                i as int,
                *t,
                view_pairs(found@),
            ),
            list == and_leaves(*e),
            *selection == Some(*e),
        decreases leaves.len() - i,
    {
        assert(list[i as int] == *leaves@[i as int]);
        match bind_key_term(leaves[i], t, &found) {
            Ok(x) => {
                let ghost before = found@;
                found.push(x);
                assert(view_pairs(found@) =~= view_pairs(before).push((x.0, x.1@)));
            },
            Err(x) => {
                return Err(x);
            },
        }
        i = i + 1;
    }
    if found.len() != t.primary_key.len() {
        let a = count_text(t.primary_key.len());
        let b = count_text(found.len());
        return Err(
            invalid(
                cat4(
                    "partial primary key predicate: expected ",
                    a.as_str(),
                    " columns, got ",
                    b.as_str(),
                ),
            ),
        );
    }
    let mut key: Vec<Value> = Vec::new();
    let mut k: usize = 0;
    while k < t.primary_key.len()
        invariant
            k <= t.primary_key.len(),
            key@.len() == k,
            forall|j: int|
                0 <= j < k ==> (#[trigger] key@[j])@ == key_in_order(
                    t.primary_key@,
                    view_pairs(found@),
                )[j],
        decreases t.primary_key.len() - k,
    {
        let v = match find_value(&found, t.primary_key[k]) {
            Some(v) => v.copy(),
            None => Value::Null,
        };
        key.push(v);
        k = k + 1;
    }
    assert(views(key@) =~= key_in_order(t.primary_key@, view_pairs(found@)));
    Ok(key)
}

/// The columns of pairs of a column and a value.
pub open spec fn pair_columns(found: Seq<(usize, ValueView)>) -> Seq<usize> {
    Seq::new(found.len(), |i: int| found[i].0)
}

proof fn lemma_value_for(found: Seq<(usize, ValueView)>, column: usize, i: int)
    requires
        0 <= i <= found.len(),
    ensures
        value_for(found, column, i) is None ==> forall|k: int|
            i <= k < found.len() ==> (#[trigger] found[k]).0 != column,
    decreases found.len() - i,
{
    if i < found.len() && found[i].0 != column {
        lemma_value_for(found, column, i + 1);
    }
}

proof fn lemma_key_terms(
    leaves: Seq<SqlExpr>,
    i: int,
    t: TableDescriptor,
    found: Seq<(usize, ValueView)>,
)
    requires
        0 <= i,
        pair_columns(found).no_duplicates(),
        forall|k: int| 0 <= k < found.len() ==> t.primary_key@.contains((#[trigger] found[k]).0),
    ensures
        key_terms(leaves, i, t, found) matches Ok(all) ==> {
            &&& pair_columns(all).no_duplicates()
            &&& forall|k: int| 0 <= k < all.len() ==> t.primary_key@.contains((#[trigger] all[k]).0)
        },
    decreases leaves.len() - i,
{
    if i < leaves.len() {
        match key_term(leaves[i], t, found) {
            Ok(x) => {
                lemma_value_for(found, x.0, 0);
                let next = found.push(x);
                assert forall|a: int, b: int|
                    0 <= a < next.len() && 0 <= b < next.len() && a != b implies pair_columns(
                    next,
                )[a] != pair_columns(next)[b] by {
                    if a < found.len() && b < found.len() {
                        assert(pair_columns(found)[a] != pair_columns(found)[b]);
                    }
                }
                lemma_key_terms(leaves, i + 1, t, next);
            },
            Err(_) => {},
        }
    }
}

/// A key that a condition names is whole: on a table whose primary key is in order, every column
/// of the key has a value that a term of the condition gives it, in the order of the key.
pub proof fn named_key_is_whole(t: TableDescriptor, e: SqlExpr)
    requires
        t.primary_key@.no_duplicates(),
    ensures
        key_of(t, Some(e)) matches Ok(key) ==> {
            &&& key.len() == t.primary_key@.len()
            &&& key_terms(and_leaves(e), 0, t, Seq::empty()) matches Ok(found) && forall|k: int|
                0 <= k < key.len() ==> value_for(found, t.primary_key@[k], 0) == Some(
                    #[trigger] key[k],
                )
        },
{
    lemma_key_terms(and_leaves(e), 0, t, Seq::empty());
    match (key_terms(and_leaves(e), 0, t, Seq::empty()), key_of(t, Some(e))) {
        (Ok(found), Ok(key)) => {
            let columns = pair_columns(found);
            let wanted = t.primary_key@;
            assert forall|c: usize| columns.to_set().contains(c) implies wanted.to_set().contains(
                c,
            ) by {
                let k = choose|k: int| 0 <= k < columns.len() && columns[k] == c;
                assert(wanted.contains(found[k].0));
            }
            columns.unique_seq_to_set();
            wanted.unique_seq_to_set();
            vstd::set_lib::lemma_subset_equality(columns.to_set(), wanted.to_set());
            assert forall|k: int| 0 <= k < key.len() implies value_for(found, wanted[k], 0) == Some(
                #[trigger] key[k],
            ) by {
                lemma_value_for(found, wanted[k], 0);
                assert(wanted.contains(wanted[k]));
                assert(wanted.to_set().contains(wanted[k]));
                assert(columns.to_set().contains(wanted[k]));
                let j = choose|j: int| 0 <= j < columns.len() && columns[j] == wanted[k];
                assert(found[j].0 == wanted[k]);
            }
        },
        _ => {},
    }
}

} // verus!
