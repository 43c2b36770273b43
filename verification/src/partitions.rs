//! Partition definitions of `CREATE TABLE` and `ALTER TABLE`.
//!
//! Range partitions lie side by side: each begins where the one before it ends, bounds increase
//! strictly, and nothing follows `MAXVALUE`. No value belongs to two list partitions.

use crate::answers::Answers;
use crate::ast::{
    BoundListPartition, BoundPartitioning, BoundRangePartition, ListPartitionView,
    PartitioningView, RangePartitionView,
};
use crate::catalog::{
    AlterationView, CatalogSnapshot, DefinitionView, PartitionAlteration, PartitionDefinition,
    PartitionDescriptor, PartitioningMethod, TableDescriptor,
};
use crate::convert::{text_of_value, value_text, Rank};
use crate::lists::{
    has_index, has_name, has_value, insert_sorted, lemma_sorted, list_text, sorted, text_of_list,
};
use crate::literals::{column_literal, key_rank, parse_literal_value, rank_keys};
use crate::names::{column_is, first_at, position_exact};
use crate::sql::{SqlExpr, SqlNode};
use crate::statement::{LessThanBound, PartitionBy, PartitionDef, PartitionValues};
use crate::text::{cat2, cat3, cat4, cat5, owned, same_text};
use crate::value::{
    invalid, invalid_view, lemma_views_push, option_view, outcome, unsupported, unsupported_view,
    views, ColumnDef, ColumnView, ErrorView, HtapError, Value, ValueView,
};
use vstd::prelude::*;

verus! {

/// Where a partition definition stands; `Added` and `Target` hold the name of the table.
pub enum PlaceView {
    /// In `CREATE TABLE`.
    New,
    /// In `ADD PARTITION`.
    Added(Seq<char>),
    /// In `REORGANIZE PARTITION ... INTO`.
    Target(Seq<char>),
}

/// Where a partition definition stands; `Added` and `Target` hold the name of the table.
#[derive(Clone, Copy, Debug)]
pub enum Place<'a> {
    /// In `CREATE TABLE`.
    New,
    /// In `ADD PARTITION`.
    Added(&'a str),
    /// In `REORGANIZE PARTITION ... INTO`.
    Target(&'a str),
}

impl<'a> View for Place<'a> {
    type V = PlaceView;

    open spec fn view(&self) -> PlaceView {
        match self {
            Place::New => PlaceView::New,
            Place::Added(t) => PlaceView::Added(t@),
            Place::Target(t) => PlaceView::Target(t@),
        }
    }
}

/// Whether a partition name can be used besides those in use, and if not, why.
pub open spec fn name_check(place: PlaceView, names: Seq<Seq<char>>, name: Seq<char>) -> Result<
    (),
    ErrorView,
> {
    if name.len() == 0 {
        match place {
            PlaceView::Target(_) => invalid_view("target partition name cannot be empty"@),
            _ => invalid_view("partition name cannot be empty"@),
        }
    } else if names.contains(name) {
        match place {
            PlaceView::Target(_) => invalid_view(
                "duplicate target partition name '"@ + name + "'"@,
            ),
            _ => invalid_view("duplicate partition name '"@ + name + "'"@),
        }
    } else {
        Ok(())
    }
}

fn check_name(place: Place<'_>, names: &Vec<String>, name: &str) -> (r: Result<(), HtapError>)
    ensures
        outcome(r) == name_check(place@, views(names@), name@),
{
    if name.unicode_len() == 0 {
        return Err(
            invalid(
                match place {
                    Place::Target(_) => owned("target partition name cannot be empty"),
                    _ => owned("partition name cannot be empty"),
                },
            ),
        );
    }
    if has_name(names, name) {
        return Err(
            invalid(
                match place {
                    Place::Target(_) => cat3("duplicate target partition name '", name, "'"),
                    _ => cat3("duplicate partition name '", name, "'"),
                },
            ),
        );
    }
    Ok(())
}

/// The refusal of a list partition of a table that is partitioned by ranges.
pub open spec fn needs_less_than(place: PlaceView, name: Seq<char>) -> ErrorView {
    ErrorView::InvalidArgument(
        match place {
            PlaceView::New => "partition '"@ + name
                + "' in PARTITION BY RANGE must use VALUES LESS THAN"@,
            PlaceView::Added(t) => "partition '"@ + name + "' in table '"@ + t
                + "' with RANGE partitioning must use VALUES LESS THAN"@,
            PlaceView::Target(t) => "partition '"@ + name + "' in table '"@ + t
                + "' with RANGE partitioning must use VALUES LESS THAN"@,
        },
    )
}

fn needs_less_than_error(place: Place<'_>, name: &str) -> (r: HtapError)
    ensures
        r@ == needs_less_than(place@, name@),
{
    match place {
        Place::New => invalid(
            cat3("partition '", name, "' in PARTITION BY RANGE must use VALUES LESS THAN"),
        ),
        Place::Added(t) => invalid(
            cat5(
                "partition '",
                name,
                "' in table '",
                t,
                "' with RANGE partitioning must use VALUES LESS THAN",
            ),
        ),
        Place::Target(t) => invalid(
            cat5(
                "partition '",
                name,
                "' in table '",
                t,
                "' with RANGE partitioning must use VALUES LESS THAN",
            ),
        ),
    }
}

/// The refusal of a range partition of a table that is partitioned by lists.
pub open spec fn needs_in(place: PlaceView, name: Seq<char>) -> ErrorView {
    ErrorView::InvalidArgument(
        match place {
            PlaceView::New => "partition '"@ + name
                + "' in PARTITION BY LIST must use VALUES IN"@,
            PlaceView::Added(t) => "partition '"@ + name + "' in table '"@ + t
                + "' with LIST partitioning must use VALUES IN"@,
            PlaceView::Target(t) => "partition '"@ + name + "' in table '"@ + t
                + "' with LIST partitioning must use VALUES IN"@,
        },
    )
}

fn needs_in_error(place: Place<'_>, name: &str) -> (r: HtapError)
    ensures
        r@ == needs_in(place@, name@),
{
    match place {
        Place::New => invalid(
            cat3("partition '", name, "' in PARTITION BY LIST must use VALUES IN"),
        ),
        Place::Added(t) => invalid(
            cat5(
                "partition '",
                name,
                "' in table '",
                t,
                "' with LIST partitioning must use VALUES IN",
            ),
        ),
        Place::Target(t) => invalid(
            cat5(
                "partition '",
                name,
                "' in table '",
                t,
                "' with LIST partitioning must use VALUES IN",
            ),
        ),
    }
}

/// The refusal of a bound that is not above the one before it.
pub open spec fn not_increasing(v: ValueView, before: ValueView, answers: Answers) -> ErrorView {
    match value_text(v, answers) {
        Err(e) => e,
        Ok(a) => match value_text(before, answers) {
            Err(e) => e,
            Ok(b) => ErrorView::InvalidArgument(
                "VALUES LESS THAN value must be strictly increasing: "@ + a + " <= "@ + b,
            ),
        },
    }
}

fn not_increasing_error(v: &Value, before: &Value, answers: &Answers) -> (r: HtapError)
    ensures
        r@ == not_increasing(v@, before@, *answers),
{
    match text_of_value(v, answers) {
        Err(e) => e,
        Ok(a) => match text_of_value(before, answers) {
            Err(e) => e,
            Ok(b) => invalid(
                cat4(
                    "VALUES LESS THAN value must be strictly increasing: ",
                    a.as_str(),
                    " <= ",
                    b.as_str(),
                ),
            ),
        },
    }
}

/// The upper bound of a range partition, or its refusal.
pub open spec fn upper_bound(
    bound: LessThanBound,
    name: Seq<char>,
    key: ColumnView,
    lower: Option<ValueView>,
    answers: Answers,
) -> Result<Option<ValueView>, ErrorView> {
    match bound {
        LessThanBound::MaxValue => Ok(None),
        LessThanBound::Expr(e) => match column_literal(e, key) {
            Err(x) => Err(x),
            Ok(v) => if v is Null {
                invalid_view("range partition '"@ + name + "' bound cannot be NULL"@)
            } else {
                match lower {
                    Some(l) if key_rank(v, l) != Rank::Greater => Err(
                        not_increasing(v, l, answers),
                    ),
                    _ => Ok(Some(v)),
                }
            },
        },
    }
}

fn bind_upper_bound(
    bound: &LessThanBound,
    name: &str,
    key: &ColumnDef,
    lower: &Option<Value>,
    answers: &Answers,
) -> (r: Result<Option<Value>, HtapError>)
    ensures
        match r {
            Ok(u) => upper_bound(*bound, name@, key@, option_view(*lower), *answers) == Ok::<
                Option<ValueView>,
                ErrorView,
            >(option_view(u)),
            Err(e) => upper_bound(*bound, name@, key@, option_view(*lower), *answers) == Err::<
                Option<ValueView>,
                ErrorView,
            >(e@),
        },
{
    match bound {
        LessThanBound::MaxValue => Ok(None),
        LessThanBound::Expr(e) => {
            let v = match parse_literal_value(e, key) {
                Ok(v) => v,
                Err(x) => {
                    return Err(x);
                },
            };
            if v.is_null() {
                return Err(invalid(cat3("range partition '", name, "' bound cannot be NULL")));
            }
            match lower {
                Some(l) => {
                    if rank_keys(&v, l) != Rank::Greater {
                        return Err(not_increasing_error(&v, l, answers));
                    }
                },
                None => {},
            }
            Ok(Some(v))
        },
    }
}

/// The range partitions of the definitions from the `i`-th on, behind `acc`.
///
/// `names` are in use, the next partition begins at `lower`, and `closed` says that a partition
/// without an upper bound came before.
pub open spec fn range_partitions(
    defs: Seq<PartitionDef>,
    i: int,
    key: ColumnView,
    place: PlaceView,
    answers: Answers,
    names: Seq<Seq<char>>,
    lower: Option<ValueView>,
    closed: bool,
    acc: Seq<RangePartitionView>,
) -> Result<Seq<RangePartitionView>, ErrorView>
    decreases defs.len() - i,
{
    if i < 0 || i >= defs.len() {
        Ok(acc)
    } else {
        let name = defs[i].name@;
        match name_check(place, names, name) {
            Err(e) => Err(e),
            Ok(_) => if closed {
                invalid_view("partition '"@ + name + "' defined after MAXVALUE partition"@)
            } else {
                match defs[i].values {
                    PartitionValues::In(_) => Err(needs_less_than(place, name)),
                    PartitionValues::LessThan(bound) => match upper_bound(
                        bound,
                        name,
                        key,
                        lower,
                        answers,
                    ) {
                        Err(e) => Err(e),
                        Ok(upper) => range_partitions(
                            defs,
                            i + 1,
                            key,
                            place,
                            answers,
                            names.push(name),
                            upper,
                            upper is None,
                            acc.push(RangePartitionView { name, lower, upper }),
                        ),
                    },
                }
            },
        }
    }
}

pub(crate) fn copy_option(v: &Option<Value>) -> (r: Option<Value>)
    ensures
        option_view(r) == option_view(*v),
{
    match v {
        Some(x) => Some(x.copy()),
        None => None,
    }
}

fn bind_range_partitions(
    defs: &Vec<PartitionDef>,
    key: &ColumnDef,
    place: Place<'_>,
    answers: &Answers,
    used: Vec<String>,
    from: Option<Value>,
) -> (r: Result<Vec<BoundRangePartition>, HtapError>)
    ensures
        match r {
            Ok(v) => range_partitions(
                defs@,
                0,
                key@,
                place@,
                *answers,
                views(used@),
                option_view(from),
                false,
                Seq::empty(),
            ) == Ok::<Seq<RangePartitionView>, ErrorView>(views(v@)),
            Err(e) => range_partitions(
                defs@,
                0,
                key@,
                place@,
                *answers,
                views(used@),
                option_view(from),
                false,
                Seq::empty(),
            ) == Err::<Seq<RangePartitionView>, ErrorView>(e@),
        },
{
    let ghost model = range_partitions(
        defs@,
        0,
        key@,
        place@,
        *answers,
        views(used@),
        option_view(from),
        false,
        Seq::empty(),
    );
    let ghost used_names = views(used@);
    let ghost first_lower = option_view(from);
    let mut names = used;
    let mut lower = from;
    let mut closed = false;
    let mut out: Vec<BoundRangePartition> = Vec::new();
    let mut i: usize = 0;
    assert(views(out@) =~= Seq::empty());
    while i < defs.len()
        invariant
            i <= defs.len(),
            model == range_partitions(
                defs@,
                0,
                key@,
                place@,
                *answers,
                used_names,
                first_lower,
                false,
                Seq::empty(),
            ),
            used_names == views(used@),
            first_lower == option_view(from),
            model == range_partitions(
                defs@,
                i as int,
                key@,
                place@,
                *answers,
                views(names@),
                option_view(lower),
                closed,
                views(out@),
            ),
        decreases defs.len() - i,
    {
        let def = &defs[i];
        let name = def.name.as_str();
        match check_name(place, &names, name) {
            Ok(_) => {},
            Err(e) => {
                return Err(e);
            },
        }
        if closed {
            return Err(
                invalid(cat3("partition '", name, "' defined after MAXVALUE partition")),
            );
        }
        let bound = match &def.values {
            PartitionValues::LessThan(b) => b,
            PartitionValues::In(_) => {
                return Err(needs_less_than_error(place, name));
            },
        };
        let upper = match bind_upper_bound(bound, name, key, &lower, answers) {
            Ok(u) => u,
            Err(e) => {
                return Err(e);
            },
        };
        let part = BoundRangePartition {
            name: owned(name),
            lower: copy_option(&lower),
            upper: copy_option(&upper),
        };
        let copied = owned(name);
        proof {
            lemma_views_push(names@, copied);
            lemma_views_push(out@, part);
            assert(part@ == (RangePartitionView {
                name: name@,
                lower: option_view(lower),
                upper: option_view(upper),
            }));
        }
        names.push(copied);
        out.push(part);
        closed = upper.is_none();
        lower = upper;
        i = i + 1;
    }
    Ok(out)
}

/// The refusal of a value that a list partition holds twice.
pub open spec fn repeated_in_part(v: ValueView, name: Seq<char>, answers: Answers) -> ErrorView {
    match value_text(v, answers) {
        Err(e) => e,
        Ok(t) => ErrorView::InvalidArgument(
            "partition '"@ + name + "' contains duplicate list value '"@ + t + "'"@,
        ),
    }
}

/// The refusal of a value that another list partition holds.
pub open spec fn repeated_across(v: ValueView, name: Seq<char>, answers: Answers) -> ErrorView {
    match value_text(v, answers) {
        Err(e) => e,
        Ok(t) => ErrorView::InvalidArgument(
            "duplicate list value '"@ + t + "' across partitions (found in partition '"@ + name
                + "')"@,
        ),
    }
}

/// The values of a list partition from the `i`-th on, behind `part`; `seen` belong to others.
pub open spec fn list_values(
    exprs: Seq<SqlExpr>,
    i: int,
    key: ColumnView,
    name: Seq<char>,
    answers: Answers,
    seen: Seq<ValueView>,
    part: Seq<ValueView>,
) -> Result<Seq<ValueView>, ErrorView>
    decreases exprs.len() - i,
{
    if i < 0 || i >= exprs.len() {
        Ok(part)
    } else {
        match column_literal(exprs[i], key) {
            Err(e) => Err(e),
            Ok(v) => if v is Null {
                invalid_view("list partition '"@ + name + "' value cannot be NULL"@)
            } else if part.contains(v) {
                Err(repeated_in_part(v, name, answers))
            } else if seen.contains(v) {
                Err(repeated_across(v, name, answers))
            } else {
                list_values(exprs, i + 1, key, name, answers, seen, part.push(v))
            },
        }
    }
}

fn bind_list_values(
    exprs: &Vec<SqlExpr>,
    key: &ColumnDef,
    name: &str,
    answers: &Answers,
    seen: &Vec<Value>,
) -> (r: Result<Vec<Value>, HtapError>)
    ensures
        match r {
            Ok(v) => list_values(exprs@, 0, key@, name@, *answers, views(seen@), Seq::empty())
                == Ok::<Seq<ValueView>, ErrorView>(views(v@)),
            Err(e) => list_values(exprs@, 0, key@, name@, *answers, views(seen@), Seq::empty())
                == Err::<Seq<ValueView>, ErrorView>(e@),
        },
{
    let mut part: Vec<Value> = Vec::new();
    let mut i: usize = 0;
    assert(views(part@) =~= Seq::empty());
    while i < exprs.len()
        invariant
            i <= exprs.len(),
            list_values(exprs@, 0, key@, name@, *answers, views(seen@), Seq::empty())
                == list_values(
                exprs@,
                i as int,
                key@,
                name@,
                *answers,
                views(seen@),
                views(part@),
            ),
        decreases exprs.len() - i,
    {
        let v = match parse_literal_value(&exprs[i], key) {
            Ok(v) => v,
            Err(e) => {
                return Err(e);
            },
        };
        if v.is_null() {
            return Err(invalid(cat3("list partition '", name, "' value cannot be NULL")));
        }
        if has_value(&part, &v) {
            return Err(
                match text_of_value(&v, answers) {
                    Err(e) => e,
                    Ok(t) => invalid(
                        cat5(
                            "partition '",
                            name,
                            "' contains duplicate list value '",
                            t.as_str(),
                            "'",
                        ),
                    ),
                },
            );
        }
        if has_value(seen, &v) {
            return Err(
                match text_of_value(&v, answers) {
                    Err(e) => e,
                    Ok(t) => invalid(
                        cat5(
                            "duplicate list value '",
                            t.as_str(),
                            "' across partitions (found in partition '",
                            name,
                            "')",
                        ),
                    ),
                },
            );
        }
        proof {
            lemma_views_push(part@, v);
        }
        part.push(v);
        i = i + 1;
    }
    Ok(part)
}

/// The list partitions of the definitions from the `i`-th on, behind `acc`.
///
/// `names` are in use, and `seen` belong to other partitions.
pub open spec fn list_partitions(
    defs: Seq<PartitionDef>,
    i: int,
    key: ColumnView,
    place: PlaceView,
    answers: Answers,
    names: Seq<Seq<char>>,
    seen: Seq<ValueView>,
    acc: Seq<ListPartitionView>,
) -> Result<Seq<ListPartitionView>, ErrorView>
    decreases defs.len() - i,
{
    if i < 0 || i >= defs.len() {
        Ok(acc)
    } else {
        let name = defs[i].name@;
        match name_check(place, names, name) {
            Err(e) => Err(e),
            Ok(_) => match defs[i].values {
                PartitionValues::LessThan(_) => Err(needs_in(place, name)),
                PartitionValues::In(exprs) => if exprs@.len() == 0 {
                    invalid_view("partition '"@ + name + "' has empty VALUES IN list"@)
                } else {
                    match list_values(exprs@, 0, key, name, answers, seen, Seq::empty()) {
                        Err(e) => Err(e),
                        Ok(values) => list_partitions(
                            defs,
                            i + 1,
                            key,
                            place,
                            answers,
                            names.push(name),
                            seen + values,
                            acc.push(ListPartitionView { name, values }),
                        ),
                    }
                },
            },
        }
    }
}

fn append_copies(list: &mut Vec<Value>, more: &Vec<Value>)
    ensures
        views(final(list)@) == views(old(list)@) + views(more@),
{
    let ghost start = list@;
    let mut i: usize = 0;
    assert(views(list@) =~= views(start) + views(more@).take(0));
    while i < more.len()
        invariant
            i <= more.len(),
            views(list@) == views(start) + views(more@).take(i as int),
        decreases more.len() - i,
    {
        let v = more[i].copy();
        proof {
            lemma_views_push(list@, v);
            assert(views(more@).take(i + 1) =~= views(more@).take(i as int).push(v@));
            assert(views(start) + views(more@).take(i + 1) =~= (views(start) + views(more@).take(
                i as int,
            )).push(v@));
        }
        list.push(v);
        i = i + 1;
    }
    assert(views(more@).take(more.len() as int) =~= views(more@));
}

fn bind_list_partitions(
    defs: &Vec<PartitionDef>,
    key: &ColumnDef,
    place: Place<'_>,
    answers: &Answers,
    used: Vec<String>,
    taken: Vec<Value>,
) -> (r: Result<Vec<BoundListPartition>, HtapError>)
    ensures
        match r {
            Ok(v) => list_partitions(
                defs@,
                0,
                key@,
                place@,
                *answers,
                views(used@),
                views(taken@),
                Seq::empty(),
            ) == Ok::<Seq<ListPartitionView>, ErrorView>(views(v@)),
            Err(e) => list_partitions(
                defs@,
                0,
                key@,
                place@,
                *answers,
                views(used@),
                views(taken@),
                Seq::empty(),
            ) == Err::<Seq<ListPartitionView>, ErrorView>(e@),
        },
{
    let ghost model = list_partitions(
        defs@,
        0,
        key@,
        place@,
        *answers,
        views(used@),
        views(taken@),
        Seq::empty(),
    );
    let ghost used_names = views(used@);
    let ghost taken_values = views(taken@);
    let mut names = used;
    let mut seen = taken;
    let mut out: Vec<BoundListPartition> = Vec::new();
    let mut i: usize = 0;
    assert(views(out@) =~= Seq::empty());
    while i < defs.len()
        invariant
            i <= defs.len(),
            model == list_partitions(
                defs@,
                0,
                key@,
                place@,
                *answers,
                used_names,
                taken_values,
                Seq::empty(),
            ),
            used_names == views(used@),
            taken_values == views(taken@),
            model == list_partitions(
                defs@,
                i as int,
                key@,
                place@,
                *answers,
                views(names@),
                views(seen@),
                views(out@),
            ),
        decreases defs.len() - i,
    {
        let def = &defs[i];
        let name = def.name.as_str();
        match check_name(place, &names, name) {
            Ok(_) => {},
            Err(e) => {
                return Err(e);
            },
        }
        let exprs = match &def.values {
            PartitionValues::In(exprs) => exprs,
            PartitionValues::LessThan(_) => {
                return Err(needs_in_error(place, name));
            },
        };
        if exprs.len() == 0 {
            return Err(invalid(cat3("partition '", name, "' has empty VALUES IN list")));
        }
        let values = match bind_list_values(exprs, key, name, answers, &seen) {
            Ok(v) => v,
            Err(e) => {
                return Err(e);
            },
        };
        append_copies(&mut seen, &values);
        let part = BoundListPartition { name: owned(name), values };
        let copied = owned(name);
        proof {
            lemma_views_push(names@, copied);
            lemma_views_push(out@, part);
            assert(part@ == (ListPartitionView { name: name@, values: views(values@) }));
        }
        names.push(copied);
        out.push(part);
        i = i + 1;
    }
    Ok(out)
}

/// The name of the column that `PARTITION BY` names, or its refusal.
pub open spec fn key_name(columns: Option<Vec<String>>, expr: Option<SqlExpr>) -> Result<
    Seq<char>,
    ErrorView,
> {
    match columns {
        Some(cols) => if cols@.len() != 1 {
            unsupported_view("multi-column partitioning is not supported"@)
        } else {
            Ok(cols@[0]@)
        },
        None => match expr {
            Some(e) => match e.node {
                SqlNode::Identifier(s) => Ok(s@),
                _ => unsupported_view(
                    "expressions in PARTITION BY are not supported, only column identifiers"@,
                ),
            },
            None => invalid_view("PARTITION BY requires a column or expression"@),
        },
    }
}

/// The column that decides the partition, or its refusal.
pub open spec fn partition_key(
    columns: Option<Vec<String>>,
    expr: Option<SqlExpr>,
    schema: Seq<ColumnView>,
    primary_key: Seq<usize>,
) -> Result<usize, ErrorView> {
    match key_name(columns, expr) {
        Err(e) => Err(e),
        Ok(name) => match first_at(schema, column_is(name), 0) {
            None => invalid_view("partition key column '"@ + name + "' not found in schema"@),
            Some(i) => if !primary_key.contains(i as usize) {
                invalid_view(
                    "partition key column '"@ + name + "' must be part of the primary key"@,
                )
            } else if schema[i].nullable {
                invalid_view("partition key column '"@ + name + "' cannot be nullable"@)
            } else {
                Ok(i as usize)
            },
        },
    }
}

fn resolve_partition_key_column(
    columns: &Option<Vec<String>>,
    expr: &Option<SqlExpr>,
    schema: &Vec<ColumnDef>,
    primary_key: &Vec<usize>,
) -> (r: Result<usize, HtapError>)
    ensures
        match r {
            Ok(i) => i < schema@.len() && partition_key(
                *columns,
                *expr,
                views(schema@),
                primary_key@,
            ) == Ok::<usize, ErrorView>(i),
            Err(e) => partition_key(*columns, *expr, views(schema@), primary_key@) == Err::<
                usize,
                ErrorView,
            >(e@),
        },
{
    let name = match columns {
        Some(cols) => {
            if cols.len() != 1 {
                return Err(unsupported(owned("multi-column partitioning is not supported")));
            }
            cols[0].as_str()
        },
        None => match expr {
            Some(e) => match &e.node {
                SqlNode::Identifier(s) => s.as_str(),
                _ => {
                    return Err(
                        unsupported(
                            owned(
                                "expressions in PARTITION BY are not supported, only column identifiers",
                            ),
                        ),
                    );
                },
            },
            None => {
                return Err(invalid(owned("PARTITION BY requires a column or expression")));
            },
        },
    };
    match position_exact(schema, name) {
        None => Err(invalid(cat3("partition key column '", name, "' not found in schema"))),
        Some(i) => {
            if !has_index(primary_key, i) {
                return Err(
                    invalid(
                        cat3("partition key column '", name, "' must be part of the primary key"),
                    ),
                );
            }
            if schema[i].nullable {
                return Err(
                    invalid(cat3("partition key column '", name, "' cannot be nullable")),
                );
            }
            Ok(i)
        },
    }
}

/// The partitioning of a new table, or its refusal.
pub open spec fn partitioning_of(
    p: PartitionBy,
    schema: Seq<ColumnView>,
    primary_key: Seq<usize>,
    answers: Answers,
) -> Result<PartitioningView, ErrorView> {
    match partition_key(p.columns, p.expr, schema, primary_key) {
        Err(e) => Err(e),
        Ok(k) => match p.method {
            PartitioningMethod::Range => if p.partitions@.len() == 0 {
                invalid_view("PARTITION BY RANGE must define at least one partition"@)
            } else {
                match range_partitions(
                    p.partitions@,
                    0,
                    schema[k as int],
                    PlaceView::New,
                    answers,
                    Seq::empty(),
                    None,
                    false,
                    Seq::empty(),
                ) {
                    Err(e) => Err(e),
                    Ok(parts) => Ok(PartitioningView::Range { key_column: k, partitions: parts }),
                }
            },
            PartitioningMethod::List => if p.partitions@.len() == 0 {
                invalid_view("PARTITION BY LIST must define at least one partition"@)
            } else {
                match list_partitions(
                    p.partitions@,
                    0,
                    schema[k as int],
                    PlaceView::New,
                    answers,
                    Seq::empty(),
                    Seq::empty(),
                    Seq::empty(),
                ) {
                    Err(e) => Err(e),
                    Ok(parts) => Ok(PartitioningView::List { key_column: k, partitions: parts }),
                }
            },
        },
    }
}

/// Binds `PARTITION BY`.
pub(crate) fn bind_mysql_partitioning(
    p: &PartitionBy,
    schema: &Vec<ColumnDef>,
    primary_key: &Vec<usize>,
    answers: &Answers,
) -> (r: Result<BoundPartitioning, HtapError>)
    ensures
        outcome(r) == partitioning_of(*p, views(schema@), primary_key@, *answers),
{
    let key: usize = match resolve_partition_key_column(&p.columns, &p.expr, schema, primary_key) {
        Ok(k) => k,
        Err(e) => {
            return Err(e);
        },
    };
    let names: Vec<String> = Vec::new();
    assert(views(names@) =~= Seq::empty());
    assert(views(schema@)[key as int] == schema@[key as int]@);
    match p.method {
        PartitioningMethod::Range => {
            if p.partitions.len() == 0 {
                return Err(
                    invalid(owned("PARTITION BY RANGE must define at least one partition")),
                );
            }
            match bind_range_partitions(
                &p.partitions,
                &schema[key],
                Place::New,
                answers,
                names,
                None,
            ) {
                Ok(partitions) => Ok(BoundPartitioning::Range { key_column: key, partitions }),
                Err(e) => Err(e),
            }
        },
        PartitioningMethod::List => {
            if p.partitions.len() == 0 {
                return Err(
                    invalid(owned("PARTITION BY LIST must define at least one partition")),
                );
            }
            let taken: Vec<Value> = Vec::new();
            assert(views(taken@) =~= Seq::empty());
            match bind_list_partitions(
                &p.partitions,
                &schema[key],
                Place::New,
                answers,
                names,
                taken,
            ) {
                Ok(partitions) => Ok(BoundPartitioning::List { key_column: key, partitions }),
                Err(e) => Err(e),
            }
        },
    }
}

/// The names of a table's partitions from the `i`-th on, without those of `except`, behind `acc`.
pub open spec fn names_in_use(
    t: TableDescriptor,
    catalog: CatalogSnapshot,
    except: Seq<Seq<char>>,
    i: int,
    acc: Seq<Seq<char>>,
) -> Seq<Seq<char>>
    decreases t.partitions@.len() - i,
{
    if i < 0 || i >= t.partitions@.len() {
        acc
    } else {
        match catalog.partition_of(t.partitions@[i]) {
            Some(p) if !except.contains(p.name@) => names_in_use(
                t,
                catalog,
                except,
                i + 1,
                acc.push(p.name@),
            ),
            _ => names_in_use(t, catalog, except, i + 1, acc),
        }
    }
}

fn collect_names(t: &TableDescriptor, catalog: &CatalogSnapshot, except: &Vec<String>) -> (r: Vec<
    String,
>)
    ensures
        views(r@) == names_in_use(*t, *catalog, views(except@), 0, Seq::empty()),
{
    let mut out: Vec<String> = Vec::new();
    let mut i: usize = 0;
    assert(views(out@) =~= Seq::empty());
    while i < t.partitions.len()
        invariant
            i <= t.partitions.len(),
            names_in_use(*t, *catalog, views(except@), 0, Seq::empty()) == names_in_use(
                *t,
                *catalog,
                views(except@),
                i as int,
                views(out@),
            ),
        decreases t.partitions.len() - i,
    {
        match catalog.partition(t.partitions[i]) {
            Some(p) => {
                if !has_name(except, p.name.as_str()) {
                    let name = p.name.clone();
                    proof {
                        lemma_views_push(out@, name);
                    }
                    out.push(name);
                }
            },
            None => {},
        }
        i = i + 1;
    }
    out
}

/// The list values of a table's partitions from the `i`-th on, without those of the partitions
/// named in `except`, behind `acc`.
pub open spec fn values_in_use(
    t: TableDescriptor,
    catalog: CatalogSnapshot,
    except: Seq<Seq<char>>,
    i: int,
    acc: Seq<ValueView>,
) -> Seq<ValueView>
    decreases t.partitions@.len() - i,
{
    if i < 0 || i >= t.partitions@.len() {
        acc
    } else {
        match catalog.partition_of(t.partitions@[i]) {
            Some(p) if !except.contains(p.name@) => values_in_use(
                t,
                catalog,
                except,
                i + 1,
                acc + views(p.list_values@),
            ),
            _ => values_in_use(t, catalog, except, i + 1, acc),
        }
    }
}

fn collect_values(t: &TableDescriptor, catalog: &CatalogSnapshot, except: &Vec<String>) -> (r: Vec<
    Value,
>)
    ensures
        views(r@) == values_in_use(*t, *catalog, views(except@), 0, Seq::empty()),
{
    let mut out: Vec<Value> = Vec::new();
    let mut i: usize = 0;
    assert(views(out@) =~= Seq::empty());
    while i < t.partitions.len()
        invariant
            i <= t.partitions.len(),
            values_in_use(*t, *catalog, views(except@), 0, Seq::empty()) == values_in_use(
                *t,
                *catalog,
                views(except@),
                i as int,
                views(out@),
            ),
        decreases t.partitions.len() - i,
    {
        match catalog.partition(t.partitions[i]) {
            Some(p) => {
                if !has_name(except, p.name.as_str()) {
                    append_copies(&mut out, &p.list_values);
                }
            },
            None => {},
        }
        i = i + 1;
    }
    out
}

/// The greatest upper bound of a table's range partitions from the `i`-th on and of `top`, and
/// whether one of them has none, or `open` says so.
pub open spec fn ranges_end(
    t: TableDescriptor,
    catalog: CatalogSnapshot,
    i: int,
    top: Option<ValueView>,
    open: bool,
) -> (Option<ValueView>, bool)
    decreases t.partitions@.len() - i,
{
    if i < 0 || i >= t.partitions@.len() {
        (top, open)
    } else {
        match catalog.partition_of(t.partitions@[i]) {
            Some(p) => match p.range {
                Some(range) => match range.upper {
                    None => ranges_end(t, catalog, i + 1, top, true),
                    Some(u) => match top {
                        Some(cur) if key_rank(u@, cur) != Rank::Greater => ranges_end(
                            t,
                            catalog,
                            i + 1,
                            top,
                            open,
                        ),
                        _ => ranges_end(t, catalog, i + 1, Some(u@), open),
                    },
                },
                None => ranges_end(t, catalog, i + 1, top, open),
            },
            None => ranges_end(t, catalog, i + 1, top, open),
        }
    }
}

fn find_ranges_end(t: &TableDescriptor, catalog: &CatalogSnapshot) -> (r: (Option<Value>, bool))
    ensures
        (option_view(r.0), r.1) == ranges_end(*t, *catalog, 0, None, false),
{
    let mut top: Option<Value> = None;
    let mut open = false;
    let mut i: usize = 0;
    while i < t.partitions.len()
        invariant
            i <= t.partitions.len(),
            ranges_end(*t, *catalog, 0, None, false) == ranges_end(
                *t,
                *catalog,
                i as int,
                option_view(top),
                open,
            ),
        decreases t.partitions.len() - i,
    {
        match catalog.partition(t.partitions[i]) {
            Some(p) => match &p.range {
                Some(range) => match &range.upper {
                    None => {
                        open = true;
                    },
                    Some(u) => {
                        let higher = match &top {
                            Some(cur) => rank_keys(u, cur) == Rank::Greater,
                            None => true,
                        };
                        if higher {
                            top = Some(u.copy());
                        }
                    },
                },
                None => {},
            },
            None => {},
        }
        i = i + 1;
    }
    (top, open)
}

/// Range partitions to be made.
pub open spec fn range_definitions(parts: Seq<RangePartitionView>) -> Seq<DefinitionView> {
    Seq::new(
        parts.len(),
        |i: int|
            DefinitionView::Range {
                name: parts[i].name,
                lower: parts[i].lower,
                upper: parts[i].upper,
            },
    )
}

/// List partitions to be made.
pub open spec fn list_definitions(parts: Seq<ListPartitionView>) -> Seq<DefinitionView> {
    Seq::new(
        parts.len(),
        |i: int| DefinitionView::List { name: parts[i].name, values: parts[i].values },
    )
}

fn define_ranges(parts: &Vec<BoundRangePartition>) -> (r: Vec<PartitionDefinition>)
    ensures
        views(r@) == range_definitions(views(parts@)),
{
    let mut out: Vec<PartitionDefinition> = Vec::new();
    let mut i: usize = 0;
    while i < parts.len()
        invariant
            i <= parts.len(),
            out@.len() == i,
            forall|k: int|
                0 <= k < i ==> (#[trigger] out@[k])@ == range_definitions(views(parts@))[k],
        decreases parts.len() - i,
    {
        let p = &parts[i];
        out.push(
            PartitionDefinition::Range {
                name: p.name.clone(),
                lower: copy_option(&p.lower),
                upper: copy_option(&p.upper),
            },
        );
        i = i + 1;
    }
    assert(views(out@) =~= range_definitions(views(parts@)));
    out
}

fn define_lists(parts: &Vec<BoundListPartition>) -> (r: Vec<PartitionDefinition>)
    ensures
        views(r@) == list_definitions(views(parts@)),
{
    let mut out: Vec<PartitionDefinition> = Vec::new();
    let mut i: usize = 0;
    while i < parts.len()
        invariant
            i <= parts.len(),
            out@.len() == i,
            forall|k: int|
                0 <= k < i ==> (#[trigger] out@[k])@ == list_definitions(views(parts@))[k],
        decreases parts.len() - i,
    {
        let p = &parts[i];
        let mut values: Vec<Value> = Vec::new();
        append_copies(&mut values, &p.values);
        assert(views(values@) =~= views(p.values@));
        out.push(PartitionDefinition::List { name: p.name.clone(), values });
        i = i + 1;
    }
    assert(views(out@) =~= list_definitions(views(parts@)));
    out
}

/// The refusal of a change of partitions that a table does not have.
pub open spec fn not_partitioned<T>(name: Seq<char>) -> Result<T, ErrorView> {
    invalid_view("table '"@ + name + "' is not partitioned"@)
}

fn not_partitioned_error(name: &str) -> (r: HtapError)
    ensures
        not_partitioned::<AlterationView>(name@) == Err::<AlterationView, ErrorView>(r@),
{
    invalid(cat3("table '", name, "' is not partitioned"))
}

/// What `ADD PARTITION` does to a table, or its refusal.
pub open spec fn addition_of(
    defs: Seq<PartitionDef>,
    t: TableDescriptor,
    catalog: CatalogSnapshot,
    answers: Answers,
) -> Result<AlterationView, ErrorView> {
    match t.partitioning {
        None => not_partitioned(t.name@),
        Some(p) => if defs.len() == 0 {
            invalid_view("ADD PARTITION requires at least one partition definition"@)
        } else {
            let key = t.schema.columns@[p.key_column as int]@;
            let names = names_in_use(t, catalog, Seq::empty(), 0, Seq::empty());
            match p.method {
                PartitioningMethod::Range => {
                    let end = ranges_end(t, catalog, 0, None, false);
                    if end.1 {
                        invalid_view(
                            "cannot add partition to table '"@ + t.name@
                                + "': a MAXVALUE partition already exists"@,
                        )
                    } else {
                        match range_partitions(
                            defs,
                            0,
                            key,
                            PlaceView::Added(t.name@),
                            answers,
                            names,
                            end.0,
                            false,
                            Seq::empty(),
                        ) {
                            Err(e) => Err(e),
                            Ok(parts) => Ok(AlterationView::Add(range_definitions(parts))),
                        }
                    }
                },
                PartitioningMethod::List => match list_partitions(
                    defs,
                    0,
                    key,
                    PlaceView::Added(t.name@),
                    answers,
                    names,
                    values_in_use(t, catalog, Seq::empty(), 0, Seq::empty()),
                    Seq::empty(),
                ) {
                    Err(e) => Err(e),
                    Ok(parts) => Ok(AlterationView::Add(list_definitions(parts))),
                },
            }
        },
    }
}

/// Binds `ADD PARTITION`.
pub(crate) fn bind_alter_add_partition(
    defs: &Vec<PartitionDef>,
    t: &TableDescriptor,
    catalog: &CatalogSnapshot,
    answers: &Answers,
) -> (r: Result<PartitionAlteration, HtapError>)
    requires
        t.partition_key_exists(),
    ensures
        outcome(r) == addition_of(defs@, *t, *catalog, *answers),
{
    let partitioning = match t.partitioning {
        Some(p) => p,
        None => {
            return Err(not_partitioned_error(t.name.as_str()));
        },
    };
    if defs.len() == 0 {
        return Err(invalid(owned("ADD PARTITION requires at least one partition definition")));
    }
    let key = &t.schema.columns[partitioning.key_column];
    let nothing: Vec<String> = Vec::new();
    assert(views(nothing@) =~= Seq::empty());
    let names = collect_names(t, catalog, &nothing);
    match partitioning.method {
        PartitioningMethod::Range => {
            let (top, open) = find_ranges_end(t, catalog);
            if open {
                return Err(
                    invalid(
                        cat3(
                            "cannot add partition to table '",
                            t.name.as_str(),
                            "': a MAXVALUE partition already exists",
                        ),
                    ),
                );
            }
            match bind_range_partitions(
                defs,
                key,
                Place::Added(t.name.as_str()),
                answers,
                names,
                top,
            ) {
                Ok(parts) => Ok(PartitionAlteration::Add { partitions: define_ranges(&parts) }),
                Err(e) => Err(e),
            }
        },
        PartitioningMethod::List => {
            let taken = collect_values(t, catalog, &nothing);
            match bind_list_partitions(
                defs,
                key,
                Place::Added(t.name.as_str()),
                answers,
                names,
                taken,
            ) {
                Ok(parts) => Ok(PartitionAlteration::Add { partitions: define_lists(&parts) }),
                Err(e) => Err(e),
            }
        },
    }
}

/// The names from the `i`-th on behind `acc`, or the refusal of an empty or repeated one.
pub open spec fn distinct_names(
    list: Seq<String>,
    i: int,
    what: Seq<char>,
    clause: Seq<char>,
    acc: Seq<Seq<char>>,
) -> Result<Seq<Seq<char>>, ErrorView>
    decreases list.len() - i,
{
    if i < 0 || i >= list.len() {
        Ok(acc)
    } else if list[i]@.len() == 0 {
        invalid_view(what + " name cannot be empty"@)
    } else if acc.contains(list[i]@) {
        invalid_view("duplicate "@ + what + " name '"@ + list[i]@ + "' in "@ + clause)
    } else {
        distinct_names(list, i + 1, what, clause, acc.push(list[i]@))
    }
}

fn check_distinct_names(list: &Vec<String>, what: &str, clause: &str) -> (r: Result<
    Vec<String>,
    HtapError,
>)
    ensures
        match r {
            Ok(v) => distinct_names(list@, 0, what@, clause@, Seq::empty()) == Ok::<
                Seq<Seq<char>>,
                ErrorView,
            >(views(v@)) && v@.len() == list@.len(),
            Err(e) => distinct_names(list@, 0, what@, clause@, Seq::empty()) == Err::<
                Seq<Seq<char>>,
                ErrorView,
            >(e@),
        },
{
    let mut out: Vec<String> = Vec::new();
    let mut i: usize = 0;
    assert(views(out@) =~= Seq::empty());
    while i < list.len()
        invariant
            i <= list.len(),
            out@.len() == i,
            distinct_names(list@, 0, what@, clause@, Seq::empty()) == distinct_names(
                list@,
                i as int,
                what@,
                clause@,
                views(out@),
            ),
        decreases list.len() - i,
    {
        let name = list[i].as_str();
        if name.unicode_len() == 0 {
            return Err(invalid(cat2(what, " name cannot be empty")));
        }
        if has_name(&out, name) {
            let head = cat5("duplicate ", what, " name '", name, "' in ");
            return Err(invalid(cat2(head.as_str(), clause)));
        }
        let copied = owned(name);
        proof {
            lemma_views_push(out@, copied);
        }
        out.push(copied);
        i = i + 1;
    }
    Ok(out)
}

/// What `DROP PARTITION` does to a table, or its refusal.
pub open spec fn removal_of(names: Seq<String>, t: TableDescriptor) -> Result<
    AlterationView,
    ErrorView,
> {
    match t.partitioning {
        None => not_partitioned(t.name@),
        Some(_) => if names.len() == 0 {
            invalid_view("DROP PARTITION requires at least one partition name"@)
        } else {
            match distinct_names(names, 0, "partition"@, "DROP PARTITION"@, Seq::empty()) {
                Err(e) => Err(e),
                Ok(list) => Ok(AlterationView::Drop(list)),
            }
        },
    }
}

/// Binds `DROP PARTITION`.
pub(crate) fn bind_alter_drop_partition(names: &Vec<String>, t: &TableDescriptor) -> (r: Result<
    PartitionAlteration,
    HtapError,
>)
    ensures
        outcome(r) == removal_of(names@, *t),
{
    if t.partitioning.is_none() {
        return Err(not_partitioned_error(t.name.as_str()));
    }
    if names.len() == 0 {
        return Err(invalid(owned("DROP PARTITION requires at least one partition name")));
    }
    match check_distinct_names(names, "partition", "DROP PARTITION") {
        Ok(partitions) => Ok(PartitionAlteration::Drop { partitions }),
        Err(e) => Err(e),
    }
}

/// The position from the `i`-th on of the partition with a name.
pub open spec fn partition_position(
    t: TableDescriptor,
    catalog: CatalogSnapshot,
    name: Seq<char>,
    i: int,
) -> Option<int>
    decreases t.partitions@.len() - i,
{
    if i < 0 || i >= t.partitions@.len() {
        None
    } else {
        match catalog.partition_of(t.partitions@[i]) {
            Some(p) if p.name@ == name => Some(i),
            _ => partition_position(t, catalog, name, i + 1),
        }
    }
}

fn find_partition(t: &TableDescriptor, catalog: &CatalogSnapshot, name: &str) -> (r: Option<usize>)
    ensures
        match r {
            Some(i) => i < t.partitions@.len() && partition_position(*t, *catalog, name@, 0)
                == Some(i as int) && catalog.partition_of(t.partitions@[i as int]) is Some,
            None => partition_position(*t, *catalog, name@, 0) is None,
        },
{
    let mut i: usize = 0;
    while i < t.partitions.len()
        invariant
            i <= t.partitions.len(),
            partition_position(*t, *catalog, name@, 0) == partition_position(
                *t,
                *catalog,
                name@,
                i as int,
            ),
        decreases t.partitions.len() - i,
    {
        match catalog.partition(t.partitions[i]) {
            Some(p) => {
                if same_text(p.name.as_str(), name) {
                    return Some(i);
                }
            },
            None => {},
        }
        i = i + 1;
    }
    None
}

/// The positions of the named partitions from the `i`-th on behind `acc`, or the refusal of one
/// that does not exist.
pub open spec fn source_positions(
    t: TableDescriptor,
    catalog: CatalogSnapshot,
    names: Seq<Seq<char>>,
    i: int,
    acc: Seq<usize>,
) -> Result<Seq<usize>, ErrorView>
    decreases names.len() - i,
{
    if i < 0 || i >= names.len() {
        Ok(acc)
    } else {
        match partition_position(t, catalog, names[i], 0) {
            None => Err(
                ErrorView::NotFound(
                    "source partition '"@ + names[i] + "' not found in table '"@ + t.name@ + "'"@,
                ),
            ),
            Some(p) => source_positions(t, catalog, names, i + 1, acc.push(p as usize)),
        }
    }
}

fn find_sources(t: &TableDescriptor, catalog: &CatalogSnapshot, names: &Vec<String>) -> (r: Result<
    Vec<usize>,
    HtapError,
>)
    ensures
        match r {
            Ok(v) => exists|all: Seq<usize>| #[trigger]
                sorted(all) == v@ && source_positions(
                    *t,
                    *catalog,
                    views(names@),
                    0,
                    Seq::empty(),
                ) == Ok::<Seq<usize>, ErrorView>(all) && all.len() == names@.len() && forall|k: int|
                    0 <= k < v@.len() ==> (#[trigger] v@[k]) < t.partitions@.len()
                        && catalog.partition_of(t.partitions@[v@[k] as int]) is Some,
            Err(e) => source_positions(*t, *catalog, views(names@), 0, Seq::empty()) == Err::<
                Seq<usize>,
                ErrorView,
            >(e@),
        },
{
    let ghost model = source_positions(*t, *catalog, views(names@), 0, Seq::empty());
    let mut out: Vec<usize> = Vec::new();
    let ghost mut all: Seq<usize> = Seq::empty();
    let mut i: usize = 0;
    assert(sorted(all) =~= out@);
    while i < names.len()
        invariant
            i <= names.len(),
            all.len() == i,
            out@ == sorted(all),
            model == source_positions(*t, *catalog, views(names@), 0, Seq::empty()),
            model == source_positions(*t, *catalog, views(names@), i as int, all),
            forall|k: int|
                0 <= k < all.len() ==> (#[trigger] all[k]) < t.partitions@.len()
                    && catalog.partition_of(t.partitions@[all[k] as int]) is Some,
        decreases names.len() - i,
    {
        match find_partition(t, catalog, names[i].as_str()) {
            None => {
                return Err(
                    HtapError::NotFound(
                        cat5(
                            "source partition '",
                            names[i].as_str(),
                            "' not found in table '",
                            t.name.as_str(),
                            "'",
                        ),
                    ),
                );
            },
            Some(p) => {
                proof {
                    let next = all.push(p);
                    assert(next.drop_last() =~= all);
                    all = next;
                }
                out = insert_sorted(out, p);
            },
        }
        i = i + 1;
    }
    proof {
        lemma_sorted(all);
        assert forall|k: int| 0 <= k < out@.len() implies (#[trigger] out@[k]) < t.partitions@.len()
            && catalog.partition_of(t.partitions@[out@[k] as int]) is Some by {
            assert(all.contains(sorted(all)[k]));
        }
    }
    Ok(out)
}

/// The lower bound of a range partition.
pub open spec fn lower_of(p: PartitionDescriptor) -> Option<ValueView> {
    match p.range {
        Some(range) => option_view(range.lower),
        None => None,
    }
}

/// What `REORGANIZE PARTITION` does to a table, or its refusal.
pub open spec fn reorganization_of(
    sources: Seq<String>,
    targets: Seq<PartitionDef>,
    t: TableDescriptor,
    catalog: CatalogSnapshot,
    answers: Answers,
) -> Result<AlterationView, ErrorView> {
    match t.partitioning {
        None => not_partitioned(t.name@),
        Some(p) => if sources.len() == 0 {
            invalid_view("REORGANIZE PARTITION requires at least one source partition"@)
        } else if targets.len() == 0 {
            invalid_view("REORGANIZE PARTITION requires at least one target partition definition"@)
        } else {
            match distinct_names(
                sources,
                0,
                "source partition"@,
                "REORGANIZE PARTITION"@,
                Seq::empty(),
            ) {
                Err(e) => Err(e),
                Ok(names) => match source_positions(t, catalog, names, 0, Seq::empty()) {
                    Err(e) => Err(e),
                    Ok(all) => {
                        let positions = sorted(all);
                        if positions.last() - positions[0] + 1 != positions.len() {
                            invalid_view(
                                "reorganize partition sources must be contiguous in table '"@
                                    + t.name@ + "', got non-contiguous positions "@ + list_text(
                                    positions,
                                ),
                            )
                        } else {
                            reorganized(p.method, names, positions, targets, t, catalog, answers)
                        }
                    },
                },
            }
        },
    }
}

/// What `REORGANIZE PARTITION` does with contiguous sources, or its refusal.
pub open spec fn reorganized(
    method: PartitioningMethod,
    names: Seq<Seq<char>>,
    positions: Seq<usize>,
    targets: Seq<PartitionDef>,
    t: TableDescriptor,
    catalog: CatalogSnapshot,
    answers: Answers,
) -> Result<AlterationView, ErrorView> {
    let key = t.schema.columns@[t.partitioning->0.key_column as int]@;
    let used = names_in_use(t, catalog, names, 0, Seq::empty());
    match method {
        PartitioningMethod::Range => match range_partitions(
            targets,
            0,
            key,
            PlaceView::Target(t.name@),
            answers,
            used,
            lower_of(catalog.partition_of(t.partitions@[positions[0] as int])->0),
            false,
            Seq::empty(),
        ) {
            Err(e) => Err(e),
            Ok(parts) => Ok(
                AlterationView::Reorganize { sources: names, targets: range_definitions(parts) },
            ),
        },
        PartitioningMethod::List => match list_partitions(
            targets,
            0,
            key,
            PlaceView::Target(t.name@),
            answers,
            used,
            values_in_use(t, catalog, names, 0, Seq::empty()),
            Seq::empty(),
        ) {
            Err(e) => Err(e),
            Ok(parts) => Ok(
                AlterationView::Reorganize { sources: names, targets: list_definitions(parts) },
            ),
        },
    }
}

/// Binds `REORGANIZE PARTITION`.
pub(crate) fn bind_alter_reorganize_partition(
    sources: &Vec<String>,
    targets: &Vec<PartitionDef>,
    t: &TableDescriptor,
    catalog: &CatalogSnapshot,
    answers: &Answers,
) -> (r: Result<PartitionAlteration, HtapError>)
    requires
        t.partition_key_exists(),
    ensures
        outcome(r) == reorganization_of(sources@, targets@, *t, *catalog, *answers),
{
    let partitioning = match t.partitioning {
        Some(p) => p,
        None => {
            return Err(not_partitioned_error(t.name.as_str()));
        },
    };
    if sources.len() == 0 {
        return Err(invalid(owned("REORGANIZE PARTITION requires at least one source partition")));
    }
    if targets.len() == 0 {
        return Err(
            invalid(
                owned("REORGANIZE PARTITION requires at least one target partition definition"),
            ),
        );
    }
    let key = &t.schema.columns[partitioning.key_column];
    let names = match check_distinct_names(sources, "source partition", "REORGANIZE PARTITION") {
        Ok(n) => n,
        Err(e) => {
            return Err(e);
        },
    };
    let positions = match find_sources(t, catalog, &names) {
        Ok(p) => p,
        Err(e) => {
            return Err(e);
        },
    };
    let ghost all = choose|all: Seq<usize>| #[trigger]
        sorted(all) == positions@ && source_positions(
            *t,
            *catalog,
            views(names@),
            0,
            Seq::empty(),
        ) == Ok::<Seq<usize>, ErrorView>(all) && all.len() == names@.len() && forall|k: int|
            0 <= k < positions@.len() ==> (#[trigger] positions@[k]) < t.partitions@.len()
                && catalog.partition_of(t.partitions@[positions@[k] as int]) is Some;
    proof {
        lemma_sorted(all);
    }
    let first: usize = positions[0];
    let last: usize = positions[positions.len() - 1];
    assert(sorted(all)[0] <= sorted(all)[all.len() - 1]);
    if last - first != positions.len() - 1 {
        let shown = text_of_list(&positions);
        return Err(
            invalid(
                cat4(
                    "reorganize partition sources must be contiguous in table '",
                    t.name.as_str(),
                    "', got non-contiguous positions ",
                    shown.as_str(),
                ),
            ),
        );
    }
    let used = collect_names(t, catalog, &names);
    match partitioning.method {
        PartitioningMethod::Range => {
            let lower = match catalog.partition(t.partitions[first]) {
                Some(p) => match &p.range {
                    Some(range) => copy_option(&range.lower),
                    None => None,
                },
                None => None,
            };
            match bind_range_partitions(
                targets,
                key,
                Place::Target(t.name.as_str()),
                answers,
                used,
                lower,
            ) {
                Ok(parts) => Ok(
                    PartitionAlteration::Reorganize {
                        sources: names,
                        targets: define_ranges(&parts),
                    },
                ),
                Err(e) => Err(e),
            }
        },
        PartitioningMethod::List => {
            let taken = collect_values(t, catalog, &names);
            match bind_list_partitions(
                targets,
                key,
                Place::Target(t.name.as_str()),
                answers,
                used,
                taken,
            ) {
                Ok(parts) => Ok(
                    PartitionAlteration::Reorganize {
                        sources: names,
                        targets: define_lists(&parts),
                    },
                ),
                Err(e) => Err(e),
            }
        },
    }
}

/// Whether range partitions lie side by side from `from` on: each begins where the one before it
/// ends, only the last may be without an upper bound, and every upper bound is above the lower.
pub open spec fn side_by_side(parts: Seq<RangePartitionView>, from: Option<ValueView>) -> bool {
    &&& parts.len() > 0 ==> parts[0].lower == from
    &&& forall|i: int|
        0 < i < parts.len() ==> (#[trigger] parts[i]).lower == parts[i - 1].upper
            && parts[i].lower is Some
    &&& forall|i: int|
        0 <= i < parts.len() ==> match ((#[trigger] parts[i]).lower, parts[i].upper) {
            (Some(l), Some(u)) => key_rank(u, l) == Rank::Greater,
            _ => true,
        }
}

proof fn lemma_side_by_side(
    defs: Seq<PartitionDef>,
    i: int,
    key: ColumnView,
    place: PlaceView,
    answers: Answers,
    names: Seq<Seq<char>>,
    lower: Option<ValueView>,
    closed: bool,
    acc: Seq<RangePartitionView>,
    from: Option<ValueView>,
)
    requires
        0 <= i,
        side_by_side(acc, from),
        acc.len() == 0 ==> lower == from && !closed,
        acc.len() > 0 ==> lower == acc.last().upper && closed == (lower is None),
        forall|k: int| 0 <= k < acc.len() ==> names.contains(#[trigger] acc[k].name),
        forall|j: int, k: int| 0 <= j < k < acc.len() ==> acc[j].name != acc[k].name,
    ensures
        range_partitions(defs, i, key, place, answers, names, lower, closed, acc) matches Ok(parts)
            ==> {
            &&& side_by_side(parts, from)
            &&& parts.len() == acc.len() + (if i < defs.len() {
                defs.len() - i
            } else {
                0
            })
            &&& forall|j: int, k: int| 0 <= j < k < parts.len() ==> parts[j].name != parts[k].name
            &&& forall|k: int|
                acc.len() <= k < parts.len() ==> !names.contains(#[trigger] parts[k].name)
            &&& forall|k: int| 0 <= k < acc.len() ==> parts[k] == acc[k]
        },
    decreases defs.len() - i,
{
    if i < defs.len() {
        let name = defs[i].name@;
        match defs[i].values {
            PartitionValues::LessThan(bound) => {
                if name_check(place, names, name) is Ok && !closed {
                    match upper_bound(bound, name, key, lower, answers) {
                        Ok(upper) => {
                            let next = acc.push(RangePartitionView { name, lower, upper });
                            let more = names.push(name);
                            assert forall|k: int| 0 <= k < next.len() implies more.contains(
                                #[trigger] next[k].name,
                            ) by {
                                if k < acc.len() {
                                    let m = choose|m: int| 0 <= m < names.len() && names[m] == acc[k].name;
                                    assert(more[m] == acc[k].name);
                                } else {
                                    assert(more[names.len() as int] == name);
                                }
                            }
                            lemma_side_by_side(
                                defs,
                                i + 1,
                                key,
                                place,
                                answers,
                                more,
                                upper,
                                upper is None,
                                next,
                                from,
                            );
                            match range_partitions(
                                defs,
                                i + 1,
                                key,
                                place,
                                answers,
                                more,
                                upper,
                                upper is None,
                                next,
                            ) {
                                Ok(parts) => {
                                    assert(parts[acc.len() as int] == next[acc.len() as int]);
                                    assert forall|k: int|
                                        acc.len() <= k < parts.len() implies !names.contains(
                                        #[trigger] parts[k].name,
                                    ) by {
                                        if names.contains(parts[k].name) {
                                            let m = choose|m: int|
                                                0 <= m < names.len() && names[m] == parts[k].name;
                                            assert(more[m] == parts[k].name);
                                        }
                                    }
                                    assert forall|k: int| 0 <= k < acc.len() implies parts[k]
                                        == acc[k] by {
                                        assert(parts[k] == next[k]);
                                    }
                                },
                                Err(_) => {},
                            }
                        },
                        Err(_) => {},
                    }
                }
            },
            PartitionValues::In(_) => {},
        }
    }
}

/// Range partitions lie side by side: one for each definition, each beginning where the one
/// before it ends, with strictly increasing bounds and nothing behind `MAXVALUE`; their names are
/// distinct and were not in use.
pub proof fn range_partitions_lie_side_by_side(
    defs: Seq<PartitionDef>,
    key: ColumnView,
    place: PlaceView,
    answers: Answers,
    names: Seq<Seq<char>>,
    from: Option<ValueView>,
)
    ensures
        range_partitions(defs, 0, key, place, answers, names, from, false, Seq::empty()) matches Ok(
            parts,
        ) ==> {
            &&& parts.len() == defs.len()
            &&& side_by_side(parts, from)
            &&& forall|j: int, k: int| 0 <= j < k < parts.len() ==> parts[j].name != parts[k].name
            &&& forall|k: int| 0 <= k < parts.len() ==> !names.contains(#[trigger] parts[k].name)
        },
{
    lemma_side_by_side(defs, 0, key, place, answers, names, from, false, Seq::empty(), from);
}

proof fn lemma_list_values(
    exprs: Seq<SqlExpr>,
    i: int,
    key: ColumnView,
    name: Seq<char>,
    answers: Answers,
    seen: Seq<ValueView>,
    part: Seq<ValueView>,
)
    requires
        0 <= i,
        part.no_duplicates(),
        forall|k: int| 0 <= k < part.len() ==> !seen.contains(#[trigger] part[k]),
    ensures
        list_values(exprs, i, key, name, answers, seen, part) matches Ok(values) ==> {
            &&& values.no_duplicates()
            &&& forall|k: int| 0 <= k < values.len() ==> !seen.contains(#[trigger] values[k])
        },
    decreases exprs.len() - i,
{
    if i < exprs.len() {
        match column_literal(exprs[i], key) {
            Ok(v) => {
                if !(v is Null) && !part.contains(v) && !seen.contains(v) {
                    lemma_list_values(exprs, i + 1, key, name, answers, seen, part.push(v));
                }
            },
            Err(_) => {},
        }
    }
}

/// Whether no value occurs twice in list partitions.
pub open spec fn disjoint(parts: Seq<ListPartitionView>) -> bool {
    forall|i: int, j: int, a: int, b: int|
        0 <= i < parts.len() && 0 <= j < parts.len() && 0 <= a < parts[i].values.len() && 0 <= b
            < parts[j].values.len() && (i != j || a != b) ==> #[trigger] parts[i].values[a]
            != #[trigger] parts[j].values[b]
}

proof fn lemma_disjoint(
    defs: Seq<PartitionDef>,
    i: int,
    key: ColumnView,
    place: PlaceView,
    answers: Answers,
    names: Seq<Seq<char>>,
    seen: Seq<ValueView>,
    acc: Seq<ListPartitionView>,
    taken: Seq<ValueView>,
)
    requires
        0 <= i,
        disjoint(acc),
        forall|k: int, a: int|
            0 <= k < acc.len() && 0 <= a < acc[k].values.len() ==> seen.contains(
                #[trigger] acc[k].values[a],
            ) && !taken.contains(acc[k].values[a]),
        forall|x: ValueView| taken.contains(x) ==> seen.contains(x),
    ensures
        list_partitions(defs, i, key, place, answers, names, seen, acc) matches Ok(parts) ==> {
            &&& disjoint(parts)
            &&& forall|k: int, a: int|
                0 <= k < parts.len() && 0 <= a < parts[k].values.len() ==> !taken.contains(
                    #[trigger] parts[k].values[a],
                )
        },
    decreases defs.len() - i,
{
    if i < defs.len() {
        let name = defs[i].name@;
        match defs[i].values {
            PartitionValues::In(exprs) => {
                if name_check(place, names, name) is Ok && exprs@.len() > 0 {
                    match list_values(exprs@, 0, key, name, answers, seen, Seq::empty()) {
                        Ok(values) => {
                            lemma_list_values(exprs@, 0, key, name, answers, seen, Seq::empty());
                            let next = acc.push(ListPartitionView { name, values });
                            let more = seen + values;
                            assert forall|x: ValueView| seen.contains(x) implies more.contains(
                                x,
                            ) by {
                                let m = choose|m: int| 0 <= m < seen.len() && seen[m] == x;
                                assert(more[m] == x);
                            }
                            assert forall|k: int, a: int|
                                0 <= k < next.len() && 0 <= a < next[k].values.len() implies more.contains(
                                #[trigger] next[k].values[a],
                            ) && !taken.contains(next[k].values[a]) by {
                                if k == acc.len() {
                                    assert(more[seen.len() + a] == values[a]);
                                } else {
                                    assert(seen.contains(acc[k].values[a]));
                                }
                            }
                            assert forall|p: int, q: int, a: int, b: int|
                                0 <= p < next.len() && 0 <= q < next.len() && 0 <= a
                                    < next[p].values.len() && 0 <= b < next[q].values.len() && (p
                                    != q || a != b) implies #[trigger] next[p].values[a]
                                != #[trigger] next[q].values[b] by {
                                if p < acc.len() && q < acc.len() {
                                    assert(acc[p].values[a] != acc[q].values[b]);
                                } else if p < acc.len() {
                                    assert(seen.contains(acc[p].values[a]));
                                    assert(!seen.contains(values[b]));
                                } else if q < acc.len() {
                                    assert(seen.contains(acc[q].values[b]));
                                    assert(!seen.contains(values[a]));
                                }
                            }
                            lemma_disjoint(
                                defs,
                                i + 1,
                                key,
                                place,
                                answers,
                                names.push(name),
                                more,
                                next,
                                taken,
                            );
                        },
                        Err(_) => {},
                    }
                }
            },
            PartitionValues::LessThan(_) => {},
        }
    }
}

/// No value belongs to two list partitions: neither to two new ones, nor to a new one and one that
/// the table keeps.
pub proof fn list_partitions_are_disjoint(
    defs: Seq<PartitionDef>,
    key: ColumnView,
    place: PlaceView,
    answers: Answers,
    names: Seq<Seq<char>>,
    taken: Seq<ValueView>,
)
    ensures
        list_partitions(defs, 0, key, place, answers, names, taken, Seq::empty()) matches Ok(parts)
            ==> {
            &&& disjoint(parts)
            &&& forall|k: int, a: int|
                0 <= k < parts.len() && 0 <= a < parts[k].values.len() ==> !taken.contains(
                    #[trigger] parts[k].values[a],
                )
        },
{
    lemma_disjoint(defs, 0, key, place, answers, names, taken, Seq::empty(), taken);
}

} // verus!
