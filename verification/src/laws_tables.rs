//! Laws of tables: the types and nullability of their columns, and what joins make of them.

use crate::atoms::terms;
use crate::binder_ddl::{column_of, column_options, column_type};
use crate::expr::{BinOp, ExprView};
use crate::laws_values::applied;
use crate::model_query::{after_join, join_kind};
use crate::names::{using_column, using_from, visible_expr, InfoView};
use crate::query::VisibleView;
use crate::sql::{JoinOperator, SqlDataType, SqlTypeKind};
use crate::statement::{ColumnOption, ColumnSpec};
use crate::typing::cast_target;
use crate::value::{DataType, ErrorView};
use vstd::prelude::*;

verus! {

/// Whether a type is one of those that a keyword stands for.
pub open spec fn type_is_written(d: DataType, kind: SqlTypeKind) -> bool {
    match d {
        DataType::Bool => kind is Boolean || kind is Bool,
        DataType::Int32 => kind is TinyInt || kind is SmallInt || kind is Int || kind is Integer
            || kind is MediumInt || kind is Int4,
        DataType::Int64 => kind is BigInt || kind is Int8 || kind is Signed || kind is SignedInteger
            || kind is Unsigned || kind is UnsignedInteger,
        DataType::Float64 => kind is Float || kind is Float4 || kind is Float8 || kind is Real
            || kind is Double || kind is DoublePrecision,
        DataType::String => kind is Char || kind is Character || kind is Varchar
            || kind is CharVarying || kind is CharacterVarying || kind is Text || kind is Str
            || kind is Nvarchar,
        DataType::Bytes => kind is Binary || kind is Varbinary || kind is Blob || kind is Bytes,
        DataType::Timestamp => kind is Timestamp || kind is Datetime,
        DataType::Decimal { .. } => kind is Decimal || kind is Numeric || kind is Dec,
    }
}

/// A type of a column or of a cast is the one that is written, and a column has the type that a cast
/// to the same written type gives.
pub proof fn types_are_those_written(t: SqlDataType)
    ensures
        column_type(t) matches Ok(d) ==> type_is_written(d, t.kind) && cast_target(t) == Ok::<
            DataType,
            ErrorView,
        >(d),
        cast_target(t) matches Ok(d) ==> type_is_written(d, t.kind),
{
}

/// Whether a list of options from a position on says something.
pub open spec fn says_not_null(options: Seq<ColumnOption>, i: int) -> bool {
    exists|k: int| i <= k < options.len() && (#[trigger] options[k]) is NotNull
}

/// Whether a list of options from a position on marks the primary key.
pub open spec fn says_key(options: Seq<ColumnOption>, i: int) -> bool {
    exists|k: int| i <= k < options.len() && (#[trigger] options[k]) is PrimaryKey
}

proof fn lemma_options(
    options: Seq<ColumnOption>,
    i: int,
    name: Seq<char>,
    is_key: bool,
    nullable: Option<bool>,
)
    requires
        0 <= i <= options.len(),
        column_options(options, i, name, is_key, nullable) is Ok,
    ensures
        ({
            let (key, stated) = column_options(options, i, name, is_key, nullable)->Ok_0;
            &&& key == (is_key || says_key(options, i))
            &&& (stated == Some(false)) == (nullable == Some(false) || says_not_null(options, i))
        }),
    decreases options.len() - i,
{
    if i < options.len() {
        assert(says_key(options, i) == (options[i] is PrimaryKey || says_key(options, i + 1))) by {
            if says_key(options, i) && !(options[i] is PrimaryKey) {
                let k = choose|k: int| i <= k < options.len() && (#[trigger] options[k]) is PrimaryKey;
                assert(i + 1 <= k && options[k] is PrimaryKey);
            }
        }
        assert(says_not_null(options, i) == (options[i] is NotNull || says_not_null(options, i + 1)))
            by {
            if says_not_null(options, i) && !(options[i] is NotNull) {
                let k = choose|k: int| i <= k < options.len() && (#[trigger] options[k]) is NotNull;
                assert(i + 1 <= k && options[k] is NotNull);
            }
        }
        match options[i] {
            ColumnOption::Null => {
                lemma_options(options, i + 1, name, is_key, Some(true));
            },
            ColumnOption::NotNull => {
                lemma_options(options, i + 1, name, is_key, Some(false));
            },
            ColumnOption::PrimaryKey(_) => {
                lemma_options(options, i + 1, name, true, nullable);
            },
            _ => {},
        }
    }
}

/// A column of a new table has its name and its type, belongs to the primary key where it is marked
/// so, and can be `NULL` unless it is marked `NOT NULL` or belongs to the key.
pub proof fn columns_are_as_written(c: ColumnSpec)
    requires
        column_of(c) is Ok,
    ensures
        ({
            let col = column_of(c)->Ok_0;
            &&& col.name == c.name@
            &&& type_is_written(col.data_type, c.data_type.kind)
            &&& col.primary_key == says_key(c.options@, 0)
            &&& col.nullable == (!says_key(c.options@, 0) && !says_not_null(c.options@, 0))
        }),
{
    lemma_options(c.options@, 0, c.name@, false, None);
    types_are_those_written(c.data_type);
}

proof fn lemma_using(
    l: Seq<VisibleView>,
    r: Seq<VisibleView>,
    names: Seq<Seq<char>>,
    infos: Seq<InfoView>,
    i: int,
    acc: Option<ExprView>,
)
    requires
        0 <= i <= names.len(),
        acc is Some <==> i > 0,
        acc matches Some(e) ==> terms(e).len() == i,
        using_from(l, r, names, infos, i, acc) is Ok,
    ensures
        ({
            let e = using_from(l, r, names, infos, i, acc)->Ok_0;
            &&& (names.len() > 0 ==> e is Some && terms(e->0).len() == names.len())
            &&& forall|k: int| 0 <= k < i ==> terms(e->0)[k] == terms(acc->0)[k]
            &&& forall|k: int|
                i <= k < names.len() ==> joins_on_name(l, r, infos, names[k], #[trigger] terms(e->0)[k])
        }),
    decreases names.len() - i,
{
    if i < names.len() {
        let lc = using_column(l, infos, names[i])->Ok_0;
        let rc = using_column(r, infos, names[i])->Ok_0;
        let eq = applied(BinOp::Eq, visible_expr(lc, infos), visible_expr(rc, infos));
        assert(terms(eq) =~= seq![eq]);
        let next = match acc {
            Some(a) => applied(BinOp::And, a, eq),
            None => eq,
        };
        match acc {
            Some(a) => {
                assert(terms(next) =~= terms(a) + seq![eq]);
            },
            None => {},
        }
        assert(terms(next)[i] == eq);
        lemma_using(l, r, names, infos, i + 1, Some(next));
        assert(joins_on_name(l, r, infos, names[i], eq));
    }
}

/// Whether a condition is the equality of the columns that both inputs have under a name.
pub open spec fn joins_on_name(
    l: Seq<VisibleView>,
    r: Seq<VisibleView>,
    infos: Seq<InfoView>,
    name: Seq<char>,
    e: ExprView,
) -> bool {
    match (using_column(l, infos, name), using_column(r, infos, name)) {
        (Ok(a), Ok(b)) => e == applied(BinOp::Eq, visible_expr(a, infos), visible_expr(b, infos)),
        _ => false,
    }
}

/// `USING` joins on the equality of the columns of both inputs under every listed name, and a
/// `NATURAL` join on that under every shared name.
pub proof fn shared_names_are_joined_on(
    l: Seq<VisibleView>,
    r: Seq<VisibleView>,
    names: Seq<Seq<char>>,
    infos: Seq<InfoView>,
)
    requires
        names.len() > 0,
        using_from(l, r, names, infos, 0, None) is Ok,
    ensures
        ({
            let e = using_from(l, r, names, infos, 0, None)->Ok_0;
            e is Some && terms(e->0).len() == names.len() && forall|k: int|
                0 <= k < names.len() ==> joins_on_name(
                    l,
                    r,
                    infos,
                    names[k],
                    #[trigger] terms(e->0)[k],
                )
        }),
{
    lemma_using(l, r, names, infos, 0, None);
}

/// Whether all columns of the slots from `a` to `b` can be `NULL`.
pub open spec fn all_nullable(infos: Seq<InfoView>, a: usize, b: usize) -> bool {
    forall|i: int, k: int|
        a <= i <= b && 0 <= i < infos.len() && 0 <= k < infos[i].columns.len()
            ==> (#[trigger] infos[i].columns[k]).nullable
}

/// Behind a join the columns of an input that the join can fill with `NULL` can be `NULL`, and those
/// of the other input are what they were: a `LEFT` join fills the right input, a `RIGHT` join the left
/// one, a `FULL` join both, and no other join any.
pub proof fn filled_columns_are_nullable(
    infos: Seq<InfoView>,
    op: JoinOperator,
    l: (usize, usize),
    r: (usize, usize),
)
    requires
        join_kind(op) is Ok,
        l.1 < r.0,
    ensures
        ({
            let after = after_join(infos, join_kind(op)->Ok_0, l, r);
            &&& after.len() == infos.len()
            &&& (op is Left || op is Full ==> all_nullable(after, r.0, r.1))
            &&& (op is Right || op is Full ==> all_nullable(after, l.0, l.1))
            &&& (!(op is Right) && !(op is Full) ==> forall|i: int|
                l.0 <= i <= l.1 && 0 <= i < infos.len() ==> #[trigger] after[i] == infos[i])
            &&& (!(op is Left) && !(op is Full) ==> forall|i: int|
                r.0 <= i <= r.1 && 0 <= i < infos.len() ==> #[trigger] after[i] == infos[i])
        }),
{
}

} // verus!
