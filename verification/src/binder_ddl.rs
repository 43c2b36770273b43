//! Binding of `CREATE TABLE` and `ALTER TABLE`.

use crate::ast::{AlterPartitions, BoundStatement, CreateTable, StatementView};
use crate::catalog::{no_table, schema_of, table_not_found, CatalogSnapshot, Schema};
use crate::lists::has_name;
use crate::literals::{unnest, unnested};
use crate::names::{column_is, first_at, object_name_single, position_exact, single_name};
use crate::partitions::{
    addition_of, bind_alter_add_partition, bind_alter_drop_partition,
    bind_alter_reorganize_partition, bind_mysql_partitioning, partitioning_of, removal_of,
    reorganization_of,
};
use crate::scope::Env;
use crate::sql::{SqlDataType, SqlExpr, SqlNode, SqlTypeKind};
use crate::statement::{
    AlterOperation, ColumnOption, ColumnSpec, PrimaryKeySpec, SqlAlterTable, SqlCreateTable,
    TableConstraint,
};
use crate::text::{cat2, cat3, owned, same_text};
use crate::value::{
    invalid, invalid_view, lemma_views_push, option_view, outcome, unsupported, unsupported_view,
    views, ColumnDef, ColumnView, DataType, ErrorView, HtapError,
};
use vstd::prelude::*;

verus! {

/// Whether `CREATE TABLE` has only clauses that are supported, and if not, why it is refused.
pub open spec fn create_clauses_check(s: SqlCreateTable) -> Result<(), ErrorView> {
    if s.or_replace {
        unsupported_view("OR REPLACE is not supported"@)
    } else if s.temporary {
        unsupported_view("TEMPORARY tables are not supported"@)
    } else if s.external {
        unsupported_view("EXTERNAL tables are not supported"@)
    } else if s.global {
        unsupported_view("GLOBAL tables are not supported"@)
    } else if s.if_not_exists {
        unsupported_view("IF NOT EXISTS is not supported"@)
    } else if s.modifiers.given() {
        unsupported_view("unsupported table modifier"@)
    } else if s.query {
        unsupported_view("CREATE TABLE AS SELECT is not supported"@)
    } else if s.without_rowid {
        unsupported_view("WITHOUT ROWID is not supported"@)
    } else if s.like_or_clone.given() {
        unsupported_view("LIKE / CLONE is not supported"@)
    } else if s.clauses.given() {
        unsupported_view("unsupported table clause"@)
    } else if s.layout.given() {
        unsupported_view("ORDER BY / PARTITION BY / CLUSTER BY not supported in CREATE TABLE"@)
    } else if s.inheritance.given() {
        unsupported_view("inheritance / partitioning not supported"@)
    } else if s.flags.given() {
        unsupported_view("unsupported table flags"@)
    } else if s.table_options {
        unsupported_view("table options / engine not supported in CREATE TABLE"@)
    } else {
        Ok(())
    }
}

fn check_create_clauses(s: &SqlCreateTable) -> (r: Result<(), HtapError>)
    ensures
        outcome(r) == create_clauses_check(*s),
{
    let what = if s.or_replace {
        "OR REPLACE is not supported"
    } else if s.temporary {
        "TEMPORARY tables are not supported"
    } else if s.external {
        "EXTERNAL tables are not supported"
    } else if s.global {
        "GLOBAL tables are not supported"
    } else if s.if_not_exists {
        "IF NOT EXISTS is not supported"
    } else if s.modifiers.given() {
        "unsupported table modifier"
    } else if s.query {
        "CREATE TABLE AS SELECT is not supported"
    } else if s.without_rowid {
        "WITHOUT ROWID is not supported"
    } else if s.like_or_clone.given() {
        "LIKE / CLONE is not supported"
    } else if s.clauses.given() {
        "unsupported table clause"
    } else if s.layout.given() {
        "ORDER BY / PARTITION BY / CLUSTER BY not supported in CREATE TABLE"
    } else if s.inheritance.given() {
        "inheritance / partitioning not supported"
    } else if s.flags.given() {
        "unsupported table flags"
    } else if s.table_options {
        "table options / engine not supported in CREATE TABLE"
    } else {
        return Ok(());
    };
    Err(unsupported(owned(what)))
}

/// The type of a column, or its refusal.
pub open spec fn column_type(t: SqlDataType) -> Result<DataType, ErrorView> {
    match t.kind {
        SqlTypeKind::Boolean => Ok(DataType::Bool),
        SqlTypeKind::Bool => Ok(DataType::Bool),
        SqlTypeKind::Int => Ok(DataType::Int32),
        SqlTypeKind::Integer => Ok(DataType::Int32),
        SqlTypeKind::BigInt => Ok(DataType::Int64),
        SqlTypeKind::Double => Ok(DataType::Float64),
        SqlTypeKind::DoublePrecision => Ok(DataType::Float64),
        SqlTypeKind::Varchar => Ok(DataType::String),
        SqlTypeKind::Text => Ok(DataType::String),
        SqlTypeKind::Varbinary => Ok(DataType::Bytes),
        SqlTypeKind::Blob => Ok(DataType::Bytes),
        SqlTypeKind::Timestamp => Ok(DataType::Timestamp),
        _ => unsupported_view("unsupported data type: "@ + t.text@),
    }
}

fn map_sql_data_type(t: &SqlDataType) -> (r: Result<DataType, HtapError>)
    ensures
        match r {
            Ok(d) => column_type(*t) == Ok::<DataType, ErrorView>(d),
            Err(e) => column_type(*t) == Err::<DataType, ErrorView>(e@),
        },
{
    match t.kind {
        SqlTypeKind::Boolean | SqlTypeKind::Bool => Ok(DataType::Bool),
        SqlTypeKind::Int | SqlTypeKind::Integer => Ok(DataType::Int32),
        SqlTypeKind::BigInt => Ok(DataType::Int64),
        SqlTypeKind::Double | SqlTypeKind::DoublePrecision => Ok(DataType::Float64),
        SqlTypeKind::Varchar | SqlTypeKind::Text => Ok(DataType::String),
        SqlTypeKind::Varbinary | SqlTypeKind::Blob => Ok(DataType::Bytes),
        SqlTypeKind::Timestamp => Ok(DataType::Timestamp),
        _ => Err(unsupported(cat2("unsupported data type: ", t.text.as_str()))),
    }
}

/// The refusal of a second primary key.
pub open spec fn many_keys<T>() -> Result<T, ErrorView> {
    invalid_view("multiple primary key declarations"@)
}

/// The position of the primary key among the constraints from the `i`-th on, `found` being one
/// that came before; or the refusal of a constraint.
pub open spec fn key_constraint(constraints: Seq<TableConstraint>, i: int, found: Option<int>) -> Result<
    Option<int>,
    ErrorView,
>
    decreases constraints.len() - i,
{
    if i < 0 || i >= constraints.len() {
        Ok(found)
    } else {
        match constraints[i] {
            TableConstraint::PrimaryKey(_) => if found is Some {
                many_keys()
            } else {
                key_constraint(constraints, i + 1, Some(i))
            },
            TableConstraint::Unique => unsupported_view("UNIQUE constraint not supported"@),
            TableConstraint::ForeignKey => unsupported_view(
                "FOREIGN KEY constraint not supported"@,
            ),
            TableConstraint::Check => unsupported_view("CHECK constraint not supported"@),
            TableConstraint::Index => unsupported_view("INDEX constraint not supported"@),
            TableConstraint::UsingIndex => unsupported_view("USING INDEX not supported"@),
        }
    }
}

fn find_key_constraint(constraints: &Vec<TableConstraint>) -> (r: Result<Option<usize>, HtapError>)
    ensures
        match r {
            Ok(None) => key_constraint(constraints@, 0, None) == Ok::<Option<int>, ErrorView>(None),
            Ok(Some(i)) => key_constraint(constraints@, 0, None) == Ok::<Option<int>, ErrorView>(
                Some(i as int),
            ) && i < constraints@.len() && constraints@[i as int] is PrimaryKey,
            Err(e) => key_constraint(constraints@, 0, None) == Err::<Option<int>, ErrorView>(e@),
        },
{
    let mut found: Option<usize> = None;
    let mut i: usize = 0;
    while i < constraints.len()
        invariant
            i <= constraints.len(),
            key_constraint(constraints@, 0, None) == key_constraint(
                constraints@,
                i as int,
                match found {
                    Some(k) => Some(k as int),
                    None => None,
                },
            ),
            found matches Some(k) ==> k < constraints@.len() && constraints@[k as int] is PrimaryKey,
        decreases constraints.len() - i,
    {
        match &constraints[i] {
            TableConstraint::PrimaryKey(_) => {
                if found.is_some() {
                    return Err(invalid(owned("multiple primary key declarations")));
                }
                found = Some(i);
            },
            TableConstraint::Unique => {
                return Err(unsupported(owned("UNIQUE constraint not supported")));
            },
            TableConstraint::ForeignKey => {
                return Err(unsupported(owned("FOREIGN KEY constraint not supported")));
            },
            TableConstraint::Check => {
                return Err(unsupported(owned("CHECK constraint not supported")));
            },
            TableConstraint::Index => {
                return Err(unsupported(owned("INDEX constraint not supported")));
            },
            TableConstraint::UsingIndex => {
                return Err(unsupported(owned("USING INDEX not supported")));
            },
        }
        i = i + 1;
    }
    Ok(found)
}

/// A primary key of the table as a whole: its columns, each with whether it has an operator class,
/// and whether it has options.
pub struct KeyView {
    /// Columns.
    pub columns: Seq<(SqlExpr, bool)>,
    /// Whether it has options.
    pub options: bool,
}

/// A primary key of the table as a whole.
pub struct KeyClause<'a> {
    /// Columns, each with whether it has an operator class.
    pub columns: Vec<(&'a SqlExpr, bool)>,
    /// Whether it has options.
    pub options: bool,
}

impl<'a> View for KeyClause<'a> {
    type V = KeyView;

    open spec fn view(&self) -> KeyView {
        KeyView {
            columns: Seq::new(
                self.columns@.len(),
                |i: int| (*self.columns@[i].0, self.columns@[i].1),
            ),
            options: self.options,
        }
    }
}

/// The key that `PRIMARY KEY expr` declares: the elements of a tuple, or the expression itself.
pub open spec fn key_of_expr(e: SqlExpr) -> KeyView {
    KeyView {
        columns: match unnested(e).node {
            SqlNode::Tuple(list) => Seq::new(list@.len(), |i: int| (list@[i], false)),
            _ => seq![(unnested(e), false)],
        },
        options: false,
    }
}

fn expr_to_primary_key_constraint(e: &SqlExpr) -> (r: KeyClause<'_>)
    ensures
        r@ == key_of_expr(*e),
{
    let inner = unnest(e);
    let mut columns: Vec<(&SqlExpr, bool)> = Vec::new();
    match &inner.node {
        SqlNode::Tuple(list) => {
            let mut i: usize = 0;
            while i < list.len()
                invariant
                    i <= list.len(),
                    columns@.len() == i,
                    forall|k: int|
                        0 <= k < i ==> *(#[trigger] columns@[k]).0 == list@[k] && !columns@[k].1,
                decreases list.len() - i,
            {
                columns.push((&list[i], false));
                i = i + 1;
            }
            let r = KeyClause { columns, options: false };
            assert(r@.columns =~= key_of_expr(*e).columns);
            r
        },
        _ => {
            columns.push((inner, false));
            let r = KeyClause { columns, options: false };
            assert(r@.columns =~= key_of_expr(*e).columns);
            r
        },
    }
}

/// The key that a constraint declares.
pub open spec fn key_of_spec(k: PrimaryKeySpec) -> KeyView {
    KeyView {
        columns: Seq::new(
            k.columns@.len(),
            |i: int| (k.columns@[i].expr, k.columns@[i].operator_class),
        ),
        options: k.options.given(),
    }
}

fn clause_of_spec(k: &PrimaryKeySpec) -> (r: KeyClause<'_>)
    ensures
        r@ == key_of_spec(*k),
{
    let mut columns: Vec<(&SqlExpr, bool)> = Vec::new();
    let mut i: usize = 0;
    while i < k.columns.len()
        invariant
            i <= k.columns.len(),
            columns@.len() == i,
            forall|j: int|
                0 <= j < i ==> *(#[trigger] columns@[j]).0 == k.columns@[j].expr && columns@[j].1
                    == k.columns@[j].operator_class,
        decreases k.columns.len() - i,
    {
        columns.push((&k.columns[i].expr, k.columns[i].operator_class));
        i = i + 1;
    }
    let r = KeyClause { columns, options: k.options.given() };
    assert(r@.columns =~= key_of_spec(*k).columns);
    r
}

/// The primary key that a table declares as a whole, or its refusal.
pub open spec fn table_key(s: SqlCreateTable) -> Result<Option<KeyView>, ErrorView> {
    match key_constraint(s.constraints@, 0, None) {
        Err(e) => Err(e),
        Ok(found) => match s.primary_key {
            Some(e) => if found is Some {
                many_keys()
            } else {
                Ok(Some(key_of_expr(e)))
            },
            None => match found {
                None => Ok(None),
                Some(i) => match s.constraints@[i] {
                    TableConstraint::PrimaryKey(k) => Ok(Some(key_of_spec(k))),
                    _ => Ok(None),
                },
            },
        },
    }
}

fn find_table_key(s: &SqlCreateTable) -> (r: Result<Option<KeyClause<'_>>, HtapError>)
    ensures
        match r {
            Ok(k) => table_key(*s) == Ok::<Option<KeyView>, ErrorView>(option_view(k)),
            Err(e) => table_key(*s) == Err::<Option<KeyView>, ErrorView>(e@),
        },
{
    let found = match find_key_constraint(&s.constraints) {
        Ok(f) => f,
        Err(e) => {
            return Err(e);
        },
    };
    match &s.primary_key {
        Some(e) => {
            if found.is_some() {
                return Err(invalid(owned("multiple primary key declarations")));
            }
            Ok(Some(expr_to_primary_key_constraint(e)))
        },
        None => match found {
            None => Ok(None),
            Some(i) => match &s.constraints[i] {
                TableConstraint::PrimaryKey(k) => Ok(Some(clause_of_spec(k))),
                _ => Ok(None),
            },
        },
    }
}

/// Whether the `PRIMARY KEY` of a column is about that column, and if not, why it is refused.
pub open spec fn column_key_check(k: PrimaryKeySpec, name: Seq<char>) -> Result<(), ErrorView> {
    if k.columns@.len() > 1 {
        invalid_view("column primary key cannot reference multiple columns"@)
    } else if k.columns@.len() == 1 && !(k.columns@[0].expr.node is Identifier) {
        invalid_view("invalid column primary key expression"@)
    } else if k.columns@.len() == 1 && (k.columns@[0].expr.node matches SqlNode::Identifier(s)
        && s@ != name) {
        invalid_view("column primary key references different column"@)
    } else if k.options.given() {
        unsupported_view("unsupported primary key options"@)
    } else {
        Ok(())
    }
}

fn check_column_key(k: &PrimaryKeySpec, name: &str) -> (r: Result<(), HtapError>)
    ensures
        outcome(r) == column_key_check(*k, name@),
{
    if k.columns.len() > 1 {
        return Err(invalid(owned("column primary key cannot reference multiple columns")));
    }
    if k.columns.len() == 1 {
        match &k.columns[0].expr.node {
            SqlNode::Identifier(s) => {
                if !same_text(s.as_str(), name) {
                    return Err(invalid(owned("column primary key references different column")));
                }
            },
            _ => {
                return Err(invalid(owned("invalid column primary key expression")));
            },
        }
    }
    if k.options.given() {
        return Err(unsupported(owned("unsupported primary key options")));
    }
    Ok(())
}

/// The refusal of a second statement on whether a column can be `NULL`.
pub open spec fn nullability_clash<T>(name: Seq<char>) -> Result<T, ErrorView> {
    invalid_view("duplicate or conflicting nullability for column '"@ + name + "'"@)
}

/// What the options of a column from the `i`-th on say, in addition to what came before: whether
/// it is the primary key, and whether it can be `NULL`.
pub open spec fn column_options(
    options: Seq<ColumnOption>,
    i: int,
    name: Seq<char>,
    is_key: bool,
    nullable: Option<bool>,
) -> Result<(bool, Option<bool>), ErrorView>
    decreases options.len() - i,
{
    if i < 0 || i >= options.len() {
        Ok((is_key, nullable))
    } else {
        match options[i] {
            ColumnOption::Null => if nullable is Some {
                nullability_clash(name)
            } else {
                column_options(options, i + 1, name, is_key, Some(true))
            },
            ColumnOption::NotNull => if nullable is Some {
                nullability_clash(name)
            } else {
                column_options(options, i + 1, name, is_key, Some(false))
            },
            ColumnOption::PrimaryKey(k) => if is_key {
                invalid_view("duplicate primary key on column '"@ + name + "'"@)
            } else {
                match column_key_check(k, name) {
                    Err(e) => Err(e),
                    Ok(_) => column_options(options, i + 1, name, true, nullable),
                }
            },
            ColumnOption::Default => unsupported_view("DEFAULT clause not supported"@),
            ColumnOption::Generated => unsupported_view("GENERATED columns not supported"@),
            ColumnOption::Unique => unsupported_view("UNIQUE column option not supported"@),
            ColumnOption::ForeignKey => unsupported_view(
                "FOREIGN KEY column option not supported"@,
            ),
            ColumnOption::Check => unsupported_view("CHECK column option not supported"@),
            ColumnOption::Other(s) => unsupported_view("unsupported column option: "@ + s@),
        }
    }
}

fn bind_column_options(options: &Vec<ColumnOption>, name: &str) -> (r: Result<
    (bool, Option<bool>),
    HtapError,
>)
    ensures
        match r {
            Ok(x) => column_options(options@, 0, name@, false, None) == Ok::<
                (bool, Option<bool>),
                ErrorView,
            >(x),
            Err(e) => column_options(options@, 0, name@, false, None) == Err::<
                (bool, Option<bool>),
                ErrorView,
            >(e@),
        },
{
    let mut is_key = false;
    let mut nullable: Option<bool> = None;
    let mut i: usize = 0;
    while i < options.len()
        invariant
            i <= options.len(),
            column_options(options@, 0, name@, false, None) == column_options(
                options@,
                i as int,
                name@,
                is_key,
                nullable,
            ),
        decreases options.len() - i,
    {
        match &options[i] {
            ColumnOption::Null => {
                if nullable.is_some() {
                    return Err(
                        invalid(
                            cat3("duplicate or conflicting nullability for column '", name, "'"),
                        ),
                    );
                }
                nullable = Some(true);
            },
            ColumnOption::NotNull => {
                if nullable.is_some() {
                    return Err(
                        invalid(
                            cat3("duplicate or conflicting nullability for column '", name, "'"),
                        ),
                    );
                }
                nullable = Some(false);
            },
            ColumnOption::PrimaryKey(k) => {
                if is_key {
                    return Err(invalid(cat3("duplicate primary key on column '", name, "'")));
                }
                match check_column_key(k, name) {
                    Ok(_) => {},
                    Err(e) => {
                        return Err(e);
                    },
                }
                is_key = true;
            },
            ColumnOption::Default => {
                return Err(unsupported(owned("DEFAULT clause not supported")));
            },
            ColumnOption::Generated => {
                return Err(unsupported(owned("GENERATED columns not supported")));
            },
            ColumnOption::Unique => {
                return Err(unsupported(owned("UNIQUE column option not supported")));
            },
            ColumnOption::ForeignKey => {
                return Err(unsupported(owned("FOREIGN KEY column option not supported")));
            },
            ColumnOption::Check => {
                return Err(unsupported(owned("CHECK column option not supported")));
            },
            ColumnOption::Other(s) => {
                return Err(unsupported(cat2("unsupported column option: ", s.as_str())));
            },
        }
        i = i + 1;
    }
    Ok((is_key, nullable))
}

/// The column that a definition describes, or its refusal.
pub open spec fn column_of(c: ColumnSpec) -> Result<ColumnView, ErrorView> {
    if c.name@.len() == 0 {
        invalid_view("column name cannot be empty"@)
    } else {
        match column_type(c.data_type) {
            Err(e) => Err(e),
            Ok(t) => match column_options(c.options@, 0, c.name@, false, None) {
                Err(e) => Err(e),
                Ok(o) => if o.0 && o.1 == Some(true) {
                    invalid_view("primary key column '"@ + c.name@ + "' cannot be nullable"@)
                } else {
                    Ok(
                        ColumnView {
                            name: c.name@,
                            data_type: t,
                            nullable: !o.0 && (match o.1 {
                                Some(b) => b,
                                None => true,
                            }),
                            primary_key: o.0,
                        },
                    )
                },
            },
        }
    }
}

fn bind_column(c: &ColumnSpec) -> (r: Result<ColumnDef, HtapError>)
    ensures
        outcome(r) == column_of(*c),
{
    let name = c.name.as_str();
    if name.unicode_len() == 0 {
        return Err(invalid(owned("column name cannot be empty")));
    }
    let data_type = match map_sql_data_type(&c.data_type) {
        Ok(t) => t,
        Err(e) => {
            return Err(e);
        },
    };
    let (is_key, stated) = match bind_column_options(&c.options, name) {
        Ok(x) => x,
        Err(e) => {
            return Err(e);
        },
    };
    let nullable = match stated {
        Some(b) => b,
        None => true,
    };
    if is_key && nullable && stated.is_some() {
        return Err(invalid(cat3("primary key column '", name, "' cannot be nullable")));
    }
    Ok(
        ColumnDef { name: owned(name), data_type, nullable: !is_key && nullable, primary_key: is_key },
    )
}

/// The columns from the `i`-th on behind `acc`, and the positions of those that are declared the
/// primary key behind `keys`; or the refusal of a column.
pub open spec fn columns_of(
    list: Seq<ColumnSpec>,
    i: int,
    acc: Seq<ColumnView>,
    keys: Seq<usize>,
) -> Result<(Seq<ColumnView>, Seq<usize>), ErrorView>
    decreases list.len() - i,
{
    if i < 0 || i >= list.len() {
        Ok((acc, keys))
    } else {
        match column_of(list[i]) {
            Err(e) => Err(e),
            Ok(c) => columns_of(
                list,
                i + 1,
                acc.push(c),
                if c.primary_key {
                    keys.push(i as usize)
                } else {
                    keys
                },
            ),
        }
    }
}

fn bind_columns(list: &Vec<ColumnSpec>) -> (r: Result<(Vec<ColumnDef>, Vec<usize>), HtapError>)
    ensures
        match r {
            Ok(x) => columns_of(list@, 0, Seq::empty(), Seq::empty()) == Ok::<
                (Seq<ColumnView>, Seq<usize>),
                ErrorView,
            >((views(x.0@), x.1@)) && x.0@.len() == list@.len(),
            Err(e) => columns_of(list@, 0, Seq::empty(), Seq::empty()) == Err::<
                (Seq<ColumnView>, Seq<usize>),
                ErrorView,
            >(e@),
        },
{
    let mut out: Vec<ColumnDef> = Vec::new();
    let mut keys: Vec<usize> = Vec::new();
    let mut i: usize = 0;
    assert(views(out@) =~= Seq::empty());
    while i < list.len()
        invariant
            i <= list.len(),
            out@.len() == i,
            columns_of(list@, 0, Seq::empty(), Seq::empty()) == columns_of(
                list@,
                i as int,
                views(out@),
                keys@,
            ),
        decreases list.len() - i,
    {
        let c = match bind_column(&list[i]) {
            Ok(c) => c,
            Err(e) => {
                return Err(e);
            },
        };
        if c.primary_key {
            keys.push(i);
        }
        proof {
            lemma_views_push(out@, c);
        }
        out.push(c);
        i = i + 1;
    }
    Ok((out, keys))
}

/// Whether a column is declared `NULL`.
pub open spec fn states_null(options: Seq<ColumnOption>, n: int) -> bool
    decreases n,
{
    0 < n <= options.len() && (options[n - 1] is Null || states_null(options, n - 1))
}

fn has_null_option(options: &Vec<ColumnOption>) -> (r: bool)
    ensures
        r == states_null(options@, options@.len() as int),
{
    let mut found = false;
    let mut i: usize = 0;
    while i < options.len()
        invariant
            i <= options.len(),
            found == states_null(options@, i as int),
        decreases options.len() - i,
    {
        match &options[i] {
            ColumnOption::Null => {
                found = true;
            },
            _ => {},
        }
        i = i + 1;
    }
    found
}

/// The columns with those of the key from the `i`-th on marked, and the positions of those behind
/// `keys`; `seen` are the names that came before. Or the refusal of the key.
pub open spec fn marked_columns(
    key: Seq<(SqlExpr, bool)>,
    i: int,
    specs: Seq<ColumnSpec>,
    columns: Seq<ColumnView>,
    seen: Seq<Seq<char>>,
    keys: Seq<usize>,
) -> Result<(Seq<ColumnView>, Seq<usize>), ErrorView>
    decreases key.len() - i,
{
    if i < 0 || i >= key.len() {
        Ok((columns, keys))
    } else if key[i].1 {
        unsupported_view("operator classes not supported"@)
    } else {
        match key[i].0.node {
            SqlNode::Identifier(s) => if seen.contains(s@) {
                invalid_view("duplicate column '"@ + s@ + "' in primary key"@)
            } else {
                match first_at(columns, column_is(s@), 0) {
                    None => invalid_view("unknown column '"@ + s@ + "' in table primary key"@),
                    Some(c) => if columns[c].nullable && states_null(
                        specs[c].options@,
                        specs[c].options@.len() as int,
                    ) {
                        invalid_view("primary key column '"@ + s@ + "' cannot be nullable"@)
                    } else {
                        marked_columns(
                            key,
                            i + 1,
                            specs,
                            columns.update(
                                c,
                                ColumnView { primary_key: true, nullable: false, ..columns[c] },
                            ),
                            seen.push(s@),
                            keys.push(c as usize),
                        )
                    },
                }
            },
            _ => invalid_view("primary key column must be a simple identifier"@),
        }
    }
}

fn mark_key_columns(
    key: &KeyClause<'_>,
    specs: &Vec<ColumnSpec>,
    columns: Vec<ColumnDef>,
) -> (r: Result<(Vec<ColumnDef>, Vec<usize>), HtapError>)
    requires
        specs@.len() == columns@.len(),
    ensures
        match r {
            Ok(x) => marked_columns(
                key@.columns,
                0,
                specs@,
                views(columns@),
                Seq::empty(),
                Seq::empty(),
            ) == Ok::<(Seq<ColumnView>, Seq<usize>), ErrorView>((views(x.0@), x.1@)),
            Err(e) => marked_columns(
                key@.columns,
                0,
                specs@,
                views(columns@),
                Seq::empty(),
                Seq::empty(),
            ) == Err::<(Seq<ColumnView>, Seq<usize>), ErrorView>(e@),
        },
{
    let ghost model = marked_columns(
        key@.columns,
        0,
        specs@,
        views(columns@),
        Seq::empty(),
        Seq::empty(),
    );
    let ghost before = views(columns@);
    let mut out = columns;
    let mut seen: Vec<String> = Vec::new();
    let mut keys: Vec<usize> = Vec::new();
    let mut i: usize = 0;
    assert(views(seen@) =~= Seq::empty());
    while i < key.columns.len()
        invariant
            i <= key.columns.len(),
            out@.len() == specs@.len(),
            before == views(columns@),
            model == marked_columns(
                key@.columns,
                0,
                specs@,
                before,
                Seq::empty(),
                Seq::empty(),
            ),
            model == marked_columns(
                key@.columns,
                i as int,
                specs@,
                views(out@),
                views(seen@),
                keys@,
            ),
        decreases key.columns.len() - i,
    {
        assert(key@.columns[i as int] == (*key.columns@[i as int].0, key.columns@[i as int].1));
        let (expr, operator_class) = key.columns[i];
        if operator_class {
            return Err(unsupported(owned("operator classes not supported")));
        }
        let name = match &expr.node {
            SqlNode::Identifier(s) => s.as_str(),
            _ => {
                return Err(invalid(owned("primary key column must be a simple identifier")));
            },
        };
        if has_name(&seen, name) {
            return Err(invalid(cat3("duplicate column '", name, "' in primary key")));
        }
        let c: usize = match position_exact(&out, name) {
            Some(c) => c,
            None => {
                return Err(invalid(cat3("unknown column '", name, "' in table primary key")));
            },
        };
        if out[c].nullable && has_null_option(&specs[c].options) {
            return Err(invalid(cat3("primary key column '", name, "' cannot be nullable")));
        }
        let marked = ColumnDef {
            name: out[c].name.clone(),
            data_type: out[c].data_type,
            nullable: false,
            primary_key: true,
        };
        let copied = owned(name);
        let ghost earlier = out@;
        proof {
            lemma_views_push(seen@, copied);
            assert(views(earlier)[c as int] == earlier[c as int]@);
            assert(views(earlier.update(c as int, marked)) =~= views(earlier).update(
                c as int,
                marked@,
            ));
        }
        out.set(c, marked);
        seen.push(copied);
        keys.push(c);
        i = i + 1;
    }
    Ok((out, keys))
}

/// The columns of a new table with its primary key, or the refusal of the key.
pub open spec fn keyed_columns(
    key: Option<KeyView>,
    specs: Seq<ColumnSpec>,
    columns: Seq<ColumnView>,
    keys: Seq<usize>,
) -> Result<(Seq<ColumnView>, Seq<usize>), ErrorView> {
    match key {
        None => if keys.len() == 1 {
            Ok((columns, keys))
        } else if keys.len() == 0 {
            invalid_view("table must have a primary key"@)
        } else {
            many_keys()
        },
        Some(k) => if keys.len() > 0 {
            many_keys()
        } else if k.columns.len() == 0 {
            invalid_view("primary key cannot be empty"@)
        } else if k.options {
            unsupported_view("unsupported table primary key options"@)
        } else {
            marked_columns(k.columns, 0, specs, columns, Seq::empty(), Seq::empty())
        },
    }
}

fn key_columns(
    key: &Option<KeyClause<'_>>,
    specs: &Vec<ColumnSpec>,
    columns: Vec<ColumnDef>,
    keys: Vec<usize>,
) -> (r: Result<(Vec<ColumnDef>, Vec<usize>), HtapError>)
    requires
        specs@.len() == columns@.len(),
    ensures
        match r {
            Ok(x) => keyed_columns(option_view(*key), specs@, views(columns@), keys@) == Ok::<
                (Seq<ColumnView>, Seq<usize>),
                ErrorView,
            >((views(x.0@), x.1@)),
            Err(e) => keyed_columns(option_view(*key), specs@, views(columns@), keys@) == Err::<
                (Seq<ColumnView>, Seq<usize>),
                ErrorView,
            >(e@),
        },
{
    match key {
        None => {
            if keys.len() == 1 {
                Ok((columns, keys))
            } else if keys.len() == 0 {
                Err(invalid(owned("table must have a primary key")))
            } else {
                Err(invalid(owned("multiple primary key declarations")))
            }
        },
        Some(k) => {
            if keys.len() > 0 {
                return Err(invalid(owned("multiple primary key declarations")));
            }
            if k.columns.len() == 0 {
                return Err(invalid(owned("primary key cannot be empty")));
            }
            if k.options {
                return Err(unsupported(owned("unsupported table primary key options")));
            }
            mark_key_columns(k, specs, columns)
        },
    }
}

/// What `CREATE TABLE` makes, or its refusal.
pub open spec fn creation_of(cx: Env<'_>, s: SqlCreateTable) -> Result<StatementView, ErrorView> {
    match create_clauses_check(s) {
        Err(e) => Err(e),
        Ok(_) => match single_name(s.name) {
            Err(e) => Err(e),
            Ok(name) => if name.len() == 0 {
                invalid_view("table name cannot be empty"@)
            } else if s.columns@.len() == 0 {
                invalid_view("table must have at least one column"@)
            } else {
                match table_key(s) {
                    Err(e) => Err(e),
                    Ok(key) => match columns_of(s.columns@, 0, Seq::empty(), Seq::empty()) {
                        Err(e) => Err(e),
                        Ok(found) => match keyed_columns(key, s.columns@, found.0, found.1) {
                            Err(e) => Err(e),
                            Ok(table) => match schema_of(table.0) {
                                Err(e) => Err(e),
                                Ok(schema) => match s.partition_by {
                                    None => Ok(
                                        StatementView::CreateTable {
                                            name,
                                            schema,
                                            primary_key: table.1,
                                            partitioning: None,
                                        },
                                    ),
                                    Some(p) => match partitioning_of(
                                        p,
                                        schema,
                                        table.1,
                                        *cx.answers,
                                    ) {
                                        Err(e) => Err(e),
                                        Ok(parts) => Ok(
                                            StatementView::CreateTable {
                                                name,
                                                schema,
                                                primary_key: table.1,
                                                partitioning: Some(parts),
                                            },
                                        ),
                                    },
                                },
                            },
                        },
                    },
                }
            },
        },
    }
}

/// Binds `CREATE TABLE`.
pub(crate) fn bind_create_table(cx: Env<'_>, s: &SqlCreateTable) -> (r: Result<
    BoundStatement,
    HtapError,
>)
    ensures
        outcome(r) == creation_of(cx, *s),
{
    match check_create_clauses(s) {
        Ok(_) => {},
        Err(e) => {
            return Err(e);
        },
    }
    let name = match object_name_single(&s.name) {
        Ok(n) => n,
        Err(e) => {
            return Err(e);
        },
    };
    if name.as_str().unicode_len() == 0 {
        return Err(invalid(owned("table name cannot be empty")));
    }
    if s.columns.len() == 0 {
        return Err(invalid(owned("table must have at least one column")));
    }
    let key = match find_table_key(s) {
        Ok(k) => k,
        Err(e) => {
            return Err(e);
        },
    };
    let (columns, declared) = match bind_columns(&s.columns) {
        Ok(x) => x,
        Err(e) => {
            return Err(e);
        },
    };
    let (columns, primary_key) = match key_columns(&key, &s.columns, columns, declared) {
        Ok(x) => x,
        Err(e) => {
            return Err(e);
        },
    };
    let schema = match Schema::new(columns) {
        Ok(x) => x,
        Err(e) => {
            return Err(e);
        },
    };
    let partitioning = match &s.partition_by {
        None => None,
        Some(p) => match bind_mysql_partitioning(p, &schema.columns, &primary_key, cx.answers) {
            Ok(x) => Some(x),
            Err(e) => {
                return Err(e);
            },
        },
    };
    let create = CreateTable::new(name.as_str(), schema, primary_key);
    Ok(BoundStatement::CreateTable(create.with_partitioning(partitioning)))
}

/// What `ALTER TABLE` changes, or its refusal.
pub open spec fn alteration_of(cx: Env<'_>, s: SqlAlterTable) -> Result<StatementView, ErrorView> {
    if s.if_exists {
        invalid_view("IF EXISTS is not supported for ALTER TABLE"@)
    } else if s.only {
        unsupported_view("ONLY is not supported"@)
    } else if s.on_cluster {
        unsupported_view("ON CLUSTER is not supported"@)
    } else if s.location {
        unsupported_view("LOCATION is not supported"@)
    } else if s.table_type {
        unsupported_view("unsupported table type"@)
    } else {
        match single_name(s.name) {
            Err(e) => Err(e),
            Ok(name) => match cx.catalog.table(name) {
                None => Err(no_table(name)),
                Some(t) => if s.operations@.len() == 0 {
                    unsupported_view("ALTER TABLE requires an operation"@)
                } else if s.operations@.len() != 1 {
                    unsupported_view("ALTER TABLE supports exactly one operation"@)
                } else {
                    let change = match s.operations@[0] {
                        AlterOperation::AddPartition(defs) => addition_of(
                            defs@,
                            t,
                            *cx.catalog,
                            *cx.answers,
                        ),
                        AlterOperation::DropPartition(names) => removal_of(names@, t),
                        AlterOperation::ReorganizePartition { partitions, into_partitions } => {
                            reorganization_of(
                                partitions@,
                                into_partitions@,
                                t,
                                *cx.catalog,
                                *cx.answers,
                            )
                        },
                        AlterOperation::Other(text) => unsupported_view(
                            "unsupported ALTER TABLE operation: "@ + text@,
                        ),
                    };
                    match change {
                        Err(e) => Err(e),
                        Ok(alteration) => Ok(
                            StatementView::AlterPartitions { table: name, alteration },
                        ),
                    }
                },
            },
        }
    }
}

/// Whether the altered table has the column that decides the partition, where a partition is added
/// to it or reorganized.
pub open spec fn altered_key_exists(catalog: CatalogSnapshot, s: SqlAlterTable) -> bool {
    s.operations@.len() == 1 && !(s.operations@[0] is DropPartition || s.operations@[0] is Other)
        ==> match single_name(s.name) {
        Ok(name) => catalog.table(name) matches Some(t) ==> t.partition_key_exists(),
        Err(_) => true,
    }
}

/// Whether the altered table has the column that decides the partition, where a partition is added
/// to it or reorganized.
pub(crate) fn has_altered_key(catalog: &CatalogSnapshot, s: &SqlAlterTable) -> (r: bool)
    ensures
        r == altered_key_exists(*catalog, *s),
{
    if s.operations.len() != 1 {
        return true;
    }
    match &s.operations[0] {
        AlterOperation::DropPartition(_) => true,
        AlterOperation::Other(_) => true,
        _ => match object_name_single(&s.name) {
            Ok(name) => match catalog.table_by_name(name.as_str()) {
                Some(t) => t.has_partition_key(),
                None => true,
            },
            Err(_) => true,
        },
    }
}

/// Binds `ALTER TABLE`.
pub(crate) fn bind_alter_table(cx: Env<'_>, s: &SqlAlterTable) -> (r: Result<
    BoundStatement,
    HtapError,
>)
    requires
        altered_key_exists(*cx.catalog, *s),
    ensures
        outcome(r) == alteration_of(cx, *s),
{
    if s.if_exists {
        return Err(invalid(owned("IF EXISTS is not supported for ALTER TABLE")));
    }
    if s.only {
        return Err(unsupported(owned("ONLY is not supported")));
    }
    if s.on_cluster {
        return Err(unsupported(owned("ON CLUSTER is not supported")));
    }
    if s.location {
        return Err(unsupported(owned("LOCATION is not supported")));
    }
    if s.table_type {
        return Err(unsupported(owned("unsupported table type")));
    }
    let name = match object_name_single(&s.name) {
        Ok(n) => n,
        Err(e) => {
            return Err(e);
        },
    };
    let t = match cx.catalog.table_by_name(name.as_str()) {
        Some(t) => t,
        None => {
            return Err(table_not_found(name.as_str()));
        },
    };
    if s.operations.len() == 0 {
        return Err(unsupported(owned("ALTER TABLE requires an operation")));
    }
    if s.operations.len() != 1 {
        return Err(unsupported(owned("ALTER TABLE supports exactly one operation")));
    }
    let change = match &s.operations[0] {
        AlterOperation::AddPartition(defs) => bind_alter_add_partition(
            defs,
            t,
            cx.catalog,
            cx.answers,
        ),
        AlterOperation::DropPartition(names) => bind_alter_drop_partition(names, t),
        AlterOperation::ReorganizePartition { partitions, into_partitions } => {
            bind_alter_reorganize_partition(partitions, into_partitions, t, cx.catalog, cx.answers)
        },
        AlterOperation::Other(text) => Err(
            unsupported(cat2("unsupported ALTER TABLE operation: ", text.as_str())),
        ),
    };
    match change {
        Ok(alteration) => Ok(
            BoundStatement::AlterPartitions(AlterPartitions::new(name.as_str(), alteration)),
        ),
        Err(e) => Err(e),
    }
}

} // verus!
