//! Bound statements.

use crate::catalog::{AlterationView, PartitionAlteration, PrivilegeSet, Schema};
use crate::expr::{Expr, ExprView};
use crate::query::{BoundQuery, QueryView};
use crate::text::owned;
use crate::value::{
    option_view, views, ColumnDef, ColumnView, DataType, Row, Value, ValueView,
};
use vstd::prelude::*;
use vstd::std_specs::convert::FromSpecImpl;

verus! {

/// A validated, catalog-bound statement.
#[derive(Debug, PartialEq)]
pub enum BoundStatement {
    /// `CREATE TABLE`.
    CreateTable(CreateTable),
    /// `INSERT`.
    Insert(Insert),
    /// Single-row `DELETE` by primary key.
    Delete(DeleteByPrimaryKey),
    /// `DELETE` of the rows that a filter selects.
    DeleteRows(DeleteStatement),
    /// Single-row `SELECT` by primary key with column projection.
    Select(PointSelect),
    /// Analytical `SELECT` with column and aggregate projections, filters and grouping.
    AnalyticSelect(AnalyticSelect),
    /// `ALTER TABLE` of partitions.
    AlterPartitions(AlterPartitions),
    /// General query.
    Query(Box<BoundQuery>),
    /// `UPDATE`.
    Update(UpdateStatement),
    /// `DROP TABLE`.
    DropTable(DropTableStatement),
    /// `SHOW` or `DESCRIBE`.
    Show(ShowStatement),
    /// `CREATE USER`.
    CreateUser(CreateUserStatement),
    /// `ALTER USER`.
    AlterUser(AlterUserStatement),
    /// `DROP USER`.
    DropUser(DropUserStatement),
    /// `GRANT`.
    GrantPrivileges(GrantStatement),
    /// `REVOKE`.
    RevokePrivileges(RevokeStatement),
    /// `SHOW GRANTS`.
    ShowGrants(ShowGrantsStatement),
    /// `ANALYZE TABLE`, with the name of the table.
    AnalyzeTable(String),
    /// `EXPLAIN`.
    Explain {
        /// What is explained.
        inner: Box<BoundStatement>,
        /// Whether it is run as well.
        analyze: bool,
    },
}

/// What a `GRANT` or `REVOKE` applies to.
#[derive(Clone, Debug, PartialEq, Eq)]
pub enum GrantScope {
    /// All objects of the default schema.
    Global,
    /// One table.
    Table(String),
}

/// `CREATE USER`.
#[derive(Clone, Debug, PartialEq, Eq)]
pub struct CreateUserStatement {
    /// Account.
    pub username: String,
    /// `IF NOT EXISTS`.
    pub if_not_exists: bool,
    /// Password in plain text.
    pub password: Option<String>,
}

/// `ALTER USER`.
#[derive(Clone, Debug, PartialEq, Eq)]
pub struct AlterUserStatement {
    /// Account.
    pub username: String,
    /// `IF EXISTS`.
    pub if_exists: bool,
    /// New password in plain text.
    pub password: String,
}

/// `DROP USER`.
#[derive(Clone, Debug, PartialEq, Eq)]
pub struct DropUserStatement {
    /// Accounts.
    pub usernames: Vec<String>,
    /// `IF EXISTS`.
    pub if_exists: bool,
}

/// `GRANT`.
#[derive(Clone, Debug, PartialEq, Eq)]
pub struct GrantStatement {
    /// Privileges.
    pub privileges: PrivilegeSet,
    /// Objects.
    pub scope: GrantScope,
    /// Account.
    pub grantee: String,
}

/// `REVOKE`.
#[derive(Clone, Debug, PartialEq, Eq)]
pub struct RevokeStatement {
    /// Privileges.
    pub privileges: PrivilegeSet,
    /// Objects.
    pub scope: GrantScope,
    /// Account.
    pub grantee: String,
}

/// `SHOW GRANTS`.
#[derive(Clone, Debug, PartialEq, Eq)]
pub struct ShowGrantsStatement {
    /// Account; `None` for the current one.
    pub for_username: Option<String>,
}

/// `UPDATE`.
///
/// Assignments and filter refer to the table as slot 0. Assignments are applied from left to
/// right to the row as it changes: `SET a = a + 1, b = a` uses the new `a` for `b`.
#[derive(Clone, Debug, PartialEq)]
pub struct UpdateStatement {
    /// Table.
    pub table: String,
    /// Column and value, coerced to the type of the column.
    pub assignments: Vec<(usize, Expr)>,
    /// Rows.
    pub target: UpdateTarget,
}

/// The rows of an `UPDATE`.
#[derive(Clone, Debug, PartialEq)]
pub enum UpdateTarget {
    /// The row with a primary key.
    PrimaryKey(Vec<Value>),
    /// The rows that a filter selects; without a filter, every row.
    Filter(Option<Expr>),
}

/// `DROP TABLE`.
#[derive(Clone, Debug, PartialEq, Eq)]
pub struct DropTableStatement {
    /// Table.
    pub table: String,
    /// `IF EXISTS`.
    pub if_exists: bool,
}

/// `SHOW` and `DESCRIBE`.
#[derive(Clone, Debug, PartialEq, Eq)]
pub enum ShowStatement {
    /// `SHOW TABLES [LIKE pattern]`
    Tables {
        /// Pattern.
        like: Option<String>,
    },
    /// `SHOW DATABASES`
    Databases,
    /// `SHOW COLUMNS FROM table`
    Columns {
        /// Table.
        table: String,
    },
    /// `DESCRIBE table`
    Describe {
        /// Table.
        table: String,
    },
}

/// `ALTER TABLE` of partitions.
#[derive(Clone, Debug, PartialEq, Eq)]
pub struct AlterPartitions {
    /// Table.
    pub table: String,
    /// Change.
    pub alteration: PartitionAlteration,
}

impl AlterPartitions {
    /// A change of the partitions of a table.
    pub fn new(table: &str, alteration: PartitionAlteration) -> (r: AlterPartitions)
        ensures
            r.table@ == table@,
            r.alteration == alteration,
    {
        AlterPartitions { table: owned(table), alteration }
    }
}

/// `CREATE TABLE`.
#[derive(Clone, Debug, PartialEq, Eq)]
pub struct CreateTable {
    /// Name.
    pub name: String,
    /// Columns.
    pub schema: Schema,
    /// Positions of the primary key columns.
    pub primary_key: Vec<usize>,
    /// Partitioning.
    pub partitioning: Option<BoundPartitioning>,
}

/// Partitioning of a new table.
#[derive(Clone, Debug, PartialEq, Eq)]
pub enum BoundPartitioning {
    /// By ranges `[lower, upper)` of the key.
    Range {
        /// Position of the key column.
        key_column: usize,
        /// Partitions in order.
        partitions: Vec<BoundRangePartition>,
    },
    /// By disjoint lists of keys.
    List {
        /// Position of the key column.
        key_column: usize,
        /// Partitions.
        partitions: Vec<BoundListPartition>,
    },
}

/// A range partition.
#[derive(Clone, Debug, PartialEq, Eq)]
pub struct BoundRangePartition {
    /// Name.
    pub name: String,
    /// Lower bound; `None` for minus infinity.
    pub lower: Option<Value>,
    /// Upper bound; `None` for `MAXVALUE`.
    pub upper: Option<Value>,
}

/// A list partition.
#[derive(Clone, Debug, PartialEq, Eq)]
pub struct BoundListPartition {
    /// Name.
    pub name: String,
    /// Keys.
    pub values: Vec<Value>,
}

/// The mathematical model of a [`BoundRangePartition`].
pub struct RangePartitionView {
    /// Name.
    pub name: Seq<char>,
    /// Lower bound.
    pub lower: Option<ValueView>,
    /// Upper bound.
    pub upper: Option<ValueView>,
}

impl View for BoundRangePartition {
    type V = RangePartitionView;

    open spec fn view(&self) -> RangePartitionView {
        RangePartitionView {
            name: self.name@,
            lower: option_view(self.lower),
            upper: option_view(self.upper),
        }
    }
}

/// The mathematical model of a [`BoundListPartition`].
pub struct ListPartitionView {
    /// Name.
    pub name: Seq<char>,
    /// Keys.
    pub values: Seq<ValueView>,
}

impl View for BoundListPartition {
    type V = ListPartitionView;

    open spec fn view(&self) -> ListPartitionView {
        ListPartitionView { name: self.name@, values: views(self.values@) }
    }
}

/// The mathematical model of a [`BoundPartitioning`].
pub enum PartitioningView {
    /// See [`BoundPartitioning::Range`].
    Range {
        /// Position of the key column.
        key_column: usize,
        /// Partitions in order.
        partitions: Seq<RangePartitionView>,
    },
    /// See [`BoundPartitioning::List`].
    List {
        /// Position of the key column.
        key_column: usize,
        /// Partitions.
        partitions: Seq<ListPartitionView>,
    },
}

impl View for BoundPartitioning {
    type V = PartitioningView;

    open spec fn view(&self) -> PartitioningView {
        match self {
            BoundPartitioning::Range { key_column, partitions } => PartitioningView::Range {
                key_column: *key_column,
                partitions: views(partitions@),
            },
            BoundPartitioning::List { key_column, partitions } => PartitioningView::List {
                key_column: *key_column,
                partitions: views(partitions@),
            },
        }
    }
}

impl CreateTable {
    /// A new table without partitions.
    pub fn new(name: &str, schema: Schema, primary_key: Vec<usize>) -> (r: CreateTable)
        ensures
            r.name@ == name@,
            r.schema == schema,
            r.primary_key == primary_key,
            r.partitioning is None,
    {
        CreateTable { name: owned(name), schema, primary_key, partitioning: None }
    }

    /// The same table with the given partitioning.
    pub fn with_partitioning(self, partitioning: Option<BoundPartitioning>) -> (r: CreateTable)
        ensures
            r == (CreateTable { partitioning, ..self }),
    {
        let mut r = self;
        r.partitioning = partitioning;
        r
    }
}

/// `INSERT`.
#[derive(Clone, Debug, PartialEq)]
pub struct Insert {
    /// Table.
    pub table: String,
    /// Rows.
    pub source: InsertSource,
}

/// The rows of an `INSERT`.
#[derive(Clone, Debug, PartialEq)]
pub enum InsertSource {
    /// Literal rows, in the order of the table's columns.
    Values(Vec<Row>),
    /// The rows of a query.
    Query {
        /// The query.
        query: Box<BoundQuery>,
        /// For each output column, the column of the table that it fills.
        columns: Vec<usize>,
    },
}

impl Insert {
    /// An insertion of literal rows.
    pub fn new(table: &str, rows: Vec<Row>) -> (r: Insert)
        ensures
            r.table@ == table@,
            r.source == InsertSource::Values(rows),
    {
        Insert { table: owned(table), source: InsertSource::Values(rows) }
    }

    /// An insertion of the rows of a query.
    pub fn from_query(table: &str, query: BoundQuery, columns: Vec<usize>) -> (r: Insert)
        ensures
            r.table@ == table@,
            r.source == (InsertSource::Query { query: Box::new(query), columns }),
    {
        Insert {
            table: owned(table),
            source: InsertSource::Query { query: Box::new(query), columns },
        }
    }
}

/// `DELETE` of the rows that a filter selects.
#[derive(Clone, Debug, PartialEq)]
pub struct DeleteStatement {
    /// Table.
    pub table: String,
    /// Filter; without one, every row.
    pub filter: Option<Expr>,
    /// Whether a missing table is no error.
    pub if_exists: bool,
}

/// Single-row `DELETE` by primary key.
#[derive(Clone, Debug, PartialEq, Eq)]
pub struct DeleteByPrimaryKey {
    /// Table.
    pub table: String,
    /// Primary key.
    pub key: Vec<Value>,
}

impl DeleteByPrimaryKey {
    /// A deletion of the row with a primary key.
    pub fn new(table: &str, key: Vec<Value>) -> (r: DeleteByPrimaryKey)
        ensures
            r.table@ == table@,
            r.key == key,
    {
        DeleteByPrimaryKey { table: owned(table), key }
    }
}

/// Single-row `SELECT` by primary key.
#[derive(Clone, Debug, PartialEq, Eq)]
pub struct PointSelect {
    /// Table.
    pub table: String,
    /// Positions of the projected columns.
    pub projection: Vec<usize>,
    /// Primary key.
    pub key: Vec<Value>,
}

impl PointSelect {
    /// A read of columns of the row with a primary key.
    pub fn new(table: &str, projection: Vec<usize>, key: Vec<Value>) -> (r: PointSelect)
        ensures
            r.table@ == table@,
            r.projection == projection,
            r.key == key,
    {
        PointSelect { table: owned(table), projection, key }
    }
}

/// Comparison operators of analytical filters.
#[derive(Clone, Copy, Debug, PartialEq, Eq, Structural)]
pub enum ComparisonOp {
    /// `=`
    Eq,
    /// `!=`
    NotEq,
    /// `<`
    Lt,
    /// `<=`
    Lte,
    /// `>`
    Gt,
    /// `>=`
    Gte,
}

impl ComparisonOp {
    /// How the operator is written.
    pub open spec fn symbol(self) -> Seq<char> {
        match self {
            ComparisonOp::Eq => "="@,
            ComparisonOp::NotEq => "!="@,
            ComparisonOp::Lt => "<"@,
            ComparisonOp::Lte => "<="@,
            ComparisonOp::Gt => ">"@,
            ComparisonOp::Gte => ">="@,
        }
    }

    /// How the operator is written.
    pub fn text(self) -> (r: &'static str)
        ensures
            r@ == self.symbol(),
    {
        match self {
            ComparisonOp::Eq => "=",
            ComparisonOp::NotEq => "!=",
            ComparisonOp::Lt => "<",
            ComparisonOp::Lte => "<=",
            ComparisonOp::Gt => ">",
            ComparisonOp::Gte => ">=",
        }
    }
}

/// Filter of an analytical query: conjunctions of comparisons of a column with a literal, and of
/// tests for `NULL`.
#[derive(Debug, PartialEq)]
pub enum AnalyticFilter {
    /// Conjunction.
    And(Vec<AnalyticFilter>),
    /// `column op value`
    Comparison {
        /// Position of the column.
        column: usize,
        /// Operator.
        op: ComparisonOp,
        /// Literal.
        value: Value,
    },
    /// `column IS NULL`
    IsNull {
        /// Position of the column.
        column: usize,
    },
    /// `column IS NOT NULL`
    IsNotNull {
        /// Position of the column.
        column: usize,
    },
}

/// The mathematical model of an [`AnalyticFilter`].
pub enum FilterView {
    /// Conjunction.
    And(Seq<FilterView>),
    /// `column op value`
    Comparison {
        /// Position of the column.
        column: usize,
        /// Operator.
        op: ComparisonOp,
        /// Literal.
        value: ValueView,
    },
    /// `column IS NULL`
    IsNull {
        /// Position of the column.
        column: usize,
    },
    /// `column IS NOT NULL`
    IsNotNull {
        /// Position of the column.
        column: usize,
    },
}

/// The model of a filter.
pub open spec fn view_filter(f: AnalyticFilter) -> FilterView
    decreases f,
{
    match f {
        AnalyticFilter::And(list) => FilterView::And(view_filters(list)),
        AnalyticFilter::Comparison { column, op, value } => FilterView::Comparison {
            column,
            op,
            value: value@,
        },
        AnalyticFilter::IsNull { column } => FilterView::IsNull { column },
        AnalyticFilter::IsNotNull { column } => FilterView::IsNotNull { column },
    }
}

/// The models of a list of filters.
pub open spec fn view_filters(list: Vec<AnalyticFilter>) -> Seq<FilterView>
    decreases list,
{
    Seq::new(
        list@.len(),
        |i: int|
            if 0 <= i < list@.len() {
                view_filter(list@[i])
            } else {
                FilterView::And(Seq::empty())
            },
    )
}

impl View for AnalyticFilter {
    type V = FilterView;

    open spec fn view(&self) -> FilterView {
        view_filter(*self)
    }
}

/// The comparisons and tests that a filter consists of, from left to right.
pub open spec fn filter_leaves(f: FilterView) -> Seq<FilterView>
    decreases f, 0int,
{
    match f {
        FilterView::And(list) => list_leaves(list, list.len() as int),
        _ => seq![f],
    }
}

/// The leaves of the first `n` filters.
pub open spec fn list_leaves(list: Seq<FilterView>, n: int) -> Seq<FilterView>
    decreases list, n,
{
    if n <= 0 || n > list.len() {
        Seq::empty()
    } else {
        list_leaves(list, n - 1) + filter_leaves(list[n - 1])
    }
}

impl AnalyticFilter {
    /// The comparisons and tests that the filter consists of, from left to right.
    pub fn leaves(&self) -> (r: Vec<&AnalyticFilter>)
        ensures
            r@.len() == filter_leaves(self@).len(),
            forall|i: int| 0 <= i < r@.len() ==> (*#[trigger] r@[i])@ == filter_leaves(self@)[i],
        decreases *self,
    {
        match self {
            AnalyticFilter::And(list) => leaves_of(list),
            leaf => {
                let mut out: Vec<&AnalyticFilter> = Vec::new();
                out.push(leaf);
                out
            },
        }
    }

    /// A copy of the filter.
    pub fn copy(&self) -> (r: AnalyticFilter)
        ensures
            r@ == self@,
        decreases *self,
    {
        match self {
            AnalyticFilter::And(list) => AnalyticFilter::And(copy_filters(list)),
            AnalyticFilter::Comparison { column, op, value } => AnalyticFilter::Comparison {
                column: *column,
                op: *op,
                value: value.copy(),
            },
            AnalyticFilter::IsNull { column } => AnalyticFilter::IsNull { column: *column },
            AnalyticFilter::IsNotNull { column } => AnalyticFilter::IsNotNull { column: *column },
        }
    }
}

fn leaves_of(list: &Vec<AnalyticFilter>) -> (r: Vec<&AnalyticFilter>)
    ensures
        r@.len() == list_leaves(view_filters(*list), list@.len() as int).len(),
        forall|i: int|
            0 <= i < r@.len() ==> (*#[trigger] r@[i])@ == list_leaves(
                view_filters(*list),
                list@.len() as int,
            )[i],
    decreases *list,
{
    let mut out: Vec<&AnalyticFilter> = Vec::new();
    let mut i: usize = 0;
    while i < list.len()
        invariant
            i <= list.len(),
            out@.len() == list_leaves(view_filters(*list), i as int).len(),
            forall|k: int|
                0 <= k < out@.len() ==> (*#[trigger] out@[k])@ == list_leaves(
                    view_filters(*list),
                    i as int,
                )[k],
        decreases list.len() - i,
    {
        let mut part = list[i].leaves();
        assert(view_filters(*list)[i as int] == list@[i as int]@);
        out.append(&mut part);
        i = i + 1;
    }
    out
}

fn copy_filters(list: &Vec<AnalyticFilter>) -> (r: Vec<AnalyticFilter>)
    ensures
        view_filters(r) == view_filters(*list),
    decreases *list,
{
    let mut out: Vec<AnalyticFilter> = Vec::new();
    let mut i: usize = 0;
    while i < list.len()
        invariant
            i <= list.len(),
            out@.len() == i,
            forall|k: int| 0 <= k < i ==> view_filter(#[trigger] out@[k]) == view_filter(list@[k]),
        decreases list.len() - i,
    {
        let x = list[i].copy();
        out.push(x);
        i = i + 1;
    }
    assert(view_filters(out) =~= view_filters(*list));
    out
}

impl Clone for AnalyticFilter {
    fn clone(&self) -> (r: AnalyticFilter)
        ensures
            r@ == self@,
    {
        self.copy()
    }
}

/// Aggregate functions of analytical queries.
#[derive(Clone, Copy, Debug, PartialEq, Eq, Structural)]
pub enum AggregateFunction {
    /// `COUNT(*)`: the number of rows, never `NULL`.
    CountStar,
    /// `COUNT(column)`: the number of values that are not `NULL`.
    Count,
    /// `SUM(column)`: the sum of a numeric column.
    Sum,
    /// `MIN(column)`: the least value.
    Min,
    /// `MAX(column)`: the greatest value.
    Max,
}

/// An expression of an analytical projection.
#[derive(Clone, Debug, PartialEq)]
pub enum AnalyticExpr {
    /// A column.
    Column {
        /// Position of the column.
        index: usize,
        /// Name.
        name: String,
        /// Type.
        data_type: DataType,
        /// Nullability.
        nullable: bool,
    },
    /// An aggregate.
    Aggregate {
        /// Function.
        function: AggregateFunction,
        /// Position of the column; `None` for `COUNT(*)`.
        column_index: Option<usize>,
        /// Name.
        name: String,
        /// Type of the result.
        data_type: DataType,
        /// Nullability of the result.
        nullable: bool,
    },
}

/// The mathematical model of an [`AnalyticExpr`].
pub enum AnalyticView {
    /// A column.
    Column {
        /// Position of the column.
        index: usize,
        /// Name.
        name: Seq<char>,
        /// Type.
        data_type: DataType,
        /// Nullability.
        nullable: bool,
    },
    /// An aggregate.
    Aggregate {
        /// Function.
        function: AggregateFunction,
        /// Position of the column.
        column_index: Option<usize>,
        /// Name.
        name: Seq<char>,
        /// Type of the result.
        data_type: DataType,
        /// Nullability of the result.
        nullable: bool,
    },
}

impl View for AnalyticExpr {
    type V = AnalyticView;

    open spec fn view(&self) -> AnalyticView {
        match self {
            AnalyticExpr::Column { index, name, data_type, nullable } => AnalyticView::Column {
                index: *index,
                name: name@,
                data_type: *data_type,
                nullable: *nullable,
            },
            AnalyticExpr::Aggregate { function, column_index, name, data_type, nullable } => {
                AnalyticView::Aggregate {
                    function: *function,
                    column_index: *column_index,
                    name: name@,
                    data_type: *data_type,
                    nullable: *nullable,
                }
            },
        }
    }
}

impl AnalyticView {
    /// The output column of the expression.
    pub open spec fn column_def(self) -> ColumnView {
        match self {
            AnalyticView::Column { name, data_type, nullable, .. } => ColumnView {
                name,
                data_type,
                nullable,
                primary_key: false,
            },
            AnalyticView::Aggregate { name, data_type, nullable, .. } => ColumnView {
                name,
                data_type,
                nullable,
                primary_key: false,
            },
        }
    }
}

impl AnalyticExpr {
    /// The name of the output column.
    pub fn name(&self) -> (r: &str)
        ensures
            r@ == self@.column_def().name,
    {
        match self {
            AnalyticExpr::Column { name, .. } => name.as_str(),
            AnalyticExpr::Aggregate { name, .. } => name.as_str(),
        }
    }

    /// The type of the output column.
    pub fn data_type(&self) -> (r: DataType)
        ensures
            r == self@.column_def().data_type,
    {
        match self {
            AnalyticExpr::Column { data_type, .. } => *data_type,
            AnalyticExpr::Aggregate { data_type, .. } => *data_type,
        }
    }

    /// Whether the output column can be `NULL`.
    pub fn nullable(&self) -> (r: bool)
        ensures
            r == self@.column_def().nullable,
    {
        match self {
            AnalyticExpr::Column { nullable, .. } => *nullable,
            AnalyticExpr::Aggregate { nullable, .. } => *nullable,
        }
    }

    /// Whether the expression is an aggregate.
    pub fn is_aggregate(&self) -> (r: bool)
        ensures
            r == (self@ is Aggregate),
    {
        match self {
            AnalyticExpr::Aggregate { .. } => true,
            AnalyticExpr::Column { .. } => false,
        }
    }

    /// The position of the source column, if there is one.
    pub fn column_index(&self) -> (r: Option<usize>)
        ensures
            r == (match self@ {
                AnalyticView::Column { index, .. } => Some(index),
                AnalyticView::Aggregate { column_index, .. } => column_index,
            }),
    {
        match self {
            AnalyticExpr::Column { index, .. } => Some(*index),
            AnalyticExpr::Aggregate { column_index, .. } => *column_index,
        }
    }

    /// The output column.
    pub fn to_column_def(&self) -> (r: ColumnDef)
        ensures
            r@ == self@.column_def(),
    {
        ColumnDef {
            name: owned(self.name()),
            data_type: self.data_type(),
            nullable: self.nullable(),
            primary_key: false,
        }
    }
}

/// An item of the `ORDER BY` of an analytical query.
///
/// Without `NULLS FIRST` or `NULLS LAST`, `NULL` counts as the lowest value: first in ascending
/// order, last in descending order.
#[derive(Clone, Copy, Debug, PartialEq, Eq, Structural)]
pub struct AnalyticOrderBy {
    /// Position of the column.
    pub column: usize,
    /// Ascending.
    pub asc: bool,
    /// Whether `NULL` comes first.
    pub nulls_first: bool,
}

impl View for AnalyticOrderBy {
    type V = AnalyticOrderBy;

    open spec fn view(&self) -> AnalyticOrderBy {
        *self
    }
}

impl AnalyticOrderBy {
    /// An item of its parts.
    pub fn new(column: usize, asc: bool, nulls_first: bool) -> (r: AnalyticOrderBy)
        ensures
            r.column == column,
            r.asc == asc,
            r.nulls_first == nulls_first,
    {
        AnalyticOrderBy { column, asc, nulls_first }
    }
}

/// Analytical `SELECT`.
#[derive(Clone, Debug, PartialEq)]
pub struct AnalyticSelect {
    /// Table.
    pub table: String,
    /// Projection.
    pub projection: Vec<AnalyticExpr>,
    /// Filter.
    pub filter: Option<AnalyticFilter>,
    /// Positions of the grouping columns.
    pub group_by: Vec<usize>,
    /// Order.
    pub order_by: Vec<AnalyticOrderBy>,
    /// Columns of the result.
    pub output_schema: Schema,
}

impl AnalyticSelect {
    /// An analytical query of its parts.
    pub fn new(
        table: &str,
        projection: Vec<AnalyticExpr>,
        filter: Option<AnalyticFilter>,
        group_by: Vec<usize>,
        order_by: Vec<AnalyticOrderBy>,
        output_schema: Schema,
    ) -> (r: AnalyticSelect)
        ensures
            r.table@ == table@,
            r.projection == projection,
            r.filter == filter,
            r.group_by == group_by,
            r.order_by == order_by,
            r.output_schema == output_schema,
    {
        AnalyticSelect {
            table: owned(table),
            projection,
            filter,
            group_by,
            order_by,
            output_schema,
        }
    }

    /// The columns of the result.
    pub fn output_schema(&self) -> (r: &Schema)
        ensures
            *r == self.output_schema,
    {
        &self.output_schema
    }
}

/// The model of assignments.
pub open spec fn view_assignments(list: Seq<(usize, Expr)>) -> Seq<(usize, ExprView)> {
    Seq::new(list.len(), |i: int| (list[i].0, list[i].1@))
}

/// The rows of an `UPDATE`, as a mathematical value.
pub enum TargetView {
    /// The row with a primary key.
    PrimaryKey(Seq<ValueView>),
    /// The rows that a filter selects.
    Filter(Option<ExprView>),
}

/// The rows of an `INSERT`, as a mathematical value.
pub enum SourceView {
    /// Literal rows.
    Values(Seq<Seq<ValueView>>),
    /// The rows of a query.
    Query {
        /// The query.
        query: QueryView,
        /// The column that each output column fills.
        columns: Seq<usize>,
    },
}

/// What `SHOW` and `DESCRIBE` ask for, as a mathematical value.
pub enum ShowView {
    /// `SHOW TABLES`
    Tables(Option<Seq<char>>),
    /// `SHOW DATABASES`
    Databases,
    /// `SHOW COLUMNS`
    Columns(Seq<char>),
    /// `DESCRIBE`
    Describe(Seq<char>),
}

/// What a grant applies to, as a mathematical value.
pub enum GrantScopeView {
    /// Everything.
    Global,
    /// One table.
    Table(Seq<char>),
}

impl View for GrantScope {
    type V = GrantScopeView;

    open spec fn view(&self) -> GrantScopeView {
        match self {
            GrantScope::Global => GrantScopeView::Global,
            GrantScope::Table(t) => GrantScopeView::Table(t@),
        }
    }
}

impl View for ShowStatement {
    type V = ShowView;

    open spec fn view(&self) -> ShowView {
        match self {
            ShowStatement::Tables { like } => ShowView::Tables(option_view(*like)),
            ShowStatement::Databases => ShowView::Databases,
            ShowStatement::Columns { table } => ShowView::Columns(table@),
            ShowStatement::Describe { table } => ShowView::Describe(table@),
        }
    }
}

impl View for UpdateTarget {
    type V = TargetView;

    open spec fn view(&self) -> TargetView {
        match self {
            UpdateTarget::PrimaryKey(key) => TargetView::PrimaryKey(views(key@)),
            UpdateTarget::Filter(f) => TargetView::Filter(option_view(*f)),
        }
    }
}

impl View for InsertSource {
    type V = SourceView;

    open spec fn view(&self) -> SourceView {
        match self {
            InsertSource::Values(rows) => SourceView::Values(views(rows@)),
            InsertSource::Query { query, columns } => SourceView::Query {
                query: (*query)@,
                columns: columns@,
            },
        }
    }
}

/// The mathematical model of a [`BoundStatement`].
pub enum StatementView {
    /// `CREATE TABLE`
    CreateTable {
        /// Name.
        name: Seq<char>,
        /// Columns.
        schema: Seq<ColumnView>,
        /// Positions of the primary key columns.
        primary_key: Seq<usize>,
        /// Partitioning.
        partitioning: Option<PartitioningView>,
    },
    /// `INSERT`
    Insert {
        /// Table.
        table: Seq<char>,
        /// Rows.
        source: SourceView,
    },
    /// `DELETE` by primary key
    Delete {
        /// Table.
        table: Seq<char>,
        /// Primary key.
        key: Seq<ValueView>,
    },
    /// `DELETE` by filter
    DeleteRows {
        /// Table.
        table: Seq<char>,
        /// Filter.
        filter: Option<ExprView>,
        /// Whether a missing table is no error.
        if_exists: bool,
    },
    /// `SELECT` by primary key
    Select {
        /// Table.
        table: Seq<char>,
        /// Positions of the projected columns.
        projection: Seq<usize>,
        /// Primary key.
        key: Seq<ValueView>,
    },
    /// Analytical `SELECT`
    AnalyticSelect {
        /// Table.
        table: Seq<char>,
        /// Projection.
        projection: Seq<AnalyticView>,
        /// Filter.
        filter: Option<FilterView>,
        /// Positions of the grouping columns.
        group_by: Seq<usize>,
        /// Order.
        order_by: Seq<AnalyticOrderBy>,
        /// Columns of the result.
        output_schema: Seq<ColumnView>,
    },
    /// `ALTER TABLE` of partitions
    AlterPartitions {
        /// Table.
        table: Seq<char>,
        /// Change.
        alteration: AlterationView,
    },
    /// General query
    Query(QueryView),
    /// `UPDATE`
    Update {
        /// Table.
        table: Seq<char>,
        /// Assignments.
        assignments: Seq<(usize, ExprView)>,
        /// Rows.
        target: TargetView,
    },
    /// `DROP TABLE`
    DropTable {
        /// Table.
        table: Seq<char>,
        /// `IF EXISTS`.
        if_exists: bool,
    },
    /// `SHOW` and `DESCRIBE`
    Show(ShowView),
    /// `CREATE USER`
    CreateUser {
        /// Account.
        username: Seq<char>,
        /// `IF NOT EXISTS`.
        if_not_exists: bool,
        /// Password.
        password: Option<Seq<char>>,
    },
    /// `ALTER USER`
    AlterUser {
        /// Account.
        username: Seq<char>,
        /// `IF EXISTS`.
        if_exists: bool,
        /// Password.
        password: Seq<char>,
    },
    /// `DROP USER`
    DropUser {
        /// Accounts.
        usernames: Seq<Seq<char>>,
        /// `IF EXISTS`.
        if_exists: bool,
    },
    /// `GRANT`
    GrantPrivileges {
        /// Privileges.
        privileges: PrivilegeSet,
        /// Objects.
        scope: GrantScopeView,
        /// Account.
        grantee: Seq<char>,
    },
    /// `REVOKE`
    RevokePrivileges {
        /// Privileges.
        privileges: PrivilegeSet,
        /// Objects.
        scope: GrantScopeView,
        /// Account.
        grantee: Seq<char>,
    },
    /// `SHOW GRANTS`
    ShowGrants(Option<Seq<char>>),
    /// `ANALYZE TABLE`
    AnalyzeTable(Seq<char>),
    /// `EXPLAIN`
    Explain {
        /// What is explained.
        inner: Box<StatementView>,
        /// Whether it is run as well.
        analyze: bool,
    },
}

/// The model of a statement.
pub open spec fn view_statement(s: BoundStatement) -> StatementView
    decreases s,
{
    match s {
        BoundStatement::CreateTable(c) => StatementView::CreateTable {
            name: c.name@,
            schema: c.schema@,
            primary_key: c.primary_key@,
            partitioning: option_view(c.partitioning),
        },
        BoundStatement::Insert(i) => StatementView::Insert { table: i.table@, source: i.source@ },
        BoundStatement::Delete(d) => StatementView::Delete { table: d.table@, key: views(d.key@) },
        BoundStatement::DeleteRows(d) => StatementView::DeleteRows {
            table: d.table@,
            filter: option_view(d.filter),
            if_exists: d.if_exists,
        },
        BoundStatement::Select(p) => StatementView::Select {
            table: p.table@,
            projection: p.projection@,
            key: views(p.key@),
        },
        BoundStatement::AnalyticSelect(a) => StatementView::AnalyticSelect {
            table: a.table@,
            projection: views(a.projection@),
            filter: option_view(a.filter),
            group_by: a.group_by@,
            order_by: a.order_by@,
            output_schema: a.output_schema@,
        },
        BoundStatement::AlterPartitions(a) => StatementView::AlterPartitions {
            table: a.table@,
            alteration: a.alteration@,
        },
        BoundStatement::Query(q) => StatementView::Query((*q)@),
        BoundStatement::Update(u) => StatementView::Update {
            table: u.table@,
            assignments: view_assignments(u.assignments@),
            target: u.target@,
        },
        BoundStatement::DropTable(d) => StatementView::DropTable {
            table: d.table@,
            if_exists: d.if_exists,
        },
        BoundStatement::Show(s) => StatementView::Show(s@),
        BoundStatement::CreateUser(u) => StatementView::CreateUser {
            username: u.username@,
            if_not_exists: u.if_not_exists,
            password: option_view(u.password),
        },
        BoundStatement::AlterUser(u) => StatementView::AlterUser {
            username: u.username@,
            if_exists: u.if_exists,
            password: u.password@,
        },
        BoundStatement::DropUser(u) => StatementView::DropUser {
            usernames: views(u.usernames@),
            if_exists: u.if_exists,
        },
        BoundStatement::GrantPrivileges(g) => StatementView::GrantPrivileges {
            privileges: g.privileges,
            scope: g.scope@,
            grantee: g.grantee@,
        },
        BoundStatement::RevokePrivileges(g) => StatementView::RevokePrivileges {
            privileges: g.privileges,
            scope: g.scope@,
            grantee: g.grantee@,
        },
        BoundStatement::ShowGrants(g) => StatementView::ShowGrants(option_view(g.for_username)),
        BoundStatement::AnalyzeTable(t) => StatementView::AnalyzeTable(t@),
        BoundStatement::Explain { inner, analyze } => StatementView::Explain {
            inner: Box::new(view_statement(*inner)),
            analyze,
        },
    }
}

impl View for BoundStatement {
    type V = StatementView;

    open spec fn view(&self) -> StatementView {
        view_statement(*self)
    }
}

impl FromSpecImpl<CreateTable> for BoundStatement {
    open spec fn obeys_from_spec() -> bool {
        true
    }

    open spec fn from_spec(v: CreateTable) -> BoundStatement {
        BoundStatement::CreateTable(v)
    }
}

impl From<CreateTable> for BoundStatement {
    fn from(stmt: CreateTable) -> (r: BoundStatement) {
        BoundStatement::CreateTable(stmt)
    }
}

impl FromSpecImpl<Insert> for BoundStatement {
    open spec fn obeys_from_spec() -> bool {
        true
    }

    open spec fn from_spec(v: Insert) -> BoundStatement {
        BoundStatement::Insert(v)
    }
}

impl From<Insert> for BoundStatement {
    fn from(stmt: Insert) -> (r: BoundStatement) {
        BoundStatement::Insert(stmt)
    }
}

impl FromSpecImpl<DeleteByPrimaryKey> for BoundStatement {
    open spec fn obeys_from_spec() -> bool {
        true
    }

    open spec fn from_spec(v: DeleteByPrimaryKey) -> BoundStatement {
        BoundStatement::Delete(v)
    }
}

impl From<DeleteByPrimaryKey> for BoundStatement {
    fn from(stmt: DeleteByPrimaryKey) -> (r: BoundStatement) {
        BoundStatement::Delete(stmt)
    }
}

impl FromSpecImpl<PointSelect> for BoundStatement {
    open spec fn obeys_from_spec() -> bool {
        true
    }

    open spec fn from_spec(v: PointSelect) -> BoundStatement {
        BoundStatement::Select(v)
    }
}

impl From<PointSelect> for BoundStatement {
    fn from(stmt: PointSelect) -> (r: BoundStatement) {
        BoundStatement::Select(stmt)
    }
}

impl FromSpecImpl<AnalyticSelect> for BoundStatement {
    open spec fn obeys_from_spec() -> bool {
        true
    }

    open spec fn from_spec(v: AnalyticSelect) -> BoundStatement {
        BoundStatement::AnalyticSelect(v)
    }
}

impl From<AnalyticSelect> for BoundStatement {
    fn from(stmt: AnalyticSelect) -> (r: BoundStatement) {
        BoundStatement::AnalyticSelect(stmt)
    }
}

} // verus!
