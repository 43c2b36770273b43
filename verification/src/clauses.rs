//! Clauses of statements of which only it matters whether one of them stands there.

use vstd::prelude::*;

verus! {

/// The clauses that sort or distribute the rows of a `SELECT` outside `ORDER BY`.
#[derive(Clone, Copy, Debug, Default)]
pub struct SortClauses {
    /// `CLUSTER BY`.
    pub cluster_by: bool,
    /// `DISTRIBUTE BY`.
    pub distribute_by: bool,
    /// `SORT BY`.
    pub sort_by: bool,
}

impl SortClauses {
    /// Whether one of them is there.
    pub open spec fn any(&self) -> bool {
        self.cluster_by || self.distribute_by || self.sort_by
    }

    /// Whether one of them is there.
    #[verifier::when_used_as_spec(any)]
    pub fn given(&self) -> (r: bool)
        ensures
            r == self.any(),
    {
        self.cluster_by || self.distribute_by || self.sort_by
    }
}

/// What changes the select list as a whole.
#[derive(Clone, Copy, Debug, Default)]
pub struct SelectModifiers {
    /// `EXCLUDE`.
    pub exclude: bool,
    /// `AS VALUE` or `AS STRUCT`.
    pub value_table_mode: bool,
}

impl SelectModifiers {
    /// Whether one of them is there.
    pub open spec fn any(&self) -> bool {
        self.exclude || self.value_table_mode
    }

    /// Whether one of them is there.
    #[verifier::when_used_as_spec(any)]
    pub fn given(&self) -> (r: bool)
        ensures
            r == self.any(),
    {
        self.exclude || self.value_table_mode
    }
}

/// What changes the columns of a wildcard.
#[derive(Clone, Copy, Debug, Default)]
pub struct WildcardModifiers {
    /// `EXCLUDE`.
    pub exclude: bool,
    /// `EXCEPT`.
    pub except: bool,
    /// `REPLACE`.
    pub replace: bool,
    /// `RENAME`.
    pub rename: bool,
    /// `ILIKE`.
    pub ilike: bool,
}

impl WildcardModifiers {
    /// Whether one of them is there.
    pub open spec fn any(&self) -> bool {
        self.exclude || self.except || self.replace || self.rename || self.ilike
    }

    /// Whether one of them is there.
    #[verifier::when_used_as_spec(any)]
    pub fn given(&self) -> (r: bool)
        ensures
            r == self.any(),
    {
        self.exclude || self.except || self.replace || self.rename || self.ilike
    }
}

/// What stands behind the name of a table in `FROM`.
#[derive(Clone, Copy, Debug, Default)]
pub struct TableOptions {
    /// Arguments.
    pub args: bool,
    /// `WITH` hints.
    pub with_hints: bool,
    /// A version.
    pub version: bool,
    /// `PARTITION`.
    pub partitions: bool,
}

impl TableOptions {
    /// Whether one of them is there.
    pub open spec fn any(&self) -> bool {
        self.args || self.with_hints || self.version || self.partitions
    }

    /// Whether one of them is there.
    #[verifier::when_used_as_spec(any)]
    pub fn given(&self) -> (r: bool)
        ensures
            r == self.any(),
    {
        self.args || self.with_hints || self.version || self.partitions
    }
}

/// What else stands behind the name of a table in `FROM`.
#[derive(Clone, Copy, Debug, Default)]
pub struct TableExtras {
    /// `WITH ORDINALITY`.
    pub with_ordinality: bool,
    /// A JSON path.
    pub json_path: bool,
    /// `TABLESAMPLE`.
    pub sample: bool,
    /// Index hints.
    pub index_hints: bool,
}

impl TableExtras {
    /// Whether one of them is there.
    pub open spec fn any(&self) -> bool {
        self.with_ordinality || self.json_path || self.sample || self.index_hints
    }

    /// Whether one of them is there.
    #[verifier::when_used_as_spec(any)]
    pub fn given(&self) -> (r: bool)
        ensures
            r == self.any(),
    {
        self.with_ordinality || self.json_path || self.sample || self.index_hints
    }
}

/// What changes how a function is called.
#[derive(Clone, Copy, Debug, Default)]
pub struct CallModifiers {
    /// `WITHIN GROUP`.
    pub within_group: bool,
    /// The ODBC escape syntax.
    pub odbc_syntax: bool,
}

impl CallModifiers {
    /// Whether one of them is there.
    pub open spec fn any(&self) -> bool {
        self.within_group || self.odbc_syntax
    }

    /// Whether one of them is there.
    #[verifier::when_used_as_spec(any)]
    pub fn given(&self) -> (r: bool)
        ensures
            r == self.any(),
    {
        self.within_group || self.odbc_syntax
    }
}

/// The options of `CREATE USER`.
#[derive(Clone, Copy, Debug, Default)]
pub struct UserOptions {
    /// `OR REPLACE`.
    pub or_replace: bool,
    /// Options.
    pub options: bool,
    /// `WITH` before tags.
    pub with_tags: bool,
    /// Tags.
    pub tags: bool,
}

impl UserOptions {
    /// Whether one of them is there.
    pub open spec fn any(&self) -> bool {
        self.or_replace || self.options || self.with_tags || self.tags
    }

    /// Whether one of them is there.
    #[verifier::when_used_as_spec(any)]
    pub fn given(&self) -> (r: bool)
        ensures
            r == self.any(),
    {
        self.or_replace || self.options || self.with_tags || self.tags
    }
}

/// The options of `GRANT` and `REVOKE`.
#[derive(Clone, Copy, Debug, Default)]
pub struct GrantOptions {
    /// `WITH GRANT OPTION`.
    pub grant_option: bool,
    /// `AS`.
    pub as_grantor: bool,
    /// `GRANTED BY`.
    pub granted_by: bool,
    /// `COPY` or `REVOKE CURRENT GRANTS`.
    pub current_grants: bool,
    /// `CASCADE` or `RESTRICT`.
    pub cascade: bool,
}

impl GrantOptions {
    /// Whether one of them is there.
    pub open spec fn any(&self) -> bool {
        self.grant_option || self.as_grantor || self.granted_by || self.current_grants || self.cascade
    }

    /// Whether one of them is there.
    #[verifier::when_used_as_spec(any)]
    pub fn given(&self) -> (r: bool)
        ensures
            r == self.any(),
    {
        self.grant_option || self.as_grantor || self.granted_by || self.current_grants || self.cascade
    }
}

/// The options of `EXPLAIN`.
#[derive(Clone, Copy, Debug, Default)]
pub struct ExplainOptions {
    /// `VERBOSE`.
    pub verbose: bool,
    /// `QUERY PLAN`.
    pub query_plan: bool,
    /// `ESTIMATE`.
    pub estimate: bool,
    /// `FORMAT`.
    pub format: bool,
    /// A list of options.
    pub options: bool,
}

impl ExplainOptions {
    /// Whether one of them is there.
    pub open spec fn any(&self) -> bool {
        self.verbose || self.query_plan || self.estimate || self.format || self.options
    }

    /// Whether one of them is there.
    #[verifier::when_used_as_spec(any)]
    pub fn given(&self) -> (r: bool)
        ensures
            r == self.any(),
    {
        self.verbose || self.query_plan || self.estimate || self.format || self.options
    }
}

/// The options of `DROP`.
#[derive(Clone, Copy, Debug, Default)]
pub struct DropOptions {
    /// `CASCADE`.
    pub cascade: bool,
    /// `PURGE`.
    pub purge: bool,
    /// `TEMPORARY`.
    pub temporary: bool,
    /// `ON` with a table.
    pub table: bool,
}

impl DropOptions {
    /// Whether one of them is there.
    pub open spec fn any(&self) -> bool {
        self.cascade || self.purge || self.temporary || self.table
    }

    /// Whether one of them is there.
    #[verifier::when_used_as_spec(any)]
    pub fn given(&self) -> (r: bool)
        ensures
            r == self.any(),
    {
        self.cascade || self.purge || self.temporary || self.table
    }
}

/// What stands between `SHOW` and `TABLES`.
#[derive(Clone, Copy, Debug, Default)]
pub struct ShowTablesModifiers {
    /// `HISTORY`.
    pub history: bool,
    /// `EXTENDED`.
    pub extended: bool,
    /// `FULL`.
    pub full: bool,
    /// `EXTERNAL`.
    pub external: bool,
}

impl ShowTablesModifiers {
    /// Whether one of them is there.
    pub open spec fn any(&self) -> bool {
        self.history || self.extended || self.full || self.external
    }

    /// Whether one of them is there.
    #[verifier::when_used_as_spec(any)]
    pub fn given(&self) -> (r: bool)
        ensures
            r == self.any(),
    {
        self.history || self.extended || self.full || self.external
    }
}

/// The options of `SHOW TABLES`.
#[derive(Clone, Copy, Debug, Default)]
pub struct ShowTablesOptions {
    /// `IN`.
    pub show_in: bool,
    /// `STARTS WITH`.
    pub starts_with: bool,
    /// `LIMIT`.
    pub limit: bool,
    /// `FROM` behind `LIMIT`.
    pub limit_from: bool,
}

impl ShowTablesOptions {
    /// Whether one of them is there.
    pub open spec fn any(&self) -> bool {
        self.show_in || self.starts_with || self.limit || self.limit_from
    }

    /// Whether one of them is there.
    #[verifier::when_used_as_spec(any)]
    pub fn given(&self) -> (r: bool)
        ensures
            r == self.any(),
    {
        self.show_in || self.starts_with || self.limit || self.limit_from
    }
}

/// The options of `SHOW DATABASES`.
#[derive(Clone, Copy, Debug, Default)]
pub struct ShowDatabasesOptions {
    /// A filter.
    pub filter: bool,
    /// `IN`.
    pub show_in: bool,
}

impl ShowDatabasesOptions {
    /// Whether one of them is there.
    pub open spec fn any(&self) -> bool {
        self.filter || self.show_in
    }

    /// Whether one of them is there.
    #[verifier::when_used_as_spec(any)]
    pub fn given(&self) -> (r: bool)
        ensures
            r == self.any(),
    {
        self.filter || self.show_in
    }
}

/// What stands between `SHOW` and `COLUMNS`.
#[derive(Clone, Copy, Debug, Default)]
pub struct ShowColumnsModifiers {
    /// `EXTENDED`.
    pub extended: bool,
    /// `FULL`.
    pub full: bool,
}

impl ShowColumnsModifiers {
    /// Whether one of them is there.
    pub open spec fn any(&self) -> bool {
        self.extended || self.full
    }

    /// Whether one of them is there.
    #[verifier::when_used_as_spec(any)]
    pub fn given(&self) -> (r: bool)
        ensures
            r == self.any(),
    {
        self.extended || self.full
    }
}

/// The options of a primary key.
#[derive(Clone, Copy, Debug, Default)]
pub struct KeyOptions {
    /// `USING`.
    pub index_type: bool,
    /// Options of the index.
    pub index_options: bool,
    /// `DEFERRABLE` and the like.
    pub characteristics: bool,
}

impl KeyOptions {
    /// Whether one of them is there.
    pub open spec fn any(&self) -> bool {
        self.index_type || self.index_options || self.characteristics
    }

    /// Whether one of them is there.
    #[verifier::when_used_as_spec(any)]
    pub fn given(&self) -> (r: bool)
        ensures
            r == self.any(),
    {
        self.index_type || self.index_options || self.characteristics
    }
}

/// What stands between `CREATE` and `TABLE`.
#[derive(Clone, Copy, Debug, Default)]
pub struct TableModifiers {
    /// `TRANSIENT`.
    pub transient: bool,
    /// `VOLATILE`.
    pub volatile: bool,
    /// `ICEBERG`.
    pub iceberg: bool,
    /// `SNAPSHOT`.
    pub snapshot: bool,
}

impl TableModifiers {
    /// Whether one of them is there.
    pub open spec fn any(&self) -> bool {
        self.transient || self.volatile || self.iceberg || self.snapshot
    }

    /// Whether one of them is there.
    #[verifier::when_used_as_spec(any)]
    pub fn given(&self) -> (r: bool)
        ensures
            r == self.any(),
    {
        self.transient || self.volatile || self.iceberg || self.snapshot
    }
}

/// What a new table is copied from.
#[derive(Clone, Copy, Debug, Default)]
pub struct TableSources {
    /// `LIKE`.
    pub like: bool,
    /// `CLONE`.
    pub clone: bool,
}

impl TableSources {
    /// Whether one of them is there.
    pub open spec fn any(&self) -> bool {
        self.like || self.clone
    }

    /// Whether one of them is there.
    #[verifier::when_used_as_spec(any)]
    pub fn given(&self) -> (r: bool)
        ensures
            r == self.any(),
    {
        self.like || self.clone
    }
}

/// Clauses of `CREATE TABLE`.
#[derive(Clone, Copy, Debug, Default)]
pub struct TableClauses {
    /// A version.
    pub version: bool,
    /// `COMMENT`.
    pub comment: bool,
    /// `ON COMMIT`.
    pub on_commit: bool,
    /// `ON CLUSTER`.
    pub on_cluster: bool,
}

impl TableClauses {
    /// Whether one of them is there.
    pub open spec fn any(&self) -> bool {
        self.version || self.comment || self.on_commit || self.on_cluster
    }

    /// Whether one of them is there.
    #[verifier::when_used_as_spec(any)]
    pub fn given(&self) -> (r: bool)
        ensures
            r == self.any(),
    {
        self.version || self.comment || self.on_commit || self.on_cluster
    }
}

/// Clauses of `CREATE TABLE` on how rows are laid out.
#[derive(Clone, Copy, Debug, Default)]
pub struct TableLayout {
    /// `ORDER BY`.
    pub order_by: bool,
    /// `PARTITION BY` of another dialect.
    pub partition_by: bool,
    /// `CLUSTER BY`.
    pub cluster_by: bool,
    /// `CLUSTERED BY`.
    pub clustered_by: bool,
}

impl TableLayout {
    /// Whether one of them is there.
    pub open spec fn any(&self) -> bool {
        self.order_by || self.partition_by || self.cluster_by || self.clustered_by
    }

    /// Whether one of them is there.
    #[verifier::when_used_as_spec(any)]
    pub fn given(&self) -> (r: bool)
        ensures
            r == self.any(),
    {
        self.order_by || self.partition_by || self.cluster_by || self.clustered_by
    }
}

/// Clauses of `CREATE TABLE` on a parent table.
#[derive(Clone, Copy, Debug, Default)]
pub struct TableInheritance {
    /// `INHERITS`.
    pub inherits: bool,
    /// `PARTITION OF`.
    pub partition_of: bool,
    /// `FOR VALUES`.
    pub for_values: bool,
}

impl TableInheritance {
    /// Whether one of them is there.
    pub open spec fn any(&self) -> bool {
        self.inherits || self.partition_of || self.for_values
    }

    /// Whether one of them is there.
    #[verifier::when_used_as_spec(any)]
    pub fn given(&self) -> (r: bool)
        ensures
            r == self.any(),
    {
        self.inherits || self.partition_of || self.for_values
    }
}

/// Flags of `CREATE TABLE`.
#[derive(Clone, Copy, Debug, Default)]
pub struct TableFlags {
    /// `STRICT`.
    pub strict: bool,
    /// `COPY GRANTS`.
    pub copy_grants: bool,
}

impl TableFlags {
    /// Whether one of them is there.
    pub open spec fn any(&self) -> bool {
        self.strict || self.copy_grants
    }

    /// Whether one of them is there.
    #[verifier::when_used_as_spec(any)]
    pub fn given(&self) -> (r: bool)
        ensures
            r == self.any(),
    {
        self.strict || self.copy_grants
    }
}

/// The aliases of `INSERT`.
#[derive(Clone, Copy, Debug, Default)]
pub struct InsertAliases {
    /// Of the table.
    pub table: bool,
    /// Of the row.
    pub row: bool,
}

impl InsertAliases {
    /// Whether one of them is there.
    pub open spec fn any(&self) -> bool {
        self.table || self.row
    }

    /// Whether one of them is there.
    #[verifier::when_used_as_spec(any)]
    pub fn given(&self) -> (r: bool)
        ensures
            r == self.any(),
    {
        self.table || self.row
    }
}

/// What limits the rows that a statement changes.
#[derive(Clone, Copy, Debug, Default)]
pub struct RowLimits {
    /// `ORDER BY`.
    pub order_by: bool,
    /// `LIMIT`.
    pub limit: bool,
}

impl RowLimits {
    /// Whether one of them is there.
    pub open spec fn any(&self) -> bool {
        self.order_by || self.limit
    }

    /// Whether one of them is there.
    #[verifier::when_used_as_spec(any)]
    pub fn given(&self) -> (r: bool)
        ensures
            r == self.any(),
    {
        self.order_by || self.limit
    }
}

/// What an `UPDATE` returns.
#[derive(Clone, Copy, Debug, Default)]
pub struct UpdateResults {
    /// `RETURNING`.
    pub returning: bool,
    /// `OUTPUT`.
    pub output: bool,
}

impl UpdateResults {
    /// Whether one of them is there.
    pub open spec fn any(&self) -> bool {
        self.returning || self.output
    }

    /// Whether one of them is there.
    #[verifier::when_used_as_spec(any)]
    pub fn given(&self) -> (r: bool)
        ensures
            r == self.any(),
    {
        self.returning || self.output
    }
}

} // verus!
