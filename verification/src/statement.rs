//! The syntax tree of statements.

use crate::catalog::PartitioningMethod;
use crate::clauses::{
    DropOptions, ExplainOptions, GrantOptions, InsertAliases, KeyOptions, RowLimits,
    ShowColumnsModifiers, ShowDatabasesOptions, ShowTablesModifiers, ShowTablesOptions,
    TableClauses, TableFlags, TableInheritance, TableLayout, TableModifiers, TableSources,
    UpdateResults, UserOptions,
};
use crate::sql::{ObjectName, Query, SqlDataType, SqlExpr, TableWithJoins};
use vstd::prelude::*;

verus! {

/// A column of a key.
#[derive(Debug)]
pub struct IndexColumn {
    /// The column.
    pub expr: SqlExpr,
    /// Whether an operator class is given.
    pub operator_class: bool,
}

/// `PRIMARY KEY`.
#[derive(Debug)]
pub struct PrimaryKeySpec {
    /// Columns.
    pub columns: Vec<IndexColumn>,
    /// Whether an index type, index options or characteristics are given.
    pub options: KeyOptions,
}

/// A constraint of a table.
#[derive(Debug)]
pub enum TableConstraint {
    /// `PRIMARY KEY`
    PrimaryKey(PrimaryKeySpec),
    /// `UNIQUE`
    Unique,
    /// `FOREIGN KEY`
    ForeignKey,
    /// `CHECK`
    Check,
    /// `INDEX`, full-text or spatial
    Index,
    /// `USING INDEX`
    UsingIndex,
}

/// An option of a column.
#[derive(Debug)]
pub enum ColumnOption {
    /// `NULL`
    Null,
    /// `NOT NULL`
    NotNull,
    /// `PRIMARY KEY`
    PrimaryKey(PrimaryKeySpec),
    /// `DEFAULT`
    Default,
    /// `GENERATED`
    Generated,
    /// `UNIQUE`
    Unique,
    /// `REFERENCES`
    ForeignKey,
    /// `CHECK`
    Check,
    /// Any other option, as it is described.
    Other(String),
}

/// A column of `CREATE TABLE`.
#[derive(Debug)]
pub struct ColumnSpec {
    /// Name.
    pub name: String,
    /// Type.
    pub data_type: SqlDataType,
    /// Options.
    pub options: Vec<ColumnOption>,
}

/// `VALUES LESS THAN`.
#[derive(Debug)]
pub enum LessThanBound {
    /// `MAXVALUE`
    MaxValue,
    /// A value.
    Expr(SqlExpr),
}

/// The keys of a partition.
#[derive(Debug)]
pub enum PartitionValues {
    /// `VALUES LESS THAN`
    LessThan(LessThanBound),
    /// `VALUES IN`
    In(Vec<SqlExpr>),
}

/// A partition.
#[derive(Debug)]
pub struct PartitionDef {
    /// Name.
    pub name: String,
    /// Keys.
    pub values: PartitionValues,
}

/// `PARTITION BY`.
#[derive(Debug)]
pub struct PartitionBy {
    /// `RANGE` or `LIST`.
    pub method: PartitioningMethod,
    /// `COLUMNS(...)`.
    pub columns: Option<Vec<String>>,
    /// `(expr)`.
    pub expr: Option<SqlExpr>,
    /// Partitions.
    pub partitions: Vec<PartitionDef>,
}

/// `CREATE TABLE`.
#[derive(Debug)]
pub struct SqlCreateTable {
    /// `OR REPLACE`.
    pub or_replace: bool,
    /// `TEMPORARY`.
    pub temporary: bool,
    /// `EXTERNAL`.
    pub external: bool,
    /// `GLOBAL` or `LOCAL`.
    pub global: bool,
    /// `IF NOT EXISTS`.
    pub if_not_exists: bool,
    /// `TRANSIENT`, `VOLATILE`, `ICEBERG` or `SNAPSHOT`.
    pub modifiers: TableModifiers,
    /// `AS query`.
    pub query: bool,
    /// `WITHOUT ROWID`.
    pub without_rowid: bool,
    /// `LIKE` or `CLONE`.
    pub like_or_clone: TableSources,
    /// A version, a comment, `ON COMMIT` or `ON CLUSTER`.
    pub clauses: TableClauses,
    /// `ORDER BY`, `PARTITION BY`, `CLUSTER BY` or `CLUSTERED BY`.
    pub layout: TableLayout,
    /// `INHERITS`, `PARTITION OF` or `FOR VALUES`.
    pub inheritance: TableInheritance,
    /// `STRICT` or `COPY GRANTS`.
    pub flags: TableFlags,
    /// Engine and other table options.
    pub table_options: bool,
    /// Name.
    pub name: ObjectName,
    /// Columns.
    pub columns: Vec<ColumnSpec>,
    /// Constraints.
    pub constraints: Vec<TableConstraint>,
    /// `PRIMARY KEY` as a clause of its own.
    pub primary_key: Option<SqlExpr>,
    /// Partitioning.
    pub partition_by: Option<PartitionBy>,
}

/// An operation of `ALTER TABLE`.
#[derive(Debug)]
pub enum AlterOperation {
    /// `ADD PARTITION`
    AddPartition(Vec<PartitionDef>),
    /// `DROP PARTITION`
    DropPartition(Vec<String>),
    /// `REORGANIZE PARTITION`
    ReorganizePartition {
        /// Partitions that go.
        partitions: Vec<String>,
        /// Partitions that come.
        into_partitions: Vec<PartitionDef>,
    },
    /// Any other operation, as it is written.
    Other(String),
}

/// `ALTER TABLE`.
#[derive(Debug)]
pub struct SqlAlterTable {
    /// `IF EXISTS`.
    pub if_exists: bool,
    /// `ONLY`.
    pub only: bool,
    /// `ON CLUSTER`.
    pub on_cluster: bool,
    /// `LOCATION`.
    pub location: bool,
    /// A table type.
    pub table_type: bool,
    /// Name.
    pub name: ObjectName,
    /// Operations.
    pub operations: Vec<AlterOperation>,
}

/// `INSERT`.
#[derive(Debug)]
pub struct SqlInsert {
    /// `IGNORE`.
    pub ignore: bool,
    /// `REPLACE INTO`.
    pub replace_into: bool,
    /// `ON DUPLICATE KEY UPDATE` and the like.
    pub on: bool,
    /// `RETURNING`.
    pub returning: bool,
    /// `SET`.
    pub assignments: bool,
    /// Aliases.
    pub alias: InsertAliases,
    /// Table; `None` where something else stands in its place.
    pub table: Option<ObjectName>,
    /// Columns.
    pub columns: Vec<ObjectName>,
    /// Rows.
    pub source: Option<Box<Query>>,
}

/// `DELETE`.
#[derive(Debug)]
pub struct SqlDelete {
    /// Tables before `FROM`.
    pub tables: bool,
    /// `USING`.
    pub using: bool,
    /// `RETURNING`.
    pub returning: bool,
    /// `ORDER BY` or `LIMIT`.
    pub ordered: RowLimits,
    /// `FROM`.
    pub from: Vec<TableWithJoins>,
    /// `WHERE`.
    pub selection: Option<SqlExpr>,
}

/// A table of `TRUNCATE`.
#[derive(Debug)]
pub struct TruncateTarget {
    /// Name.
    pub name: ObjectName,
    /// `ONLY`.
    pub only: bool,
    /// `*`.
    pub has_asterisk: bool,
}

/// `TRUNCATE`.
#[derive(Debug)]
pub struct SqlTruncate {
    /// Tables.
    pub table_names: Vec<TruncateTarget>,
    /// Partitions.
    pub partitions: bool,
    /// `RESTART IDENTITY` or `CONTINUE IDENTITY`.
    pub identity: bool,
    /// `CASCADE` or `RESTRICT`.
    pub cascade: bool,
    /// `ON CLUSTER`.
    pub on_cluster: bool,
    /// `IF EXISTS`.
    pub if_exists: bool,
}

/// What an assignment changes.
#[derive(Debug)]
pub enum AssignmentTarget {
    /// A column.
    ColumnName(ObjectName),
    /// Several columns.
    Tuple,
}

/// `target = value`.
#[derive(Debug)]
pub struct Assignment {
    /// Target.
    pub target: AssignmentTarget,
    /// Value.
    pub value: SqlExpr,
}

/// `UPDATE`.
#[derive(Debug)]
pub struct SqlUpdate {
    /// `FROM`.
    pub from: bool,
    /// `RETURNING` or `OUTPUT`.
    pub returning: UpdateResults,
    /// `OR`.
    pub or_clause: bool,
    /// `ORDER BY` or `LIMIT`.
    pub ordered: RowLimits,
    /// Table.
    pub table: TableWithJoins,
    /// Assignments.
    pub assignments: Vec<Assignment>,
    /// `WHERE`.
    pub selection: Option<SqlExpr>,
}

/// The name of an account.
#[derive(Debug)]
pub enum GranteeName {
    /// A bare name.
    ObjectName(ObjectName),
    /// `user@host`
    UserHost {
        /// User.
        user: String,
        /// Host.
        host: String,
    },
}

/// `CREATE USER`.
#[derive(Debug)]
pub struct SqlCreateUser {
    /// `OR REPLACE`, options or tags.
    pub options: UserOptions,
    /// Account.
    pub name: GranteeName,
    /// `IF NOT EXISTS`.
    pub if_not_exists: bool,
    /// `IDENTIFIED BY`.
    pub identified_by: Option<String>,
}

/// The password of `ALTER USER`.
#[derive(Debug)]
pub struct UserPassword {
    /// Whether it is already encrypted.
    pub encrypted: bool,
    /// Password.
    pub password: Option<String>,
}

/// `ALTER USER`.
#[derive(Debug)]
pub struct SqlAlterUser {
    /// Account.
    pub name: GranteeName,
    /// `IF EXISTS`.
    pub if_exists: bool,
    /// `IDENTIFIED BY`.
    pub password: Option<UserPassword>,
}

/// A privilege.
#[derive(Debug)]
pub enum Action {
    /// `SELECT`, of columns or not
    Select {
        /// Whether columns are given.
        columns: bool,
    },
    /// `INSERT`, of columns or not
    Insert {
        /// Whether columns are given.
        columns: bool,
    },
    /// `UPDATE`, of columns or not
    Update {
        /// Whether columns are given.
        columns: bool,
    },
    /// `DELETE`
    Delete,
    /// `CREATE`
    Create,
    /// `DROP`
    Drop,
    /// Any other privilege, as it is written.
    Other(String),
}

/// Privileges.
#[derive(Debug)]
pub enum Privileges {
    /// `ALL`
    All,
    /// A list.
    Actions(Vec<Action>),
}

/// The kind of a grantee.
#[derive(Clone, Copy, Debug, PartialEq, Eq, Structural)]
pub enum GranteeKind {
    /// Not given.
    Unspecified,
    /// `USER`
    User,
    /// Any other kind.
    Other,
}

/// A grantee.
#[derive(Debug)]
pub struct Grantee {
    /// Kind.
    pub kind: GranteeKind,
    /// Account.
    pub name: Option<GranteeName>,
}

/// What privileges are on.
#[derive(Debug)]
pub enum GrantObjects {
    /// Databases.
    Databases(Vec<ObjectName>),
    /// All tables of schemas.
    AllTablesInSchema(Vec<ObjectName>),
    /// Tables.
    Tables(Vec<ObjectName>),
    /// Anything else.
    Other,
}

/// `GRANT` or `REVOKE`.
#[derive(Debug)]
pub struct SqlGrant {
    /// Options that change who grants or what follows.
    pub options: GrantOptions,
    /// Privileges.
    pub privileges: Privileges,
    /// Objects.
    pub objects: Option<GrantObjects>,
    /// Grantees.
    pub grantees: Vec<Grantee>,
}

/// `ANALYZE`.
#[derive(Debug)]
pub struct SqlAnalyze {
    /// Table.
    pub table_name: Option<ObjectName>,
    /// `FOR COLUMNS`.
    pub for_columns: bool,
    /// `NOSCAN`.
    pub noscan: bool,
    /// `PARTITION`.
    pub partitions: bool,
}

/// The kind of a dropped object.
#[derive(Debug)]
pub enum ObjectType {
    /// `TABLE`
    Table,
    /// Any other kind, as it is written.
    Other(String),
}

/// `DROP`.
#[derive(Debug)]
pub struct SqlDrop {
    /// Kind.
    pub object_type: ObjectType,
    /// `IF EXISTS`.
    pub if_exists: bool,
    /// Names.
    pub names: Vec<ObjectName>,
    /// `CASCADE`, `PURGE`, `TEMPORARY` or a table the object belongs to.
    pub options: DropOptions,
}

/// The filter of a `SHOW`.
#[derive(Debug)]
pub enum ShowFilter {
    /// `LIKE`
    Like(String),
    /// Any other filter.
    Other,
}

/// A statement.
#[derive(Debug)]
pub enum SqlStatement {
    /// `CREATE TABLE`
    CreateTable(SqlCreateTable),
    /// `INSERT`
    Insert(SqlInsert),
    /// `DELETE`
    Delete(SqlDelete),
    /// `TRUNCATE`
    Truncate(SqlTruncate),
    /// A query.
    Query(Query),
    /// `ALTER TABLE`
    AlterTable(SqlAlterTable),
    /// `UPDATE`
    Update(SqlUpdate),
    /// `CREATE USER`
    CreateUser(SqlCreateUser),
    /// `ALTER USER`
    AlterUser(SqlAlterUser),
    /// `DROP USER`
    DropUser {
        /// `IF EXISTS`.
        if_exists: bool,
        /// Accounts.
        names: Vec<GranteeName>,
    },
    /// `GRANT`
    Grant(SqlGrant),
    /// `REVOKE`
    Revoke(SqlGrant),
    /// `SHOW GRANTS`
    ShowGrants(Option<GranteeName>),
    /// `ANALYZE`
    Analyze(SqlAnalyze),
    /// `EXPLAIN`
    Explain {
        /// `VERBOSE`, a format and the like.
        options: ExplainOptions,
        /// `ANALYZE`.
        analyze: bool,
        /// What is explained.
        statement: Box<SqlStatement>,
    },
    /// `DROP`
    Drop(SqlDrop),
    /// `SHOW TABLES`
    ShowTables {
        /// `HISTORY`, `EXTENDED`, `FULL` or `EXTERNAL`.
        modifiers: ShowTablesModifiers,
        /// `IN`, `STARTS WITH` or `LIMIT`.
        options: ShowTablesOptions,
        /// Filter.
        filter: Option<ShowFilter>,
    },
    /// `SHOW DATABASES`
    ShowDatabases {
        /// `IN` or a filter.
        options: ShowDatabasesOptions,
    },
    /// `SHOW COLUMNS`
    ShowColumns {
        /// `EXTENDED` or `FULL`.
        modifiers: ShowColumnsModifiers,
        /// Whether a filter is given.
        filter: bool,
        /// `FROM`.
        table: Option<ObjectName>,
    },
    /// `DESCRIBE table`
    ExplainTable {
        /// `FORMATTED` or `EXTENDED`.
        formatted: bool,
        /// Whether it is written `EXPLAIN`.
        explain: bool,
        /// Table.
        table_name: ObjectName,
    },
    /// Any other statement, as it is written.
    Other(String),
}

} // verus!
