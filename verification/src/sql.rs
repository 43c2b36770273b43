//! The syntax tree that the binder reads.
//!
//! The tree holds of a parsed statement what binding decides on. Where only the presence of a
//! clause matters it is a flag, and where a node is shown in a message or names an output column
//! it carries the text it was written as.

use crate::double::Double;
use crate::clauses::{
    CallModifiers, SelectModifiers, SortClauses, TableExtras, TableOptions, WildcardModifiers,
};
use vstd::prelude::*;

verus! {

/// A part of an object name.
#[derive(Debug)]
pub enum ObjectNamePart {
    /// An identifier.
    Identifier(String),
    /// A function call in place of an identifier.
    Function,
}

/// A possibly qualified name.
#[derive(Debug)]
pub struct ObjectName {
    /// The parts.
    pub parts: Vec<ObjectNamePart>,
    /// The name as it is written.
    pub text: String,
}

/// A literal.
#[derive(Debug)]
pub enum SqlValue {
    /// A numeral.
    Number {
        /// The digits as written.
        digits: String,
        /// The double that the digits denote, if they denote one.
        double: Option<Double>,
    },
    /// `'...'`
    SingleQuoted(String),
    /// `"..."`
    DoubleQuoted(String),
    /// `N'...'`
    National(String),
    /// `E'...'`
    Escaped(String),
    /// `X'...'`
    Hex(String),
    /// `TRUE` or `FALSE`
    Boolean(bool),
    /// `NULL`
    Null,
    /// A placeholder.
    Placeholder,
    /// Any other literal.
    Other,
}

/// A unary operator.
#[derive(Debug)]
pub enum UnaryOperator {
    /// `NOT`
    Not,
    /// `-`
    Minus,
    /// `+`
    Plus,
    /// Any other operator, as it is written.
    Other(String),
}

/// A binary operator.
#[derive(Debug)]
pub enum BinaryOperator {
    /// `+`
    Plus,
    /// `-`
    Minus,
    /// `*`
    Multiply,
    /// `/`
    Divide,
    /// `DIV`
    IntegerDivide,
    /// `%`
    Modulo,
    /// `=`
    Eq,
    /// `<>`
    NotEq,
    /// `<`
    Lt,
    /// `<=`
    LtEq,
    /// `>`
    Gt,
    /// `>=`
    GtEq,
    /// `AND`
    And,
    /// `OR`
    Or,
    /// Any other operator, as it is written.
    Other(String),
}

/// A calendar field.
#[derive(Debug)]
pub enum DateTimeField {
    /// `YEAR`
    Year,
    /// `MONTH`
    Month,
    /// `DAY`
    Day,
    /// Any other field, as it is written.
    Other(String),
}

/// Digits of an exact numeric type.
#[derive(Clone, Copy, Debug)]
pub enum ExactNumberInfo {
    /// None given.
    Unspecified,
    /// Digits in all.
    Precision(u64),
    /// Digits in all and behind the point.
    PrecisionAndScale(u64, i64),
}

/// The keyword of a type.
#[derive(Clone, Copy, Debug)]
pub enum SqlTypeKind {
    /// `BOOLEAN`
    Boolean,
    /// `BOOL`
    Bool,
    /// `TINYINT`, with the given width
    TinyInt(Option<u64>),
    /// `SMALLINT`
    SmallInt,
    /// `INT`
    Int,
    /// `INTEGER`
    Integer,
    /// `MEDIUMINT`
    MediumInt,
    /// `INT4`
    Int4,
    /// `BIGINT`
    BigInt,
    /// `INT8`
    Int8,
    /// `SIGNED`
    Signed,
    /// `SIGNED INTEGER`
    SignedInteger,
    /// `UNSIGNED`
    Unsigned,
    /// `UNSIGNED INTEGER`
    UnsignedInteger,
    /// `FLOAT`
    Float,
    /// `FLOAT4`
    Float4,
    /// `FLOAT8`
    Float8,
    /// `REAL`
    Real,
    /// `DOUBLE`
    Double,
    /// `DOUBLE PRECISION`
    DoublePrecision,
    /// `DECIMAL`
    Decimal(ExactNumberInfo),
    /// `NUMERIC`
    Numeric(ExactNumberInfo),
    /// `DEC`
    Dec(ExactNumberInfo),
    /// `CHAR`
    Char,
    /// `CHARACTER`
    Character,
    /// `VARCHAR`
    Varchar,
    /// `CHAR VARYING`
    CharVarying,
    /// `CHARACTER VARYING`
    CharacterVarying,
    /// `TEXT`
    Text,
    /// `STRING`
    Str,
    /// `NVARCHAR`
    Nvarchar,
    /// `BINARY`
    Binary,
    /// `VARBINARY`
    Varbinary,
    /// `BLOB`
    Blob,
    /// `BYTES`
    Bytes,
    /// `TIMESTAMP`
    Timestamp,
    /// `DATETIME`
    Datetime,
    /// `DATE`
    Date,
    /// Any other type.
    Other,
}

/// A type.
#[derive(Debug)]
pub struct SqlDataType {
    /// The keyword.
    pub kind: SqlTypeKind,
    /// The type as it is written.
    pub text: String,
}

/// An expression.
#[derive(Debug)]
pub struct SqlExpr {
    /// What the expression is.
    pub node: SqlNode,
    /// The expression as it is written.
    pub text: String,
}

/// The forms of an expression.
#[derive(Debug)]
pub enum SqlNode {
    /// `name`
    Identifier(String),
    /// `a.b`
    CompoundIdentifier(Vec<String>),
    /// A literal.
    Value(SqlValue),
    /// `(expr)`
    Nested(Box<SqlExpr>),
    /// `DATE '...'`; `None` where no text follows.
    DateLiteral(Option<String>),
    /// Any other typed literal.
    TypedLiteral,
    /// `INTERVAL value unit`
    Interval {
        /// Number of units.
        value: Box<SqlExpr>,
        /// Unit.
        unit: Option<DateTimeField>,
    },
    /// A unary operator.
    UnaryOp {
        /// Operator.
        op: UnaryOperator,
        /// Operand.
        expr: Box<SqlExpr>,
    },
    /// A binary operator.
    BinaryOp {
        /// Left operand.
        left: Box<SqlExpr>,
        /// Operator.
        op: BinaryOperator,
        /// Right operand.
        right: Box<SqlExpr>,
    },
    /// `EXTRACT(field FROM expr)`
    Extract {
        /// Field.
        field: DateTimeField,
        /// Operand.
        expr: Box<SqlExpr>,
    },
    /// `SUBSTRING(expr, start, length)`
    Substring {
        /// Operand.
        expr: Box<SqlExpr>,
        /// Start.
        start: Option<Box<SqlExpr>>,
        /// Length.
        length: Option<Box<SqlExpr>>,
    },
    /// `expr IS NULL`
    IsNull(Box<SqlExpr>),
    /// `expr IS NOT NULL`
    IsNotNull(Box<SqlExpr>),
    /// `expr IS [NOT] TRUE` or `expr IS [NOT] FALSE`
    IsTruth {
        /// Operand.
        expr: Box<SqlExpr>,
        /// Which truth value.
        target: bool,
        /// `NOT`.
        negated: bool,
    },
    /// `expr [NOT] LIKE pattern`
    Like {
        /// `NOT`.
        negated: bool,
        /// `LIKE ANY`.
        any: bool,
        /// Operand.
        expr: Box<SqlExpr>,
        /// Pattern.
        pattern: Box<SqlExpr>,
        /// `ESCAPE` is given.
        escape: bool,
    },
    /// `expr [NOT] IN (list)`
    InList {
        /// Operand.
        expr: Box<SqlExpr>,
        /// Candidates.
        list: Vec<SqlExpr>,
        /// `NOT`.
        negated: bool,
    },
    /// `expr [NOT] BETWEEN low AND high`
    Between {
        /// Operand.
        expr: Box<SqlExpr>,
        /// `NOT`.
        negated: bool,
        /// Lower bound.
        low: Box<SqlExpr>,
        /// Upper bound.
        high: Box<SqlExpr>,
    },
    /// `CASE`
    Case {
        /// Operand.
        operand: Option<Box<SqlExpr>>,
        /// Branches.
        conditions: Vec<CaseWhen>,
        /// `ELSE`.
        else_result: Option<Box<SqlExpr>>,
    },
    /// `CAST(expr AS type)`
    Cast {
        /// Whether it is written `CAST`, and not as another conversion.
        plain: bool,
        /// Operand.
        expr: Box<SqlExpr>,
        /// Target.
        data_type: SqlDataType,
    },
    /// A function call.
    Function(Box<Function>),
    /// `(query)`
    Subquery(Box<Query>),
    /// `expr [NOT] IN (query)`
    InSubquery {
        /// Operand.
        expr: Box<SqlExpr>,
        /// Query.
        subquery: Box<Query>,
        /// `NOT`.
        negated: bool,
    },
    /// `[NOT] EXISTS (query)`
    Exists {
        /// Query.
        subquery: Box<Query>,
        /// `NOT`.
        negated: bool,
    },
    /// `(a, b)`
    Tuple(Vec<SqlExpr>),
    /// Any other expression.
    Other,
}

/// A branch of a `CASE`.
#[derive(Debug)]
pub struct CaseWhen {
    /// `WHEN`.
    pub condition: SqlExpr,
    /// `THEN`.
    pub result: SqlExpr,
}

/// Whether repeated arguments count.
#[derive(Clone, Copy, Debug, PartialEq, Eq, Structural)]
pub enum DuplicateTreatment {
    /// `DISTINCT`
    Distinct,
    /// `ALL`
    All,
}

/// An argument of a function.
#[derive(Debug)]
pub enum FunctionArg {
    /// An expression.
    Expr(SqlExpr),
    /// `*`
    Wildcard,
    /// Any other form.
    Other,
}

/// Arguments in parentheses.
#[derive(Debug)]
pub struct ArgumentList {
    /// `DISTINCT` or `ALL`.
    pub duplicates: Option<DuplicateTreatment>,
    /// The arguments.
    pub args: Vec<FunctionArg>,
    /// Whether clauses follow the arguments.
    pub clauses: bool,
}

/// The arguments of a function.
#[derive(Debug)]
pub enum FunctionArguments {
    /// No parentheses.
    Missing,
    /// A query.
    Subquery,
    /// A list.
    List(ArgumentList),
}

/// A function call.
#[derive(Debug)]
pub struct Function {
    /// Name.
    pub name: ObjectName,
    /// `OVER`.
    pub over: Option<WindowType>,
    /// Whether `FILTER` is given.
    pub filter: bool,
    /// Whether `IGNORE NULLS` or `RESPECT NULLS` is given.
    pub null_treatment: bool,
    /// Whether `WITHIN GROUP` is given or the call is in ODBC syntax.
    pub modifiers: CallModifiers,
    /// Whether parameters stand before the arguments.
    pub parameters: bool,
    /// Arguments.
    pub args: FunctionArguments,
}

/// The window of a call.
#[derive(Debug)]
pub enum WindowType {
    /// A window defined elsewhere.
    Named,
    /// A window defined here.
    Spec(SqlWindow),
}

/// A window.
#[derive(Debug)]
pub struct SqlWindow {
    /// Whether it extends a named window.
    pub named: bool,
    /// `PARTITION BY`.
    pub partition_by: Vec<SqlExpr>,
    /// `ORDER BY`.
    pub order_by: Vec<OrderByExpr>,
    /// Frame.
    pub frame: Option<SqlFrame>,
}

/// What frame bounds count.
#[derive(Clone, Copy, Debug)]
pub enum FrameUnits {
    /// `ROWS`
    Rows,
    /// `RANGE`
    Range,
    /// `GROUPS`
    Groups,
}

/// A frame.
#[derive(Debug)]
pub struct SqlFrame {
    /// Units.
    pub units: FrameUnits,
    /// Start.
    pub start: FrameBound,
    /// End.
    pub end: Option<FrameBound>,
}

/// A bound of a frame.
#[derive(Debug)]
pub enum FrameBound {
    /// `CURRENT ROW`
    CurrentRow,
    /// `PRECEDING`; without a distance it is unbounded.
    Preceding(Option<Box<SqlExpr>>),
    /// `FOLLOWING`; without a distance it is unbounded.
    Following(Option<Box<SqlExpr>>),
}

/// An item of an `ORDER BY`.
#[derive(Debug)]
pub struct OrderByExpr {
    /// Expression.
    pub expr: SqlExpr,
    /// `ASC` or `DESC`.
    pub asc: Option<bool>,
    /// `NULLS FIRST` or `NULLS LAST`.
    pub nulls_first: Option<bool>,
    /// `WITH FILL`.
    pub with_fill: bool,
}

/// `ORDER BY`.
#[derive(Debug)]
pub struct OrderBy {
    /// `ORDER BY ALL`.
    pub all: bool,
    /// Items.
    pub exprs: Vec<OrderByExpr>,
    /// `INTERPOLATE`.
    pub interpolate: bool,
}

/// `LIMIT` and `OFFSET`.
#[derive(Debug)]
pub enum LimitClause {
    /// `LIMIT n OFFSET m`
    LimitOffset {
        /// `LIMIT`.
        limit: Option<SqlExpr>,
        /// `OFFSET`.
        offset: Option<SqlExpr>,
        /// `LIMIT BY`.
        limit_by: bool,
    },
    /// `LIMIT m, n`
    OffsetCommaLimit {
        /// Offset.
        offset: SqlExpr,
        /// Limit.
        limit: SqlExpr,
    },
}

/// A query.
#[derive(Debug)]
pub struct Query {
    /// `WITH`.
    pub with: Option<With>,
    /// Body.
    pub body: Box<SetExpr>,
    /// `ORDER BY`.
    pub order_by: Option<OrderBy>,
    /// `LIMIT`.
    pub limit: Option<LimitClause>,
    /// `FETCH`.
    pub fetch: bool,
    /// Locking clauses.
    pub locks: bool,
    /// `FOR XML` and the like.
    pub for_clause: bool,
    /// `SETTINGS`.
    pub settings: bool,
    /// `FORMAT`.
    pub format: bool,
    /// Pipe operators.
    pub pipes: bool,
}

/// `WITH`.
#[derive(Debug)]
pub struct With {
    /// `RECURSIVE`.
    pub recursive: bool,
    /// Common table expressions.
    pub ctes: Vec<Cte>,
}

/// A common table expression.
#[derive(Debug)]
pub struct Cte {
    /// Name.
    pub name: String,
    /// Name as it is written.
    pub shown: String,
    /// Column names.
    pub columns: Vec<String>,
    /// Query.
    pub query: Box<Query>,
    /// `FROM` clause.
    pub from: bool,
}

/// Set operators.
#[derive(Debug)]
pub enum SetOperator {
    /// `UNION`
    Union,
    /// `EXCEPT`
    Except,
    /// `INTERSECT`
    Intersect,
    /// Any other operator, as it is written.
    Other(String),
}

/// Quantifiers of set operators.
#[derive(Debug)]
pub enum SetQuantifier {
    /// `ALL`
    All,
    /// `DISTINCT`
    Distinct,
    /// Not given.
    Unspecified,
    /// Any other quantifier, as it is written.
    Other(String),
}

/// The body of a query.
#[derive(Debug)]
pub enum SetExpr {
    /// `SELECT`
    Select(Box<Select>),
    /// `(query)`
    Query(Box<Query>),
    /// A set operation.
    SetOperation {
        /// Operator.
        op: SetOperator,
        /// Quantifier.
        quantifier: SetQuantifier,
        /// Left branch.
        left: Box<SetExpr>,
        /// Right branch.
        right: Box<SetExpr>,
    },
    /// `VALUES`
    Values(Vec<Vec<SqlExpr>>),
    /// Any other body.
    Other,
}

/// `DISTINCT` of a select block.
#[derive(Clone, Copy, Debug)]
pub enum Distinct {
    /// `ALL`
    All,
    /// `DISTINCT`
    Distinct,
    /// `DISTINCT ON`
    On,
}

/// `GROUP BY`.
#[derive(Debug)]
pub enum GroupBy {
    /// `GROUP BY ALL`
    All,
    /// A list.
    Expressions {
        /// Items.
        exprs: Vec<SqlExpr>,
        /// `WITH ROLLUP` and the like.
        modifiers: bool,
    },
}

/// An item of a select list.
#[derive(Debug)]
pub enum SelectItem {
    /// `*`
    Wildcard {
        /// `EXCEPT`, `REPLACE` and the like.
        modified: WildcardModifiers,
    },
    /// `t.*`; `None` where an expression stands before the star.
    QualifiedWildcard(Option<ObjectName>),
    /// An expression.
    UnnamedExpr(SqlExpr),
    /// An expression with a name.
    ExprWithAlias {
        /// Expression.
        expr: SqlExpr,
        /// Name.
        alias: String,
    },
    /// An expression with several names.
    ExprWithAliases,
}

/// A select block.
#[derive(Debug)]
pub struct Select {
    /// `TOP`.
    pub top: bool,
    /// `INTO`.
    pub into: bool,
    /// `LATERAL VIEW`.
    pub lateral_views: bool,
    /// `PREWHERE`.
    pub prewhere: bool,
    /// `WINDOW`.
    pub named_window: bool,
    /// `QUALIFY`.
    pub qualify: bool,
    /// `CLUSTER BY`, `DISTRIBUTE BY` or `SORT BY`.
    pub sort_clauses: SortClauses,
    /// `CONNECT BY`.
    pub connect_by: bool,
    /// `EXCLUDE` or `AS STRUCT` and the like.
    pub modifiers: SelectModifiers,
    /// `DISTINCT`.
    pub distinct: Option<Distinct>,
    /// Select list.
    pub projection: Vec<SelectItem>,
    /// `FROM`.
    pub from: Vec<TableWithJoins>,
    /// `WHERE`.
    pub selection: Option<SqlExpr>,
    /// `GROUP BY`.
    pub group_by: GroupBy,
    /// `HAVING`.
    pub having: Option<SqlExpr>,
}

/// A relation with what is joined to it.
#[derive(Debug)]
pub struct TableWithJoins {
    /// The first relation.
    pub relation: TableFactor,
    /// Joins.
    pub joins: Vec<Join>,
}

/// A join.
#[derive(Debug)]
pub struct Join {
    /// `GLOBAL`.
    pub global: bool,
    /// Operator.
    pub operator: JoinOperator,
    /// Right input.
    pub relation: TableFactor,
}

/// Join operators.
#[derive(Debug)]
pub enum JoinOperator {
    /// `[INNER] JOIN`
    Inner(JoinConstraint),
    /// `LEFT [OUTER] JOIN`
    Left(JoinConstraint),
    /// `RIGHT [OUTER] JOIN`
    Right(JoinConstraint),
    /// `FULL [OUTER] JOIN`
    Full(JoinConstraint),
    /// `CROSS JOIN`
    Cross(JoinConstraint),
    /// `SEMI JOIN` of any side
    Semi,
    /// `ANTI JOIN` of any side
    Anti,
    /// `CROSS APPLY` or `OUTER APPLY`
    Apply,
    /// `ASOF JOIN`
    AsOf,
    /// Any other join.
    Other,
}

/// The condition of a join.
#[derive(Debug)]
pub enum JoinConstraint {
    /// `ON`
    On(SqlExpr),
    /// `USING`
    Using(Vec<ObjectName>),
    /// `NATURAL`
    Natural,
    /// Not given.
    Unspecified,
}

/// The name of a relation in a query.
#[derive(Debug)]
pub struct TableAlias {
    /// Name.
    pub name: String,
    /// Whether column names follow.
    pub columns: bool,
}

/// A relation.
#[derive(Debug)]
pub enum TableFactor {
    /// A table.
    Table {
        /// Name.
        name: ObjectName,
        /// Alias.
        alias: Option<TableAlias>,
        /// Arguments, hints, a version or partitions.
        options: TableOptions,
        /// Ordinality, a JSON path, a sample or index hints.
        extras: TableExtras,
    },
    /// A subquery.
    Derived {
        /// `LATERAL`.
        lateral: bool,
        /// Query.
        subquery: Box<Query>,
        /// Alias.
        alias: Option<TableAlias>,
        /// `TABLESAMPLE`.
        sample: bool,
    },
    /// Joins in parentheses.
    NestedJoin {
        /// Joins.
        tables: Box<TableWithJoins>,
        /// Whether an alias is given.
        alias: bool,
    },
    /// Any other relation.
    Other,
}

} // verus!
