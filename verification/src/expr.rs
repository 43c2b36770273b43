//! Bound expressions: the tree, its static types, and what a tree refers to.

use crate::text::same_text;
use crate::value::{
    option_view, outcome, views, DataType, ErrorView, HtapError, Value, ValueView,
    MAX_DECIMAL_PRECISION,
};
use crate::text::{cat3, cat7, nat_text, unsigned_text};
use vstd::prelude::*;

verus! {

/// Binary operators.
#[derive(Clone, Copy, Debug, PartialEq, Eq, Hash, Structural)]
pub enum BinOp {
    /// `+`
    Add,
    /// `-`
    Sub,
    /// `*`
    Mul,
    /// `/`
    Div,
    /// `DIV`, the integer quotient.
    IntDiv,
    /// `%`
    Mod,
    /// `=`
    Eq,
    /// `<>`
    NotEq,
    /// `<`
    Lt,
    /// `<=`
    Lte,
    /// `>`
    Gt,
    /// `>=`
    Gte,
    /// `AND`
    And,
    /// `OR`
    Or,
}

impl BinOp {
    /// Whether the operator compares its operands.
    pub open spec fn comparison(self) -> bool {
        match self {
            BinOp::Eq => true,
            BinOp::NotEq => true,
            BinOp::Lt => true,
            BinOp::Lte => true,
            BinOp::Gt => true,
            BinOp::Gte => true,
            _ => false,
        }
    }

    /// Whether the operator computes a number.
    pub open spec fn arithmetic(self) -> bool {
        match self {
            BinOp::Add => true,
            BinOp::Sub => true,
            BinOp::Mul => true,
            BinOp::Div => true,
            BinOp::IntDiv => true,
            BinOp::Mod => true,
            _ => false,
        }
    }

    /// Whether the operator divides: it yields `NULL` where the divisor is zero.
    pub open spec fn divides(self) -> bool {
        self == BinOp::Div || self == BinOp::IntDiv || self == BinOp::Mod
    }

    /// How the operator is written.
    pub open spec fn symbol(self) -> Seq<char> {
        match self {
            BinOp::Add => "+"@,
            BinOp::Sub => "-"@,
            BinOp::Mul => "*"@,
            BinOp::Div => "/"@,
            BinOp::IntDiv => "DIV"@,
            BinOp::Mod => "%"@,
            BinOp::Eq => "="@,
            BinOp::NotEq => "<>"@,
            BinOp::Lt => "<"@,
            BinOp::Lte => "<="@,
            BinOp::Gt => ">"@,
            BinOp::Gte => ">="@,
            BinOp::And => "AND"@,
            BinOp::Or => "OR"@,
        }
    }

    /// Whether the operator is a comparison producing a boolean.
    pub fn is_comparison(self) -> (r: bool)
        ensures
            r == self.comparison(),
    {
        match self {
            BinOp::Eq | BinOp::NotEq | BinOp::Lt | BinOp::Lte | BinOp::Gt | BinOp::Gte => true,
            _ => false,
        }
    }

    /// Whether the operator is arithmetic.
    pub fn is_arithmetic(self) -> (r: bool)
        ensures
            r == self.arithmetic(),
    {
        match self {
            BinOp::Add | BinOp::Sub | BinOp::Mul | BinOp::Div | BinOp::IntDiv | BinOp::Mod => true,
            _ => false,
        }
    }

    /// Whether the operator divides.
    pub(crate) fn is_division(self) -> (r: bool)
        ensures
            r == self.divides(),
    {
        match self {
            BinOp::Div | BinOp::IntDiv | BinOp::Mod => true,
            _ => false,
        }
    }

    /// How the operator is written.
    pub fn text(self) -> (r: &'static str)
        ensures
            r@ == self.symbol(),
    {
        match self {
            BinOp::Add => "+",
            BinOp::Sub => "-",
            BinOp::Mul => "*",
            BinOp::Div => "/",
            BinOp::IntDiv => "DIV",
            BinOp::Mod => "%",
            BinOp::Eq => "=",
            BinOp::NotEq => "<>",
            BinOp::Lt => "<",
            BinOp::Lte => "<=",
            BinOp::Gt => ">",
            BinOp::Gte => ">=",
            BinOp::And => "AND",
            BinOp::Or => "OR",
        }
    }
}

/// Scalar functions.
#[derive(Clone, Copy, Debug, PartialEq, Eq, Hash, Structural)]
pub enum ScalarFn {
    /// `UPPER(s)`
    Upper,
    /// `LOWER(s)`
    Lower,
    /// `LENGTH(s)` in bytes
    Length,
    /// `CHAR_LENGTH(s)` in characters
    CharLength,
    /// `CONCAT(a, b, ...)`
    Concat,
    /// `ABS(n)`
    Abs,
    /// `COALESCE(a, b, ...)`
    Coalesce,
    /// `IFNULL(a, b)`
    IfNull,
    /// `NULLIF(a, b)`
    NullIf,
    /// `SUBSTRING(s, start[, length])`
    Substring,
    /// `EXTRACT(unit FROM timestamp)`
    Extract(CalendarIntervalUnit),
}

/// Units of calendar intervals.
#[derive(Clone, Copy, Debug, PartialEq, Eq, Hash, Structural)]
pub enum CalendarIntervalUnit {
    /// Calendar years.
    Year,
    /// Calendar months.
    Month,
    /// Calendar days.
    Day,
}

/// Aggregate functions.
#[derive(Clone, Copy, Debug, PartialEq, Eq, Hash, Structural)]
pub enum AggFn {
    /// `COUNT(*)`
    CountStar,
    /// `COUNT(expr)`
    Count,
    /// `SUM(expr)`
    Sum,
    /// `AVG(expr)`
    Avg,
    /// `MIN(expr)`
    Min,
    /// `MAX(expr)`
    Max,
}

/// An aggregate computed once per group. Expressions refer to it by index.
#[derive(Debug, PartialEq)]
pub struct AggregateSpec {
    /// Aggregate function.
    pub func: AggFn,
    /// `DISTINCT` modifier.
    pub distinct: bool,
    /// Argument, evaluated per input row; `None` for `COUNT(*)`.
    pub arg: Option<Expr>,
    /// Result type.
    pub data_type: DataType,
    /// Whether the result can be `NULL`.
    pub nullable: bool,
    /// Display name, such as `SUM(x)`.
    pub name: String,
}

/// Static type of an expression.
#[derive(Clone, Copy, Debug, PartialEq, Eq, Structural)]
pub struct ExprType {
    /// Data type. The literal `NULL` and variables are given [`DataType::String`].
    pub data_type: DataType,
    /// Whether the expression can evaluate to `NULL`.
    pub nullable: bool,
    /// Whether the expression is the literal `NULL`.
    pub is_null_literal: bool,
    /// Whether the expression is a variable, whose type is known only when it is evaluated.
    pub is_dynamic: bool,
}

impl View for ExprType {
    type V = ExprType;

    open spec fn view(&self) -> ExprType {
        *self
    }
}

/// The static type of an ordinary expression.
pub open spec fn plain_type(data_type: DataType, nullable: bool) -> ExprType {
    ExprType { data_type, nullable, is_null_literal: false, is_dynamic: false }
}

impl ExprType {
    /// Whether static checks accept the expression anywhere.
    pub open spec fn permissive(self) -> bool {
        self.is_null_literal || self.is_dynamic
    }

    /// The type of an ordinary expression.
    pub fn new(data_type: DataType, nullable: bool) -> (r: ExprType)
        ensures
            r == plain_type(data_type, nullable),
    {
        ExprType { data_type, nullable, is_null_literal: false, is_dynamic: false }
    }

    /// Whether the type is numeric (`Int32`, `Int64`, `Float64`).
    pub fn is_numeric(&self) -> (r: bool)
        ensures
            r == (self.data_type == DataType::Int32 || self.data_type == DataType::Int64
                || self.data_type == DataType::Float64),
    {
        match self.data_type {
            DataType::Int32 | DataType::Int64 | DataType::Float64 => true,
            _ => false,
        }
    }

    /// Whether static checks accept the expression anywhere: `NULL` literals and variables.
    pub fn is_permissive(&self) -> (r: bool)
        ensures
            r == self.permissive(),
    {
        self.is_null_literal || self.is_dynamic
    }
}

/// Bound expression.
#[derive(Debug, PartialEq)]
pub enum Expr {
    /// Column of a FROM slot, resolved to its offset in the flat joined row.
    ColumnRef {
        /// FROM slot index.
        slot: usize,
        /// Column index within the slot.
        column: usize,
        /// Offset within the flat joined row.
        offset: usize,
        /// Column name.
        name: String,
        /// Data type.
        data_type: DataType,
        /// Nullability, outer joins accounted for.
        nullable: bool,
    },
    /// Column of the immediately enclosing query's input row.
    CorrelatedColumnRef {
        /// Offset within the enclosing query's flat joined row.
        offset: usize,
        /// Column name.
        name: String,
        /// Data type.
        data_type: DataType,
        /// Nullability in the enclosing query.
        nullable: bool,
    },
    /// Output column, named by an alias or an ordinal.
    OutputColumn {
        /// Index in the projection.
        index: usize,
        /// Data type.
        data_type: DataType,
        /// Nullability.
        nullable: bool,
    },
    /// Literal value.
    Literal(Value),
    /// Binary operator.
    BinaryOp {
        /// Operator.
        op: BinOp,
        /// Left operand.
        left: Box<Expr>,
        /// Right operand.
        right: Box<Expr>,
    },
    /// Logical `NOT`.
    Not(Box<Expr>),
    /// Unary minus.
    Negate(Box<Expr>),
    /// `expr IS NULL`.
    IsNull(Box<Expr>),
    /// `expr IS NOT NULL`.
    IsNotNull(Box<Expr>),
    /// `expr [NOT] LIKE pattern`.
    Like {
        /// Value expression.
        expr: Box<Expr>,
        /// Pattern expression.
        pattern: Box<Expr>,
        /// `NOT LIKE`.
        negated: bool,
    },
    /// `expr [NOT] IN (list)`.
    In {
        /// Value expression.
        expr: Box<Expr>,
        /// Candidates.
        list: Vec<Expr>,
        /// `NOT IN`.
        negated: bool,
    },
    /// `expr [NOT] BETWEEN low AND high`.
    Between {
        /// Value expression.
        expr: Box<Expr>,
        /// Lower bound, inclusive.
        low: Box<Expr>,
        /// Upper bound, inclusive.
        high: Box<Expr>,
        /// `NOT BETWEEN`.
        negated: bool,
    },
    /// `CASE [operand] WHEN ... THEN ... [ELSE ...] END`.
    Case {
        /// Operand of a simple `CASE`.
        operand: Option<Box<Expr>>,
        /// `(condition, result)` branches.
        branches: Vec<(Expr, Expr)>,
        /// `ELSE` result.
        else_result: Option<Box<Expr>>,
        /// Result type.
        data_type: DataType,
        /// Result nullability.
        nullable: bool,
    },
    /// `CAST(expr AS type)`.
    Cast {
        /// Operand.
        expr: Box<Expr>,
        /// Target type.
        to: DataType,
    },
    /// `expr + INTERVAL quantity unit` or `expr - INTERVAL quantity unit`.
    CalendarInterval {
        /// Timestamp operand.
        expr: Box<Expr>,
        /// Number of units.
        quantity: Box<Expr>,
        /// Calendar unit.
        unit: CalendarIntervalUnit,
        /// Whether the interval is subtracted.
        negated: bool,
    },
    /// Scalar function call.
    ScalarFunction {
        /// Function.
        func: ScalarFn,
        /// Arguments.
        args: Vec<Expr>,
        /// Result type.
        data_type: DataType,
        /// Result nullability.
        nullable: bool,
    },
    /// Aggregate of the enclosing query.
    AggregateRef {
        /// Index into the query's aggregate list.
        index: usize,
        /// Result type.
        data_type: DataType,
        /// Result nullability.
        nullable: bool,
    },
    /// Window function of the enclosing query.
    WindowRef {
        /// Index into the query's window list.
        index: usize,
        /// Result type.
        data_type: DataType,
        /// Result nullability.
        nullable: bool,
    },
    /// Scalar subquery.
    ScalarSubquery {
        /// Index into the query's subquery list.
        index: usize,
        /// Result type.
        data_type: DataType,
        /// Whether the subquery is run against the current row.
        correlated: bool,
    },
    /// `expr [NOT] IN (subquery)`.
    InSubquery {
        /// Value expression.
        expr: Box<Expr>,
        /// Index into the query's subquery list.
        index: usize,
        /// `NOT IN`.
        negated: bool,
        /// Whether the subquery is run against the current row.
        correlated: bool,
    },
    /// `[NOT] EXISTS (subquery)`.
    Exists {
        /// Index into the query's subquery list.
        index: usize,
        /// `NOT EXISTS`.
        negated: bool,
        /// Whether the subquery is run against the current row.
        correlated: bool,
    },
    /// `@name` (user variable) or `@@[session.]name` (system variable).
    Variable {
        /// Variable name, without sigils or scope qualifier.
        name: String,
        /// `true` for a system variable.
        is_system: bool,
    },
}

/// The mathematical model of an [`Expr`]: the same tree over sequences.
pub enum ExprView {
    /// See [`Expr::ColumnRef`].
    ColumnRef {
        /// FROM slot index.
        slot: usize,
        /// Column index within the slot.
        column: usize,
        /// Offset within the flat joined row.
        offset: usize,
        /// Column name.
        name: Seq<char>,
        /// Data type.
        data_type: DataType,
        /// Nullability.
        nullable: bool,
    },
    /// See [`Expr::CorrelatedColumnRef`].
    CorrelatedColumnRef {
        /// Offset within the enclosing query's flat joined row.
        offset: usize,
        /// Column name.
        name: Seq<char>,
        /// Data type.
        data_type: DataType,
        /// Nullability.
        nullable: bool,
    },
    /// See [`Expr::OutputColumn`].
    OutputColumn {
        /// Index in the projection.
        index: usize,
        /// Data type.
        data_type: DataType,
        /// Nullability.
        nullable: bool,
    },
    /// See [`Expr::Literal`].
    Literal(ValueView),
    /// See [`Expr::BinaryOp`].
    BinaryOp {
        /// Operator.
        op: BinOp,
        /// Left operand.
        left: Box<ExprView>,
        /// Right operand.
        right: Box<ExprView>,
    },
    /// See [`Expr::Not`].
    Not(Box<ExprView>),
    /// See [`Expr::Negate`].
    Negate(Box<ExprView>),
    /// See [`Expr::IsNull`].
    IsNull(Box<ExprView>),
    /// See [`Expr::IsNotNull`].
    IsNotNull(Box<ExprView>),
    /// See [`Expr::Like`].
    Like {
        /// Value expression.
        expr: Box<ExprView>,
        /// Pattern expression.
        pattern: Box<ExprView>,
        /// `NOT LIKE`.
        negated: bool,
    },
    /// See [`Expr::In`].
    In {
        /// Value expression.
        expr: Box<ExprView>,
        /// Candidates.
        list: Seq<ExprView>,
        /// `NOT IN`.
        negated: bool,
    },
    /// See [`Expr::Between`].
    Between {
        /// Value expression.
        expr: Box<ExprView>,
        /// Lower bound.
        low: Box<ExprView>,
        /// Upper bound.
        high: Box<ExprView>,
        /// `NOT BETWEEN`.
        negated: bool,
    },
    /// See [`Expr::Case`].
    Case {
        /// Operand of a simple `CASE`.
        operand: Option<Box<ExprView>>,
        /// `(condition, result)` branches.
        branches: Seq<(ExprView, ExprView)>,
        /// `ELSE` result.
        else_result: Option<Box<ExprView>>,
        /// Result type.
        data_type: DataType,
        /// Result nullability.
        nullable: bool,
    },
    /// See [`Expr::Cast`].
    Cast {
        /// Operand.
        expr: Box<ExprView>,
        /// Target type.
        to: DataType,
    },
    /// See [`Expr::CalendarInterval`].
    CalendarInterval {
        /// Timestamp operand.
        expr: Box<ExprView>,
        /// Number of units.
        quantity: Box<ExprView>,
        /// Calendar unit.
        unit: CalendarIntervalUnit,
        /// Whether the interval is subtracted.
        negated: bool,
    },
    /// See [`Expr::ScalarFunction`].
    ScalarFunction {
        /// Function.
        func: ScalarFn,
        /// Arguments.
        args: Seq<ExprView>,
        /// Result type.
        data_type: DataType,
        /// Result nullability.
        nullable: bool,
    },
    /// See [`Expr::AggregateRef`].
    AggregateRef {
        /// Index into the query's aggregate list.
        index: usize,
        /// Result type.
        data_type: DataType,
        /// Result nullability.
        nullable: bool,
    },
    /// See [`Expr::WindowRef`].
    WindowRef {
        /// Index into the query's window list.
        index: usize,
        /// Result type.
        data_type: DataType,
        /// Result nullability.
        nullable: bool,
    },
    /// See [`Expr::ScalarSubquery`].
    ScalarSubquery {
        /// Index into the query's subquery list.
        index: usize,
        /// Result type.
        data_type: DataType,
        /// Whether the subquery is run against the current row.
        correlated: bool,
    },
    /// See [`Expr::InSubquery`].
    InSubquery {
        /// Value expression.
        expr: Box<ExprView>,
        /// Index into the query's subquery list.
        index: usize,
        /// `NOT IN`.
        negated: bool,
        /// Whether the subquery is run against the current row.
        correlated: bool,
    },
    /// See [`Expr::Exists`].
    Exists {
        /// Index into the query's subquery list.
        index: usize,
        /// `NOT EXISTS`.
        negated: bool,
        /// Whether the subquery is run against the current row.
        correlated: bool,
    },
    /// See [`Expr::Variable`].
    Variable {
        /// Variable name.
        name: Seq<char>,
        /// `true` for a system variable.
        is_system: bool,
    },
}

/// The model of an expression.
pub open spec fn view_expr(e: Expr) -> ExprView
    decreases e,
{
    match e {
        Expr::ColumnRef { slot, column, offset, name, data_type, nullable } => {
            ExprView::ColumnRef { slot, column, offset, name: name@, data_type, nullable }
        },
        Expr::CorrelatedColumnRef { offset, name, data_type, nullable } => {
            ExprView::CorrelatedColumnRef { offset, name: name@, data_type, nullable }
        },
        Expr::OutputColumn { index, data_type, nullable } => ExprView::OutputColumn {
            index,
            data_type,
            nullable,
        },
        Expr::Literal(v) => ExprView::Literal(v@),
        Expr::BinaryOp { op, left, right } => ExprView::BinaryOp {
            op,
            left: Box::new(view_expr(*left)),
            right: Box::new(view_expr(*right)),
        },
        Expr::Not(x) => ExprView::Not(Box::new(view_expr(*x))),
        Expr::Negate(x) => ExprView::Negate(Box::new(view_expr(*x))),
        Expr::IsNull(x) => ExprView::IsNull(Box::new(view_expr(*x))),
        Expr::IsNotNull(x) => ExprView::IsNotNull(Box::new(view_expr(*x))),
        Expr::Like { expr, pattern, negated } => ExprView::Like {
            expr: Box::new(view_expr(*expr)),
            pattern: Box::new(view_expr(*pattern)),
            negated,
        },
        Expr::In { expr, list, negated } => ExprView::In {
            expr: Box::new(view_expr(*expr)),
            list: view_exprs(list),
            negated,
        },
        Expr::Between { expr, low, high, negated } => ExprView::Between {
            expr: Box::new(view_expr(*expr)),
            low: Box::new(view_expr(*low)),
            high: Box::new(view_expr(*high)),
            negated,
        },
        Expr::Case { operand, branches, else_result, data_type, nullable } => ExprView::Case {
            operand: match operand {
                Some(x) => Some(Box::new(view_expr(*x))),
                None => None,
            },
            branches: view_branches(branches),
            else_result: match else_result {
                Some(x) => Some(Box::new(view_expr(*x))),
                None => None,
            },
            data_type,
            nullable,
        },
        Expr::Cast { expr, to } => ExprView::Cast { expr: Box::new(view_expr(*expr)), to },
        Expr::CalendarInterval { expr, quantity, unit, negated } => ExprView::CalendarInterval {
            expr: Box::new(view_expr(*expr)),
            quantity: Box::new(view_expr(*quantity)),
            unit,
            negated,
        },
        Expr::ScalarFunction { func, args, data_type, nullable } => ExprView::ScalarFunction {
            func,
            args: view_exprs(args),
            data_type,
            nullable,
        },
        Expr::AggregateRef { index, data_type, nullable } => ExprView::AggregateRef {
            index,
            data_type,
            nullable,
        },
        Expr::WindowRef { index, data_type, nullable } => ExprView::WindowRef {
            index,
            data_type,
            nullable,
        },
        Expr::ScalarSubquery { index, data_type, correlated } => ExprView::ScalarSubquery {
            index,
            data_type,
            correlated,
        },
        Expr::InSubquery { expr, index, negated, correlated } => ExprView::InSubquery {
            expr: Box::new(view_expr(*expr)),
            index,
            negated,
            correlated,
        },
        Expr::Exists { index, negated, correlated } => ExprView::Exists {
            index,
            negated,
            correlated,
        },
        Expr::Variable { name, is_system } => ExprView::Variable { name: name@, is_system },
    }
}

/// The models of a list of expressions.
pub open spec fn view_exprs(list: Vec<Expr>) -> Seq<ExprView>
    decreases list,
{
    Seq::new(
        list@.len(),
        |i: int|
            if 0 <= i < list@.len() {
                view_expr(list@[i])
            } else {
                ExprView::Literal(ValueView::Null)
            },
    )
}

/// The models of the branches of a `CASE`.
pub open spec fn view_branches(list: Vec<(Expr, Expr)>) -> Seq<(ExprView, ExprView)>
    decreases list,
{
    Seq::new(
        list@.len(),
        |i: int|
            if 0 <= i < list@.len() {
                (view_expr(list@[i].0), view_expr(list@[i].1))
            } else {
                (ExprView::Literal(ValueView::Null), ExprView::Literal(ValueView::Null))
            },
    )
}

impl View for Expr {
    type V = ExprView;

    open spec fn view(&self) -> ExprView {
        view_expr(*self)
    }
}

/// The models of a list, element by element.
pub proof fn lemma_view_exprs(list: Vec<Expr>)
    ensures
        view_exprs(list) == views(list@),
{
    assert(view_exprs(list) =~= views(list@));
}

/// The mathematical model of an [`AggregateSpec`].
pub struct AggregateView {
    /// Aggregate function.
    pub func: AggFn,
    /// `DISTINCT` modifier.
    pub distinct: bool,
    /// Argument.
    pub arg: Option<ExprView>,
    /// Result type.
    pub data_type: DataType,
    /// Result nullability.
    pub nullable: bool,
    /// Display name.
    pub name: Seq<char>,
}

impl View for AggregateSpec {
    type V = AggregateView;

    open spec fn view(&self) -> AggregateView {
        AggregateView {
            func: self.func,
            distinct: self.distinct,
            arg: option_view(self.arg),
            data_type: self.data_type,
            nullable: self.nullable,
            name: self.name@,
        }
    }
}

impl Expr {
    /// A copy of the expression.
    pub fn copy(&self) -> (r: Expr)
        ensures
            r@ == self@,
        decreases self,
    {
        match self {
            Expr::ColumnRef { slot, column, offset, name, data_type, nullable } => Expr::ColumnRef {
                slot: *slot,
                column: *column,
                offset: *offset,
                name: name.clone(),
                data_type: *data_type,
                nullable: *nullable,
            },
            Expr::CorrelatedColumnRef { offset, name, data_type, nullable } => {
                Expr::CorrelatedColumnRef {
                    offset: *offset,
                    name: name.clone(),
                    data_type: *data_type,
                    nullable: *nullable,
                }
            },
            Expr::OutputColumn { index, data_type, nullable } => Expr::OutputColumn {
                index: *index,
                data_type: *data_type,
                nullable: *nullable,
            },
            Expr::Literal(v) => Expr::Literal(v.copy()),
            Expr::BinaryOp { op, left, right } => Expr::BinaryOp {
                op: *op,
                left: Box::new(left.copy()),
                right: Box::new(right.copy()),
            },
            Expr::Not(x) => Expr::Not(Box::new(x.copy())),
            Expr::Negate(x) => Expr::Negate(Box::new(x.copy())),
            Expr::IsNull(x) => Expr::IsNull(Box::new(x.copy())),
            Expr::IsNotNull(x) => Expr::IsNotNull(Box::new(x.copy())),
            Expr::Like { expr, pattern, negated } => Expr::Like {
                expr: Box::new(expr.copy()),
                pattern: Box::new(pattern.copy()),
                negated: *negated,
            },
            Expr::In { expr, list, negated } => Expr::In {
                expr: Box::new(expr.copy()),
                list: copy_exprs(list),
                negated: *negated,
            },
            Expr::Between { expr, low, high, negated } => Expr::Between {
                expr: Box::new(expr.copy()),
                low: Box::new(low.copy()),
                high: Box::new(high.copy()),
                negated: *negated,
            },
            Expr::Case { operand, branches, else_result, data_type, nullable } => {
                let operand2 = match operand {
                    Some(x) => Some(Box::new(x.copy())),
                    None => None,
                };
                let branches2 = copy_branches(branches);
                let else2 = match else_result {
                    Some(x) => Some(Box::new(x.copy())),
                    None => None,
                };
                Expr::Case {
                    operand: operand2,
                    branches: branches2,
                    else_result: else2,
                    data_type: *data_type,
                    nullable: *nullable,
                }
            },
            Expr::Cast { expr, to } => Expr::Cast { expr: Box::new(expr.copy()), to: *to },
            Expr::CalendarInterval { expr, quantity, unit, negated } => Expr::CalendarInterval {
                expr: Box::new(expr.copy()),
                quantity: Box::new(quantity.copy()),
                unit: *unit,
                negated: *negated,
            },
            Expr::ScalarFunction { func, args, data_type, nullable } => Expr::ScalarFunction {
                func: *func,
                args: copy_exprs(args),
                data_type: *data_type,
                nullable: *nullable,
            },
            Expr::AggregateRef { index, data_type, nullable } => Expr::AggregateRef {
                index: *index,
                data_type: *data_type,
                nullable: *nullable,
            },
            Expr::WindowRef { index, data_type, nullable } => Expr::WindowRef {
                index: *index,
                data_type: *data_type,
                nullable: *nullable,
            },
            Expr::ScalarSubquery { index, data_type, correlated } => Expr::ScalarSubquery {
                index: *index,
                data_type: *data_type,
                correlated: *correlated,
            },
            Expr::InSubquery { expr, index, negated, correlated } => Expr::InSubquery {
                expr: Box::new(expr.copy()),
                index: *index,
                negated: *negated,
                correlated: *correlated,
            },
            Expr::Exists { index, negated, correlated } => Expr::Exists {
                index: *index,
                negated: *negated,
                correlated: *correlated,
            },
            Expr::Variable { name, is_system } => Expr::Variable {
                name: name.clone(),
                is_system: *is_system,
            },
        }
    }

    /// Whether two expressions are the same tree.
    pub fn same(&self, other: &Expr) -> (r: bool)
        ensures
            r == (self@ == other@),
        decreases self,
    {
        match (self, other) {
            (
                Expr::ColumnRef { slot, column, offset, name, data_type, nullable },
                Expr::ColumnRef {
                    slot: slot2,
                    column: column2,
                    offset: offset2,
                    name: name2,
                    data_type: type2,
                    nullable: nullable2,
                },
            ) => *slot == *slot2 && *column == *column2 && *offset == *offset2 && same_text(
                name.as_str(),
                name2.as_str(),
            ) && *data_type == *type2 && *nullable == *nullable2,
            (
                Expr::CorrelatedColumnRef { offset, name, data_type, nullable },
                Expr::CorrelatedColumnRef {
                    offset: offset2,
                    name: name2,
                    data_type: type2,
                    nullable: nullable2,
                },
            ) => *offset == *offset2 && same_text(name.as_str(), name2.as_str()) && *data_type
                == *type2 && *nullable == *nullable2,
            (
                Expr::OutputColumn { index, data_type, nullable },
                Expr::OutputColumn { index: index2, data_type: type2, nullable: nullable2 },
            ) => *index == *index2 && *data_type == *type2 && *nullable == *nullable2,
            (Expr::Literal(a), Expr::Literal(b)) => a.same(b),
            (
                Expr::BinaryOp { op, left, right },
                Expr::BinaryOp { op: op2, left: left2, right: right2 },
            ) => *op == *op2 && left.same(left2) && right.same(right2),
            (Expr::Not(a), Expr::Not(b)) => a.same(b),
            (Expr::Negate(a), Expr::Negate(b)) => a.same(b),
            (Expr::IsNull(a), Expr::IsNull(b)) => a.same(b),
            (Expr::IsNotNull(a), Expr::IsNotNull(b)) => a.same(b),
            (
                Expr::Like { expr, pattern, negated },
                Expr::Like { expr: expr2, pattern: pattern2, negated: negated2 },
            ) => expr.same(expr2) && pattern.same(pattern2) && *negated == *negated2,
            (
                Expr::In { expr, list, negated },
                Expr::In { expr: expr2, list: list2, negated: negated2 },
            ) => expr.same(expr2) && same_exprs(list, list2) && *negated == *negated2,
            (
                Expr::Between { expr, low, high, negated },
                Expr::Between { expr: expr2, low: low2, high: high2, negated: negated2 },
            ) => expr.same(expr2) && low.same(low2) && high.same(high2) && *negated == *negated2,
            (
                Expr::Case { operand, branches, else_result, data_type, nullable },
                Expr::Case {
                    operand: operand2,
                    branches: branches2,
                    else_result: else2,
                    data_type: type2,
                    nullable: nullable2,
                },
            ) => {
                let a = match (operand, operand2) {
                    (None, None) => true,
                    (Some(x), Some(y)) => x.same(y),
                    _ => false,
                };
                let b = same_branches(branches, branches2);
                let c = match (else_result, else2) {
                    (None, None) => true,
                    (Some(x), Some(y)) => x.same(y),
                    _ => false,
                };
                a && b && c && *data_type == *type2 && *nullable == *nullable2
            },
            (Expr::Cast { expr, to }, Expr::Cast { expr: expr2, to: to2 }) => expr.same(expr2)
                && *to == *to2,
            (
                Expr::CalendarInterval { expr, quantity, unit, negated },
                Expr::CalendarInterval {
                    expr: expr2,
                    quantity: quantity2,
                    unit: unit2,
                    negated: negated2,
                },
            ) => expr.same(expr2) && quantity.same(quantity2) && *unit == *unit2 && *negated
                == *negated2,
            (
                Expr::ScalarFunction { func, args, data_type, nullable },
                Expr::ScalarFunction {
                    func: func2,
                    args: args2,
                    data_type: type2,
                    nullable: nullable2,
                },
            ) => *func == *func2 && same_exprs(args, args2) && *data_type == *type2 && *nullable
                == *nullable2,
            (
                Expr::AggregateRef { index, data_type, nullable },
                Expr::AggregateRef { index: index2, data_type: type2, nullable: nullable2 },
            ) => *index == *index2 && *data_type == *type2 && *nullable == *nullable2,
            (
                Expr::WindowRef { index, data_type, nullable },
                Expr::WindowRef { index: index2, data_type: type2, nullable: nullable2 },
            ) => *index == *index2 && *data_type == *type2 && *nullable == *nullable2,
            (
                Expr::ScalarSubquery { index, data_type, correlated },
                Expr::ScalarSubquery { index: index2, data_type: type2, correlated: correlated2 },
            ) => *index == *index2 && *data_type == *type2 && *correlated == *correlated2,
            (
                Expr::InSubquery { expr, index, negated, correlated },
                Expr::InSubquery {
                    expr: expr2,
                    index: index2,
                    negated: negated2,
                    correlated: correlated2,
                },
            ) => expr.same(expr2) && *index == *index2 && *negated == *negated2 && *correlated
                == *correlated2,
            (
                Expr::Exists { index, negated, correlated },
                Expr::Exists { index: index2, negated: negated2, correlated: correlated2 },
            ) => *index == *index2 && *negated == *negated2 && *correlated == *correlated2,
            (
                Expr::Variable { name, is_system },
                Expr::Variable { name: name2, is_system: is_system2 },
            ) => same_text(name.as_str(), name2.as_str()) && *is_system == *is_system2,
            _ => false,
        }
    }
}

/// A copy of a list of expressions.
pub(crate) fn copy_exprs(list: &Vec<Expr>) -> (r: Vec<Expr>)
    ensures
        view_exprs(r) == view_exprs(*list),
        views(r@) == views(list@),
    decreases list,
{
    let mut r: Vec<Expr> = Vec::new();
    let mut i: usize = 0;
    while i < list.len()
        invariant
            i <= list.len(),
            r.len() == i,
            forall|j: int| 0 <= j < i ==> (#[trigger] r@[j])@ == list@[j]@,
        decreases list.len() - i,
    {
        let x = list[i].copy();
        r.push(x);
        i = i + 1;
    }
    assert(view_exprs(r) =~= view_exprs(*list));
    assert(views(r@) =~= views(list@));
    r
}

/// A copy of the branches of a `CASE`.
fn copy_branches(list: &Vec<(Expr, Expr)>) -> (r: Vec<(Expr, Expr)>)
    ensures
        view_branches(r) == view_branches(*list),
    decreases list,
{
    let mut r: Vec<(Expr, Expr)> = Vec::new();
    let mut i: usize = 0;
    while i < list.len()
        invariant
            i <= list.len(),
            r.len() == i,
            forall|j: int|
                0 <= j < i ==> (#[trigger] r@[j]).0@ == list@[j].0@ && r@[j].1@ == list@[j].1@,
        decreases list.len() - i,
    {
        let x = list[i].0.copy();
        let y = list[i].1.copy();
        r.push((x, y));
        i = i + 1;
    }
    assert(view_branches(r) =~= view_branches(*list));
    r
}

/// Whether two lists hold the same expressions in the same order.
pub(crate) fn same_exprs(a: &Vec<Expr>, b: &Vec<Expr>) -> (r: bool)
    ensures
        r == (view_exprs(*a) == view_exprs(*b)),
    decreases a,
{
    if a.len() != b.len() {
        assert(view_exprs(*a).len() != view_exprs(*b).len());
        return false;
    }
    let mut i: usize = 0;
    while i < a.len()
        invariant
            i <= a.len(),
            a.len() == b.len(),
            forall|j: int| 0 <= j < i ==> (#[trigger] a@[j])@ == b@[j]@,
        decreases a.len() - i,
    {
        if !a[i].same(&b[i]) {
            assert(view_exprs(*a)[i as int] != view_exprs(*b)[i as int]);
            return false;
        }
        i = i + 1;
    }
    assert(view_exprs(*a) =~= view_exprs(*b));
    true
}

/// Whether two `CASE`s have the same branches.
fn same_branches(a: &Vec<(Expr, Expr)>, b: &Vec<(Expr, Expr)>) -> (r: bool)
    ensures
        r == (view_branches(*a) == view_branches(*b)),
    decreases a,
{
    if a.len() != b.len() {
        assert(view_branches(*a).len() != view_branches(*b).len());
        return false;
    }
    let mut i: usize = 0;
    while i < a.len()
        invariant
            i <= a.len(),
            a.len() == b.len(),
            forall|j: int|
                0 <= j < i ==> (#[trigger] a@[j]).0@ == b@[j].0@ && a@[j].1@ == b@[j].1@,
        decreases a.len() - i,
    {
        if !a[i].0.same(&b[i].0) || !a[i].1.same(&b[i].1) {
            assert(view_branches(*a)[i as int] != view_branches(*b)[i as int]);
            return false;
        }
        i = i + 1;
    }
    assert(view_branches(*a) =~= view_branches(*b));
    true
}

impl Clone for Expr {
    fn clone(&self) -> (r: Expr)
        ensures
            r@ == self@,
    {
        self.copy()
    }
}

impl AggregateSpec {
    /// A copy of the aggregate.
    pub fn copy(&self) -> (r: AggregateSpec)
        ensures
            r@ == self@,
    {
        AggregateSpec {
            func: self.func,
            distinct: self.distinct,
            arg: match &self.arg {
                Some(x) => Some(x.copy()),
                None => None,
            },
            data_type: self.data_type,
            nullable: self.nullable,
            name: self.name.clone(),
        }
    }

    /// Whether two aggregates are the same.
    pub fn same(&self, other: &AggregateSpec) -> (r: bool)
        ensures
            r == (self@ == other@),
    {
        let a = match (&self.arg, &other.arg) {
            (None, None) => true,
            (Some(x), Some(y)) => x.same(y),
            _ => false,
        };
        self.func == other.func && self.distinct == other.distinct && a && self.data_type
            == other.data_type && self.nullable == other.nullable && same_text(
            self.name.as_str(),
            other.name.as_str(),
        )
    }
}

impl Clone for AggregateSpec {
    fn clone(&self) -> (r: AggregateSpec)
        ensures
            r@ == self@,
    {
        self.copy()
    }
}

/// Digits in all and behind the point of a type that decimal arithmetic accepts.
pub open spec fn decimal_digits(t: DataType) -> Option<(int, int)> {
    match t {
        DataType::Decimal { precision, scale } => Some((precision as int, scale as int)),
        DataType::Int32 => Some((10, 0)),
        DataType::Int64 => Some((19, 0)),
        DataType::Timestamp => Some((19, 0)),
        _ => None,
    }
}

/// The smaller of two numbers.
pub open spec fn least(a: int, b: int) -> int {
    if a <= b {
        a
    } else {
        b
    }
}

/// The greater of two numbers.
pub open spec fn greatest(a: int, b: int) -> int {
    if a >= b {
        a
    } else {
        b
    }
}

/// A decimal type of at most 18 digits; digits behind the point that do not fit are dropped.
pub open spec fn clamped_decimal(precision: int, scale: int) -> DataType {
    let p = least(precision, MAX_DECIMAL_PRECISION as int);
    DataType::Decimal { precision: p as u8, scale: least(scale, p) as u8 }
}

/// The refusal of a decimal type whose digits cannot be counted.
pub open spec fn precision_overflow(op: BinOp) -> Result<DataType, ErrorView> {
    Err(ErrorView::InvalidArgument("DECIMAL result precision overflow in '"@ + op.symbol() + "'"@))
}

/// The refusal of an operand type with more digits behind the point than in all.
pub open spec fn bad_operand(op: BinOp, p: int, s: int) -> Result<DataType, ErrorView> {
    Err(
        ErrorView::InvalidArgument(
            "invalid DECIMAL("@ + nat_text(p as nat) + ","@ + nat_text(s as nat)
                + ") operand for '"@ + op.symbol() + "'"@,
        ),
    )
}

/// The type of decimal arithmetic on operands with the given digits.
pub open spec fn decimal_result_type(op: BinOp, lp: int, ls: int, rp: int, rs: int) -> Result<
    DataType,
    ErrorView,
> {
    match op {
        BinOp::Mul => if lp + rp + 1 > u8::MAX || ls + rs > u8::MAX {
            precision_overflow(op)
        } else {
            Ok(clamped_decimal(lp + rp + 1, ls + rs))
        },
        BinOp::Div => if ls + 4 > u8::MAX {
            precision_overflow(op)
        } else {
            Ok(clamped_decimal(MAX_DECIMAL_PRECISION as int, ls + 4))
        },
        BinOp::IntDiv => Ok(clamped_decimal(MAX_DECIMAL_PRECISION as int, 0)),
        _ => if ls > lp {
            bad_operand(op, lp, ls)
        } else if rs > rp {
            bad_operand(op, rp, rs)
        } else {
            let scale = greatest(ls, rs);
            let precision = if op == BinOp::Mod {
                least(lp - ls, rp - rs) + scale
            } else {
                greatest(lp - ls, rp - rs) + scale + 1
            };
            if precision > u8::MAX {
                precision_overflow(op)
            } else {
                Ok(clamped_decimal(precision, scale))
            }
        },
    }
}

/// The type of arithmetic after numeric promotion.
pub open spec fn arithmetic_type(op: BinOp, l: DataType, r: DataType) -> Result<
    DataType,
    ErrorView,
> {
    if !op.arithmetic() {
        Err(
            ErrorView::InvalidArgument(
                "operator '"@ + op.symbol() + "' is not an arithmetic operator"@,
            ),
        )
    } else if l == DataType::Float64 || r == DataType::Float64 {
        Ok(DataType::Float64)
    } else if decimal_digits(l) is Some && decimal_digits(r) is Some && (l is Decimal
        || r is Decimal) {
        let (lp, ls) = decimal_digits(l)->0;
        let (rp, rs) = decimal_digits(r)->0;
        decimal_result_type(op, lp, ls, rp, rs)
    } else if op == BinOp::Div {
        Ok(DataType::Float64)
    } else {
        Ok(DataType::Int64)
    }
}

/// Digits in all and behind the point of a type that decimal arithmetic accepts.
fn decimal_operand(data_type: DataType) -> (r: Option<(u8, u8)>)
    ensures
        match r {
            Some((p, s)) => decimal_digits(data_type) == Some((p as int, s as int)),
            None => decimal_digits(data_type) is None,
        },
{
    match data_type {
        DataType::Decimal { precision, scale } => Some((precision, scale)),
        DataType::Int32 => Some((10, 0)),
        DataType::Int64 => Some((19, 0)),
        DataType::Timestamp => Some((19, 0)),
        _ => None,
    }
}

fn decimal_result(precision: u8, scale: u8) -> (r: DataType)
    ensures
        r == clamped_decimal(precision as int, scale as int),
{
    let p: u8 = if precision <= MAX_DECIMAL_PRECISION {
        precision
    } else {
        MAX_DECIMAL_PRECISION
    };
    let s: u8 = if scale <= p {
        scale
    } else {
        p
    };
    DataType::Decimal { precision: p, scale: s }
}

fn precision_overflow_error(op: BinOp) -> (r: HtapError)
    ensures
        Err::<DataType, ErrorView>(r@) == precision_overflow(op),
{
    HtapError::InvalidArgument(cat3("DECIMAL result precision overflow in '", op.text(), "'"))
}

fn bad_operand_error(op: BinOp, p: u8, s: u8) -> (r: HtapError)
    ensures
        Err::<DataType, ErrorView>(r@) == bad_operand(op, p as int, s as int),
{
    let pt = unsigned_text(p as u64);
    let st = unsigned_text(s as u64);
    HtapError::InvalidArgument(
        cat7("invalid DECIMAL(", pt.as_str(), ",", st.as_str(), ") operand for '", op.text(), "'"),
    )
}

/// Result type of arithmetic after numeric promotion.
pub fn arithmetic_result_type(op: BinOp, l: DataType, r: DataType) -> (res: Result<
    DataType,
    HtapError,
>)
    ensures
        outcome(res) == arithmetic_type(op, l, r),
{
    if !op.is_arithmetic() {
        return Err(
            HtapError::InvalidArgument(
                cat3("operator '", op.text(), "' is not an arithmetic operator"),
            ),
        );
    }
    if l == DataType::Float64 || r == DataType::Float64 {
        return Ok(DataType::Float64);
    }
    let l_decimal = match l {
        DataType::Decimal { .. } => true,
        _ => false,
    };
    let r_decimal = match r {
        DataType::Decimal { .. } => true,
        _ => false,
    };
    if let (Some((lp, ls)), Some((rp, rs))) = (decimal_operand(l), decimal_operand(r)) {
        if l_decimal || r_decimal {
            return match op {
                BinOp::Mul => match (lp.checked_add(rp), ls.checked_add(rs)) {
                    (Some(p), Some(s)) => match p.checked_add(1) {
                        Some(p) => Ok(decimal_result(p, s)),
                        None => Err(precision_overflow_error(op)),
                    },
                    _ => Err(precision_overflow_error(op)),
                },
                BinOp::Div => match ls.checked_add(4) {
                    Some(s) => Ok(decimal_result(MAX_DECIMAL_PRECISION, s)),
                    None => Err(precision_overflow_error(op)),
                },
                BinOp::IntDiv => Ok(decimal_result(MAX_DECIMAL_PRECISION, 0)),
                _ => {
                    if ls > lp {
                        return Err(bad_operand_error(op, lp, ls));
                    }
                    if rs > rp {
                        return Err(bad_operand_error(op, rp, rs));
                    }
                    let scale: u8 = if ls >= rs {
                        ls
                    } else {
                        rs
                    };
                    let li: u16 = (lp - ls) as u16;
                    let ri: u16 = (rp - rs) as u16;
                    let precision: u16 = if op == BinOp::Mod {
                        if li <= ri {
                            li + scale as u16
                        } else {
                            ri + scale as u16
                        }
                    } else {
                        if li >= ri {
                            li + scale as u16 + 1
                        } else {
                            ri + scale as u16 + 1
                        }
                    };
                    if precision > 255 {
                        return Err(precision_overflow_error(op));
                    }
                    Ok(decimal_result(precision as u8, scale))
                },
            };
        }
    }
    if op == BinOp::Div {
        Ok(DataType::Float64)
    } else {
        Ok(DataType::Int64)
    }
}

/// Whether any of the first `n` expressions of a list can be `NULL`.
pub open spec fn any_nullable(list: Seq<ExprView>, n: int) -> bool
    decreases list, n,
{
    0 < n <= list.len() && (any_nullable(list, n - 1) || type_of(list[n - 1]).nullable)
}

/// The static type of an expression. Arithmetic without a result type counts as `INT64`.
pub open spec fn type_of(e: ExprView) -> ExprType
    decreases e, 0int,
{
    match e {
        ExprView::ColumnRef { data_type, nullable, .. } => plain_type(data_type, nullable),
        ExprView::CorrelatedColumnRef { data_type, nullable, .. } => plain_type(
            data_type,
            nullable,
        ),
        ExprView::OutputColumn { data_type, nullable, .. } => plain_type(data_type, nullable),
        ExprView::AggregateRef { data_type, nullable, .. } => plain_type(data_type, nullable),
        ExprView::WindowRef { data_type, nullable, .. } => plain_type(data_type, nullable),
        ExprView::Case { data_type, nullable, .. } => plain_type(data_type, nullable),
        ExprView::ScalarFunction { data_type, nullable, .. } => plain_type(data_type, nullable),
        ExprView::Literal(v) => match v.data_type() {
            None => ExprType {
                data_type: DataType::String,
                nullable: true,
                is_null_literal: true,
                is_dynamic: false,
            },
            Some(t) => plain_type(t, false),
        },
        ExprView::BinaryOp { op, left, right } => {
            let l = type_of(*left);
            let r = type_of(*right);
            let nullable = l.nullable || r.nullable || op.divides();
            if !op.arithmetic() {
                plain_type(DataType::Bool, nullable)
            } else {
                match arithmetic_type(op, l.data_type, r.data_type) {
                    Ok(t) => plain_type(t, nullable),
                    Err(_) => plain_type(DataType::Int64, nullable),
                }
            }
        },
        ExprView::Not(x) => plain_type(DataType::Bool, type_of(*x).nullable),
        ExprView::Negate(x) => {
            let t = type_of(*x);
            match t.data_type {
                DataType::Int32 => plain_type(DataType::Int64, t.nullable),
                DataType::Timestamp => plain_type(DataType::Int64, t.nullable),
                other => plain_type(other, t.nullable),
            }
        },
        ExprView::IsNull(_) => plain_type(DataType::Bool, false),
        ExprView::IsNotNull(_) => plain_type(DataType::Bool, false),
        ExprView::Exists { .. } => plain_type(DataType::Bool, false),
        ExprView::Like { expr, pattern, .. } => plain_type(
            DataType::Bool,
            type_of(*expr).nullable || type_of(*pattern).nullable,
        ),
        ExprView::In { expr, list, .. } => plain_type(
            DataType::Bool,
            type_of(*expr).nullable || any_nullable(list, list.len() as int),
        ),
        ExprView::Between { expr, low, high, .. } => plain_type(
            DataType::Bool,
            type_of(*expr).nullable || type_of(*low).nullable || type_of(*high).nullable,
        ),
        ExprView::Cast { expr, to } => plain_type(to, type_of(*expr).nullable),
        ExprView::CalendarInterval { expr, quantity, .. } => plain_type(
            DataType::Timestamp,
            type_of(*expr).nullable || type_of(*quantity).nullable,
        ),
        ExprView::ScalarSubquery { data_type, .. } => plain_type(data_type, true),
        ExprView::InSubquery { .. } => plain_type(DataType::Bool, true),
        ExprView::Variable { .. } => ExprType {
            data_type: DataType::String,
            nullable: true,
            is_null_literal: false,
            is_dynamic: true,
        },
    }
}

/// The nodes of an expression, each before its operands, operands from left to right.
pub open spec fn nodes(e: ExprView) -> Seq<ExprView>
    decreases e, 0int,
{
    let below = match e {
        ExprView::BinaryOp { left, right, .. } => nodes(*left) + nodes(*right),
        ExprView::Not(x) => nodes(*x),
        ExprView::Negate(x) => nodes(*x),
        ExprView::IsNull(x) => nodes(*x),
        ExprView::IsNotNull(x) => nodes(*x),
        ExprView::Like { expr, pattern, .. } => nodes(*expr) + nodes(*pattern),
        ExprView::In { expr, list, .. } => nodes(*expr) + list_nodes(list, list.len() as int),
        ExprView::Between { expr, low, high, .. } => nodes(*expr) + nodes(*low) + nodes(*high),
        ExprView::Case { operand, branches, else_result, .. } => {
            let first = match operand {
                Some(x) => nodes(*x),
                None => Seq::empty(),
            };
            let last = match else_result {
                Some(x) => nodes(*x),
                None => Seq::empty(),
            };
            first + branch_nodes(branches, branches.len() as int) + last
        },
        ExprView::Cast { expr, .. } => nodes(*expr),
        ExprView::CalendarInterval { expr, quantity, .. } => nodes(*expr) + nodes(*quantity),
        ExprView::ScalarFunction { args, .. } => list_nodes(args, args.len() as int),
        ExprView::InSubquery { expr, .. } => nodes(*expr),
        _ => Seq::empty(),
    };
    seq![e] + below
}

/// The nodes of the first `n` expressions of a list.
pub open spec fn list_nodes(list: Seq<ExprView>, n: int) -> Seq<ExprView>
    decreases list, n,
{
    if n <= 0 || n > list.len() {
        Seq::empty()
    } else {
        list_nodes(list, n - 1) + nodes(list[n - 1])
    }
}

/// The nodes of the first `n` branches of a `CASE`.
pub open spec fn branch_nodes(list: Seq<(ExprView, ExprView)>, n: int) -> Seq<ExprView>
    decreases list, n,
{
    if n <= 0 || n > list.len() {
        Seq::empty()
    } else {
        branch_nodes(list, n - 1) + nodes(list[n - 1].0) + nodes(list[n - 1].1)
    }
}

/// Whether arithmetic has a result type wherever the static type of an expression depends on it.
pub open spec fn well_typed(e: ExprView) -> bool
    decreases e, 0int,
{
    match e {
        ExprView::BinaryOp { op, left, right } => {
            &&& well_typed(*left)
            &&& well_typed(*right)
            &&& op.arithmetic() ==> arithmetic_type(
                op,
                type_of(*left).data_type,
                type_of(*right).data_type,
            ) is Ok
        },
        ExprView::Not(x) => well_typed(*x),
        ExprView::Negate(x) => well_typed(*x),
        ExprView::Like { expr, pattern, .. } => well_typed(*expr) && (type_of(*expr).nullable
            || well_typed(*pattern)),
        ExprView::In { expr, list, .. } => well_typed(*expr) && (type_of(*expr).nullable
            || list_well_typed(list, list.len() as int)),
        ExprView::Between { expr, low, high, .. } => well_typed(*expr) && (type_of(*expr).nullable
            || (well_typed(*low) && (type_of(*low).nullable || well_typed(*high)))),
        ExprView::Cast { expr, .. } => well_typed(*expr),
        ExprView::CalendarInterval { expr, quantity, .. } => well_typed(*expr) && (type_of(
            *expr,
        ).nullable || well_typed(*quantity)),
        _ => true,
    }
}

/// Whether the first `n` expressions of a list are well typed, up to the first nullable one.
pub open spec fn list_well_typed(list: Seq<ExprView>, n: int) -> bool
    decreases list, n,
{
    n <= 0 || n > list.len() || (list_well_typed(list, n - 1) && (any_nullable(list, n - 1)
        || well_typed(list[n - 1])))
}

/// The items of a sequence, each kept where it first occurs.
pub open spec fn distinct_items<T>(items: Seq<T>) -> Seq<T>
    decreases items.len(),
{
    if items.len() == 0 {
        Seq::empty()
    } else {
        let before = distinct_items(items.drop_last());
        if before.contains(items.last()) {
            before
        } else {
            before.push(items.last())
        }
    }
}

/// The correlated column references among nodes, in order.
pub open spec fn correlated_nodes(list: Seq<ExprView>) -> Seq<ExprView> {
    list.filter(|e: ExprView| e is CorrelatedColumnRef)
}

/// The correlated column references of an expression, each once, in order of occurrence.
pub open spec fn outer_refs(e: ExprView) -> Seq<ExprView> {
    distinct_items(correlated_nodes(nodes(e)))
}

/// Whether a node refers to a column of the given slot.
pub open spec fn refers_to_slot(e: ExprView, slot: int) -> bool {
    match e {
        ExprView::ColumnRef { slot: s, .. } => s == slot,
        _ => false,
    }
}

/// Whether an expression refers to a column of the given slot.
pub open spec fn uses_slot(e: ExprView, slot: int) -> bool {
    exists|i: int| 0 <= i < nodes(e).len() && refers_to_slot(#[trigger] nodes(e)[i], slot)
}

/// The `(slot, column)` pair of a column reference.
pub open spec fn column_pair(e: ExprView) -> (usize, usize) {
    match e {
        ExprView::ColumnRef { slot, column, .. } => (slot, column),
        _ => (0, 0),
    }
}

/// The `(slot, column)` pairs an expression refers to, each once, in order of occurrence.
pub open spec fn column_pairs(e: ExprView) -> Seq<(usize, usize)> {
    distinct_items(
        nodes(e).filter(|x: ExprView| x is ColumnRef).map_values(|x: ExprView| column_pair(x)),
    )
}

/// Whether a list of numbers is strictly increasing.
pub open spec fn ascending(s: Seq<usize>) -> bool {
    forall|i: int, j: int| 0 <= i < j < s.len() ==> #[trigger] s[i] < #[trigger] s[j]
}

impl Expr {
    /// Literal `NULL`.
    pub fn null() -> (r: Expr)
        ensures
            r@ == ExprView::Literal(ValueView::Null),
    {
        Expr::Literal(Value::Null)
    }

    /// Static type of the expression.
    pub fn expr_type(&self) -> (r: ExprType)
        requires
            well_typed(self@),
        ensures
            r == type_of(self@),
    {
        self.static_type()
    }

    /// Static type; arithmetic without a result type counts as `INT64`.
    pub(crate) fn static_type(&self) -> (r: ExprType)
        ensures
            r == type_of(self@),
        decreases self,
    {
        match self {
            Expr::ColumnRef { data_type, nullable, .. } => ExprType::new(*data_type, *nullable),
            Expr::CorrelatedColumnRef { data_type, nullable, .. } => ExprType::new(
                *data_type,
                *nullable,
            ),
            Expr::OutputColumn { data_type, nullable, .. } => ExprType::new(*data_type, *nullable),
            Expr::AggregateRef { data_type, nullable, .. } => ExprType::new(*data_type, *nullable),
            Expr::WindowRef { data_type, nullable, .. } => ExprType::new(*data_type, *nullable),
            Expr::Case { data_type, nullable, .. } => ExprType::new(*data_type, *nullable),
            Expr::ScalarFunction { data_type, nullable, .. } => ExprType::new(
                *data_type,
                *nullable,
            ),
            Expr::Literal(v) => match v.data_type() {
                None => ExprType {
                    data_type: DataType::String,
                    nullable: true,
                    is_null_literal: true,
                    is_dynamic: false,
                },
                Some(t) => ExprType::new(t, false),
            },
            Expr::BinaryOp { op, left, right } => {
                let l = left.static_type();
                let r = right.static_type();
                let nullable = l.nullable || r.nullable || op.is_division();
                if !op.is_arithmetic() {
                    ExprType::new(DataType::Bool, nullable)
                } else {
                    match arithmetic_result_type(*op, l.data_type, r.data_type) {
                        Ok(t) => ExprType::new(t, nullable),
                        Err(_) => ExprType::new(DataType::Int64, nullable),
                    }
                }
            },
            Expr::Not(x) => ExprType::new(DataType::Bool, x.static_type().nullable),
            Expr::Negate(x) => {
                let t = x.static_type();
                match t.data_type {
                    DataType::Int32 => ExprType::new(DataType::Int64, t.nullable),
                    DataType::Timestamp => ExprType::new(DataType::Int64, t.nullable),
                    other => ExprType::new(other, t.nullable),
                }
            },
            Expr::IsNull(_) | Expr::IsNotNull(_) | Expr::Exists { .. } => ExprType::new(
                DataType::Bool,
                false,
            ),
            Expr::Like { expr, pattern, .. } => {
                let a = expr.static_type();
                let b = pattern.static_type();
                ExprType::new(DataType::Bool, a.nullable || b.nullable)
            },
            Expr::In { expr, list, .. } => {
                let a = expr.static_type();
                let b = some_nullable(list);
                ExprType::new(DataType::Bool, a.nullable || b)
            },
            Expr::Between { expr, low, high, .. } => {
                let a = expr.static_type();
                let b = low.static_type();
                let c = high.static_type();
                ExprType::new(DataType::Bool, a.nullable || b.nullable || c.nullable)
            },
            Expr::Cast { expr, to } => {
                let a = expr.static_type();
                ExprType::new(*to, a.nullable)
            },
            Expr::CalendarInterval { expr, quantity, .. } => {
                let a = expr.static_type();
                let b = quantity.static_type();
                ExprType::new(DataType::Timestamp, a.nullable || b.nullable)
            },
            Expr::ScalarSubquery { data_type, .. } => ExprType::new(*data_type, true),
            Expr::InSubquery { .. } => ExprType::new(DataType::Bool, true),
            Expr::Variable { .. } => ExprType {
                data_type: DataType::String,
                nullable: true,
                is_null_literal: false,
                is_dynamic: true,
            },
        }
    }

    /// The nodes of the expression in pre-order.
    pub fn walk<'a>(&'a self) -> (r: Vec<&'a Expr>)
        ensures
            views(r@) == nodes(self@),
    {
        let mut out: Vec<&'a Expr> = Vec::new();
        self.collect(&mut out);
        assert(views(Seq::<&Expr>::empty()) + nodes(self@) =~= nodes(self@));
        out
    }

    fn collect<'a>(&'a self, out: &mut Vec<&'a Expr>)
        ensures
            views(final(out)@) == views(old(out)@) + nodes(self@),
        decreases self, 0int,
    {
        let ghost start = views(out@);
        out.push(self);
        proof {
            assert(views(out@) =~= start + seq![self@]);
        }
        match self {
            Expr::BinaryOp { left, right, .. } => {
                left.collect(out);
                right.collect(out);
            },
            Expr::Not(x) | Expr::Negate(x) | Expr::IsNull(x) | Expr::IsNotNull(x) => {
                x.collect(out);
            },
            Expr::Like { expr, pattern, .. } => {
                expr.collect(out);
                pattern.collect(out);
            },
            Expr::In { expr, list, .. } => {
                expr.collect(out);
                collect_list(list, out);
            },
            Expr::Between { expr, low, high, .. } => {
                expr.collect(out);
                low.collect(out);
                high.collect(out);
            },
            Expr::Case { operand, branches, else_result, .. } => {
                match operand {
                    Some(x) => {
                        x.collect(out);
                    },
                    None => {},
                }
                collect_branches(branches, out);
                match else_result {
                    Some(x) => {
                        x.collect(out);
                    },
                    None => {},
                }
            },
            Expr::Cast { expr, .. } => {
                expr.collect(out);
            },
            Expr::CalendarInterval { expr, quantity, .. } => {
                expr.collect(out);
                quantity.collect(out);
            },
            Expr::ScalarFunction { args, .. } => {
                collect_list(args, out);
            },
            Expr::InSubquery { expr, .. } => {
                expr.collect(out);
            },
            _ => {},
        }
        assert(views(out@) =~= start + nodes(self@));
    }

    /// Whether the expression contains an aggregate reference.
    pub fn contains_aggregate(&self) -> (r: bool)
        ensures
            r == exists|i: int| 0 <= i < nodes(self@).len() && #[trigger] nodes(self@)[i] is AggregateRef,
    {
        let all = self.walk();
        let mut i: usize = 0;
        while i < all.len()
            invariant
                i <= all.len(),
                views(all@) == nodes(self@),
                forall|j: int| 0 <= j < i ==> !(#[trigger] nodes(self@)[j] is AggregateRef),
            decreases all.len() - i,
        {
            assert(nodes(self@)[i as int] == all@[i as int]@);
            match all[i] {
                Expr::AggregateRef { .. } => {
                    return true;
                },
                _ => {},
            }
            i = i + 1;
        }
        assert(nodes(self@).len() == all.len());
        false
    }

    /// Whether the expression contains a window reference.
    pub fn contains_window(&self) -> (r: bool)
        ensures
            r == has_window(self@),
    {
        let all = self.walk();
        let mut i: usize = 0;
        while i < all.len()
            invariant
                i <= all.len(),
                views(all@) == nodes(self@),
                forall|j: int| 0 <= j < i ==> !(#[trigger] nodes(self@)[j] is WindowRef),
            decreases all.len() - i,
        {
            assert(nodes(self@)[i as int] == all@[i as int]@);
            match all[i] {
                Expr::WindowRef { .. } => {
                    return true;
                },
                _ => {},
            }
            i = i + 1;
        }
        assert(nodes(self@).len() == all.len());
        false
    }

    /// Whether the expression references any input column.
    pub fn references_columns(&self) -> (r: bool)
        ensures
            r == exists|i: int|
                0 <= i < nodes(self@).len() && (#[trigger] nodes(self@)[i] is ColumnRef
                    || nodes(self@)[i] is CorrelatedColumnRef),
    {
        let all = self.walk();
        let mut i: usize = 0;
        while i < all.len()
            invariant
                i <= all.len(),
                views(all@) == nodes(self@),
                forall|j: int|
                    0 <= j < i ==> !(#[trigger] nodes(self@)[j] is ColumnRef) && !(nodes(
                        self@,
                    )[j] is CorrelatedColumnRef),
            decreases all.len() - i,
        {
            assert(nodes(self@)[i as int] == all@[i as int]@);
            match all[i] {
                Expr::ColumnRef { .. } | Expr::CorrelatedColumnRef { .. } => {
                    return true;
                },
                _ => {},
            }
            i = i + 1;
        }
        assert(nodes(self@).len() == all.len());
        false
    }

    /// The correlated references to the immediately enclosing query, each once.
    pub fn correlated_outer_refs(&self) -> (r: Vec<Expr>)
        ensures
            views(r@) == outer_refs(self@),
    {
        let all = self.walk();
        let ghost is_ref = |e: ExprView| e is CorrelatedColumnRef;
        let mut out: Vec<Expr> = Vec::new();
        let mut i: usize = 0;
        assert(views(out@) =~= Seq::empty());
        assert(nodes(self@).take(0).filter(is_ref) =~= Seq::empty()) by {
            reveal(Seq::filter);
        }
        while i < all.len()
            invariant
                i <= all.len(),
                views(all@) == nodes(self@),
                is_ref == (|e: ExprView| e is CorrelatedColumnRef),
                views(out@) == distinct_items(nodes(self@).take(i as int).filter(is_ref)),
            decreases all.len() - i,
        {
            let x = all[i];
            let ghost before = nodes(self@).take(i as int);
            let ghost after = nodes(self@).take(i + 1);
            proof {
                assert(nodes(self@)[i as int] == x@);
                assert(after =~= before.push(x@));
                before.lemma_filter_push(x@, is_ref);
            }
            match x {
                Expr::CorrelatedColumnRef { .. } => {
                    let present = contains_expr(&out, x);
                    proof {
                        let f = after.filter(is_ref);
                        assert(f == before.filter(is_ref).push(x@));
                        assert(f.drop_last() =~= before.filter(is_ref));
                        assert(f.last() == x@);
                    }
                    if !present {
                        let ghost old_out = out@;
                        let y = x.copy();
                        out.push(y);
                        proof {
                            assert(views(out@) =~= views(old_out).push(x@));
                        }
                    }
                },
                _ => {
                    assert(after.filter(is_ref) == before.filter(is_ref));
                },
            }
            i = i + 1;
        }
        assert(nodes(self@).len() == all.len());
        assert(nodes(self@).take(all.len() as int) =~= nodes(self@));
        out
    }

    /// The slots the expression refers to, in increasing order, each once.
    pub fn referenced_slots(&self) -> (r: Vec<usize>)
        ensures
            ascending(r@),
            forall|s: usize| #[trigger] r@.contains(s) <==> uses_slot(self@, s as int),
    {
        let all = self.walk();
        let mut out: Vec<usize> = Vec::new();
        let mut i: usize = 0;
        while i < all.len()
            invariant
                i <= all.len(),
                views(all@) == nodes(self@),
                ascending(out@),
                forall|s: usize| #[trigger]
                    out@.contains(s) <==> exists|j: int|
                        0 <= j < i && refers_to_slot(#[trigger] nodes(self@)[j], s as int),
            decreases all.len() - i,
        {
            let x = all[i];
            assert(nodes(self@)[i as int] == x@);
            let ghost old_out = out@;
            match x {
                Expr::ColumnRef { slot, .. } => {
                    insert_ascending(&mut out, *slot);
                    assert forall|s: usize| #[trigger] out@.contains(s) <==> exists|j: int|
                        0 <= j < i + 1 && refers_to_slot(#[trigger] nodes(self@)[j], s as int) by {
                        if s == *slot {
                            assert(refers_to_slot(nodes(self@)[i as int], s as int));
                        } else {
                            assert(!refers_to_slot(nodes(self@)[i as int], s as int));
                            assert(out@.contains(s) <==> old_out.contains(s));
                        }
                    }
                },
                _ => {
                    assert forall|s: usize| #[trigger] out@.contains(s) <==> exists|j: int|
                        0 <= j < i + 1 && refers_to_slot(#[trigger] nodes(self@)[j], s as int) by {
                        assert(!refers_to_slot(nodes(self@)[i as int], s as int));
                        assert(out@.contains(s) <==> old_out.contains(s));
                    }
                },
            }
            i = i + 1;
        }
        assert(nodes(self@).len() == all.len());
        out
    }

    /// The `(slot, column)` pairs the expression refers to, each once.
    pub fn referenced_columns(&self) -> (r: Vec<(usize, usize)>)
        ensures
            r@ == column_pairs(self@),
    {
        let all = self.walk();
        let ghost is_ref = |e: ExprView| e is ColumnRef;
        let ghost pair = |e: ExprView| column_pair(e);
        let mut out: Vec<(usize, usize)> = Vec::new();
        let mut i: usize = 0;
        assert(nodes(self@).take(0).filter(is_ref).map_values(pair) =~= Seq::empty()) by {
            reveal(Seq::filter);
        }
        while i < all.len()
            invariant
                i <= all.len(),
                views(all@) == nodes(self@),
                is_ref == (|e: ExprView| e is ColumnRef),
                pair == (|e: ExprView| column_pair(e)),
                out@ == distinct_items(nodes(self@).take(i as int).filter(is_ref).map_values(pair)),
            decreases all.len() - i,
        {
            let x = all[i];
            let ghost before = nodes(self@).take(i as int);
            let ghost after = nodes(self@).take(i + 1);
            proof {
                assert(nodes(self@)[i as int] == x@);
                assert(after =~= before.push(x@));
                before.lemma_filter_push(x@, is_ref);
            }
            match x {
                Expr::ColumnRef { slot, column, .. } => {
                    let present = contains_pair(&out, *slot, *column);
                    proof {
                        let f = after.filter(is_ref).map_values(pair);
                        assert(f =~= before.filter(is_ref).map_values(pair).push((*slot, *column)));
                        assert(f.drop_last() =~= before.filter(is_ref).map_values(pair));
                        assert(f.last() == (*slot, *column));
                    }
                    if !present {
                        out.push((*slot, *column));
                    }
                },
                _ => {
                    assert(after.filter(is_ref) == before.filter(is_ref));
                },
            }
            i = i + 1;
        }
        assert(nodes(self@).len() == all.len());
        assert(nodes(self@).take(all.len() as int) =~= nodes(self@));
        out
    }
}

/// Whether an expression contains a window reference.
pub open spec fn has_window(e: ExprView) -> bool {
    exists|i: int| 0 <= i < nodes(e).len() && #[trigger] nodes(e)[i] is WindowRef
}

fn some_nullable(list: &Vec<Expr>) -> (r: bool)
    ensures
        r == any_nullable(view_exprs(*list), list@.len() as int),
    decreases list,
{
    let mut i: usize = 0;
    let mut found = false;
    while i < list.len()
        invariant
            i <= list.len(),
            found == any_nullable(view_exprs(*list), i as int),
        decreases list.len() - i,
    {
        let t = list[i].static_type();
        found = found || t.nullable;
        i = i + 1;
    }
    found
}

fn collect_list<'a>(list: &'a Vec<Expr>, out: &mut Vec<&'a Expr>)
    ensures
        views(final(out)@) == views(old(out)@) + list_nodes(
            view_exprs(*list),
            view_exprs(*list).len() as int,
        ),
    decreases list, 1int,
{
    let ghost start = views(out@);
    let mut i: usize = 0;
    assert(start + list_nodes(view_exprs(*list), 0) =~= start);
    while i < list.len()
        invariant
            i <= list.len(),
            views(out@) == start + list_nodes(view_exprs(*list), i as int),
        decreases list.len() - i,
    {
        list[i].collect(out);
        i = i + 1;
        assert(views(out@) =~= start + list_nodes(view_exprs(*list), i as int));
    }
}

fn collect_branches<'a>(list: &'a Vec<(Expr, Expr)>, out: &mut Vec<&'a Expr>)
    ensures
        views(final(out)@) == views(old(out)@) + branch_nodes(
            view_branches(*list),
            view_branches(*list).len() as int,
        ),
    decreases list, 1int,
{
    let ghost start = views(out@);
    let mut i: usize = 0;
    assert(start + branch_nodes(view_branches(*list), 0) =~= start);
    while i < list.len()
        invariant
            i <= list.len(),
            views(out@) == start + branch_nodes(view_branches(*list), i as int),
        decreases list.len() - i,
    {
        list[i].0.collect(out);
        list[i].1.collect(out);
        i = i + 1;
        assert(views(out@) =~= start + branch_nodes(view_branches(*list), i as int));
    }
}

/// Whether a list holds an expression.
pub(crate) fn contains_expr(list: &Vec<Expr>, e: &Expr) -> (r: bool)
    ensures
        r == views(list@).contains(e@),
{
    let mut i: usize = 0;
    while i < list.len()
        invariant
            i <= list.len(),
            forall|j: int| 0 <= j < i ==> (#[trigger] views(list@)[j]) != e@,
        decreases list.len() - i,
    {
        if list[i].same(e) {
            assert(views(list@)[i as int] == e@);
            return true;
        }
        i = i + 1;
    }
    false
}

fn contains_pair(list: &Vec<(usize, usize)>, slot: usize, column: usize) -> (r: bool)
    ensures
        r == list@.contains((slot, column)),
{
    let mut i: usize = 0;
    while i < list.len()
        invariant
            i <= list.len(),
            forall|j: int| 0 <= j < i ==> list@[j] != (slot, column),
        decreases list.len() - i,
    {
        if list[i].0 == slot && list[i].1 == column {
            assert(list@[i as int] == (slot, column));
            return true;
        }
        i = i + 1;
    }
    false
}

/// Inserts a number into a strictly increasing list, unless it is there.
pub(crate) fn insert_ascending(list: &mut Vec<usize>, n: usize)
    requires
        ascending(old(list)@),
    ensures
        ascending(final(list)@),
        forall|s: usize| #[trigger] final(list)@.contains(s) <==> old(list)@.contains(s) || s == n,
{
    let ghost start = list@;
    let mut i: usize = 0;
    while i < list.len() && list[i] < n
        invariant
            i <= list.len(),
            list@ == start,
            ascending(start),
            forall|j: int| 0 <= j < i ==> start[j] < n,
        decreases list.len() - i,
    {
        i = i + 1;
    }
    if i < list.len() && list[i] == n {
        assert(start[i as int] == n);
        return;
    }
    list.insert(i, n);
    let ghost done = list@;
    assert(done =~= start.insert(i as int, n));
    assert forall|s: usize| #[trigger] done.contains(s) <==> start.contains(s) || s == n by {
        if start.contains(s) {
            let k = choose|k: int| 0 <= k < start.len() && start[k] == s;
            if k < i {
                assert(done[k] == s);
            } else {
                assert(done[k + 1] == s);
            }
        }
        if s == n {
            assert(done[i as int] == n);
        }
        if done.contains(s) && s != n {
            let k = choose|k: int| 0 <= k < done.len() && done[k] == s;
            if k < i {
                assert(start[k] == s);
            } else {
                assert(start[k - 1] == s);
            }
        }
    }
}

} // verus!
