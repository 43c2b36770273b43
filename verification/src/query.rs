//! Bound queries.

use crate::expr::{
    copy_exprs, AggregateSpec, AggregateView, Expr, ExprView,
};
use crate::value::{
    copy_columns, option_view, views, ColumnDef, ColumnView, DataType,
};
use vstd::prelude::*;

verus! {

/// How two inputs are joined.
#[derive(Clone, Copy, Debug, PartialEq, Eq, Hash, Structural)]
pub enum JoinKind {
    /// Rows of both sides that match.
    Inner,
    /// Every left row; unmatched ones padded on the right.
    Left,
    /// Every right row; unmatched ones padded on the left.
    Right,
    /// Every row of both sides.
    Full,
    /// Every pair.
    Cross,
}

/// A tree of joins over FROM slots.
#[derive(Debug, PartialEq)]
pub enum JoinTree {
    /// A FROM slot.
    Leaf(usize),
    /// A join of two subtrees.
    Join {
        /// Join kind.
        kind: JoinKind,
        /// Left input.
        left: Box<JoinTree>,
        /// Right input.
        right: Box<JoinTree>,
        /// Join condition, over the columns of the subtree.
        on: Option<Expr>,
    },
}

/// The mathematical model of a [`JoinTree`].
pub enum TreeView {
    /// See [`JoinTree::Leaf`].
    Leaf(usize),
    /// See [`JoinTree::Join`].
    Join {
        /// Join kind.
        kind: JoinKind,
        /// Left input.
        left: Box<TreeView>,
        /// Right input.
        right: Box<TreeView>,
        /// Join condition.
        on: Option<ExprView>,
    },
}

/// The model of a join tree.
pub open spec fn view_tree(t: JoinTree) -> TreeView
    decreases t,
{
    match t {
        JoinTree::Leaf(slot) => TreeView::Leaf(slot),
        JoinTree::Join { kind, left, right, on } => TreeView::Join {
            kind,
            left: Box::new(view_tree(*left)),
            right: Box::new(view_tree(*right)),
            on: option_view(on),
        },
    }
}

impl View for JoinTree {
    type V = TreeView;

    open spec fn view(&self) -> TreeView {
        view_tree(*self)
    }
}

/// A copy of an optional expression.
pub(crate) fn copy_option(e: &Option<Expr>) -> (r: Option<Expr>)
    ensures
        option_view(r) == option_view(*e),
{
    match e {
        Some(x) => Some(x.copy()),
        None => None,
    }
}

impl JoinTree {
    /// A copy of the tree.
    pub fn copy(&self) -> (r: JoinTree)
        ensures
            r@ == self@,
        decreases self,
    {
        match self {
            JoinTree::Leaf(slot) => JoinTree::Leaf(*slot),
            JoinTree::Join { kind, left, right, on } => JoinTree::Join {
                kind: *kind,
                left: Box::new(left.copy()),
                right: Box::new(right.copy()),
                on: copy_option(on),
            },
        }
    }
}

/// A join as it is written in a FROM clause: the slot that joins what stands before it.
#[derive(Debug, PartialEq)]
pub struct JoinSpec {
    /// Join kind.
    pub kind: JoinKind,
    /// Last slot of the right input.
    pub right_slot: usize,
    /// Join condition.
    pub on: Option<Expr>,
    /// For each equality between the inputs, the common type of numeric keys.
    pub equi_key_types: Vec<Option<DataType>>,
}

/// A column that unqualified names and `*` see.
#[derive(Debug, PartialEq)]
pub enum VisibleColumn {
    /// A column of a slot.
    Physical {
        /// Slot index.
        slot: usize,
        /// Column index within the slot.
        column: usize,
    },
    /// A column merged by `USING` or `NATURAL`.
    Merged {
        /// Expression over the joined row.
        expr: Expr,
        /// Column name.
        name: String,
        /// Data type.
        data_type: DataType,
        /// Nullability.
        nullable: bool,
    },
}

/// The mathematical model of a [`VisibleColumn`].
pub enum VisibleView {
    /// See [`VisibleColumn::Physical`].
    Physical {
        /// Slot index.
        slot: usize,
        /// Column index within the slot.
        column: usize,
    },
    /// See [`VisibleColumn::Merged`].
    Merged {
        /// Expression over the joined row.
        expr: ExprView,
        /// Column name.
        name: Seq<char>,
        /// Data type.
        data_type: DataType,
        /// Nullability.
        nullable: bool,
    },
}

impl View for VisibleColumn {
    type V = VisibleView;

    open spec fn view(&self) -> VisibleView {
        match *self {
            VisibleColumn::Physical { slot, column } => VisibleView::Physical { slot, column },
            VisibleColumn::Merged { expr, name, data_type, nullable } => VisibleView::Merged {
                expr: expr@,
                name: name@,
                data_type,
                nullable,
            },
        }
    }
}

impl VisibleColumn {
    /// A copy of the column.
    pub fn copy(&self) -> (r: VisibleColumn)
        ensures
            r@ == self@,
    {
        match self {
            VisibleColumn::Physical { slot, column } => VisibleColumn::Physical {
                slot: *slot,
                column: *column,
            },
            VisibleColumn::Merged { expr, name, data_type, nullable } => VisibleColumn::Merged {
                expr: expr.copy(),
                name: name.clone(),
                data_type: *data_type,
                nullable: *nullable,
            },
        }
    }
}

/// The columns visible after a join.
pub type VisibleSchema = Vec<VisibleColumn>;

/// A copy of a visible schema.
pub(crate) fn copy_visible(s: &Vec<VisibleColumn>) -> (r: Vec<VisibleColumn>)
    ensures
        views(r@) == views(s@),
{
    let mut r: Vec<VisibleColumn> = Vec::new();
    let mut i: usize = 0;
    while i < s.len()
        invariant
            i <= s.len(),
            r.len() == i,
            forall|j: int| 0 <= j < i ==> (#[trigger] r@[j])@ == s@[j]@,
        decreases s.len() - i,
    {
        let x = s[i].copy();
        r.push(x);
        i = i + 1;
    }
    assert(views(r@) =~= views(s@));
    r
}

/// An item of an `ORDER BY`.
#[derive(Debug, PartialEq)]
pub struct OrderItem {
    /// Sort expression.
    pub expr: Expr,
    /// Ascending order.
    pub asc: bool,
    /// Whether `NULL` comes first.
    pub nulls_first: bool,
}

/// The mathematical model of an [`OrderItem`].
pub struct OrderView {
    /// Sort expression.
    pub expr: ExprView,
    /// Ascending order.
    pub asc: bool,
    /// Whether `NULL` comes first.
    pub nulls_first: bool,
}

impl View for OrderItem {
    type V = OrderView;

    open spec fn view(&self) -> OrderView {
        OrderView { expr: self.expr@, asc: self.asc, nulls_first: self.nulls_first }
    }
}

/// An output column of a query.
#[derive(Debug, PartialEq)]
pub struct ProjectionItem {
    /// Expression.
    pub expr: Expr,
    /// Output name.
    pub name: String,
}

/// The mathematical model of a [`ProjectionItem`].
pub struct ProjectionView {
    /// Expression.
    pub expr: ExprView,
    /// Output name.
    pub name: Seq<char>,
}

impl View for ProjectionItem {
    type V = ProjectionView;

    open spec fn view(&self) -> ProjectionView {
        ProjectionView { expr: self.expr@, name: self.name@ }
    }
}

/// On which side of the current row a frame bound lies.
#[derive(Clone, Copy, Debug, PartialEq, Eq, Hash, Structural)]
pub enum WindowFrameDirection {
    /// Before the current row.
    Preceding,
    /// After the current row.
    Following,
}

/// A bound of a `ROWS` frame.
#[derive(Clone, Copy, Debug, PartialEq, Eq, Hash, Structural)]
pub enum RowFrameBound {
    /// The edge of the partition.
    Unbounded(WindowFrameDirection),
    /// A number of rows away.
    Offset {
        /// Number of rows.
        value: u64,
        /// Direction.
        direction: WindowFrameDirection,
    },
    /// The current row.
    CurrentRow,
}

impl View for RowFrameBound {
    type V = RowFrameBound;

    open spec fn view(&self) -> RowFrameBound {
        *self
    }
}

/// A bound of a `RANGE` frame without offsets.
#[derive(Clone, Copy, Debug, PartialEq, Eq, Hash, Structural)]
pub enum PeerFrameBound {
    /// The edge of the partition.
    Unbounded(WindowFrameDirection),
    /// The peers of the current row.
    CurrentRow,
}

impl View for PeerFrameBound {
    type V = PeerFrameBound;

    open spec fn view(&self) -> PeerFrameBound {
        *self
    }
}

/// A bound of a `RANGE` frame with offsets.
#[derive(Debug, PartialEq)]
pub enum ValueFrameBound {
    /// The edge of the partition.
    Unbounded(WindowFrameDirection),
    /// A distance in the order key.
    Offset {
        /// Distance.
        value: Expr,
        /// Direction.
        direction: WindowFrameDirection,
    },
    /// The current row.
    CurrentRow,
}

/// The mathematical model of a [`ValueFrameBound`].
pub enum ValueBoundView {
    /// See [`ValueFrameBound::Unbounded`].
    Unbounded(WindowFrameDirection),
    /// See [`ValueFrameBound::Offset`].
    Offset {
        /// Distance.
        value: ExprView,
        /// Direction.
        direction: WindowFrameDirection,
    },
    /// See [`ValueFrameBound::CurrentRow`].
    CurrentRow,
}

impl View for ValueFrameBound {
    type V = ValueBoundView;

    open spec fn view(&self) -> ValueBoundView {
        match *self {
            ValueFrameBound::Unbounded(d) => ValueBoundView::Unbounded(d),
            ValueFrameBound::Offset { value, direction } => ValueBoundView::Offset {
                value: value@,
                direction,
            },
            ValueFrameBound::CurrentRow => ValueBoundView::CurrentRow,
        }
    }
}

/// The rows a window function sees.
#[derive(Debug, PartialEq)]
pub enum WindowFrame {
    /// The whole partition.
    Whole,
    /// `ROWS`.
    Rows {
        /// Start.
        start: RowFrameBound,
        /// End.
        end: RowFrameBound,
    },
    /// `RANGE` without offsets.
    PeerRange {
        /// Start.
        start: PeerFrameBound,
        /// End.
        end: PeerFrameBound,
    },
    /// `RANGE` with offsets.
    ValueRange {
        /// Start.
        start: ValueFrameBound,
        /// End.
        end: ValueFrameBound,
    },
}

/// The mathematical model of a [`WindowFrame`].
pub enum FrameView {
    /// See [`WindowFrame::Whole`].
    Whole,
    /// See [`WindowFrame::Rows`].
    Rows {
        /// Start.
        start: RowFrameBound,
        /// End.
        end: RowFrameBound,
    },
    /// See [`WindowFrame::PeerRange`].
    PeerRange {
        /// Start.
        start: PeerFrameBound,
        /// End.
        end: PeerFrameBound,
    },
    /// See [`WindowFrame::ValueRange`].
    ValueRange {
        /// Start.
        start: ValueBoundView,
        /// End.
        end: ValueBoundView,
    },
}

impl View for WindowFrame {
    type V = FrameView;

    open spec fn view(&self) -> FrameView {
        match *self {
            WindowFrame::Whole => FrameView::Whole,
            WindowFrame::Rows { start, end } => FrameView::Rows { start, end },
            WindowFrame::PeerRange { start, end } => FrameView::PeerRange { start, end },
            WindowFrame::ValueRange { start, end } => FrameView::ValueRange {
                start: start@,
                end: end@,
            },
        }
    }
}

/// Window functions.
#[derive(Clone, Copy, Debug, PartialEq, Eq, Hash, Structural)]
pub enum WindowFunctionKind {
    /// `ROW_NUMBER`
    RowNumber,
    /// `RANK`
    Rank,
    /// `DENSE_RANK`
    DenseRank,
    /// `NTILE`
    Ntile,
    /// `LAG`
    Lag,
    /// `LEAD`
    Lead,
    /// `COUNT(*)`
    CountStar,
    /// `COUNT(expr)`
    Count,
    /// `SUM`
    Sum,
    /// `AVG`
    Avg,
    /// `MIN`
    Min,
    /// `MAX`
    Max,
    /// `FIRST_VALUE`
    FirstValue,
    /// `LAST_VALUE`
    LastValue,
}

/// A window function call.
#[derive(Debug, PartialEq)]
pub struct WindowSpec {
    /// Function.
    pub func: WindowFunctionKind,
    /// Arguments.
    pub args: Vec<Expr>,
    /// `PARTITION BY`.
    pub partition_by: Vec<Expr>,
    /// `ORDER BY`.
    pub order_by: Vec<OrderItem>,
    /// Frame.
    pub frame: WindowFrame,
    /// Result type.
    pub data_type: DataType,
    /// Result nullability.
    pub nullable: bool,
}

/// The mathematical model of a [`WindowSpec`].
pub struct WindowView {
    /// Function.
    pub func: WindowFunctionKind,
    /// Arguments.
    pub args: Seq<ExprView>,
    /// `PARTITION BY`.
    pub partition_by: Seq<ExprView>,
    /// `ORDER BY`.
    pub order_by: Seq<OrderView>,
    /// Frame.
    pub frame: FrameView,
    /// Result type.
    pub data_type: DataType,
    /// Result nullability.
    pub nullable: bool,
}

impl View for WindowSpec {
    type V = WindowView;

    open spec fn view(&self) -> WindowView {
        WindowView {
            func: self.func,
            args: views(self.args@),
            partition_by: views(self.partition_by@),
            order_by: views(self.order_by@),
            frame: self.frame@,
            data_type: self.data_type,
            nullable: self.nullable,
        }
    }
}

/// An input of a select block.
#[derive(Debug, PartialEq)]
pub enum TableSlot {
    /// A table of the catalog.
    Base {
        /// Table name.
        table: String,
        /// Name in this query.
        alias: String,
        /// Columns.
        columns: Vec<ColumnDef>,
    },
    /// A subquery.
    Derived {
        /// The subquery.
        query: Box<BoundQuery>,
        /// Name in this query.
        alias: String,
        /// Columns.
        columns: Vec<ColumnDef>,
    },
    /// The rows of the previous step of a recursive query.
    WorkingTableSlot {
        /// Name in this query.
        alias: String,
        /// Columns.
        columns: Vec<ColumnDef>,
    },
}

/// Set operations.
#[derive(Clone, Copy, Debug, PartialEq, Eq, Hash, Structural)]
pub enum SetOpKind {
    /// `UNION ALL`
    UnionAll,
    /// `UNION`
    UnionDistinct,
    /// `EXCEPT ALL`
    ExceptAll,
    /// `EXCEPT`
    ExceptDistinct,
    /// `INTERSECT ALL`
    IntersectAll,
    /// `INTERSECT`
    IntersectDistinct,
}

/// A select block.
#[derive(Debug, PartialEq)]
pub struct SelectBody {
    /// Inputs.
    pub slots: Vec<TableSlot>,
    /// How the inputs are joined.
    pub join_tree: JoinTree,
    /// Visible columns of each leaf and join, in binding order.
    pub visible_schemas: Vec<VisibleSchema>,
    /// `WHERE`.
    pub filter: Option<Expr>,
    /// `GROUP BY`.
    pub group_by: Vec<Expr>,
    /// Aggregates.
    pub aggregates: Vec<AggregateSpec>,
    /// Window functions.
    pub windows: Vec<WindowSpec>,
    /// `HAVING`.
    pub having: Option<Expr>,
    /// Output columns.
    pub projection: Vec<ProjectionItem>,
    /// `DISTINCT`.
    pub distinct: bool,
    /// References to the enclosing query.
    pub correlated_outer_refs: Vec<Expr>,
}

/// What a query computes before ordering and limits.
#[derive(Debug, PartialEq)]
pub enum QueryBody {
    /// A select block.
    Select(SelectBody),
    /// A set operation.
    SetOp {
        /// Operation.
        kind: SetOpKind,
        /// Left branch.
        left: Box<BoundQuery>,
        /// Right branch.
        right: Box<BoundQuery>,
    },
    /// A recursive common table expression.
    RecursiveQueryBody {
        /// The first step.
        anchor: Box<BoundQuery>,
        /// The repeated step.
        recursive_term: Box<BoundQuery>,
        /// Whether repeated rows are dropped.
        distinct: bool,
        /// Columns of the result.
        output_columns: Vec<ColumnDef>,
    },
}

/// A bound query.
#[derive(Debug, PartialEq)]
pub struct BoundQuery {
    /// What the query computes.
    pub body: QueryBody,
    /// `ORDER BY`.
    pub order_by: Vec<OrderItem>,
    /// `LIMIT`.
    pub limit: Option<u64>,
    /// `OFFSET`.
    pub offset: Option<u64>,
    /// Subqueries of the expressions.
    pub subqueries: Vec<BoundQuery>,
    /// Whether the query refers to the enclosing one.
    pub correlated: bool,
    /// References to the enclosing query.
    pub correlated_outer_refs: Vec<Expr>,
    /// Columns of the result.
    pub output_columns: Vec<ColumnDef>,
}

/// The mathematical model of a [`TableSlot`].
pub enum SlotView {
    /// See [`TableSlot::Base`].
    Base {
        /// Table name.
        table: Seq<char>,
        /// Name in this query.
        alias: Seq<char>,
        /// Columns.
        columns: Seq<ColumnView>,
    },
    /// See [`TableSlot::Derived`].
    Derived {
        /// The subquery.
        query: Box<QueryView>,
        /// Name in this query.
        alias: Seq<char>,
        /// Columns.
        columns: Seq<ColumnView>,
    },
    /// See [`TableSlot::WorkingTableSlot`].
    WorkingTableSlot {
        /// Name in this query.
        alias: Seq<char>,
        /// Columns.
        columns: Seq<ColumnView>,
    },
}

/// The mathematical model of a [`SelectBody`].
pub struct SelectView {
    /// Inputs.
    pub slots: Seq<SlotView>,
    /// How the inputs are joined.
    pub join_tree: TreeView,
    /// Visible columns of each leaf and join.
    pub visible_schemas: Seq<Seq<VisibleView>>,
    /// `WHERE`.
    pub filter: Option<ExprView>,
    /// `GROUP BY`.
    pub group_by: Seq<ExprView>,
    /// Aggregates.
    pub aggregates: Seq<AggregateView>,
    /// Window functions.
    pub windows: Seq<WindowView>,
    /// `HAVING`.
    pub having: Option<ExprView>,
    /// Output columns.
    pub projection: Seq<ProjectionView>,
    /// `DISTINCT`.
    pub distinct: bool,
    /// References to the enclosing query.
    pub correlated_outer_refs: Seq<ExprView>,
}

/// The mathematical model of a [`QueryBody`].
pub enum BodyView {
    /// See [`QueryBody::Select`].
    Select(SelectView),
    /// See [`QueryBody::SetOp`].
    SetOp {
        /// Operation.
        kind: SetOpKind,
        /// Left branch.
        left: Box<QueryView>,
        /// Right branch.
        right: Box<QueryView>,
    },
    /// See [`QueryBody::RecursiveQueryBody`].
    RecursiveQueryBody {
        /// The first step.
        anchor: Box<QueryView>,
        /// The repeated step.
        recursive_term: Box<QueryView>,
        /// Whether repeated rows are dropped.
        distinct: bool,
        /// Columns of the result.
        output_columns: Seq<ColumnView>,
    },
}

/// The mathematical model of a [`BoundQuery`].
pub struct QueryView {
    /// What the query computes.
    pub body: BodyView,
    /// `ORDER BY`.
    pub order_by: Seq<OrderView>,
    /// `LIMIT`.
    pub limit: Option<u64>,
    /// `OFFSET`.
    pub offset: Option<u64>,
    /// Subqueries of the expressions.
    pub subqueries: Seq<QueryView>,
    /// Whether the query refers to the enclosing one.
    pub correlated: bool,
    /// References to the enclosing query.
    pub correlated_outer_refs: Seq<ExprView>,
    /// Columns of the result.
    pub output_columns: Seq<ColumnView>,
}

/// The model of a list of visible schemas.
pub open spec fn view_schemas(list: Seq<Vec<VisibleColumn>>) -> Seq<Seq<VisibleView>> {
    Seq::new(list.len(), |i: int| views(list[i]@))
}

/// The model of a slot.
pub open spec fn view_slot(s: TableSlot) -> SlotView
    decreases s,
{
    match s {
        TableSlot::Base { table, alias, columns } => SlotView::Base {
            table: table@,
            alias: alias@,
            columns: views(columns@),
        },
        TableSlot::Derived { query, alias, columns } => SlotView::Derived {
            query: Box::new(view_query(*query)),
            alias: alias@,
            columns: views(columns@),
        },
        TableSlot::WorkingTableSlot { alias, columns } => SlotView::WorkingTableSlot {
            alias: alias@,
            columns: views(columns@),
        },
    }
}

/// The models of a list of slots.
pub open spec fn view_slots(list: Vec<TableSlot>) -> Seq<SlotView>
    decreases list,
{
    Seq::new(
        list@.len(),
        |i: int|
            if 0 <= i < list@.len() {
                view_slot(list@[i])
            } else {
                SlotView::WorkingTableSlot { alias: Seq::empty(), columns: Seq::empty() }
            },
    )
}

/// The model of a select block.
pub open spec fn view_select(s: SelectBody) -> SelectView
    decreases s,
{
    SelectView {
        slots: view_slots(s.slots),
        join_tree: s.join_tree@,
        visible_schemas: view_schemas(s.visible_schemas@),
        filter: option_view(s.filter),
        group_by: views(s.group_by@),
        aggregates: views(s.aggregates@),
        windows: views(s.windows@),
        having: option_view(s.having),
        projection: views(s.projection@),
        distinct: s.distinct,
        correlated_outer_refs: views(s.correlated_outer_refs@),
    }
}

/// The model of a query body.
pub open spec fn view_body(b: QueryBody) -> BodyView
    decreases b,
{
    match b {
        QueryBody::Select(s) => BodyView::Select(view_select(s)),
        QueryBody::SetOp { kind, left, right } => BodyView::SetOp {
            kind,
            left: Box::new(view_query(*left)),
            right: Box::new(view_query(*right)),
        },
        QueryBody::RecursiveQueryBody { anchor, recursive_term, distinct, output_columns } => {
            BodyView::RecursiveQueryBody {
                anchor: Box::new(view_query(*anchor)),
                recursive_term: Box::new(view_query(*recursive_term)),
                distinct,
                output_columns: views(output_columns@),
            }
        },
    }
}

/// The model of a query.
pub open spec fn view_query(q: BoundQuery) -> QueryView
    decreases q,
{
    QueryView {
        body: view_body(q.body),
        order_by: views(q.order_by@),
        limit: q.limit,
        offset: q.offset,
        subqueries: view_queries(q.subqueries),
        correlated: q.correlated,
        correlated_outer_refs: views(q.correlated_outer_refs@),
        output_columns: views(q.output_columns@),
    }
}

/// The query of an empty list's missing entries.
pub open spec fn no_query() -> QueryView {
    arbitrary()
}

/// The models of a list of queries.
pub open spec fn view_queries(list: Vec<BoundQuery>) -> Seq<QueryView>
    decreases list,
{
    Seq::new(
        list@.len(),
        |i: int|
            if 0 <= i < list@.len() {
                view_query(list@[i])
            } else {
                no_query()
            },
    )
}

impl View for TableSlot {
    type V = SlotView;

    open spec fn view(&self) -> SlotView {
        view_slot(*self)
    }
}

impl View for SelectBody {
    type V = SelectView;

    open spec fn view(&self) -> SelectView {
        view_select(*self)
    }
}

impl View for QueryBody {
    type V = BodyView;

    open spec fn view(&self) -> BodyView {
        view_body(*self)
    }
}

impl View for BoundQuery {
    type V = QueryView;

    open spec fn view(&self) -> QueryView {
        view_query(*self)
    }
}

impl SlotView {
    /// The name of the slot in its query.
    pub open spec fn alias(self) -> Seq<char> {
        match self {
            SlotView::Base { alias, .. } => alias,
            SlotView::Derived { alias, .. } => alias,
            SlotView::WorkingTableSlot { alias, .. } => alias,
        }
    }

    /// The columns of the slot.
    pub open spec fn columns(self) -> Seq<ColumnView> {
        match self {
            SlotView::Base { columns, .. } => columns,
            SlotView::Derived { columns, .. } => columns,
            SlotView::WorkingTableSlot { columns, .. } => columns,
        }
    }
}

impl TableSlot {
    /// The name of the slot in its query.
    pub fn alias(&self) -> (r: &String)
        ensures
            r@ == self@.alias(),
    {
        match self {
            TableSlot::Base { alias, .. } => alias,
            TableSlot::Derived { alias, .. } => alias,
            TableSlot::WorkingTableSlot { alias, .. } => alias,
        }
    }

    /// The columns of the slot.
    pub fn columns(&self) -> (r: &Vec<ColumnDef>)
        ensures
            views(r@) == self@.columns(),
    {
        match self {
            TableSlot::Base { columns, .. } => columns,
            TableSlot::Derived { columns, .. } => columns,
            TableSlot::WorkingTableSlot { columns, .. } => columns,
        }
    }

    /// The number of columns of the slot.
    pub fn width(&self) -> (r: usize)
        ensures
            r == self@.columns().len(),
    {
        self.columns().len()
    }

    /// A copy of the slot.
    pub fn copy(&self) -> (r: TableSlot)
        ensures
            r@ == self@,
        decreases self,
    {
        match self {
            TableSlot::Base { table, alias, columns } => TableSlot::Base {
                table: table.clone(),
                alias: alias.clone(),
                columns: copy_columns(columns),
            },
            TableSlot::Derived { query, alias, columns } => TableSlot::Derived {
                query: Box::new(query.copy()),
                alias: alias.clone(),
                columns: copy_columns(columns),
            },
            TableSlot::WorkingTableSlot { alias, columns } => TableSlot::WorkingTableSlot {
                alias: alias.clone(),
                columns: copy_columns(columns),
            },
        }
    }
}

fn copy_slots(list: &Vec<TableSlot>) -> (r: Vec<TableSlot>)
    ensures
        view_slots(r) == view_slots(*list),
    decreases list,
{
    let mut r: Vec<TableSlot> = Vec::new();
    let mut i: usize = 0;
    while i < list.len()
        invariant
            i <= list.len(),
            r.len() == i,
            forall|j: int| 0 <= j < i ==> (#[trigger] r@[j])@ == list@[j]@,
        decreases list.len() - i,
    {
        let x = list[i].copy();
        r.push(x);
        i = i + 1;
    }
    assert(view_slots(r) =~= view_slots(*list));
    r
}

/// A copy of a list of queries.
pub(crate) fn copy_queries(list: &Vec<BoundQuery>) -> (r: Vec<BoundQuery>)
    ensures
        view_queries(r) == view_queries(*list),
    decreases list,
{
    let mut r: Vec<BoundQuery> = Vec::new();
    let mut i: usize = 0;
    while i < list.len()
        invariant
            i <= list.len(),
            r.len() == i,
            forall|j: int| 0 <= j < i ==> (#[trigger] r@[j])@ == list@[j]@,
        decreases list.len() - i,
    {
        let x = list[i].copy();
        r.push(x);
        i = i + 1;
    }
    assert(view_queries(r) =~= view_queries(*list));
    r
}

pub(crate) fn copy_schemas(list: &Vec<Vec<VisibleColumn>>) -> (r: Vec<Vec<VisibleColumn>>)
    ensures
        view_schemas(r@) == view_schemas(list@),
{
    let mut r: Vec<Vec<VisibleColumn>> = Vec::new();
    let mut i: usize = 0;
    while i < list.len()
        invariant
            i <= list.len(),
            r.len() == i,
            forall|j: int| 0 <= j < i ==> views((#[trigger] r@[j])@) == views(list@[j]@),
        decreases list.len() - i,
    {
        let x = copy_visible(&list[i]);
        r.push(x);
        i = i + 1;
    }
    assert(view_schemas(r@) =~= view_schemas(list@));
    r
}

/// A copy of a list of aggregates.
pub(crate) fn copy_aggregates(list: &Vec<AggregateSpec>) -> (r: Vec<AggregateSpec>)
    ensures
        views(r@) == views(list@),
{
    let mut r: Vec<AggregateSpec> = Vec::new();
    let mut i: usize = 0;
    while i < list.len()
        invariant
            i <= list.len(),
            r.len() == i,
            forall|j: int| 0 <= j < i ==> (#[trigger] r@[j])@ == list@[j]@,
        decreases list.len() - i,
    {
        let x = list[i].copy();
        r.push(x);
        i = i + 1;
    }
    assert(views(r@) =~= views(list@));
    r
}

fn copy_order(list: &Vec<OrderItem>) -> (r: Vec<OrderItem>)
    ensures
        views(r@) == views(list@),
{
    let mut r: Vec<OrderItem> = Vec::new();
    let mut i: usize = 0;
    while i < list.len()
        invariant
            i <= list.len(),
            r.len() == i,
            forall|j: int| 0 <= j < i ==> (#[trigger] r@[j])@ == list@[j]@,
        decreases list.len() - i,
    {
        let x = OrderItem {
            expr: list[i].expr.copy(),
            asc: list[i].asc,
            nulls_first: list[i].nulls_first,
        };
        r.push(x);
        i = i + 1;
    }
    assert(views(r@) =~= views(list@));
    r
}

fn copy_projection(list: &Vec<ProjectionItem>) -> (r: Vec<ProjectionItem>)
    ensures
        views(r@) == views(list@),
{
    let mut r: Vec<ProjectionItem> = Vec::new();
    let mut i: usize = 0;
    while i < list.len()
        invariant
            i <= list.len(),
            r.len() == i,
            forall|j: int| 0 <= j < i ==> (#[trigger] r@[j])@ == list@[j]@,
        decreases list.len() - i,
    {
        let x = ProjectionItem { expr: list[i].expr.copy(), name: list[i].name.clone() };
        r.push(x);
        i = i + 1;
    }
    assert(views(r@) =~= views(list@));
    r
}

fn copy_value_bound(b: &ValueFrameBound) -> (r: ValueFrameBound)
    ensures
        r@ == b@,
{
    match b {
        ValueFrameBound::Unbounded(d) => ValueFrameBound::Unbounded(*d),
        ValueFrameBound::Offset { value, direction } => ValueFrameBound::Offset {
            value: value.copy(),
            direction: *direction,
        },
        ValueFrameBound::CurrentRow => ValueFrameBound::CurrentRow,
    }
}

impl WindowSpec {
    /// A copy of the window function call.
    pub fn copy(&self) -> (r: WindowSpec)
        ensures
            r@ == self@,
    {
        let frame = match &self.frame {
            WindowFrame::Whole => WindowFrame::Whole,
            WindowFrame::Rows { start, end } => WindowFrame::Rows { start: *start, end: *end },
            WindowFrame::PeerRange { start, end } => WindowFrame::PeerRange {
                start: *start,
                end: *end,
            },
            WindowFrame::ValueRange { start, end } => WindowFrame::ValueRange {
                start: copy_value_bound(start),
                end: copy_value_bound(end),
            },
        };
        WindowSpec {
            func: self.func,
            args: copy_exprs(&self.args),
            partition_by: copy_exprs(&self.partition_by),
            order_by: copy_order(&self.order_by),
            frame,
            data_type: self.data_type,
            nullable: self.nullable,
        }
    }
}

pub(crate) fn copy_windows(list: &Vec<WindowSpec>) -> (r: Vec<WindowSpec>)
    ensures
        views(r@) == views(list@),
{
    let mut r: Vec<WindowSpec> = Vec::new();
    let mut i: usize = 0;
    while i < list.len()
        invariant
            i <= list.len(),
            r.len() == i,
            forall|j: int| 0 <= j < i ==> (#[trigger] r@[j])@ == list@[j]@,
        decreases list.len() - i,
    {
        let x = list[i].copy();
        r.push(x);
        i = i + 1;
    }
    assert(views(r@) =~= views(list@));
    r
}

impl SelectBody {
    /// A copy of the block.
    pub fn copy(&self) -> (r: SelectBody)
        ensures
            r@ == self@,
        decreases self,
    {
        SelectBody {
            slots: copy_slots(&self.slots),
            join_tree: self.join_tree.copy(),
            visible_schemas: copy_schemas(&self.visible_schemas),
            filter: copy_option(&self.filter),
            group_by: copy_exprs(&self.group_by),
            aggregates: copy_aggregates(&self.aggregates),
            windows: copy_windows(&self.windows),
            having: copy_option(&self.having),
            projection: copy_projection(&self.projection),
            distinct: self.distinct,
            correlated_outer_refs: copy_exprs(&self.correlated_outer_refs),
        }
    }
}

impl QueryBody {
    /// A copy of the body.
    pub fn copy(&self) -> (r: QueryBody)
        ensures
            r@ == self@,
        decreases self,
    {
        match self {
            QueryBody::Select(s) => QueryBody::Select(s.copy()),
            QueryBody::SetOp { kind, left, right } => QueryBody::SetOp {
                kind: *kind,
                left: Box::new(left.copy()),
                right: Box::new(right.copy()),
            },
            QueryBody::RecursiveQueryBody { anchor, recursive_term, distinct, output_columns } => {
                QueryBody::RecursiveQueryBody {
                    anchor: Box::new(anchor.copy()),
                    recursive_term: Box::new(recursive_term.copy()),
                    distinct: *distinct,
                    output_columns: copy_columns(output_columns),
                }
            },
        }
    }
}

impl BoundQuery {
    /// A copy of the query.
    pub fn copy(&self) -> (r: BoundQuery)
        ensures
            r@ == self@,
        decreases self,
    {
        BoundQuery {
            body: self.body.copy(),
            order_by: copy_order(&self.order_by),
            limit: self.limit,
            offset: self.offset,
            subqueries: copy_queries(&self.subqueries),
            correlated: self.correlated,
            correlated_outer_refs: copy_exprs(&self.correlated_outer_refs),
            output_columns: copy_columns(&self.output_columns),
        }
    }
}

impl Clone for BoundQuery {
    fn clone(&self) -> (r: BoundQuery)
        ensures
            r@ == self@,
    {
        self.copy()
    }
}

impl Clone for JoinTree {
    fn clone(&self) -> (r: JoinTree)
        ensures
            r@ == self@,
    {
        self.copy()
    }
}

impl Clone for SelectBody {
    fn clone(&self) -> (r: SelectBody)
        ensures
            r@ == self@,
    {
        self.copy()
    }
}

} // verus!
