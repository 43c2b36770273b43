//! Names in a query: slots, visible columns, and common table expressions.

use crate::expr::{
    greatest, least, type_of, view_branches, view_exprs, BinOp, Expr, ExprType, ExprView, ScalarFn,
};
use crate::query::{
    BoundQuery, JoinKind, JoinSpec, JoinTree, QueryView, TreeView, VisibleColumn, VisibleView,
};
use crate::sql::{ObjectName, ObjectNamePart};
use crate::text::{cat3, cat5, folds_to, owned, same_folded, same_text};
use crate::value::{
    copy_columns, invalid, invalid_view, lemma_views_push, option_view, outcome, unsupported,
    unsupported_view, views, ColumnDef, ColumnView, DataType, ErrorView, HtapError, Value,
    ValueView, MAX_DECIMAL_PRECISION,
};
use vstd::prelude::*;

verus! {

/// The first position from `i` on whose item satisfies a predicate.
pub open spec fn first_at<T>(s: Seq<T>, p: spec_fn(T) -> bool, i: int) -> Option<int>
    decreases s.len() - i,
{
    if i < 0 || i >= s.len() {
        None
    } else if p(s[i]) {
        Some(i)
    } else {
        first_at(s, p, i + 1)
    }
}

/// What is found lies within the sequence and satisfies the predicate.
pub proof fn lemma_first_at<T>(s: Seq<T>, p: spec_fn(T) -> bool, i: int)
    ensures
        match first_at(s, p, i) {
            Some(k) => i <= k < s.len() && p(s[k]),
            None => true,
        },
    decreases s.len() - i,
{
    if 0 <= i < s.len() && !p(s[i]) {
        lemma_first_at(s, p, i + 1);
    }
}

/// A FROM slot during binding.
#[derive(Debug)]
pub struct SlotInfo {
    /// Name of the slot.
    pub alias: String,
    /// Columns of the slot.
    pub columns: Vec<ColumnDef>,
    /// Offset of the first column in the joined row.
    pub offset: usize,
}

/// The mathematical model of a [`SlotInfo`].
pub struct InfoView {
    /// Name of the slot.
    pub alias: Seq<char>,
    /// Columns of the slot.
    pub columns: Seq<ColumnView>,
    /// Offset of the first column in the joined row.
    pub offset: usize,
}

impl View for SlotInfo {
    type V = InfoView;

    open spec fn view(&self) -> InfoView {
        InfoView { alias: self.alias@, columns: views(self.columns@), offset: self.offset }
    }
}

impl SlotInfo {
    pub(crate) fn copy(&self) -> (r: SlotInfo)
        ensures
            r@ == self@,
    {
        SlotInfo {
            alias: self.alias.clone(),
            columns: copy_columns(&self.columns),
            offset: self.offset,
        }
    }
}

/// The slots from `from` up to, but not including, `to`.
pub(crate) fn copy_infos(infos: &Vec<SlotInfo>, from: usize, to: usize) -> (r: Vec<SlotInfo>)
    requires
        from <= to <= infos.len(),
    ensures
        views(r@) == views(infos@).subrange(from as int, to as int),
{
    let mut r: Vec<SlotInfo> = Vec::new();
    let mut i: usize = from;
    while i < to
        invariant
            from <= i <= to <= infos.len(),
            r.len() == i - from,
            forall|j: int| 0 <= j < i - from ==> (#[trigger] r@[j])@ == infos@[j + from]@,
        decreases to - i,
    {
        let x = infos[i].copy();
        r.push(x);
        i = i + 1;
    }
    assert(views(r@) =~= views(infos@).subrange(from as int, to as int));
    r
}

/// What a common table expression stands for.
#[derive(Debug)]
pub enum CteBinding {
    /// A query.
    Query(Box<BoundQuery>),
    /// The working table of a recursive query.
    Working(Vec<ColumnDef>),
}

/// The mathematical model of a [`CteBinding`].
pub enum CteView {
    /// See [`CteBinding::Query`].
    Query(QueryView),
    /// See [`CteBinding::Working`].
    Working(Seq<ColumnView>),
}

/// A common table expression in scope.
#[derive(Debug)]
pub struct CteEntry {
    /// Name.
    pub name: String,
    /// What it stands for.
    pub binding: CteBinding,
}

/// The mathematical model of a [`CteEntry`].
pub struct CteEntryView {
    /// Name.
    pub name: Seq<char>,
    /// What it stands for.
    pub binding: CteView,
}

impl View for CteEntry {
    type V = CteEntryView;

    open spec fn view(&self) -> CteEntryView {
        CteEntryView {
            name: self.name@,
            binding: match self.binding {
                CteBinding::Query(q) => CteView::Query(q@),
                CteBinding::Working(c) => CteView::Working(views(c@)),
            },
        }
    }
}

/// The common table expressions in scope, outer ones first.
pub(crate) fn copy_ctes(ctes: &Vec<CteEntry>) -> (r: Vec<CteEntry>)
    ensures
        views(r@) == views(ctes@),
{
    let mut r: Vec<CteEntry> = Vec::new();
    let mut i: usize = 0;
    while i < ctes.len()
        invariant
            i <= ctes.len(),
            r.len() == i,
            forall|j: int| 0 <= j < i ==> (#[trigger] r@[j])@ == ctes@[j]@,
        decreases ctes.len() - i,
    {
        let binding = match &ctes[i].binding {
            CteBinding::Query(q) => CteBinding::Query(Box::new(q.copy())),
            CteBinding::Working(c) => CteBinding::Working(copy_columns(c)),
        };
        r.push(CteEntry { name: ctes[i].name.clone(), binding });
        i = i + 1;
    }
    assert(views(r@) =~= views(ctes@));
    r
}

/// The last of the first `n` common table expressions with a name, up to letter case.
pub open spec fn last_cte(ctes: Seq<CteEntryView>, name: Seq<char>, n: int) -> Option<CteView>
    decreases n,
{
    if n <= 0 || n > ctes.len() {
        None
    } else if folds_to(ctes[n - 1].name, name) {
        Some(ctes[n - 1].binding)
    } else {
        last_cte(ctes, name, n - 1)
    }
}

/// The innermost common table expression with a name.
pub(crate) fn lookup_cte<'a>(ctes: &'a Vec<CteEntry>, name: &str) -> (r: Option<&'a CteEntry>)
    ensures
        match r {
            Some(c) => last_cte(views(ctes@), name@, ctes@.len() as int) == Some(c@.binding),
            None => last_cte(views(ctes@), name@, ctes@.len() as int) is None,
        },
{
    let mut n: usize = ctes.len();
    while n > 0
        invariant
            n <= ctes.len(),
            last_cte(views(ctes@), name@, ctes@.len() as int) == last_cte(
                views(ctes@),
                name@,
                n as int,
            ),
        decreases n,
    {
        if same_folded(ctes[n - 1].name.as_str(), name) {
            return Some(&ctes[n - 1]);
        }
        n = n - 1;
    }
    None
}

/// The single identifier an object name consists of.
pub open spec fn single_name(n: ObjectName) -> Result<Seq<char>, ErrorView> {
    if n.parts@.len() != 1 {
        unsupported_view("qualified names not supported: '"@ + n.text@ + "'"@)
    } else {
        match n.parts@[0] {
            ObjectNamePart::Identifier(s) => Ok(s@),
            ObjectNamePart::Function => unsupported_view(
                "function names not supported: '"@ + n.text@ + "'"@,
            ),
        }
    }
}

/// Extracts a single-part object name.
pub(crate) fn object_name_single(name: &ObjectName) -> (r: Result<String, HtapError>)
    ensures
        outcome(r) == single_name(*name),
{
    if name.parts.len() != 1 {
        return Err(unsupported(cat3("qualified names not supported: '", name.text.as_str(), "'")));
    }
    match &name.parts[0] {
        ObjectNamePart::Identifier(s) => Ok(s.clone()),
        ObjectNamePart::Function => Err(
            unsupported(cat3("function names not supported: '", name.text.as_str(), "'")),
        ),
    }
}

/// The identifiers of an object name from the `i`-th part on, behind those of `acc`.
pub open spec fn name_parts(n: ObjectName, i: int, acc: Seq<Seq<char>>) -> Result<
    Seq<Seq<char>>,
    ErrorView,
>
    decreases n.parts@.len() - i,
{
    if i < 0 || i >= n.parts@.len() {
        Ok(acc)
    } else {
        match n.parts@[i] {
            ObjectNamePart::Identifier(s) => name_parts(n, i + 1, acc.push(s@)),
            ObjectNamePart::Function => unsupported_view(
                "function names not supported: '"@ + n.text@ + "'"@,
            ),
        }
    }
}

/// Extracts the identifiers of an object name.
pub(crate) fn object_name_parts(name: &ObjectName) -> (r: Result<Vec<String>, HtapError>)
    ensures
        match r {
            Ok(v) => name_parts(*name, 0, Seq::empty()) == Ok::<Seq<Seq<char>>, ErrorView>(
                views(v@),
            ),
            Err(e) => name_parts(*name, 0, Seq::empty()) == Err::<Seq<Seq<char>>, ErrorView>(e@),
        },
{
    let mut out: Vec<String> = Vec::new();
    let mut i: usize = 0;
    assert(views(out@) =~= Seq::empty());
    while i < name.parts.len()
        invariant
            i <= name.parts.len(),
            name_parts(*name, 0, Seq::empty()) == name_parts(*name, i as int, views(out@)),
        decreases name.parts.len() - i,
    {
        match &name.parts[i] {
            ObjectNamePart::Identifier(s) => {
                proof {
                    lemma_views_push(out@, *s);
                }
                out.push(s.clone());
            },
            ObjectNamePart::Function => {
                return Err(
                    unsupported(cat3("function names not supported: '", name.text.as_str(), "'")),
                );
            },
        }
        i = i + 1;
    }
    Ok(out)
}

/// Slots with exactly the given name.
pub open spec fn alias_is(name: Seq<char>) -> spec_fn(InfoView) -> bool {
    |x: InfoView| x.alias == name
}

/// Slots with the given name up to letter case.
pub open spec fn alias_folds(name: Seq<char>) -> spec_fn(InfoView) -> bool {
    |x: InfoView| folds_to(x.alias, name)
}

/// Columns with exactly the given name.
pub open spec fn column_is(name: Seq<char>) -> spec_fn(ColumnView) -> bool {
    |x: ColumnView| x.name == name
}

/// Columns with the given name up to letter case.
pub open spec fn column_folds(name: Seq<char>) -> spec_fn(ColumnView) -> bool {
    |x: ColumnView| folds_to(x.name, name)
}

/// The slot with a name: an exact match is preferred to one up to letter case.
pub open spec fn slot_named(infos: Seq<InfoView>, name: Seq<char>) -> Option<int> {
    match first_at(infos, alias_is(name), 0) {
        Some(i) => Some(i),
        None => first_at(infos, alias_folds(name), 0),
    }
}

/// The column with a name: an exact match is preferred to one up to letter case.
pub open spec fn column_named(columns: Seq<ColumnView>, name: Seq<char>) -> Option<int> {
    match first_at(columns, column_is(name), 0) {
        Some(i) => Some(i),
        None => first_at(columns, column_folds(name), 0),
    }
}

/// The first slot from `start` on with a name up to letter case.
pub(crate) fn position_alias_folded(infos: &Vec<SlotInfo>, name: &str) -> (r: Option<usize>)
    ensures
        match r {
            Some(i) => i < infos@.len() && first_at(views(infos@), alias_folds(name@), 0) == Some(
                i as int,
            ),
            None => first_at(views(infos@), alias_folds(name@), 0) is None,
        },
{
    let mut i: usize = 0;
    while i < infos.len()
        invariant
            i <= infos.len(),
            first_at(views(infos@), alias_folds(name@), 0) == first_at(
                views(infos@),
                alias_folds(name@),
                i as int,
            ),
        decreases infos.len() - i,
    {
        if same_folded(infos[i].alias.as_str(), name) {
            return Some(i);
        }
        i = i + 1;
    }
    None
}

/// The slot with a name.
pub(crate) fn position_slot(infos: &Vec<SlotInfo>, name: &str) -> (r: Option<usize>)
    ensures
        match r {
            Some(i) => i < infos@.len() && slot_named(views(infos@), name@) == Some(i as int),
            None => slot_named(views(infos@), name@) is None,
        },
{
    let mut i: usize = 0;
    while i < infos.len()
        invariant
            i <= infos.len(),
            first_at(views(infos@), alias_is(name@), 0) == first_at(
                views(infos@),
                alias_is(name@),
                i as int,
            ),
        decreases infos.len() - i,
    {
        if same_text(infos[i].alias.as_str(), name) {
            return Some(i);
        }
        i = i + 1;
    }
    position_alias_folded(infos, name)
}

/// The first column with exactly the given name.
pub(crate) fn position_exact(columns: &Vec<ColumnDef>, name: &str) -> (r: Option<usize>)
    ensures
        match r {
            Some(i) => i < columns@.len() && first_at(views(columns@), column_is(name@), 0) == Some(
                i as int,
            ),
            None => first_at(views(columns@), column_is(name@), 0) is None,
        },
{
    let mut i: usize = 0;
    while i < columns.len()
        invariant
            i <= columns.len(),
            first_at(views(columns@), column_is(name@), 0) == first_at(
                views(columns@),
                column_is(name@),
                i as int,
            ),
        decreases columns.len() - i,
    {
        if same_text(columns[i].name.as_str(), name) {
            return Some(i);
        }
        i = i + 1;
    }
    None
}

/// The first column with the given name up to letter case.
pub(crate) fn position_folded(columns: &Vec<ColumnDef>, name: &str) -> (r: Option<usize>)
    ensures
        match r {
            Some(i) => i < columns@.len() && first_at(views(columns@), column_folds(name@), 0)
                == Some(i as int),
            None => first_at(views(columns@), column_folds(name@), 0) is None,
        },
{
    let mut i: usize = 0;
    while i < columns.len()
        invariant
            i <= columns.len(),
            first_at(views(columns@), column_folds(name@), 0) == first_at(
                views(columns@),
                column_folds(name@),
                i as int,
            ),
        decreases columns.len() - i,
    {
        if same_folded(columns[i].name.as_str(), name) {
            return Some(i);
        }
        i = i + 1;
    }
    None
}

/// The column with a name.
pub(crate) fn position_column(columns: &Vec<ColumnDef>, name: &str) -> (r: Option<usize>)
    ensures
        match r {
            Some(i) => i < columns@.len() && column_named(views(columns@), name@) == Some(i as int),
            None => column_named(views(columns@), name@) is None,
        },
{
    match position_exact(columns, name) {
        Some(i) => Some(i),
        None => position_folded(columns, name),
    }
}

/// Two counts added, held to the greatest count.
pub open spec fn sum_held(a: usize, b: usize) -> usize {
    if a + b > usize::MAX {
        usize::MAX
    } else {
        (a + b) as usize
    }
}

/// The reference to a column of a slot.
pub open spec fn column_ref_view(infos: Seq<InfoView>, slot: int, column: int) -> ExprView {
    if 0 <= slot < infos.len() && 0 <= column < infos[slot].columns.len() {
        let c = infos[slot].columns[column];
        ExprView::ColumnRef {
            slot: slot as usize,
            column: column as usize,
            offset: sum_held(infos[slot].offset, column as usize),
            name: c.name,
            data_type: c.data_type,
            nullable: c.nullable,
        }
    } else {
        ExprView::Literal(ValueView::Null)
    }
}

/// The reference to a column of a slot.
pub(crate) fn column_ref(infos: &Vec<SlotInfo>, slot: usize, column: usize) -> (r: Expr)
    ensures
        r@ == column_ref_view(views(infos@), slot as int, column as int),
{
    if slot < infos.len() && column < infos[slot].columns.len() {
        let c = &infos[slot].columns[column];
        Expr::ColumnRef {
            slot,
            column,
            offset: infos[slot].offset.saturating_add(column),
            name: c.name.clone(),
            data_type: c.data_type,
            nullable: c.nullable,
        }
    } else {
        Expr::Literal(Value::Null)
    }
}

/// The name of a visible column.
pub open spec fn visible_name(v: VisibleView, infos: Seq<InfoView>) -> Seq<char> {
    match v {
        VisibleView::Physical { slot, column } => if slot < infos.len() && column
            < infos[slot as int].columns.len() {
            infos[slot as int].columns[column as int].name
        } else {
            Seq::empty()
        },
        VisibleView::Merged { name, .. } => name,
    }
}

/// The expression of a visible column over the joined row.
pub open spec fn visible_expr(v: VisibleView, infos: Seq<InfoView>) -> ExprView {
    match v {
        VisibleView::Physical { slot, column } => column_ref_view(
            infos,
            slot as int,
            column as int,
        ),
        VisibleView::Merged { expr, .. } => expr,
    }
}

/// Returns the visible name of a column.
pub(crate) fn visible_column_name(column: &VisibleColumn, infos: &Vec<SlotInfo>) -> (r: String)
    ensures
        r@ == visible_name(column@, views(infos@)),
{
    match column {
        VisibleColumn::Physical { slot, column } => if *slot < infos.len() && *column
            < infos[*slot].columns.len() {
            infos[*slot].columns[*column].name.clone()
        } else {
            String::new()
        },
        VisibleColumn::Merged { name, .. } => name.clone(),
    }
}

/// Returns an expression which evaluates a visible column against the complete joined row.
pub(crate) fn visible_column_expr(column: &VisibleColumn, infos: &Vec<SlotInfo>) -> (r: Expr)
    ensures
        r@ == visible_expr(column@, views(infos@)),
{
    match column {
        VisibleColumn::Physical { slot, column } => column_ref(infos, *slot, *column),
        VisibleColumn::Merged { expr, .. } => expr.copy(),
    }
}

/// The visible columns of a new slot.
pub open spec fn physical_schema(slot: usize, width: nat) -> Seq<VisibleView> {
    Seq::new(width, |i: int| VisibleView::Physical { slot, column: i as usize })
}

/// Produces the visible schema of a new FROM slot.
pub(crate) fn physical_visible_schema(slot: usize, width: usize) -> (r: Vec<VisibleColumn>)
    ensures
        views(r@) == physical_schema(slot, width as nat),
{
    let mut r: Vec<VisibleColumn> = Vec::new();
    let mut i: usize = 0;
    while i < width
        invariant
            i <= width,
            r.len() == i,
            forall|j: int|
                0 <= j < i ==> (#[trigger] r@[j])@ == (VisibleView::Physical {
                    slot,
                    column: j as usize,
                }),
        decreases width - i,
    {
        r.push(VisibleColumn::Physical { slot, column: i });
        i = i + 1;
    }
    assert(views(r@) =~= physical_schema(slot, width as nat));
    r
}

/// Visible columns with exactly the given name.
pub open spec fn visible_is(infos: Seq<InfoView>, name: Seq<char>) -> spec_fn(VisibleView) -> bool {
    |x: VisibleView| visible_name(x, infos) == name
}

/// Visible columns with the given name up to letter case.
pub open spec fn visible_folds(infos: Seq<InfoView>, name: Seq<char>) -> spec_fn(
    VisibleView,
) -> bool {
    |x: VisibleView| folds_to(visible_name(x, infos), name)
}

/// What a search among visible columns comes to.
#[derive(Clone, Copy, Debug, PartialEq, Eq, Structural)]
pub enum Found {
    /// One column.
    At(usize),
    /// Several columns.
    Ambiguous,
    /// No column.
    Missing,
}

/// The visible column with a name; exact matches are preferred to those up to letter case, and
/// there has to be one of the preferred kind.
pub open spec fn visible_named(
    schema: Seq<VisibleView>,
    infos: Seq<InfoView>,
    name: Seq<char>,
) -> Found {
    match first_at(schema, visible_is(infos, name), 0) {
        Some(i) => match first_at(schema, visible_is(infos, name), i + 1) {
            Some(_) => Found::Ambiguous,
            None => Found::At(i as usize),
        },
        None => match first_at(schema, visible_folds(infos, name), 0) {
            Some(i) => match first_at(schema, visible_folds(infos, name), i + 1) {
                Some(_) => Found::Ambiguous,
                None => Found::At(i as usize),
            },
            None => Found::Missing,
        },
    }
}

fn position_visible_exact(
    schema: &Vec<VisibleColumn>,
    infos: &Vec<SlotInfo>,
    name: &str,
    start: usize,
) -> (r: Option<usize>)
    requires
        start <= schema.len(),
    ensures
        match r {
            Some(i) => i < schema@.len() && first_at(
                views(schema@),
                visible_is(views(infos@), name@),
                start as int,
            ) == Some(i as int),
            None => first_at(views(schema@), visible_is(views(infos@), name@), start as int) is None,
        },
{
    let mut i: usize = start;
    while i < schema.len()
        invariant
            i <= schema.len(),
            first_at(views(schema@), visible_is(views(infos@), name@), start as int) == first_at(
                views(schema@),
                visible_is(views(infos@), name@),
                i as int,
            ),
        decreases schema.len() - i,
    {
        let n = visible_column_name(&schema[i], infos);
        if same_text(n.as_str(), name) {
            return Some(i);
        }
        i = i + 1;
    }
    None
}

/// The first visible column from `start` on with a name up to letter case.
pub(crate) fn position_visible_folded(
    schema: &Vec<VisibleColumn>,
    infos: &Vec<SlotInfo>,
    name: &str,
    start: usize,
) -> (r: Option<usize>)
    requires
        start <= schema.len(),
    ensures
        match r {
            Some(i) => i < schema@.len() && first_at(
                views(schema@),
                visible_folds(views(infos@), name@),
                start as int,
            ) == Some(i as int),
            None => first_at(
                views(schema@),
                visible_folds(views(infos@), name@),
                start as int,
            ) is None,
        },
{
    let mut i: usize = start;
    while i < schema.len()
        invariant
            i <= schema.len(),
            first_at(views(schema@), visible_folds(views(infos@), name@), start as int) == first_at(
                views(schema@),
                visible_folds(views(infos@), name@),
                i as int,
            ),
        decreases schema.len() - i,
    {
        let n = visible_column_name(&schema[i], infos);
        if same_folded(n.as_str(), name) {
            return Some(i);
        }
        i = i + 1;
    }
    None
}

/// Finds a visible column.
pub(crate) fn find_visible_column(
    schema: &Vec<VisibleColumn>,
    infos: &Vec<SlotInfo>,
    name: &str,
) -> (r: Found)
    ensures
        r == visible_named(views(schema@), views(infos@), name@),
        match r {
            Found::At(i) => i < schema@.len(),
            _ => true,
        },
{
    let total: usize = schema.len();
    assert(total == schema@.len());
    match position_visible_exact(schema, infos, name, 0) {
        Some(i) => match position_visible_exact(schema, infos, name, i + 1) {
            Some(_) => Found::Ambiguous,
            None => Found::At(i),
        },
        None => match position_visible_folded(schema, infos, name, 0) {
            Some(i) => match position_visible_folded(schema, infos, name, i + 1) {
                Some(_) => Found::Ambiguous,
                None => Found::At(i),
            },
            None => Found::Missing,
        },
    }
}

/// The refusal of an ambiguous column.
pub open spec fn ambiguous<T>(name: Seq<char>) -> Result<T, ErrorView> {
    invalid_view("column '"@ + name + "' is ambiguous"@)
}

/// The refusal of an unknown column.
pub open spec fn unknown_column<T>(name: Seq<char>) -> Result<T, ErrorView> {
    invalid_view("unknown column '"@ + name + "'"@)
}

pub(crate) fn ambiguous_error(name: &str) -> (r: HtapError)
    ensures
        Err::<(), ErrorView>(r@) == ambiguous::<()>(name@),
        r@ == ErrorView::InvalidArgument("column '"@ + name@ + "' is ambiguous"@),
{
    invalid(cat3("column '", name, "' is ambiguous"))
}

pub(crate) fn unknown_column_error(name: &str) -> (r: HtapError)
    ensures
        r@ == ErrorView::InvalidArgument("unknown column '"@ + name@ + "'"@),
{
    invalid(cat3("unknown column '", name, "'"))
}

/// Digits before the point.
pub open spec fn whole_digits(precision: u8, scale: u8) -> int {
    if scale <= precision {
        precision - scale
    } else {
        0
    }
}

/// A decimal type with the given digits before and behind the point, if they can be counted.
pub open spec fn decimal_with(digits: int, scale: int) -> Option<DataType> {
    if digits + scale > u8::MAX {
        None
    } else {
        let p = least(digits + scale, MAX_DECIMAL_PRECISION as int);
        Some(DataType::Decimal { precision: p as u8, scale: least(scale, p) as u8 })
    }
}

/// The common type of two branches of a set operation or an expression.
pub open spec fn common_of(l: DataType, r: DataType) -> Option<DataType> {
    if l == r {
        Some(l)
    } else if !l.number() || !r.number() {
        None
    } else if l == DataType::Float64 || r == DataType::Float64 {
        Some(DataType::Float64)
    } else {
        match (l, r) {
            (
                DataType::Decimal { precision: lp, scale: ls },
                DataType::Decimal { precision: rp, scale: rs },
            ) => decimal_with(
                greatest(whole_digits(lp, ls), whole_digits(rp, rs)),
                greatest(ls as int, rs as int),
            ),
            (DataType::Decimal { precision, scale }, other) => decimal_with(
                greatest(
                    whole_digits(precision, scale),
                    if other == DataType::Int32 {
                        10
                    } else {
                        19
                    },
                ),
                scale as int,
            ),
            (other, DataType::Decimal { precision, scale }) => decimal_with(
                greatest(
                    whole_digits(precision, scale),
                    if other == DataType::Int32 {
                        10
                    } else {
                        19
                    },
                ),
                scale as int,
            ),
            _ => Some(DataType::Int64),
        }
    }
}

pub(crate) fn whole_digits_of(precision: u8, scale: u8) -> (r: u8)
    ensures
        r == whole_digits(precision, scale),
{
    if scale <= precision {
        precision - scale
    } else {
        0
    }
}

fn decimal_of(digits: u8, scale: u8) -> (r: Option<DataType>)
    ensures
        r == decimal_with(digits as int, scale as int),
{
    match digits.checked_add(scale) {
        None => None,
        Some(sum) => {
            let p: u8 = if sum <= MAX_DECIMAL_PRECISION {
                sum
            } else {
                MAX_DECIMAL_PRECISION
            };
            let s: u8 = if scale <= p {
                scale
            } else {
                p
            };
            Some(DataType::Decimal { precision: p, scale: s })
        },
    }
}

fn max_u8(a: u8, b: u8) -> (r: u8)
    ensures
        r == greatest(a as int, b as int),
{
    if a >= b {
        a
    } else {
        b
    }
}

/// Common type of two set-operation branch columns.
pub fn union_type(l: DataType, r: DataType) -> (res: Option<DataType>)
    ensures
        res == common_of(l, r),
{
    if l == r {
        return Some(l);
    }
    if !l.is_number() || !r.is_number() {
        return None;
    }
    if l == DataType::Float64 || r == DataType::Float64 {
        return Some(DataType::Float64);
    }
    match (l, r) {
        (
            DataType::Decimal { precision: lp, scale: ls },
            DataType::Decimal { precision: rp, scale: rs },
        ) => decimal_of(
            max_u8(whole_digits_of(lp, ls), whole_digits_of(rp, rs)),
            max_u8(ls, rs),
        ),
        (DataType::Decimal { precision, scale }, other) => decimal_of(
            max_u8(
                whole_digits_of(precision, scale),
                if other == DataType::Int32 {
                    10
                } else {
                    19
                },
            ),
            scale,
        ),
        (other, DataType::Decimal { precision, scale }) => decimal_of(
            max_u8(
                whole_digits_of(precision, scale),
                if other == DataType::Int32 {
                    10
                } else {
                    19
                },
            ),
            scale,
        ),
        _ => Some(DataType::Int64),
    }
}

/// Whether two expressions can be compared, and if not, why.
pub open spec fn comparable_check(l: ExprType, r: ExprType, what: Seq<char>) -> Result<
    (),
    ErrorView,
> {
    if l.permissive() || r.permissive() || l.data_type == r.data_type || (l.data_type.numeric()
        && r.data_type.numeric()) {
        Ok(())
    } else {
        invalid_view(
            what + ": cannot compare "@ + l.data_type.keyword() + " with "@
                + r.data_type.keyword(),
        )
    }
}

/// Checks that two expressions can be compared.
pub(crate) fn check_comparable(l: &Expr, r: &Expr, what: &str) -> (res: Result<(), HtapError>)
    ensures
        outcome(res) == comparable_check(type_of(l@), type_of(r@), what@),
{
    let lt = l.static_type();
    let rt = r.static_type();
    if lt.is_permissive() || rt.is_permissive() {
        return Ok(());
    }
    if lt.data_type == rt.data_type || (lt.data_type.is_numeric() && rt.data_type.is_numeric()) {
        return Ok(());
    }
    Err(invalid(cat5(what, ": cannot compare ", lt.data_type.name(), " with ", rt.data_type.name())))
}

/// A column that `USING` or `NATURAL` merges.
pub open spec fn merged_column(
    name: Seq<char>,
    l: VisibleView,
    r: VisibleView,
    infos: Seq<InfoView>,
    before: Seq<InfoView>,
    kind: JoinKind,
) -> Result<VisibleView, ErrorView> {
    let le = visible_expr(l, infos);
    let re = visible_expr(r, infos);
    match comparable_check(type_of(le), type_of(re), "JOIN USING"@) {
        Err(e) => Err(e),
        Ok(_) => {
            let ln = type_of(visible_expr(l, before)).nullable;
            let rn = type_of(visible_expr(r, before)).nullable;
            let nullable = match kind {
                JoinKind::Left => ln,
                JoinKind::Right => rn,
                JoinKind::Full => ln || rn,
                _ => ln && rn,
            };
            let lt = type_of(le).data_type;
            let data_type = match common_of(lt, type_of(re).data_type) {
                Some(t) => t,
                None => lt,
            };
            Ok(
                VisibleView::Merged {
                    expr: ExprView::ScalarFunction {
                        func: ScalarFn::Coalesce,
                        args: seq![le, re],
                        data_type,
                        nullable,
                    },
                    name,
                    data_type,
                    nullable,
                },
            )
        },
    }
}

/// Builds a merged `USING`/`NATURAL` output column.
fn merged_visible_column(
    name: String,
    left: &VisibleColumn,
    right: &VisibleColumn,
    infos: &Vec<SlotInfo>,
    before: &Vec<SlotInfo>,
    kind: JoinKind,
) -> (r: Result<VisibleColumn, HtapError>)
    ensures
        outcome(r) == merged_column(
            name@,
            left@,
            right@,
            views(infos@),
            views(before@),
            kind,
        ),
{
    let le = visible_column_expr(left, infos);
    let re = visible_column_expr(right, infos);
    match check_comparable(&le, &re, "JOIN USING") {
        Err(e) => {
            return Err(e);
        },
        Ok(_) => {},
    }
    let lt = le.static_type().data_type;
    let rt = re.static_type().data_type;
    let ln = visible_column_expr(left, before).static_type().nullable;
    let rn = visible_column_expr(right, before).static_type().nullable;
    let nullable = match kind {
        JoinKind::Left => ln,
        JoinKind::Right => rn,
        JoinKind::Full => ln || rn,
        _ => ln && rn,
    };
    let data_type = match union_type(lt, rt) {
        Some(t) => t,
        None => lt,
    };
    let mut args: Vec<Expr> = Vec::new();
    args.push(le);
    args.push(re);
    assert(view_exprs(args) =~= seq![
        visible_expr(left@, views(infos@)),
        visible_expr(right@, views(infos@)),
    ]);
    Ok(
        VisibleColumn::Merged {
            expr: Expr::ScalarFunction { func: ScalarFn::Coalesce, args, data_type, nullable },
            name,
            data_type,
            nullable,
        },
    )
}

/// The visible columns of a sequence from `i` on that are not marked, behind those of `acc`.
pub open spec fn unmarked(
    schema: Seq<VisibleView>,
    marks: Seq<bool>,
    i: int,
    acc: Seq<VisibleView>,
) -> Seq<VisibleView>
    decreases schema.len() - i,
{
    if i < 0 || i >= schema.len() {
        acc
    } else if i < marks.len() && marks[i] {
        unmarked(schema, marks, i + 1, acc)
    } else {
        unmarked(schema, marks, i + 1, acc.push(schema[i]))
    }
}

/// The visible columns of a join from the `i`-th merged name on: merged columns first, then what
/// is left of the left input, then of the right.
pub open spec fn joined_schema_from(
    l: Seq<VisibleView>,
    r: Seq<VisibleView>,
    names: Seq<Seq<char>>,
    infos: Seq<InfoView>,
    before: Seq<InfoView>,
    kind: JoinKind,
    i: int,
    lused: Seq<bool>,
    rused: Seq<bool>,
    acc: Seq<VisibleView>,
) -> Result<Seq<VisibleView>, ErrorView>
    decreases names.len() - i,
{
    if i < 0 || i >= names.len() {
        Ok(unmarked(r, rused, 0, unmarked(l, lused, 0, acc)))
    } else {
        match first_at(l, visible_folds(infos, names[i]), 0) {
            None => invalid_view(
                "column '"@ + names[i] + "' does not exist in left join input"@,
            ),
            Some(li) => match first_at(r, visible_folds(infos, names[i]), 0) {
                None => invalid_view(
                    "column '"@ + names[i] + "' does not exist in right join input"@,
                ),
                Some(ri) => if (li < lused.len() && lused[li]) || (ri < rused.len() && rused[ri]) {
                    invalid_view("duplicate column '"@ + names[i] + "' in JOIN USING"@)
                } else {
                    match merged_column(
                        visible_name(l[li], infos),
                        l[li],
                        r[ri],
                        infos,
                        before,
                        kind,
                    ) {
                        Err(e) => Err(e),
                        Ok(c) => joined_schema_from(
                            l,
                            r,
                            names,
                            infos,
                            before,
                            kind,
                            i + 1,
                            lused.update(li, true),
                            rused.update(ri, true),
                            acc.push(c),
                        ),
                    }
                },
            },
        }
    }
}

/// The visible columns of a `USING` or `NATURAL` join.
pub open spec fn joined_schema(
    l: Seq<VisibleView>,
    r: Seq<VisibleView>,
    names: Seq<Seq<char>>,
    infos: Seq<InfoView>,
    before: Seq<InfoView>,
    kind: JoinKind,
) -> Result<Seq<VisibleView>, ErrorView> {
    joined_schema_from(
        l,
        r,
        names,
        infos,
        before,
        kind,
        0,
        Seq::new(l.len(), |i: int| false),
        Seq::new(r.len(), |i: int| false),
        Seq::empty(),
    )
}

fn unused_flags(n: usize) -> (r: Vec<bool>)
    ensures
        r@ == Seq::new(n as nat, |i: int| false),
{
    let mut r: Vec<bool> = Vec::new();
    let mut i: usize = 0;
    while i < n
        invariant
            i <= n,
            r.len() == i,
            forall|j: int| 0 <= j < i ==> !r@[j],
        decreases n - i,
    {
        r.push(false);
        i = i + 1;
    }
    assert(r@ =~= Seq::new(n as nat, |i: int| false));
    r
}

fn push_unmarked(schema: &Vec<VisibleColumn>, marks: &Vec<bool>, out: &mut Vec<VisibleColumn>)
    ensures
        views(final(out)@) == unmarked(views(schema@), marks@, 0, views(old(out)@)),
{
    let ghost start = views(out@);
    let mut i: usize = 0;
    while i < schema.len()
        invariant
            i <= schema.len(),
            unmarked(views(schema@), marks@, 0, start) == unmarked(
                views(schema@),
                marks@,
                i as int,
                views(out@),
            ),
        decreases schema.len() - i,
    {
        if i < marks.len() && marks[i] {
        } else {
            let c = schema[i].copy();
            proof {
                lemma_views_push(out@, c);
            }
            out.push(c);
        }
        i = i + 1;
    }
}

/// Builds the visible schema of a `USING` or `NATURAL` join.
pub(crate) fn join_visible_schema(
    left: &Vec<VisibleColumn>,
    right: &Vec<VisibleColumn>,
    names: &Vec<String>,
    infos: &Vec<SlotInfo>,
    before: &Vec<SlotInfo>,
    kind: JoinKind,
) -> (r: Result<Vec<VisibleColumn>, HtapError>)
    ensures
        match r {
            Ok(v) => joined_schema(
                views(left@),
                views(right@),
                views(names@),
                views(infos@),
                views(before@),
                kind,
            ) == Ok::<Seq<VisibleView>, ErrorView>(views(v@)),
            Err(e) => joined_schema(
                views(left@),
                views(right@),
                views(names@),
                views(infos@),
                views(before@),
                kind,
            ) == Err::<Seq<VisibleView>, ErrorView>(e@),
        },
{
    let ghost whole = joined_schema(
        views(left@),
        views(right@),
        views(names@),
        views(infos@),
        views(before@),
        kind,
    );
    let mut merged: Vec<VisibleColumn> = Vec::new();
    let mut lused = unused_flags(left.len());
    let mut rused = unused_flags(right.len());
    let mut i: usize = 0;
    assert(views(merged@) =~= Seq::empty());
    while i < names.len()
        invariant
            i <= names.len(),
            lused.len() == left.len(),
            rused.len() == right.len(),
            whole == joined_schema(
                views(left@),
                views(right@),
                views(names@),
                views(infos@),
                views(before@),
                kind,
            ),
            whole == joined_schema_from(
                views(left@),
                views(right@),
                views(names@),
                views(infos@),
                views(before@),
                kind,
                i as int,
                lused@,
                rused@,
                views(merged@),
            ),
        decreases names.len() - i,
    {
        let name = names[i].as_str();
        let li: usize = match position_visible_folded(left, infos, name, 0) {
            Some(k) => k,
            None => {
                return Err(invalid(cat3("column '", name, "' does not exist in left join input")));
            },
        };
        let ri: usize = match position_visible_folded(right, infos, name, 0) {
            Some(k) => k,
            None => {
                return Err(invalid(cat3("column '", name, "' does not exist in right join input")));
            },
        };
        if lused[li] || rused[ri] {
            return Err(invalid(cat3("duplicate column '", name, "' in JOIN USING")));
        }
        lused.set(li, true);
        rused.set(ri, true);
        let shown = visible_column_name(&left[li], infos);
        match merged_visible_column(shown, &left[li], &right[ri], infos, before, kind) {
            Err(e) => {
                return Err(e);
            },
            Ok(c) => {
                proof {
                    lemma_views_push(merged@, c);
                }
                merged.push(c);
            },
        }
        i = i + 1;
    }
    push_unmarked(left, &lused, &mut merged);
    push_unmarked(right, &rused, &mut merged);
    Ok(merged)
}

/// The column a `USING` name stands for on one side, or its refusal.
pub open spec fn using_column(
    schema: Seq<VisibleView>,
    infos: Seq<InfoView>,
    name: Seq<char>,
) -> Result<VisibleView, ErrorView> {
    match visible_named(schema, infos, name) {
        Found::At(i) => Ok(schema[i as int]),
        Found::Ambiguous => ambiguous(name),
        Found::Missing => unknown_column(name),
    }
}

/// The equalities of a `USING` join from the `i`-th name on, joined to what stands before them.
pub open spec fn using_from(
    l: Seq<VisibleView>,
    r: Seq<VisibleView>,
    names: Seq<Seq<char>>,
    infos: Seq<InfoView>,
    i: int,
    acc: Option<ExprView>,
) -> Result<Option<ExprView>, ErrorView>
    decreases names.len() - i,
{
    if i < 0 || i >= names.len() {
        Ok(acc)
    } else {
        match using_column(l, infos, names[i]) {
            Err(e) => Err(e),
            Ok(lc) => match using_column(r, infos, names[i]) {
                Err(e) => Err(e),
                Ok(rc) => {
                    let le = visible_expr(lc, infos);
                    let re = visible_expr(rc, infos);
                    match comparable_check(type_of(le), type_of(re), "JOIN USING"@) {
                        Err(e) => Err(e),
                        Ok(_) => {
                            let eq = ExprView::BinaryOp {
                                op: BinOp::Eq,
                                left: Box::new(le),
                                right: Box::new(re),
                            };
                            using_from(
                                l,
                                r,
                                names,
                                infos,
                                i + 1,
                                Some(
                                    match acc {
                                        Some(p) => ExprView::BinaryOp {
                                            op: BinOp::And,
                                            left: Box::new(p),
                                            right: Box::new(eq),
                                        },
                                        None => eq,
                                    },
                                ),
                            )
                        },
                    }
                },
            },
        }
    }
}

fn find_using<'a>(schema: &'a Vec<VisibleColumn>, infos: &Vec<SlotInfo>, name: &str) -> (r: Result<
    &'a VisibleColumn,
    HtapError,
>)
    ensures
        match r {
            Ok(c) => using_column(views(schema@), views(infos@), name@) == Ok::<
                VisibleView,
                ErrorView,
            >(c@),
            Err(e) => using_column(views(schema@), views(infos@), name@) == Err::<
                VisibleView,
                ErrorView,
            >(e@),
        },
{
    match find_visible_column(schema, infos, name) {
        Found::At(i) => Ok(&schema[i]),
        Found::Ambiguous => Err(ambiguous_error(name)),
        Found::Missing => Err(unknown_column_error(name)),
    }
}

/// Produces equality predicates for all `USING`/`NATURAL` columns.
pub(crate) fn using_predicate(
    left: &Vec<VisibleColumn>,
    right: &Vec<VisibleColumn>,
    names: &Vec<String>,
    infos: &Vec<SlotInfo>,
) -> (r: Result<Option<Expr>, HtapError>)
    ensures
        match r {
            Ok(p) => using_from(
                views(left@),
                views(right@),
                views(names@),
                views(infos@),
                0,
                None,
            ) == Ok::<Option<ExprView>, ErrorView>(option_view(p)),
            Err(e) => using_from(
                views(left@),
                views(right@),
                views(names@),
                views(infos@),
                0,
                None,
            ) == Err::<Option<ExprView>, ErrorView>(e@),
        },
{
    let ghost whole = using_from(
        views(left@),
        views(right@),
        views(names@),
        views(infos@),
        0,
        None,
    );
    let mut predicate: Option<Expr> = None;
    let mut i: usize = 0;
    while i < names.len()
        invariant
            i <= names.len(),
            whole == using_from(
                views(left@),
                views(right@),
                views(names@),
                views(infos@),
                0,
                None,
            ),
            whole == using_from(
                views(left@),
                views(right@),
                views(names@),
                views(infos@),
                i as int,
                option_view(predicate),
            ),
        decreases names.len() - i,
    {
        let name = names[i].as_str();
        let lc = match find_using(left, infos, name) {
            Ok(c) => c,
            Err(e) => {
                return Err(e);
            },
        };
        let rc = match find_using(right, infos, name) {
            Ok(c) => c,
            Err(e) => {
                return Err(e);
            },
        };
        let le = visible_column_expr(lc, infos);
        let re = visible_column_expr(rc, infos);
        match check_comparable(&le, &re, "JOIN USING") {
            Err(e) => {
                return Err(e);
            },
            Ok(_) => {},
        }
        let ghost both = ExprView::BinaryOp {
            op: BinOp::Eq,
            left: Box::new(le@),
            right: Box::new(re@),
        };
        let eq = Expr::BinaryOp { op: BinOp::Eq, left: Box::new(le), right: Box::new(re) };
        assert(eq@ == both);
        predicate = Some(
            match predicate {
                Some(p) => Expr::BinaryOp {
                    op: BinOp::And,
                    left: Box::new(p),
                    right: Box::new(eq),
                },
                None => eq,
            },
        );
        i = i + 1;
    }
    Ok(predicate)
}

/// The names that both inputs share from the `i`-th left column on, behind those of `acc`.
pub open spec fn shared_names(
    l: Seq<VisibleView>,
    r: Seq<VisibleView>,
    infos: Seq<InfoView>,
    i: int,
    acc: Seq<Seq<char>>,
) -> Seq<Seq<char>>
    decreases l.len() - i,
{
    if i < 0 || i >= l.len() {
        acc
    } else {
        let name = visible_name(l[i], infos);
        if first_at(r, visible_folds(infos, name), 0) is Some {
            shared_names(l, r, infos, i + 1, acc.push(name))
        } else {
            shared_names(l, r, infos, i + 1, acc)
        }
    }
}

/// Names shared by both visible schemas, in left-input order.
pub(crate) fn natural_columns(
    left: &Vec<VisibleColumn>,
    right: &Vec<VisibleColumn>,
    infos: &Vec<SlotInfo>,
) -> (r: Vec<String>)
    ensures
        views(r@) == shared_names(views(left@), views(right@), views(infos@), 0, Seq::empty()),
{
    let mut out: Vec<String> = Vec::new();
    let mut i: usize = 0;
    assert(views(out@) =~= Seq::empty());
    while i < left.len()
        invariant
            i <= left.len(),
            shared_names(views(left@), views(right@), views(infos@), 0, Seq::empty())
                == shared_names(views(left@), views(right@), views(infos@), i as int, views(out@)),
        decreases left.len() - i,
    {
        let name = visible_column_name(&left[i], infos);
        match position_visible_folded(right, infos, name.as_str(), 0) {
            Some(_) => {
                proof {
                    lemma_views_push(out@, name);
                }
                out.push(name);
            },
            None => {},
        }
        i = i + 1;
    }
    out
}

/// Slots with the columns of those from `a` to `b` made nullable.
pub open spec fn padded(infos: Seq<InfoView>, a: int, b: int) -> Seq<InfoView> {
    Seq::new(
        infos.len(),
        |i: int|
            if a <= i <= b {
                InfoView {
                    alias: infos[i].alias,
                    columns: infos[i].columns.map_values(
                        |c: ColumnView| ColumnView { nullable: true, ..c },
                    ),
                    offset: infos[i].offset,
                }
            } else {
                infos[i]
            },
    )
}

/// A slot whose columns are all nullable.
fn mark_nullable(info: &SlotInfo) -> (r: SlotInfo)
    ensures
        r@.alias == info@.alias,
        r@.offset == info@.offset,
        r@.columns == info@.columns.map_values(|c: ColumnView| ColumnView { nullable: true, ..c }),
{
    let mut columns: Vec<ColumnDef> = Vec::new();
    let mut i: usize = 0;
    while i < info.columns.len()
        invariant
            i <= info.columns.len(),
            columns.len() == i,
            forall|j: int|
                0 <= j < i ==> (#[trigger] columns@[j])@ == (ColumnView {
                    nullable: true,
                    ..info.columns@[j]@
                }),
        decreases info.columns.len() - i,
    {
        let c = &info.columns[i];
        columns.push(
            ColumnDef {
                name: c.name.clone(),
                data_type: c.data_type,
                nullable: true,
                primary_key: c.primary_key,
            },
        );
        i = i + 1;
    }
    assert(views(columns@) =~= info@.columns.map_values(
        |c: ColumnView| ColumnView { nullable: true, ..c },
    ));
    SlotInfo { alias: info.alias.clone(), columns, offset: info.offset }
}

/// Slots with the columns of a range made nullable.
pub(crate) fn mark_nullable_range(infos: &Vec<SlotInfo>, range: (usize, usize)) -> (r: Vec<
    SlotInfo,
>)
    ensures
        views(r@) == padded(views(infos@), range.0 as int, range.1 as int),
{
    let mut r: Vec<SlotInfo> = Vec::new();
    let mut i: usize = 0;
    while i < infos.len()
        invariant
            i <= infos.len(),
            r.len() == i,
            forall|j: int|
                0 <= j < i ==> (#[trigger] r@[j])@ == padded(
                    views(infos@),
                    range.0 as int,
                    range.1 as int,
                )[j],
        decreases infos.len() - i,
    {
        let x = if range.0 <= i && i <= range.1 {
            mark_nullable(&infos[i])
        } else {
            infos[i].copy()
        };
        r.push(x);
        i = i + 1;
    }
    assert(views(r@) =~= padded(views(infos@), range.0 as int, range.1 as int));
    r
}

/// The first and the last slot of a join tree.
pub open spec fn slot_range(t: TreeView) -> (usize, usize)
    decreases t,
{
    match t {
        TreeView::Leaf(s) => (s, s),
        TreeView::Join { left, right, .. } => (slot_range(*left).0, slot_range(*right).1),
    }
}

/// The first and the last slot of a join tree.
pub fn tree_slot_range(tree: &JoinTree) -> (r: (usize, usize))
    ensures
        r == slot_range(tree@),
    decreases tree,
{
    match tree {
        JoinTree::Leaf(slot) => (*slot, *slot),
        JoinTree::Join { left, right, .. } => {
            let (first, _) = tree_slot_range(left);
            let (_, last) = tree_slot_range(right);
            (first, last)
        },
    }
}

/// The left-deep tree of the first `n` joins.
pub open spec fn left_deep(joins: Seq<JoinSpec>, n: int) -> TreeView
    decreases n,
{
    if n <= 0 || n > joins.len() {
        TreeView::Leaf(0)
    } else {
        TreeView::Join {
            kind: joins[n - 1].kind,
            left: Box::new(left_deep(joins, n - 1)),
            right: Box::new(TreeView::Leaf(joins[n - 1].right_slot)),
            on: option_view(joins[n - 1].on),
        }
    }
}

/// The left-deep tree of a list of joins.
pub fn left_deep_join_tree(joins: &Vec<JoinSpec>) -> (r: JoinTree)
    ensures
        r@ == left_deep(joins@, joins@.len() as int),
{
    let mut tree = JoinTree::Leaf(0);
    let mut i: usize = 0;
    while i < joins.len()
        invariant
            i <= joins.len(),
            tree@ == left_deep(joins@, i as int),
        decreases joins.len() - i,
    {
        let on = crate::query::copy_option(&joins[i].on);
        let right = JoinTree::Leaf(joins[i].right_slot);
        assert(right@ == TreeView::Leaf(joins[i as int].right_slot));
        let next = JoinTree::Join {
            kind: joins[i].kind,
            left: Box::new(tree),
            right: Box::new(right),
            on,
        };
        assert(next@ == left_deep(joins@, i + 1));
        tree = next;
        i = i + 1;
    }
    tree
}

/// The refusal of a slot that cannot be counted.
pub open spec fn slot_overflow<T>() -> Result<T, ErrorView> {
    invalid_view("column slot overflow while rebasing join expression"@)
}

/// The refusal of a column outside the subtree.
pub open spec fn outside_subtree<T>() -> Result<T, ErrorView> {
    invalid_view("column offset is outside the visible join subtree"@)
}

/// An expression whose column references are moved: slots up by `up`, offsets down by `down`.
pub open spec fn rebased(e: ExprView, down: usize, up: usize) -> Result<ExprView, ErrorView>
    decreases e, 0int,
{
    match e {
        ExprView::ColumnRef { slot, column, offset, name, data_type, nullable } => if slot + up
            > usize::MAX {
            slot_overflow()
        } else if offset < down {
            outside_subtree()
        } else {
            Ok(
                ExprView::ColumnRef {
                    slot: (slot + up) as usize,
                    column,
                    offset: (offset - down) as usize,
                    name,
                    data_type,
                    nullable,
                },
            )
        },
        ExprView::BinaryOp { op, left, right } => match rebased(*left, down, up) {
            Err(e) => Err(e),
            Ok(l) => match rebased(*right, down, up) {
                Err(e) => Err(e),
                Ok(r) => Ok(ExprView::BinaryOp { op, left: Box::new(l), right: Box::new(r) }),
            },
        },
        ExprView::Not(x) => match rebased(*x, down, up) {
            Err(e) => Err(e),
            Ok(x) => Ok(ExprView::Not(Box::new(x))),
        },
        ExprView::Negate(x) => match rebased(*x, down, up) {
            Err(e) => Err(e),
            Ok(x) => Ok(ExprView::Negate(Box::new(x))),
        },
        ExprView::IsNull(x) => match rebased(*x, down, up) {
            Err(e) => Err(e),
            Ok(x) => Ok(ExprView::IsNull(Box::new(x))),
        },
        ExprView::IsNotNull(x) => match rebased(*x, down, up) {
            Err(e) => Err(e),
            Ok(x) => Ok(ExprView::IsNotNull(Box::new(x))),
        },
        ExprView::Like { expr, pattern, negated } => match rebased(*expr, down, up) {
            Err(e) => Err(e),
            Ok(x) => match rebased(*pattern, down, up) {
                Err(e) => Err(e),
                Ok(p) => Ok(ExprView::Like { expr: Box::new(x), pattern: Box::new(p), negated }),
            },
        },
        ExprView::In { expr, list, negated } => match rebased(*expr, down, up) {
            Err(e) => Err(e),
            Ok(x) => match rebased_list(list, down, up, 0, Seq::empty()) {
                Err(e) => Err(e),
                Ok(l) => Ok(ExprView::In { expr: Box::new(x), list: l, negated }),
            },
        },
        ExprView::Between { expr, low, high, negated } => match rebased(*expr, down, up) {
            Err(e) => Err(e),
            Ok(x) => match rebased(*low, down, up) {
                Err(e) => Err(e),
                Ok(l) => match rebased(*high, down, up) {
                    Err(e) => Err(e),
                    Ok(h) => Ok(
                        ExprView::Between {
                            expr: Box::new(x),
                            low: Box::new(l),
                            high: Box::new(h),
                            negated,
                        },
                    ),
                },
            },
        },
        ExprView::Case { operand, branches, else_result, data_type, nullable } => {
            let first = match operand {
                Some(x) => match rebased(*x, down, up) {
                    Err(e) => Err(e),
                    Ok(x) => Ok(Some(Box::new(x))),
                },
                None => Ok(None),
            };
            match first {
                Err(e) => Err(e),
                Ok(operand2) => match rebased_branches(branches, down, up, 0, Seq::empty()) {
                    Err(e) => Err(e),
                    Ok(branches2) => {
                        let last = match else_result {
                            Some(x) => match rebased(*x, down, up) {
                                Err(e) => Err(e),
                                Ok(x) => Ok(Some(Box::new(x))),
                            },
                            None => Ok(None),
                        };
                        match last {
                            Err(e) => Err(e),
                            Ok(else2) => Ok(
                                ExprView::Case {
                                    operand: operand2,
                                    branches: branches2,
                                    else_result: else2,
                                    data_type,
                                    nullable,
                                },
                            ),
                        }
                    },
                },
            }
        },
        ExprView::Cast { expr, to } => match rebased(*expr, down, up) {
            Err(e) => Err(e),
            Ok(x) => Ok(ExprView::Cast { expr: Box::new(x), to }),
        },
        ExprView::CalendarInterval { expr, quantity, unit, negated } => match rebased(
            *expr,
            down,
            up,
        ) {
            Err(e) => Err(e),
            Ok(x) => match rebased(*quantity, down, up) {
                Err(e) => Err(e),
                Ok(q) => Ok(
                    ExprView::CalendarInterval {
                        expr: Box::new(x),
                        quantity: Box::new(q),
                        unit,
                        negated,
                    },
                ),
            },
        },
        ExprView::ScalarFunction { func, args, data_type, nullable } => match rebased_list(
            args,
            down,
            up,
            0,
            Seq::empty(),
        ) {
            Err(e) => Err(e),
            Ok(a) => Ok(ExprView::ScalarFunction { func, args: a, data_type, nullable }),
        },
        ExprView::InSubquery { expr, index, negated, correlated } => match rebased(
            *expr,
            down,
            up,
        ) {
            Err(e) => Err(e),
            Ok(x) => Ok(
                ExprView::InSubquery { expr: Box::new(x), index, negated, correlated },
            ),
        },
        _ => Ok(e),
    }
}

/// The moved expressions of a list from the `i`-th on, behind those of `acc`.
pub open spec fn rebased_list(
    list: Seq<ExprView>,
    down: usize,
    up: usize,
    i: int,
    acc: Seq<ExprView>,
) -> Result<Seq<ExprView>, ErrorView>
    decreases list, list.len() - i,
{
    if i < 0 || i >= list.len() {
        Ok(acc)
    } else {
        match rebased(list[i], down, up) {
            Err(e) => Err(e),
            Ok(x) => rebased_list(list, down, up, i + 1, acc.push(x)),
        }
    }
}

/// The moved branches of a `CASE` from the `i`-th on, behind those of `acc`.
pub open spec fn rebased_branches(
    list: Seq<(ExprView, ExprView)>,
    down: usize,
    up: usize,
    i: int,
    acc: Seq<(ExprView, ExprView)>,
) -> Result<Seq<(ExprView, ExprView)>, ErrorView>
    decreases list, list.len() - i,
{
    if i < 0 || i >= list.len() {
        Ok(acc)
    } else {
        match rebased(list[i].0, down, up) {
            Err(e) => Err(e),
            Ok(c) => match rebased(list[i].1, down, up) {
                Err(e) => Err(e),
                Ok(r) => rebased_branches(list, down, up, i + 1, acc.push((c, r))),
            },
        }
    }
}

/// Moves the column references of an expression: slots up by `slot_base`, offsets down by
/// `base_offset`.
pub fn rebase_expr(expr: &Expr, base_offset: usize, slot_base: usize) -> (r: Result<Expr, HtapError>)
    ensures
        outcome(r) == rebased(expr@, base_offset, slot_base),
    decreases expr, 0int,
{
    match expr {
        Expr::ColumnRef { slot, column, offset, name, data_type, nullable } => {
            let slot2: usize = match slot.checked_add(slot_base) {
                Some(s) => s,
                None => {
                    return Err(
                        invalid(owned("column slot overflow while rebasing join expression")),
                    );
                },
            };
            let offset2: usize = match offset.checked_sub(base_offset) {
                Some(o) => o,
                None => {
                    return Err(
                        invalid(owned("column offset is outside the visible join subtree")),
                    );
                },
            };
            Ok(
                Expr::ColumnRef {
                    slot: slot2,
                    column: *column,
                    offset: offset2,
                    name: name.clone(),
                    data_type: *data_type,
                    nullable: *nullable,
                },
            )
        },
        Expr::BinaryOp { op, left, right } => {
            let l = match rebase_expr(left, base_offset, slot_base) {
                Ok(x) => x,
                Err(e) => {
                    return Err(e);
                },
            };
            let r = match rebase_expr(right, base_offset, slot_base) {
                Ok(x) => x,
                Err(e) => {
                    return Err(e);
                },
            };
            Ok(Expr::BinaryOp { op: *op, left: Box::new(l), right: Box::new(r) })
        },
        Expr::Not(x) => match rebase_expr(x, base_offset, slot_base) {
            Ok(x) => Ok(Expr::Not(Box::new(x))),
            Err(e) => Err(e),
        },
        Expr::Negate(x) => match rebase_expr(x, base_offset, slot_base) {
            Ok(x) => Ok(Expr::Negate(Box::new(x))),
            Err(e) => Err(e),
        },
        Expr::IsNull(x) => match rebase_expr(x, base_offset, slot_base) {
            Ok(x) => Ok(Expr::IsNull(Box::new(x))),
            Err(e) => Err(e),
        },
        Expr::IsNotNull(x) => match rebase_expr(x, base_offset, slot_base) {
            Ok(x) => Ok(Expr::IsNotNull(Box::new(x))),
            Err(e) => Err(e),
        },
        Expr::Like { expr, pattern, negated } => {
            let x = match rebase_expr(expr, base_offset, slot_base) {
                Ok(x) => x,
                Err(e) => {
                    return Err(e);
                },
            };
            let p = match rebase_expr(pattern, base_offset, slot_base) {
                Ok(x) => x,
                Err(e) => {
                    return Err(e);
                },
            };
            Ok(Expr::Like { expr: Box::new(x), pattern: Box::new(p), negated: *negated })
        },
        Expr::In { expr, list, negated } => {
            let x = match rebase_expr(expr, base_offset, slot_base) {
                Ok(x) => x,
                Err(e) => {
                    return Err(e);
                },
            };
            let l = match rebase_list(list, base_offset, slot_base) {
                Ok(x) => x,
                Err(e) => {
                    return Err(e);
                },
            };
            Ok(Expr::In { expr: Box::new(x), list: l, negated: *negated })
        },
        Expr::Between { expr, low, high, negated } => {
            let x = match rebase_expr(expr, base_offset, slot_base) {
                Ok(x) => x,
                Err(e) => {
                    return Err(e);
                },
            };
            let l = match rebase_expr(low, base_offset, slot_base) {
                Ok(x) => x,
                Err(e) => {
                    return Err(e);
                },
            };
            let h = match rebase_expr(high, base_offset, slot_base) {
                Ok(x) => x,
                Err(e) => {
                    return Err(e);
                },
            };
            Ok(
                Expr::Between {
                    expr: Box::new(x),
                    low: Box::new(l),
                    high: Box::new(h),
                    negated: *negated,
                },
            )
        },
        Expr::Case { operand, branches, else_result, data_type, nullable } => {
            let operand2 = match operand {
                Some(x) => match rebase_expr(x, base_offset, slot_base) {
                    Ok(x) => Some(Box::new(x)),
                    Err(e) => {
                        return Err(e);
                    },
                },
                None => None,
            };
            let branches2 = match rebase_branches(branches, base_offset, slot_base) {
                Ok(x) => x,
                Err(e) => {
                    return Err(e);
                },
            };
            let else2 = match else_result {
                Some(x) => match rebase_expr(x, base_offset, slot_base) {
                    Ok(x) => Some(Box::new(x)),
                    Err(e) => {
                        return Err(e);
                    },
                },
                None => None,
            };
            Ok(
                Expr::Case {
                    operand: operand2,
                    branches: branches2,
                    else_result: else2,
                    data_type: *data_type,
                    nullable: *nullable,
                },
            )
        },
        Expr::Cast { expr, to } => match rebase_expr(expr, base_offset, slot_base) {
            Ok(x) => Ok(Expr::Cast { expr: Box::new(x), to: *to }),
            Err(e) => Err(e),
        },
        Expr::CalendarInterval { expr, quantity, unit, negated } => {
            let x = match rebase_expr(expr, base_offset, slot_base) {
                Ok(x) => x,
                Err(e) => {
                    return Err(e);
                },
            };
            let q = match rebase_expr(quantity, base_offset, slot_base) {
                Ok(x) => x,
                Err(e) => {
                    return Err(e);
                },
            };
            Ok(
                Expr::CalendarInterval {
                    expr: Box::new(x),
                    quantity: Box::new(q),
                    unit: *unit,
                    negated: *negated,
                },
            )
        },
        Expr::ScalarFunction { func, args, data_type, nullable } => match rebase_list(
            args,
            base_offset,
            slot_base,
        ) {
            Ok(a) => Ok(
                Expr::ScalarFunction {
                    func: *func,
                    args: a,
                    data_type: *data_type,
                    nullable: *nullable,
                },
            ),
            Err(e) => Err(e),
        },
        Expr::InSubquery { expr, index, negated, correlated } => match rebase_expr(
            expr,
            base_offset,
            slot_base,
        ) {
            Ok(x) => Ok(
                Expr::InSubquery {
                    expr: Box::new(x),
                    index: *index,
                    negated: *negated,
                    correlated: *correlated,
                },
            ),
            Err(e) => Err(e),
        },
        other => Ok(other.copy()),
    }
}

fn rebase_list(list: &Vec<Expr>, base_offset: usize, slot_base: usize) -> (r: Result<
    Vec<Expr>,
    HtapError,
>)
    ensures
        match r {
            Ok(v) => rebased_list(view_exprs(*list), base_offset, slot_base, 0, Seq::empty())
                == Ok::<Seq<ExprView>, ErrorView>(view_exprs(v)),
            Err(e) => rebased_list(view_exprs(*list), base_offset, slot_base, 0, Seq::empty())
                == Err::<Seq<ExprView>, ErrorView>(e@),
        },
    decreases list, 1int,
{
    let mut out: Vec<Expr> = Vec::new();
    let mut i: usize = 0;
    assert(views(out@) =~= Seq::empty());
    while i < list.len()
        invariant
            i <= list.len(),
            rebased_list(view_exprs(*list), base_offset, slot_base, 0, Seq::empty())
                == rebased_list(
                view_exprs(*list),
                base_offset,
                slot_base,
                i as int,
                views(out@),
            ),
        decreases list.len() - i,
    {
        match rebase_expr(&list[i], base_offset, slot_base) {
            Ok(x) => {
                proof {
                    lemma_views_push(out@, x);
                }
                out.push(x);
            },
            Err(e) => {
                return Err(e);
            },
        }
        i = i + 1;
    }
    proof {
        crate::expr::lemma_view_exprs(out);
    }
    Ok(out)
}

fn rebase_branches(list: &Vec<(Expr, Expr)>, base_offset: usize, slot_base: usize) -> (r: Result<
    Vec<(Expr, Expr)>,
    HtapError,
>)
    ensures
        match r {
            Ok(v) => rebased_branches(view_branches(*list), base_offset, slot_base, 0, Seq::empty())
                == Ok::<Seq<(ExprView, ExprView)>, ErrorView>(view_branches(v)),
            Err(e) => rebased_branches(
                view_branches(*list),
                base_offset,
                slot_base,
                0,
                Seq::empty(),
            ) == Err::<Seq<(ExprView, ExprView)>, ErrorView>(e@),
        },
    decreases list, 1int,
{
    let mut out: Vec<(Expr, Expr)> = Vec::new();
    let mut i: usize = 0;
    assert(view_branches(out) =~= Seq::empty());
    while i < list.len()
        invariant
            i <= list.len(),
            rebased_branches(view_branches(*list), base_offset, slot_base, 0, Seq::empty())
                == rebased_branches(
                view_branches(*list),
                base_offset,
                slot_base,
                i as int,
                view_branches(out),
            ),
        decreases list.len() - i,
    {
        let c = match rebase_expr(&list[i].0, base_offset, slot_base) {
            Ok(x) => x,
            Err(e) => {
                return Err(e);
            },
        };
        let r = match rebase_expr(&list[i].1, base_offset, slot_base) {
            Ok(x) => x,
            Err(e) => {
                return Err(e);
            },
        };
        let ghost before = view_branches(out);
        let ghost pair = (c@, r@);
        out.push((c, r));
        assert(view_branches(out) =~= before.push(pair));
        i = i + 1;
    }
    Ok(out)
}

} // verus!
