//! Scopes of expressions, and the resolution of column names in them.

use crate::answers::Answers;
use crate::catalog::CatalogSnapshot;
use crate::expr::{AggregateSpec, AggregateView, Expr, ExprView};
use crate::names::{
    alias_folds, ambiguous, ambiguous_error, column_folds, column_is, column_named, column_ref,
    column_ref_view, copy_infos, find_visible_column, first_at, position_alias_folded,
    position_column, position_exact, position_folded, position_slot, slot_named, sum_held,
    unknown_column, unknown_column_error, visible_column_expr, visible_expr, visible_named,
    CteEntry, CteEntryView, Found, InfoView, SlotInfo,
};
use crate::query::{BoundQuery, QueryView, VisibleColumn, VisibleView, WindowSpec, WindowView};
use crate::text::{cat3, folds_to, owned, same_folded};
use crate::value::{
    invalid, invalid_view, lemma_views_push, option_view, outcome, views, ColumnDef, ColumnView,
    ErrorView, HtapError,
};
use vstd::prelude::*;

verus! {

/// What binding reads besides the statement: the catalog, and answers on doubles.
#[derive(Clone, Copy, Debug)]
pub struct Env<'a> {
    /// Catalog.
    pub catalog: &'a CatalogSnapshot,
    /// Answers on doubles.
    pub answers: &'a Answers,
}

/// What an expression can refer to, and what it may contain.
#[derive(Clone, Copy, Debug)]
pub struct Scope<'a> {
    /// Slots of the select block.
    pub slots: &'a Vec<SlotInfo>,
    /// Common table expressions, outer ones first.
    pub ctes: &'a Vec<CteEntry>,
    /// Slots of the enclosing queries, inner ones first.
    pub outer: &'a Vec<SlotInfo>,
    /// How many of the outer slots belong to the immediately enclosing query.
    pub immediate: usize,
    /// Visible columns after joins.
    pub visible: Option<&'a Vec<VisibleColumn>>,
    /// Output columns that aliases name.
    pub output: Option<&'a Vec<ColumnDef>>,
    /// Whether aliases come before source columns.
    pub alias_priority: bool,
    /// Whether only output columns may be named.
    pub output_only: bool,
    /// Whether aggregates are allowed.
    pub allow_aggregates: bool,
    /// Whether subqueries are allowed.
    pub allow_subqueries: bool,
    /// Whether window functions are collected.
    pub collect_windows: bool,
    /// Clause in which window functions are forbidden.
    pub window_clause: Option<&'static str>,
}

/// The mathematical model of a [`Scope`].
pub struct ScopeView {
    /// Slots of the select block.
    pub slots: Seq<InfoView>,
    /// Common table expressions.
    pub ctes: Seq<CteEntryView>,
    /// Slots of the enclosing queries.
    pub outer: Seq<InfoView>,
    /// How many of the outer slots belong to the immediately enclosing query.
    pub immediate: int,
    /// Visible columns after joins.
    pub visible: Option<Seq<VisibleView>>,
    /// Output columns that aliases name.
    pub output: Option<Seq<ColumnView>>,
    /// Whether aliases come before source columns.
    pub alias_priority: bool,
    /// Whether only output columns may be named.
    pub output_only: bool,
    /// Whether aggregates are allowed.
    pub allow_aggregates: bool,
    /// Whether subqueries are allowed.
    pub allow_subqueries: bool,
    /// Whether window functions are collected.
    pub collect_windows: bool,
    /// Clause in which window functions are forbidden.
    pub window_clause: Option<Seq<char>>,
}

impl<'a> View for Scope<'a> {
    type V = ScopeView;

    open spec fn view(&self) -> ScopeView {
        ScopeView {
            slots: views(self.slots@),
            ctes: views(self.ctes@),
            outer: views(self.outer@),
            immediate: self.immediate as int,
            visible: match self.visible {
                Some(v) => Some(views(v@)),
                None => None,
            },
            output: match self.output {
                Some(v) => Some(views(v@)),
                None => None,
            },
            alias_priority: self.alias_priority,
            output_only: self.output_only,
            allow_aggregates: self.allow_aggregates,
            allow_subqueries: self.allow_subqueries,
            collect_windows: self.collect_windows,
            window_clause: match self.window_clause {
                Some(c) => Some(c@),
                None => None,
            },
        }
    }
}

/// A scope over slots in which everything is allowed and no windows are collected.
pub open spec fn plain_scope(
    slots: Seq<InfoView>,
    ctes: Seq<CteEntryView>,
    outer: Seq<InfoView>,
    immediate: int,
) -> ScopeView {
    ScopeView {
        slots,
        ctes,
        outer,
        immediate,
        visible: None,
        output: None,
        alias_priority: false,
        output_only: false,
        allow_aggregates: true,
        allow_subqueries: true,
        collect_windows: false,
        window_clause: None,
    }
}

impl<'a> Scope<'a> {
    /// A scope over slots in which everything is allowed and no windows are collected.
    pub(crate) fn new(
        slots: &'a Vec<SlotInfo>,
        ctes: &'a Vec<CteEntry>,
        outer: &'a Vec<SlotInfo>,
        immediate: usize,
    ) -> (r: Scope<'a>)
        ensures
            r@ == plain_scope(views(slots@), views(ctes@), views(outer@), immediate as int),
            r.slots == slots,
            r.ctes == ctes,
            r.outer == outer,
            r.immediate == immediate,
            r.visible is None,
            r.output is None,
            !r.alias_priority,
            !r.output_only,
            r.allow_aggregates,
            r.allow_subqueries,
            !r.collect_windows,
            r.window_clause is None,
    {
        Scope {
            slots,
            ctes,
            outer,
            immediate,
            visible: None,
            output: None,
            alias_priority: false,
            output_only: false,
            allow_aggregates: true,
            allow_subqueries: true,
            collect_windows: false,
            window_clause: None,
        }
    }
}

/// What binding collects on the way: aggregates, subqueries and window functions.
#[derive(Debug)]
pub struct BindState {
    /// Aggregates.
    pub aggregates: Vec<AggregateSpec>,
    /// Subqueries.
    pub subqueries: Vec<BoundQuery>,
    /// Window functions.
    pub windows: Vec<WindowSpec>,
}

/// The mathematical model of a [`BindState`].
pub struct StateView {
    /// Aggregates.
    pub aggregates: Seq<AggregateView>,
    /// Subqueries.
    pub subqueries: Seq<QueryView>,
    /// Window functions.
    pub windows: Seq<WindowView>,
}

impl View for BindState {
    type V = StateView;

    open spec fn view(&self) -> StateView {
        StateView {
            aggregates: views(self.aggregates@),
            subqueries: views(self.subqueries@),
            windows: views(self.windows@),
        }
    }
}

impl BindState {
    /// Nothing collected but the given subqueries.
    pub(crate) fn with_subqueries(subqueries: Vec<BoundQuery>) -> (r: BindState)
        ensures
            r.subqueries == subqueries,
            r@ == (StateView {
                aggregates: Seq::empty(),
                subqueries: views(subqueries@),
                windows: Seq::empty(),
            }),
    {
        let r = BindState { aggregates: Vec::new(), subqueries, windows: Vec::new() };
        assert(r@.aggregates =~= Seq::empty());
        assert(r@.windows =~= Seq::empty());
        r
    }

    /// Adds a subquery.
    pub(crate) fn push_subquery(&mut self, q: BoundQuery)
        ensures
            final(self)@ == (StateView { subqueries: old(self)@.subqueries.push(q@), ..old(self)@ }),
            final(self).subqueries@ == old(self).subqueries@.push(q),
            final(self).aggregates == old(self).aggregates,
            final(self).windows == old(self).windows,
    {
        proof {
            lemma_views_push(self.subqueries@, q);
        }
        self.subqueries.push(q);
    }

    /// Adds a window function.
    pub(crate) fn push_window(&mut self, w: WindowSpec)
        ensures
            final(self)@ == (StateView { windows: old(self)@.windows.push(w@), ..old(self)@ }),
    {
        proof {
            lemma_views_push(self.windows@, w);
        }
        self.windows.push(w);
    }

    /// Adds an aggregate.
    pub(crate) fn push_aggregate(&mut self, a: AggregateSpec)
        ensures
            final(self)@ == (StateView { aggregates: old(self)@.aggregates.push(a@), ..old(self)@ }),
    {
        proof {
            lemma_views_push(self.aggregates@, a);
        }
        self.aggregates.push(a);
    }
}

/// The output column that an alias names.
pub open spec fn output_alias(sc: ScopeView, name: Seq<char>) -> Option<ExprView> {
    match sc.output {
        None => None,
        Some(out) => match column_named(out, name) {
            None => None,
            Some(i) => Some(
                ExprView::OutputColumn {
                    index: i as usize,
                    data_type: out[i].data_type,
                    nullable: out[i].nullable,
                },
            ),
        },
    }
}

/// Slots that a qualifier admits and that have a column with the name, up to letter case.
pub open spec fn holds_column(qualifier: Option<Seq<char>>, name: Seq<char>) -> spec_fn(
    InfoView,
) -> bool {
    |x: InfoView|
        (match qualifier {
            Some(q) => folds_to(x.alias, q),
            None => true,
        }) && first_at(x.columns, column_folds(name), 0) is Some
}

/// The slots from the `i`-th on with a column of the name, with that column, behind `acc`.
pub open spec fn exact_candidates(
    infos: Seq<InfoView>,
    name: Seq<char>,
    i: int,
    acc: Seq<(int, int)>,
) -> Seq<(int, int)>
    decreases infos.len() - i,
{
    if i < 0 || i >= infos.len() {
        acc
    } else {
        match first_at(infos[i].columns, column_is(name), 0) {
            Some(c) => exact_candidates(infos, name, i + 1, acc.push((i, c))),
            None => exact_candidates(infos, name, i + 1, acc),
        }
    }
}

/// The slots from the `i`-th on with a column of the name up to letter case, behind `acc`.
pub open spec fn folded_candidates(
    infos: Seq<InfoView>,
    name: Seq<char>,
    i: int,
    acc: Seq<(int, int)>,
) -> Seq<(int, int)>
    decreases infos.len() - i,
{
    if i < 0 || i >= infos.len() {
        acc
    } else {
        match first_at(infos[i].columns, column_folds(name), 0) {
            Some(c) => folded_candidates(infos, name, i + 1, acc.push((i, c))),
            None => folded_candidates(infos, name, i + 1, acc),
        }
    }
}

/// The columns an unqualified name can mean: exact matches, or else matches up to letter case.
pub open spec fn candidates(infos: Seq<InfoView>, name: Seq<char>) -> Seq<(int, int)> {
    let exact = exact_candidates(infos, name, 0, Seq::empty());
    if exact.len() == 0 {
        folded_candidates(infos, name, 0, Seq::empty())
    } else {
        exact
    }
}

/// A name with its qualifier.
pub open spec fn shown_name(qualifier: Option<Seq<char>>, name: Seq<char>) -> Seq<char> {
    match qualifier {
        Some(q) => q + "."@ + name,
        None => name,
    }
}

impl ScopeView {
    /// Slots of the immediately enclosing query.
    pub open spec fn enclosing(self) -> Seq<InfoView> {
        if 0 <= self.immediate <= self.outer.len() {
            self.outer.subrange(0, self.immediate)
        } else {
            self.outer
        }
    }

    /// Slots of the queries beyond the immediately enclosing one.
    pub open spec fn ancestors(self) -> Seq<InfoView> {
        if 0 <= self.immediate <= self.outer.len() {
            self.outer.subrange(self.immediate, self.outer.len() as int)
        } else {
            Seq::empty()
        }
    }
}

/// The reference to a column of the enclosing query.
pub open spec fn outer_column(infos: Seq<InfoView>, slot: int, column: int) -> ExprView {
    if 0 <= slot < infos.len() && 0 <= column < infos[slot].columns.len() {
        let c = infos[slot].columns[column];
        ExprView::CorrelatedColumnRef {
            offset: sum_held(infos[slot].offset, column as usize),
            name: c.name,
            data_type: c.data_type,
            nullable: c.nullable,
        }
    } else {
        ExprView::Literal(crate::value::ValueView::Null)
    }
}

/// What a name refers to in the enclosing query, or its refusal.
pub open spec fn correlated(
    infos: Seq<InfoView>,
    qualifier: Option<Seq<char>>,
    name: Seq<char>,
) -> Result<ExprView, ErrorView> {
    match qualifier {
        Some(q) => match first_at(infos, alias_folds(q), 0) {
            None => invalid_view("unknown table or alias '"@ + q + "'"@),
            Some(si) => match column_named(infos[si].columns, name) {
                Some(ci) => Ok(outer_column(infos, si, ci)),
                None => unknown_column(shown_name(qualifier, name)),
            },
        },
        None => {
            let c = candidates(infos, name);
            if c.len() == 1 {
                Ok(outer_column(infos, c[0].0, c[0].1))
            } else if c.len() == 0 {
                unknown_column(name)
            } else {
                ambiguous(name)
            }
        },
    }
}

/// The refusal of a reference beyond the immediately enclosing query.
pub open spec fn too_far<T>() -> Result<T, ErrorView> {
    invalid_view("correlated subqueries may only reference the immediately enclosing query"@)
}

/// What a name that no slot explains refers to, or its refusal.
pub open spec fn unresolved(sc: ScopeView, qualifier: Option<Seq<char>>, name: Seq<char>) -> Result<
    ExprView,
    ErrorView,
> {
    if qualifier is None && !sc.alias_priority && output_alias(sc, name) is Some {
        Ok(output_alias(sc, name)->0)
    } else if first_at(sc.enclosing(), holds_column(qualifier, name), 0) is Some {
        correlated(sc.enclosing(), qualifier, name)
    } else if first_at(sc.ancestors(), holds_column(qualifier, name), 0) is Some {
        too_far()
    } else {
        unknown_column(shown_name(qualifier, name))
    }
}

/// What a name refers to by the slots, or its refusal.
pub open spec fn resolved_by_slots(
    sc: ScopeView,
    qualifier: Option<Seq<char>>,
    name: Seq<char>,
) -> Result<ExprView, ErrorView> {
    match qualifier {
        Some(q) => match slot_named(sc.slots, q) {
            None => if first_at(sc.enclosing(), alias_folds(q), 0) is Some {
                correlated(sc.enclosing(), qualifier, name)
            } else if first_at(sc.ancestors(), alias_folds(q), 0) is Some {
                too_far()
            } else {
                invalid_view("unknown table or alias '"@ + q + "'"@)
            },
            Some(si) => match column_named(sc.slots[si].columns, name) {
                Some(ci) => Ok(column_ref_view(sc.slots, si, ci)),
                None => unresolved(sc, qualifier, name),
            },
        },
        None => {
            let c = candidates(sc.slots, name);
            if c.len() == 1 {
                Ok(column_ref_view(sc.slots, c[0].0, c[0].1))
            } else if c.len() == 0 {
                unresolved(sc, qualifier, name)
            } else {
                ambiguous(name)
            }
        },
    }
}

/// What a column name refers to in a scope, or its refusal.
pub open spec fn resolved(sc: ScopeView, qualifier: Option<Seq<char>>, name: Seq<char>) -> Result<
    ExprView,
    ErrorView,
> {
    if sc.output_only {
        match output_alias(sc, name) {
            Some(e) => Ok(e),
            None => invalid_view("unknown column '"@ + name + "' in ORDER BY"@),
        }
    } else if qualifier is None && sc.alias_priority && output_alias(sc, name) is Some {
        Ok(output_alias(sc, name)->0)
    } else if qualifier is None && sc.visible is Some {
        let visible = sc.visible->0;
        match visible_named(visible, sc.slots, name) {
            Found::At(i) => Ok(visible_expr(visible[i as int], sc.slots)),
            Found::Ambiguous => ambiguous(name),
            Found::Missing => resolved_by_slots(sc, qualifier, name),
        }
    } else {
        resolved_by_slots(sc, qualifier, name)
    }
}

fn position_holder(infos: &Vec<SlotInfo>, qualifier: Option<&str>, name: &str) -> (r: bool)
    ensures
        r == (first_at(
            views(infos@),
            holds_column(
                match qualifier {
                    Some(q) => Some(q@),
                    None => None,
                },
                name@,
            ),
            0,
        ) is Some),
{
    let ghost q = match qualifier {
        Some(q) => Some(q@),
        None => None,
    };
    let ghost p = holds_column(q, name@);
    let mut i: usize = 0;
    while i < infos.len()
        invariant
            i <= infos.len(),
            q == (match qualifier {
                Some(q) => Some(q@),
                None => None,
            }),
            p == holds_column(q, name@),
            first_at(views(infos@), p, 0) == first_at(views(infos@), p, i as int),
        decreases infos.len() - i,
    {
        let admitted = match qualifier {
            Some(q) => same_folded(infos[i].alias.as_str(), q),
            None => true,
        };
        let held = match position_folded(&infos[i].columns, name) {
            Some(_) => true,
            None => false,
        };
        assert(p(views(infos@)[i as int]) == (admitted && held));
        if admitted && held {
            return true;
        }
        i = i + 1;
    }
    false
}

/// The model of a list of positions.
pub open spec fn positions(list: Seq<(usize, usize)>) -> Seq<(int, int)> {
    Seq::new(list.len(), |i: int| (list[i].0 as int, list[i].1 as int))
}

fn collect_candidates(infos: &Vec<SlotInfo>, name: &str) -> (r: Vec<(usize, usize)>)
    ensures
        positions(r@) == candidates(views(infos@), name@),
{
    let mut out: Vec<(usize, usize)> = Vec::new();
    let mut i: usize = 0;
    assert(positions(out@) =~= Seq::empty());
    while i < infos.len()
        invariant
            i <= infos.len(),
            exact_candidates(views(infos@), name@, 0, Seq::empty()) == exact_candidates(
                views(infos@),
                name@,
                i as int,
                positions(out@),
            ),
        decreases infos.len() - i,
    {
        match position_exact(&infos[i].columns, name) {
            Some(c) => {
                let ghost before = positions(out@);
                out.push((i, c));
                assert(positions(out@) =~= before.push((i as int, c as int)));
            },
            None => {},
        }
        i = i + 1;
    }
    if out.len() > 0 {
        return out;
    }
    assert(positions(out@) =~= Seq::empty());
    i = 0;
    while i < infos.len()
        invariant
            i <= infos.len(),
            folded_candidates(views(infos@), name@, 0, Seq::empty()) == folded_candidates(
                views(infos@),
                name@,
                i as int,
                positions(out@),
            ),
        decreases infos.len() - i,
    {
        match position_folded(&infos[i].columns, name) {
            Some(c) => {
                let ghost before = positions(out@);
                out.push((i, c));
                assert(positions(out@) =~= before.push((i as int, c as int)));
            },
            None => {},
        }
        i = i + 1;
    }
    out
}

fn outer_column_ref(infos: &Vec<SlotInfo>, slot: usize, column: usize) -> (r: Expr)
    ensures
        r@ == outer_column(views(infos@), slot as int, column as int),
{
    if slot < infos.len() && column < infos[slot].columns.len() {
        let c = &infos[slot].columns[column];
        Expr::CorrelatedColumnRef {
            offset: infos[slot].offset.saturating_add(column),
            name: c.name.clone(),
            data_type: c.data_type,
            nullable: c.nullable,
        }
    } else {
        Expr::Literal(crate::value::Value::Null)
    }
}

fn shown(qualifier: Option<&str>, name: &str) -> (r: String)
    ensures
        r@ == shown_name(
            match qualifier {
                Some(q) => Some(q@),
                None => None,
            },
            name@,
        ),
{
    match qualifier {
        Some(q) => cat3(q, ".", name),
        None => owned(name),
    }
}

fn resolve_correlated_column(infos: &Vec<SlotInfo>, qualifier: Option<&str>, name: &str) -> (r:
    Result<Expr, HtapError>)
    ensures
        outcome(r) == correlated(
            views(infos@),
            match qualifier {
                Some(q) => Some(q@),
                None => None,
            },
            name@,
        ),
{
    match qualifier {
        Some(q) => match position_alias_folded(infos, q) {
            None => Err(invalid(cat3("unknown table or alias '", q, "'"))),
            Some(si) => match position_column(&infos[si].columns, name) {
                Some(ci) => Ok(outer_column_ref(infos, si, ci)),
                None => {
                    let s = shown(qualifier, name);
                    Err(unknown_column_error(s.as_str()))
                },
            },
        },
        None => {
            let c = collect_candidates(infos, name);
            assert(positions(c@).len() == c.len());
            if c.len() == 1 {
                assert(positions(c@)[0] == (c@[0].0 as int, c@[0].1 as int));
                Ok(outer_column_ref(infos, c[0].0, c[0].1))
            } else if c.len() == 0 {
                Err(unknown_column_error(name))
            } else {
                Err(ambiguous_error(name))
            }
        },
    }
}

impl<'a> Scope<'a> {
    fn enclosing_slots(&self) -> (r: Vec<SlotInfo>)
        ensures
            views(r@) == self@.enclosing(),
    {
        if self.immediate <= self.outer.len() {
            copy_infos(self.outer, 0, self.immediate)
        } else {
            let r = copy_infos(self.outer, 0, self.outer.len());
            assert(views(self.outer@).subrange(0, self.outer@.len() as int) =~= views(self.outer@));
            r
        }
    }

    fn ancestor_slots(&self) -> (r: Vec<SlotInfo>)
        ensures
            views(r@) == self@.ancestors(),
    {
        if self.immediate <= self.outer.len() {
            copy_infos(self.outer, self.immediate, self.outer.len())
        } else {
            let r: Vec<SlotInfo> = Vec::new();
            assert(views(r@) =~= Seq::empty());
            r
        }
    }

    fn resolve_alias(&self, name: &str) -> (r: Option<Expr>)
        ensures
            option_view(r) == output_alias(self@, name@),
    {
        match self.output {
            None => None,
            Some(out) => match position_column(out, name) {
                None => None,
                Some(i) => Some(
                    Expr::OutputColumn {
                        index: i,
                        data_type: out[i].data_type,
                        nullable: out[i].nullable,
                    },
                ),
            },
        }
    }

    fn resolve_rest(&self, qualifier: Option<&str>, name: &str) -> (r: Result<Expr, HtapError>)
        ensures
            outcome(r) == unresolved(
                self@,
                match qualifier {
                    Some(q) => Some(q@),
                    None => None,
                },
                name@,
            ),
    {
        if qualifier.is_none() && !self.alias_priority {
            match self.resolve_alias(name) {
                Some(e) => {
                    return Ok(e);
                },
                None => {},
            }
        }
        let enclosing = self.enclosing_slots();
        if position_holder(&enclosing, qualifier, name) {
            return resolve_correlated_column(&enclosing, qualifier, name);
        }
        let ancestors = self.ancestor_slots();
        if position_holder(&ancestors, qualifier, name) {
            return Err(
                invalid(
                    owned(
                        "correlated subqueries may only reference the immediately enclosing query",
                    ),
                ),
            );
        }
        let s = shown(qualifier, name);
        Err(unknown_column_error(s.as_str()))
    }

    fn resolve_by_slots(&self, qualifier: Option<&str>, name: &str) -> (r: Result<Expr, HtapError>)
        ensures
            outcome(r) == resolved_by_slots(
                self@,
                match qualifier {
                    Some(q) => Some(q@),
                    None => None,
                },
                name@,
            ),
    {
        match qualifier {
            Some(q) => match position_slot(self.slots, q) {
                None => {
                    let enclosing = self.enclosing_slots();
                    match position_alias_folded(&enclosing, q) {
                        Some(_) => {
                            return resolve_correlated_column(&enclosing, qualifier, name);
                        },
                        None => {},
                    }
                    let ancestors = self.ancestor_slots();
                    match position_alias_folded(&ancestors, q) {
                        Some(_) => {
                            return Err(
                                invalid(
                                    owned(
                                        "correlated subqueries may only reference the immediately enclosing query",
                                    ),
                                ),
                            );
                        },
                        None => {},
                    }
                    Err(invalid(cat3("unknown table or alias '", q, "'")))
                },
                Some(si) => match position_column(&self.slots[si].columns, name) {
                    Some(ci) => Ok(column_ref(self.slots, si, ci)),
                    None => self.resolve_rest(qualifier, name),
                },
            },
            None => {
                let c = collect_candidates(self.slots, name);
                assert(positions(c@).len() == c.len());
                if c.len() == 1 {
                    assert(positions(c@)[0] == (c@[0].0 as int, c@[0].1 as int));
                    Ok(column_ref(self.slots, c[0].0, c[0].1))
                } else if c.len() == 0 {
                    self.resolve_rest(qualifier, name)
                } else {
                    Err(ambiguous_error(name))
                }
            },
        }
    }

    /// Resolves a column name.
    pub(crate) fn resolve_column(&self, qualifier: Option<&str>, name: &str) -> (r: Result<
        Expr,
        HtapError,
    >)
        ensures
            outcome(r) == resolved(
                self@,
                match qualifier {
                    Some(q) => Some(q@),
                    None => None,
                },
                name@,
            ),
    {
        if self.output_only {
            return match self.resolve_alias(name) {
                Some(e) => Ok(e),
                None => Err(invalid(cat3("unknown column '", name, "' in ORDER BY"))),
            };
        }
        if qualifier.is_none() && self.alias_priority {
            match self.resolve_alias(name) {
                Some(e) => {
                    return Ok(e);
                },
                None => {},
            }
        }
        if qualifier.is_none() {
            match self.visible {
                Some(visible) => {
                    match find_visible_column(visible, self.slots, name) {
                        Found::At(i) => {
                            return Ok(visible_column_expr(&visible[i], self.slots));
                        },
                        Found::Ambiguous => {
                            return Err(ambiguous_error(name));
                        },
                        Found::Missing => {},
                    }
                },
                None => {},
            }
        }
        self.resolve_by_slots(qualifier, name)
    }
}

} // verus!
