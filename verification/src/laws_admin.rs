//! Laws of statements about accounts, privileges and the catalog.

use crate::ast::{GrantScopeView, ShowView, StatementView};
use crate::binder::{
    account_of, accounts_of, named_scope, privileges_of, statement_of, with_actions,
};
use crate::catalog::{CatalogSnapshot, PrivilegeSet};
use crate::names::single_name;
use crate::scope::Env;
use crate::sql::{ObjectName, ObjectNamePart};
use crate::statement::{Action, GranteeName, Privileges, ShowFilter, SqlStatement};
use crate::value::ErrorView;
use vstd::prelude::*;

verus! {

/// Whether a list of actions from a position on holds one that satisfies a test.
pub open spec fn lists(actions: Seq<Action>, i: int, test: spec_fn(Action) -> bool) -> bool {
    exists|k: int| i <= k < actions.len() && test(#[trigger] actions[k])
}

/// The privileges that a list adds to others: each is held if it was before or is listed.
pub open spec fn adds(p: PrivilegeSet, q: PrivilegeSet, actions: Seq<Action>, i: int) -> bool {
    &&& q.select == (p.select || lists(actions, i, |a: Action| a is Select))
    &&& q.insert == (p.insert || lists(actions, i, |a: Action| a is Insert))
    &&& q.update == (p.update || lists(actions, i, |a: Action| a is Update))
    &&& q.delete == (p.delete || lists(actions, i, |a: Action| a is Delete))
    &&& q.create == (p.create || lists(actions, i, |a: Action| a is Create))
    &&& q.drop == (p.drop || lists(actions, i, |a: Action| a is Drop))
}

proof fn lemma_lists(actions: Seq<Action>, i: int, test: spec_fn(Action) -> bool)
    requires
        0 <= i < actions.len(),
    ensures
        lists(actions, i, test) == (test(actions[i]) || lists(actions, i + 1, test)),
{
    if lists(actions, i, test) && !test(actions[i]) {
        let k = choose|k: int| i <= k < actions.len() && test(#[trigger] actions[k]);
        assert(i + 1 <= k < actions.len() && test(actions[k]));
    }
    if lists(actions, i + 1, test) {
        let k = choose|k: int| i + 1 <= k < actions.len() && test(#[trigger] actions[k]);
        assert(i <= k < actions.len() && test(actions[k]));
    }
}

proof fn lemma_actions(actions: Seq<Action>, i: int, p: PrivilegeSet)
    requires
        0 <= i <= actions.len(),
        with_actions(actions, i, p) is Ok,
    ensures
        adds(p, with_actions(actions, i, p)->Ok_0, actions, i),
    decreases actions.len() - i,
{
    if i < actions.len() {
        let q = crate::binder::with_action(p, actions[i])->Ok_0;
        lemma_actions(actions, i + 1, q);
        lemma_lists(actions, i, |a: Action| a is Select);
        lemma_lists(actions, i, |a: Action| a is Insert);
        lemma_lists(actions, i, |a: Action| a is Update);
        lemma_lists(actions, i, |a: Action| a is Delete);
        lemma_lists(actions, i, |a: Action| a is Create);
        lemma_lists(actions, i, |a: Action| a is Drop);
    }
}

/// `GRANT` and `REVOKE` are about the privileges that are listed and no others, and about all of them
/// where `ALL` is written.
pub proof fn privileges_are_those_listed(p: Privileges)
    requires
        privileges_of(p) is Ok,
    ensures
        match p {
            Privileges::All => {
                let q = privileges_of(p)->Ok_0;
                q.select && q.insert && q.update && q.delete && q.create && q.drop
            },
            Privileges::Actions(list) => adds(
                PrivilegeSet {
                    select: false,
                    insert: false,
                    update: false,
                    delete: false,
                    create: false,
                    drop: false,
                },
                privileges_of(p)->Ok_0,
                list@,
                0,
            ),
        },
{
    match p {
        Privileges::Actions(list) => {
            lemma_actions(list@, 0, crate::binder::no_privileges());
        },
        Privileges::All => {},
    }
}

/// Whether a name is that of a table, alone or behind the name of the one schema.
pub open spec fn names_table(n: ObjectName, table: Seq<char>) -> bool {
    ||| (n.parts@.len() == 1 && (n.parts@[0] matches ObjectNamePart::Identifier(t) && t@ == table))
    ||| (n.parts@.len() == 2 && (n.parts@[0] matches ObjectNamePart::Identifier(s) && s@ == "htap"@)
        && (n.parts@[1] matches ObjectNamePart::Identifier(t) && t@ == table))
}

/// A grant on a name is one on the existing table of that name, or on everything where the name of
/// the table is `*`.
pub proof fn grants_are_on_what_is_named(catalog: CatalogSnapshot, n: ObjectName)
    requires
        named_scope(catalog, n) is Ok,
    ensures
        match named_scope(catalog, n)->Ok_0 {
            GrantScopeView::Table(t) => names_table(n, t) && catalog.table(t) is Some,
            GrantScopeView::Global => n.parts@.len() == 2 && (n.parts@[1] matches ObjectNamePart::Identifier(
                t,
            ) && t@ == "*"@),
        },
{
}

/// Whether an account is the one of a name.
pub open spec fn is_account(n: GranteeName, account: Seq<char>) -> bool {
    match n {
        GranteeName::ObjectName(name) => name.parts@.len() == 1 && (
        name.parts@[0] matches ObjectNamePart::Identifier(s) && s@ == account),
        GranteeName::UserHost { user, .. } => user@ == account,
    }
}

proof fn lemma_accounts(names: Seq<GranteeName>, i: int, acc: Seq<Seq<char>>)
    requires
        0 <= i <= names.len(),
        acc.len() == i,
        accounts_of(names, i, acc) is Ok,
    ensures
        ({
            let all = accounts_of(names, i, acc)->Ok_0;
            &&& all.len() == names.len()
            &&& forall|k: int| 0 <= k < i ==> all[k] == acc[k]
            &&& forall|k: int| i <= k < names.len() ==> is_account(names[k], #[trigger] all[k])
        }),
    decreases names.len() - i,
{
    if i < names.len() {
        let a = account_of(names[i])->Ok_0;
        lemma_accounts(names, i + 1, acc.push(a));
        assert(acc.push(a)[i] == a);
    }
}

/// A bound statement is of the kind that is written, about the account or table that is named, and
/// takes over what is said about whether that must exist.
pub proof fn statements_do_what_is_written(cx: Env<'_>, s: SqlStatement)
    requires
        statement_of(cx, s) is Ok,
    ensures
        match (s, statement_of(cx, s)->Ok_0) {
            (SqlStatement::CreateTable(_), StatementView::CreateTable { .. }) => true,
            (SqlStatement::Insert(_), StatementView::Insert { .. }) => true,
            (SqlStatement::Delete(_), StatementView::Delete { .. }) => true,
            (SqlStatement::Delete(_), StatementView::DeleteRows { .. }) => true,
            (
                SqlStatement::Truncate(x),
                StatementView::DeleteRows { table, filter, if_exists },
            ) => filter is None && if_exists == x.if_exists && single_name(x.table_names@[0].name)
                == Ok::<Seq<char>, ErrorView>(table),
            (SqlStatement::Query(_), StatementView::Select { .. }) => true,
            (SqlStatement::Query(_), StatementView::AnalyticSelect { .. }) => true,
            (SqlStatement::Query(_), StatementView::Query(_)) => true,
            (SqlStatement::AlterTable(x), StatementView::AlterPartitions { table, .. }) => single_name(
                x.name,
            ) == Ok::<Seq<char>, ErrorView>(table),
            (SqlStatement::Update(_), StatementView::Update { .. }) => true,
            (
                SqlStatement::CreateUser(x),
                StatementView::CreateUser { username, if_not_exists, password },
            ) => is_account(x.name, username) && if_not_exists == x.if_not_exists && (
            x.identified_by matches Some(p) && password == Some(p@)),
            (
                SqlStatement::AlterUser(x),
                StatementView::AlterUser { username, if_exists, password },
            ) => is_account(x.name, username) && if_exists == x.if_exists && (
            x.password matches Some(p) && (p.password matches Some(w) && password == w@)),
            (
                SqlStatement::DropUser { if_exists, names },
                StatementView::DropUser { usernames, if_exists: f },
            ) => f == if_exists && usernames.len() == names@.len() && forall|k: int|
                0 <= k < usernames.len() ==> is_account(names@[k], #[trigger] usernames[k]),
            (
                SqlStatement::Grant(x),
                StatementView::GrantPrivileges { privileges, grantee, .. },
            ) => privileges_of(x.privileges) == Ok::<PrivilegeSet, ErrorView>(privileges)
                && x.grantees@.len() == 1 && (x.grantees@[0].name matches Some(n) && is_account(
                n,
                grantee,
            )),
            (
                SqlStatement::Revoke(x),
                StatementView::RevokePrivileges { privileges, grantee, .. },
            ) => privileges_of(x.privileges) == Ok::<PrivilegeSet, ErrorView>(privileges)
                && x.grantees@.len() == 1 && (x.grantees@[0].name matches Some(n) && is_account(
                n,
                grantee,
            )),
            (SqlStatement::ShowGrants(n), StatementView::ShowGrants(a)) => match (n, a) {
                (None, None) => true,
                (Some(x), Some(y)) => is_account(x, y),
                _ => false,
            },
            (SqlStatement::Analyze(x), StatementView::AnalyzeTable(t)) => (
            x.table_name matches Some(n) && single_name(n) == Ok::<Seq<char>, ErrorView>(t))
                && cx.catalog.table(t) is Some,
            (
                SqlStatement::Explain { analyze, statement, .. },
                StatementView::Explain { inner, analyze: a },
            ) => a == analyze && statement_of(cx, *statement) == Ok::<StatementView, ErrorView>(
                *inner,
            ),
            (SqlStatement::Drop(x), StatementView::DropTable { table, if_exists }) => if_exists
                == x.if_exists && x.names@.len() == 1 && single_name(x.names@[0]) == Ok::<
                Seq<char>,
                ErrorView,
            >(table),
            (SqlStatement::ShowTables { filter, .. }, StatementView::Show(v)) => match filter {
                None => v == ShowView::Tables(None),
                Some(ShowFilter::Like(p)) => v == ShowView::Tables(Some(p@)),
                Some(ShowFilter::Other) => false,
            },
            (SqlStatement::ShowDatabases { .. }, StatementView::Show(v)) => v is Databases,
            (SqlStatement::ShowColumns { table, .. }, StatementView::Show(v)) => table matches Some(n)
                && (single_name(n) matches Ok(t) && v == ShowView::Columns(t)
                && cx.catalog.table(t) is Some),
            (SqlStatement::ExplainTable { table_name, .. }, StatementView::Show(v)) => single_name(
                table_name,
            ) matches Ok(t) && v == ShowView::Describe(t) && cx.catalog.table(t) is Some,
            _ => false,
        },
{
    reveal_with_fuel(statement_of, 1);
    match s {
        SqlStatement::DropUser { if_exists, names } => {
            lemma_accounts(names@, 0, Seq::empty());
        },
        SqlStatement::Query(q) => {
            lemma_query_kind(cx, q);
        },
        SqlStatement::CreateTable(x) => {
            lemma_creation_kind(cx, x);
        },
        SqlStatement::Insert(x) => {
            lemma_insertion_kind(cx, x);
        },
        SqlStatement::Delete(x) => {
            lemma_deletion_kind(cx, x);
        },
        SqlStatement::Update(x) => {
            lemma_update_kind(cx, x);
        },
        SqlStatement::AlterTable(x) => {
            lemma_alteration_kind(cx, x);
        },
        _ => {},
    }
}

proof fn lemma_query_kind(cx: Env<'_>, q: crate::sql::Query)
    ensures
        crate::binder::select_of(cx, q) matches Ok(x) ==> x is Select || x is AnalyticSelect
            || x is Query,
{
}

proof fn lemma_creation_kind(cx: Env<'_>, s: crate::statement::SqlCreateTable)
    ensures
        crate::binder_ddl::creation_of(cx, s) matches Ok(x) ==> x is CreateTable,
{
}

proof fn lemma_insertion_kind(cx: Env<'_>, s: crate::statement::SqlInsert)
    ensures
        crate::binder_dml::insertion_of(cx, s) matches Ok(x) ==> x is Insert,
{
}

proof fn lemma_deletion_kind(cx: Env<'_>, s: crate::statement::SqlDelete)
    ensures
        crate::binder_dml::deletion_of(cx, s) matches Ok(x) ==> x is Delete || x is DeleteRows,
{
}

proof fn lemma_update_kind(cx: Env<'_>, s: crate::statement::SqlUpdate)
    ensures
        crate::binder_dml::update_of(cx, s) matches Ok(x) ==> x is Update,
{
}

proof fn lemma_alteration_kind(cx: Env<'_>, s: crate::statement::SqlAlterTable)
    ensures
        crate::binder_ddl::alteration_of(cx, s) matches Ok(x) ==> x is AlterPartitions && single_name(
            s.name,
        ) == Ok::<Seq<char>, ErrorView>(x->AlterPartitions_table),
{
}

} // verus!
