//! Binding of statements against the catalog.

use crate::answers::Answers;
use crate::ast::{
    AlterUserStatement, BoundStatement, CreateUserStatement, DropTableStatement, DropUserStatement,
    GrantScope, GrantScopeView, GrantStatement, RevokeStatement, ShowGrantsStatement,
    ShowStatement, ShowView, StatementView,
};
use crate::binder_ddl::{
    alteration_of, altered_key_exists, bind_alter_table, bind_create_table, creation_of,
    has_altered_key,
};
use crate::binder_dml::{
    bind_delete, bind_insert, bind_truncate, bind_update, deletion_of, insertion_of,
    truncation_of, update_of,
};
use crate::binder_narrow::{bind_narrow_select, is_narrow_select_shape, narrow_of, narrow_shape};
use crate::binder_query::bind_query;
use crate::catalog::{no_table, table_not_found, CatalogSnapshot, PrivilegeSet};
use crate::clauses::{ShowColumnsModifiers, ShowTablesModifiers, ShowTablesOptions};
use crate::model_query::query_of;
use crate::names::{object_name_single, single_name};
use crate::scope::Env;
use crate::sql::{ObjectName, ObjectNamePart, Query};
use crate::statement::{
    Action, GrantObjects, Grantee, GranteeKind, GranteeName, ObjectType, Privileges, ShowFilter,
    SqlAlterUser, SqlAnalyze, SqlCreateUser, SqlDrop, SqlGrant, SqlStatement,
};
use crate::text::{cat2, cat3, owned, same_text};
use crate::value::{
    invalid, invalid_view, lemma_views_push, outcome, unsupported, unsupported_view, views,
    ErrorView, HtapError,
};
use vstd::prelude::*;

verus! {

/// The account that a name stands for, or its refusal.
pub open spec fn account_of(n: GranteeName) -> Result<Seq<char>, ErrorView> {
    match n {
        GranteeName::ObjectName(name) => single_name(name),
        GranteeName::UserHost { user, host } => if host@ != "%"@ {
            unsupported_view("only '%' host is supported"@)
        } else {
            Ok(user@)
        },
    }
}

fn bind_grantee_name(n: &GranteeName) -> (r: Result<String, HtapError>)
    ensures
        outcome(r) == account_of(*n),
{
    match n {
        GranteeName::ObjectName(name) => object_name_single(name),
        GranteeName::UserHost { user, host } => {
            if !same_text(host.as_str(), "%") {
                return Err(unsupported(owned("only '%' host is supported")));
            }
            Ok(user.clone())
        },
    }
}

/// What `CREATE USER` creates, or its refusal.
pub open spec fn user_creation_of(s: SqlCreateUser) -> Result<StatementView, ErrorView> {
    if s.options.given() {
        unsupported_view("unsupported CREATE USER options"@)
    } else {
        match s.identified_by {
            None => invalid_view("CREATE USER requires IDENTIFIED BY"@),
            Some(password) => match account_of(s.name) {
                Err(e) => Err(e),
                Ok(username) => Ok(
                    StatementView::CreateUser {
                        username,
                        if_not_exists: s.if_not_exists,
                        password: Some(password@),
                    },
                ),
            },
        }
    }
}

fn bind_create_user(s: &SqlCreateUser) -> (r: Result<BoundStatement, HtapError>)
    ensures
        outcome(r) == user_creation_of(*s),
{
    if s.options.given() {
        return Err(unsupported(owned("unsupported CREATE USER options")));
    }
    let password = match &s.identified_by {
        Some(p) => p.clone(),
        None => {
            return Err(invalid(owned("CREATE USER requires IDENTIFIED BY")));
        },
    };
    match bind_grantee_name(&s.name) {
        Err(e) => Err(e),
        Ok(username) => Ok(
            BoundStatement::CreateUser(
                CreateUserStatement {
                    username,
                    if_not_exists: s.if_not_exists,
                    password: Some(password),
                },
            ),
        ),
    }
}

/// What `ALTER USER` changes, or its refusal.
pub open spec fn user_alteration_of(s: SqlAlterUser) -> Result<StatementView, ErrorView> {
    match s.password {
        Some(p) if !p.encrypted && p.password is Some => match account_of(s.name) {
            Err(e) => Err(e),
            Ok(username) => Ok(
                StatementView::AlterUser {
                    username,
                    if_exists: s.if_exists,
                    password: p.password->0@,
                },
            ),
        },
        _ => invalid_view("ALTER USER requires IDENTIFIED BY"@),
    }
}

fn bind_alter_user(s: &SqlAlterUser) -> (r: Result<BoundStatement, HtapError>)
    ensures
        outcome(r) == user_alteration_of(*s),
{
    let given = match &s.password {
        Some(p) => if p.encrypted {
            None
        } else {
            match &p.password {
                Some(t) => Some(t.clone()),
                None => None,
            }
        },
        None => None,
    };
    match given {
        None => Err(invalid(owned("ALTER USER requires IDENTIFIED BY"))),
        Some(password) => match bind_grantee_name(&s.name) {
            Err(e) => Err(e),
            Ok(username) => Ok(
                BoundStatement::AlterUser(
                    AlterUserStatement { username, if_exists: s.if_exists, password },
                ),
            ),
        },
    }
}

/// The accounts of names from the `i`-th on, behind `acc`.
pub open spec fn accounts_of(names: Seq<GranteeName>, i: int, acc: Seq<Seq<char>>) -> Result<
    Seq<Seq<char>>,
    ErrorView,
>
    decreases names.len() - i,
{
    if i < 0 || i >= names.len() {
        Ok(acc)
    } else {
        match account_of(names[i]) {
            Err(e) => Err(e),
            Ok(a) => accounts_of(names, i + 1, acc.push(a)),
        }
    }
}

/// What `DROP USER` drops, or its refusal.
pub open spec fn user_removal_of(if_exists: bool, names: Seq<GranteeName>) -> Result<
    StatementView,
    ErrorView,
> {
    if names.len() == 0 {
        invalid_view("DROP USER requires at least one user"@)
    } else {
        match accounts_of(names, 0, Seq::empty()) {
            Err(e) => Err(e),
            Ok(usernames) => Ok(StatementView::DropUser { usernames, if_exists }),
        }
    }
}

fn bind_drop_user(if_exists: bool, names: &Vec<GranteeName>) -> (r: Result<
    BoundStatement,
    HtapError,
>)
    ensures
        outcome(r) == user_removal_of(if_exists, names@),
{
    if names.len() == 0 {
        return Err(invalid(owned("DROP USER requires at least one user")));
    }
    let mut usernames: Vec<String> = Vec::new();
    let mut i: usize = 0;
    assert(views(usernames@) =~= Seq::empty());
    while i < names.len()
        invariant
            0 < names@.len(),
            i <= names.len(),
            accounts_of(names@, 0, Seq::empty()) == accounts_of(
                names@,
                i as int,
                views(usernames@),
            ),
        decreases names.len() - i,
    {
        match bind_grantee_name(&names[i]) {
            Ok(a) => {
                proof {
                    lemma_views_push(usernames@, a);
                }
                usernames.push(a);
            },
            Err(e) => {
                return Err(e);
            },
        }
        i = i + 1;
    }
    Ok(BoundStatement::DropUser(DropUserStatement { usernames, if_exists }))
}

/// No privileges.
pub open spec fn no_privileges() -> PrivilegeSet {
    PrivilegeSet {
        select: false,
        insert: false,
        update: false,
        delete: false,
        create: false,
        drop: false,
    }
}

/// All privileges.
pub open spec fn all_privileges() -> PrivilegeSet {
    PrivilegeSet {
        select: true,
        insert: true,
        update: true,
        delete: true,
        create: true,
        drop: true,
    }
}

/// Privileges with one more, or its refusal.
pub open spec fn with_action(p: PrivilegeSet, a: Action) -> Result<PrivilegeSet, ErrorView> {
    match a {
        Action::Select { columns: false } => Ok(PrivilegeSet { select: true, ..p }),
        Action::Insert { columns: false } => Ok(PrivilegeSet { insert: true, ..p }),
        Action::Update { columns: false } => Ok(PrivilegeSet { update: true, ..p }),
        Action::Delete => Ok(PrivilegeSet { delete: true, ..p }),
        Action::Create => Ok(PrivilegeSet { create: true, ..p }),
        Action::Drop => Ok(PrivilegeSet { drop: true, ..p }),
        Action::Other(text) => unsupported_view("unsupported privilege: "@ + text@),
        _ => unsupported_view("column-level privileges are not supported"@),
    }
}

/// Privileges with those of a list from the `i`-th on.
pub open spec fn with_actions(actions: Seq<Action>, i: int, p: PrivilegeSet) -> Result<
    PrivilegeSet,
    ErrorView,
>
    decreases actions.len() - i,
{
    if i < 0 || i >= actions.len() {
        Ok(p)
    } else {
        match with_action(p, actions[i]) {
            Err(e) => Err(e),
            Ok(q) => with_actions(actions, i + 1, q),
        }
    }
}

/// The privileges of a `GRANT` or `REVOKE`, or their refusal.
pub open spec fn privileges_of(p: Privileges) -> Result<PrivilegeSet, ErrorView> {
    match p {
        Privileges::All => Ok(all_privileges()),
        Privileges::Actions(list) => with_actions(list@, 0, no_privileges()),
    }
}

fn bind_privileges(p: &Privileges) -> (r: Result<PrivilegeSet, HtapError>)
    ensures
        match r {
            Ok(x) => privileges_of(*p) == Ok::<PrivilegeSet, ErrorView>(x),
            Err(e) => privileges_of(*p) == Err::<PrivilegeSet, ErrorView>(e@),
        },
{
    match p {
        Privileges::All => Ok(
            PrivilegeSet {
                select: true,
                insert: true,
                update: true,
                delete: true,
                create: true,
                drop: true,
            },
        ),
        Privileges::Actions(list) => add_actions(list),
    }
}

fn add_actions(list: &Vec<Action>) -> (r: Result<PrivilegeSet, HtapError>)
    ensures
        match r {
            Ok(x) => with_actions(list@, 0, no_privileges()) == Ok::<PrivilegeSet, ErrorView>(x),
            Err(e) => with_actions(list@, 0, no_privileges()) == Err::<PrivilegeSet, ErrorView>(e@),
        },
{
    let mut out = PrivilegeSet {
        select: false,
        insert: false,
        update: false,
        delete: false,
        create: false,
        drop: false,
    };
    let mut i: usize = 0;
    while i < list.len()
        invariant
            i <= list.len(),
            with_actions(list@, 0, no_privileges()) == with_actions(list@, i as int, out),
        decreases list.len() - i,
    {
        match &list[i] {
            Action::Select { columns: false } => {
                out.select = true;
            },
            Action::Insert { columns: false } => {
                out.insert = true;
            },
            Action::Update { columns: false } => {
                out.update = true;
            },
            Action::Delete => {
                out.delete = true;
            },
            Action::Create => {
                out.create = true;
            },
            Action::Drop => {
                out.drop = true;
            },
            Action::Other(text) => {
                return Err(unsupported(cat2("unsupported privilege: ", text.as_str())));
            },
            _ => {
                return Err(unsupported(owned("column-level privileges are not supported")));
            },
        }
        i = i + 1;
    }
    Ok(out)
}

/// The account of the only grantee, or the refusal of the grantees.
pub open spec fn grantee_of(grantees: Seq<Grantee>) -> Result<Seq<char>, ErrorView> {
    if grantees.len() != 1 {
        unsupported_view("exactly one USER grantee is required"@)
    } else if grantees[0].kind == GranteeKind::Other {
        unsupported_view("only USER grantees are supported"@)
    } else {
        match grantees[0].name {
            None => invalid_view("USER grantee requires a username"@),
            Some(n) => account_of(n),
        }
    }
}

fn bind_grantee(grantees: &Vec<Grantee>) -> (r: Result<String, HtapError>)
    ensures
        outcome(r) == grantee_of(grantees@),
{
    if grantees.len() != 1 {
        return Err(unsupported(owned("exactly one USER grantee is required")));
    }
    if grantees[0].kind == GranteeKind::Other {
        return Err(unsupported(owned("only USER grantees are supported")));
    }
    match &grantees[0].name {
        None => Err(invalid(owned("USER grantee requires a username"))),
        Some(n) => bind_grantee_name(n),
    }
}

/// The refusal of a schema other than the default one.
pub open spec fn no_schema<T>(name: Seq<char>) -> Result<T, ErrorView> {
    Err(ErrorView::NotFound("schema '"@ + name + "' not found"@))
}

fn no_schema_error(name: &str) -> (r: HtapError)
    ensures
        no_schema::<GrantScopeView>(name@) == Err::<GrantScopeView, ErrorView>(r@),
{
    HtapError::NotFound(cat3("schema '", name, "' not found"))
}

/// The grant on a table, or the refusal of a table that does not exist.
pub open spec fn table_scope_of(catalog: CatalogSnapshot, table: Seq<char>) -> Result<
    GrantScopeView,
    ErrorView,
> {
    if catalog.table(table) is None {
        Err(no_table(table))
    } else {
        Ok(GrantScopeView::Table(table))
    }
}

/// The grant on the whole of a schema, or the refusal of a schema that does not exist.
pub open spec fn schema_scope_of(schema: Seq<char>) -> Result<GrantScopeView, ErrorView> {
    if schema == "htap"@ {
        Ok(GrantScopeView::Global)
    } else {
        no_schema(schema)
    }
}

/// What a name in a grant applies to, or its refusal.
pub open spec fn named_scope(catalog: CatalogSnapshot, n: ObjectName) -> Result<
    GrantScopeView,
    ErrorView,
> {
    if n.parts@.len() == 2 && n.parts@[0] is Identifier && n.parts@[1] is Identifier {
        let schema = n.parts@[0]->Identifier_0@;
        let table = n.parts@[1]->Identifier_0@;
        if schema == "*"@ && table == "*"@ {
            Ok(GrantScopeView::Global)
        } else if table == "*"@ {
            schema_scope_of(schema)
        } else if schema != "htap"@ {
            no_schema(schema)
        } else {
            table_scope_of(catalog, table)
        }
    } else {
        match single_name(n) {
            Err(e) => Err(e),
            Ok(table) => table_scope_of(catalog, table),
        }
    }
}

/// What a `GRANT` or `REVOKE` applies to, or its refusal.
pub open spec fn scope_of(catalog: CatalogSnapshot, objects: Option<GrantObjects>) -> Result<
    GrantScopeView,
    ErrorView,
> {
    match objects {
        None => Ok(GrantScopeView::Global),
        Some(GrantObjects::Databases(list)) if list@.len() == 0 => Ok(GrantScopeView::Global),
        Some(GrantObjects::AllTablesInSchema(list)) if list@.len() == 1 => match single_name(
            list@[0],
        ) {
            Err(e) => Err(e),
            Ok(schema) => schema_scope_of(schema),
        },
        Some(GrantObjects::Tables(list)) => if list@.len() == 1 {
            named_scope(catalog, list@[0])
        } else {
            unsupported_view("multiple tables in GRANT scope are not supported"@)
        },
        _ => unsupported_view("unsupported GRANT scope"@),
    }
}

fn bind_table_scope(catalog: &CatalogSnapshot, table: &str) -> (r: Result<GrantScope, HtapError>)
    ensures
        outcome(r) == table_scope_of(*catalog, table@),
{
    match catalog.table_by_name(table) {
        None => Err(table_not_found(table)),
        Some(_) => Ok(GrantScope::Table(owned(table))),
    }
}

fn bind_schema_scope(schema: &str) -> (r: Result<GrantScope, HtapError>)
    ensures
        outcome(r) == schema_scope_of(schema@),
{
    if same_text(schema, "htap") {
        Ok(GrantScope::Global)
    } else {
        Err(no_schema_error(schema))
    }
}

fn bind_named_scope(catalog: &CatalogSnapshot, n: &ObjectName) -> (r: Result<GrantScope, HtapError>)
    ensures
        outcome(r) == named_scope(*catalog, *n),
{
    if n.parts.len() == 2 {
        match (&n.parts[0], &n.parts[1]) {
            (ObjectNamePart::Identifier(schema), ObjectNamePart::Identifier(table)) => {
                if same_text(table.as_str(), "*") {
                    if same_text(schema.as_str(), "*") {
                        return Ok(GrantScope::Global);
                    }
                    return bind_schema_scope(schema.as_str());
                }
                if !same_text(schema.as_str(), "htap") {
                    return Err(no_schema_error(schema.as_str()));
                }
                return bind_table_scope(catalog, table.as_str());
            },
            _ => {},
        }
    }
    match object_name_single(n) {
        Err(e) => Err(e),
        Ok(table) => bind_table_scope(catalog, table.as_str()),
    }
}

fn bind_grant_scope(catalog: &CatalogSnapshot, objects: &Option<GrantObjects>) -> (r: Result<
    GrantScope,
    HtapError,
>)
    ensures
        outcome(r) == scope_of(*catalog, *objects),
{
    match objects {
        None => Ok(GrantScope::Global),
        Some(GrantObjects::Databases(list)) => {
            if list.len() == 0 {
                return Ok(GrantScope::Global);
            }
            Err(unsupported(owned("unsupported GRANT scope")))
        },
        Some(GrantObjects::AllTablesInSchema(list)) => {
            if list.len() != 1 {
                return Err(unsupported(owned("unsupported GRANT scope")));
            }
            match object_name_single(&list[0]) {
                Err(e) => Err(e),
                Ok(schema) => bind_schema_scope(schema.as_str()),
            }
        },
        Some(GrantObjects::Tables(list)) => {
            if list.len() != 1 {
                return Err(
                    unsupported(owned("multiple tables in GRANT scope are not supported")),
                );
            }
            bind_named_scope(catalog, &list[0])
        },
        Some(GrantObjects::Other) => Err(unsupported(owned("unsupported GRANT scope"))),
    }
}

/// The parts of a `GRANT` or `REVOKE`, or the first refusal among them.
pub open spec fn grant_parts(catalog: CatalogSnapshot, s: SqlGrant) -> Result<
    (PrivilegeSet, GrantScopeView, Seq<char>),
    ErrorView,
> {
    match privileges_of(s.privileges) {
        Err(e) => Err(e),
        Ok(p) => match scope_of(catalog, s.objects) {
            Err(e) => Err(e),
            Ok(o) => match grantee_of(s.grantees@) {
                Err(e) => Err(e),
                Ok(g) => Ok((p, o, g)),
            },
        },
    }
}

fn bind_grant_parts(catalog: &CatalogSnapshot, s: &SqlGrant) -> (r: Result<
    (PrivilegeSet, GrantScope, String),
    HtapError,
>)
    ensures
        match r {
            Ok(x) => grant_parts(*catalog, *s) == Ok::<
                (PrivilegeSet, GrantScopeView, Seq<char>),
                ErrorView,
            >((x.0, x.1@, x.2@)),
            Err(e) => grant_parts(*catalog, *s) == Err::<
                (PrivilegeSet, GrantScopeView, Seq<char>),
                ErrorView,
            >(e@),
        },
{
    let p = match bind_privileges(&s.privileges) {
        Ok(p) => p,
        Err(e) => {
            return Err(e);
        },
    };
    let o = match bind_grant_scope(catalog, &s.objects) {
        Ok(o) => o,
        Err(e) => {
            return Err(e);
        },
    };
    match bind_grantee(&s.grantees) {
        Ok(g) => Ok((p, o, g)),
        Err(e) => Err(e),
    }
}

/// What `GRANT` grants, or its refusal.
pub open spec fn grant_of(catalog: CatalogSnapshot, s: SqlGrant) -> Result<
    StatementView,
    ErrorView,
> {
    if s.options.given() {
        unsupported_view("unsupported GRANT option"@)
    } else {
        match grant_parts(catalog, s) {
            Err(e) => Err(e),
            Ok(x) => Ok(
                StatementView::GrantPrivileges { privileges: x.0, scope: x.1, grantee: x.2 },
            ),
        }
    }
}

fn bind_grant(catalog: &CatalogSnapshot, s: &SqlGrant) -> (r: Result<BoundStatement, HtapError>)
    ensures
        outcome(r) == grant_of(*catalog, *s),
{
    if s.options.given() {
        return Err(unsupported(owned("unsupported GRANT option")));
    }
    match bind_grant_parts(catalog, s) {
        Err(e) => Err(e),
        Ok((privileges, scope, grantee)) => Ok(
            BoundStatement::GrantPrivileges(GrantStatement { privileges, scope, grantee }),
        ),
    }
}

/// What `REVOKE` revokes, or its refusal.
pub open spec fn revocation_of(catalog: CatalogSnapshot, s: SqlGrant) -> Result<
    StatementView,
    ErrorView,
> {
    if s.options.given() {
        unsupported_view("unsupported REVOKE option"@)
    } else {
        match grant_parts(catalog, s) {
            Err(e) => Err(e),
            Ok(x) => Ok(
                StatementView::RevokePrivileges { privileges: x.0, scope: x.1, grantee: x.2 },
            ),
        }
    }
}

fn bind_revoke(catalog: &CatalogSnapshot, s: &SqlGrant) -> (r: Result<BoundStatement, HtapError>)
    ensures
        outcome(r) == revocation_of(*catalog, *s),
{
    if s.options.given() {
        return Err(unsupported(owned("unsupported REVOKE option")));
    }
    match bind_grant_parts(catalog, s) {
        Err(e) => Err(e),
        Ok((privileges, scope, grantee)) => Ok(
            BoundStatement::RevokePrivileges(RevokeStatement { privileges, scope, grantee }),
        ),
    }
}

/// Whose grants `SHOW GRANTS` shows, or its refusal.
pub open spec fn shown_grants(n: Option<GranteeName>) -> Result<StatementView, ErrorView> {
    match n {
        None => Ok(StatementView::ShowGrants(None)),
        Some(x) => match account_of(x) {
            Err(e) => Err(e),
            Ok(a) => Ok(StatementView::ShowGrants(Some(a))),
        },
    }
}

fn bind_show_grants(n: &Option<GranteeName>) -> (r: Result<BoundStatement, HtapError>)
    ensures
        outcome(r) == shown_grants(*n),
{
    match n {
        None => Ok(BoundStatement::ShowGrants(ShowGrantsStatement { for_username: None })),
        Some(x) => match bind_grantee_name(x) {
            Err(e) => Err(e),
            Ok(a) => Ok(BoundStatement::ShowGrants(ShowGrantsStatement { for_username: Some(a) })),
        },
    }
}

/// The table that `ANALYZE` is about, or its refusal.
pub open spec fn analysis_of(catalog: CatalogSnapshot, s: SqlAnalyze) -> Result<
    StatementView,
    ErrorView,
> {
    match s.table_name {
        None => invalid_view("ANALYZE requires a table name"@),
        Some(n) => match single_name(n) {
            Err(e) => Err(e),
            Ok(table) => if catalog.table(table) is None {
                Err(no_table(table))
            } else if s.for_columns {
                unsupported_view("column lists in ANALYZE TABLE are not supported"@)
            } else if s.noscan {
                unsupported_view("NOSCAN in ANALYZE TABLE is not supported"@)
            } else if s.partitions {
                unsupported_view("partition-scoped ANALYZE TABLE is not supported"@)
            } else {
                Ok(StatementView::AnalyzeTable(table))
            },
        },
    }
}

fn bind_analyze_table(catalog: &CatalogSnapshot, s: &SqlAnalyze) -> (r: Result<
    BoundStatement,
    HtapError,
>)
    ensures
        outcome(r) == analysis_of(*catalog, *s),
{
    let table = match &s.table_name {
        None => {
            return Err(invalid(owned("ANALYZE requires a table name")));
        },
        Some(n) => match object_name_single(n) {
            Ok(t) => t,
            Err(e) => {
                return Err(e);
            },
        },
    };
    if catalog.table_by_name(table.as_str()).is_none() {
        return Err(table_not_found(table.as_str()));
    }
    if s.for_columns {
        return Err(unsupported(owned("column lists in ANALYZE TABLE are not supported")));
    }
    if s.noscan {
        return Err(unsupported(owned("NOSCAN in ANALYZE TABLE is not supported")));
    }
    if s.partitions {
        return Err(unsupported(owned("partition-scoped ANALYZE TABLE is not supported")));
    }
    Ok(BoundStatement::AnalyzeTable(table))
}

/// What `DROP` drops, or its refusal.
pub open spec fn drop_of(s: SqlDrop) -> Result<StatementView, ErrorView> {
    match s.object_type {
        ObjectType::Other(kind) => unsupported_view("DROP "@ + kind@ + " not supported"@),
        ObjectType::Table => if s.names@.len() != 1 {
            unsupported_view("DROP TABLE with multiple tables not supported"@)
        } else if s.options.given() {
            unsupported_view("DROP TABLE options not supported"@)
        } else {
            match single_name(s.names@[0]) {
                Err(e) => Err(e),
                Ok(table) => Ok(StatementView::DropTable { table, if_exists: s.if_exists }),
            }
        },
    }
}

fn bind_drop(s: &SqlDrop) -> (r: Result<BoundStatement, HtapError>)
    ensures
        outcome(r) == drop_of(*s),
{
    match &s.object_type {
        ObjectType::Other(kind) => {
            return Err(unsupported(cat3("DROP ", kind.as_str(), " not supported")));
        },
        ObjectType::Table => {},
    }
    if s.names.len() != 1 {
        return Err(unsupported(owned("DROP TABLE with multiple tables not supported")));
    }
    if s.options.given() {
        return Err(unsupported(owned("DROP TABLE options not supported")));
    }
    match object_name_single(&s.names[0]) {
        Err(e) => Err(e),
        Ok(table) => Ok(
            BoundStatement::DropTable(DropTableStatement { table, if_exists: s.if_exists }),
        ),
    }
}

/// The name of a table that exists, or the refusal of the name.
pub open spec fn existing_table(catalog: CatalogSnapshot, n: ObjectName) -> Result<
    Seq<char>,
    ErrorView,
> {
    match single_name(n) {
        Err(e) => Err(e),
        Ok(table) => if catalog.table(table) is None {
            Err(no_table(table))
        } else {
            Ok(table)
        },
    }
}

fn resolve_table(catalog: &CatalogSnapshot, n: &ObjectName) -> (r: Result<String, HtapError>)
    ensures
        outcome(r) == existing_table(*catalog, *n),
{
    let table = match object_name_single(n) {
        Ok(t) => t,
        Err(e) => {
            return Err(e);
        },
    };
    if catalog.table_by_name(table.as_str()).is_none() {
        return Err(table_not_found(table.as_str()));
    }
    Ok(table)
}

/// What `SHOW TABLES` shows, or its refusal.
pub open spec fn shown_tables(
    modifiers: ShowTablesModifiers,
    options: ShowTablesOptions,
    filter: Option<ShowFilter>,
) -> Result<
    ShowView,
    ErrorView,
> {
    if modifiers.given() {
        unsupported_view("SHOW TABLES modifiers not supported"@)
    } else if options.given() {
        unsupported_view("SHOW TABLES options not supported"@)
    } else {
        match filter {
            None => Ok(ShowView::Tables(None)),
            Some(ShowFilter::Like(p)) => Ok(ShowView::Tables(Some(p@))),
            Some(ShowFilter::Other) => unsupported_view("SHOW TABLES filter not supported"@),
        }
    }
}

/// What `SHOW COLUMNS` shows, or its refusal.
pub open spec fn shown_columns(
    catalog: CatalogSnapshot,
    modifiers: ShowColumnsModifiers,
    filter: bool,
    table: Option<ObjectName>,
) -> Result<ShowView, ErrorView> {
    if modifiers.given() {
        unsupported_view("SHOW COLUMNS modifiers not supported"@)
    } else if filter {
        unsupported_view("SHOW COLUMNS filters not supported"@)
    } else {
        match table {
            None => invalid_view("SHOW COLUMNS requires FROM <table>"@),
            Some(n) => match existing_table(catalog, n) {
                Err(e) => Err(e),
                Ok(t) => Ok(ShowView::Columns(t)),
            },
        }
    }
}

/// What `DESCRIBE` describes, or its refusal.
pub open spec fn described(catalog: CatalogSnapshot, formatted: bool, explain: bool, n: ObjectName) -> Result<
    ShowView,
    ErrorView,
> {
    if formatted {
        unsupported_view("DESCRIBE FORMATTED/EXTENDED not supported"@)
    } else if explain {
        unsupported_view("EXPLAIN not supported"@)
    } else {
        match existing_table(catalog, n) {
            Err(e) => Err(e),
            Ok(t) => Ok(ShowView::Describe(t)),
        }
    }
}

/// What a statement on the catalog's contents shows, or its refusal.
pub open spec fn show_of(catalog: CatalogSnapshot, s: SqlStatement) -> Result<ShowView, ErrorView> {
    match s {
        SqlStatement::ShowTables { modifiers, options, filter } => shown_tables(
            modifiers,
            options,
            filter,
        ),
        SqlStatement::ShowDatabases { options } => if options.given() {
            unsupported_view("SHOW DATABASES options not supported"@)
        } else {
            Ok(ShowView::Databases)
        },
        SqlStatement::ShowColumns { modifiers, filter, table } => shown_columns(
            catalog,
            modifiers,
            filter,
            table,
        ),
        SqlStatement::ExplainTable { formatted, explain, table_name } => described(
            catalog,
            formatted,
            explain,
            table_name,
        ),
        SqlStatement::Other(text) => unsupported_view("unsupported statement: "@ + text@),
        _ => unsupported_view("unsupported statement"@),
    }
}

fn bind_show(catalog: &CatalogSnapshot, s: &SqlStatement) -> (r: Result<ShowStatement, HtapError>)
    ensures
        outcome(r) == show_of(*catalog, *s),
{
    match s {
        SqlStatement::ShowTables { modifiers, options, filter } => {
            if modifiers.given() {
                return Err(unsupported(owned("SHOW TABLES modifiers not supported")));
            }
            if options.given() {
                return Err(unsupported(owned("SHOW TABLES options not supported")));
            }
            match filter {
                None => Ok(ShowStatement::Tables { like: None }),
                Some(ShowFilter::Like(p)) => Ok(ShowStatement::Tables { like: Some(p.clone()) }),
                Some(ShowFilter::Other) => Err(
                    unsupported(owned("SHOW TABLES filter not supported")),
                ),
            }
        },
        SqlStatement::ShowDatabases { options } => {
            if options.given() {
                return Err(unsupported(owned("SHOW DATABASES options not supported")));
            }
            Ok(ShowStatement::Databases)
        },
        SqlStatement::ShowColumns { modifiers, filter, table } => {
            if modifiers.given() {
                return Err(unsupported(owned("SHOW COLUMNS modifiers not supported")));
            }
            if *filter {
                return Err(unsupported(owned("SHOW COLUMNS filters not supported")));
            }
            match table {
                None => Err(invalid(owned("SHOW COLUMNS requires FROM <table>"))),
                Some(n) => match resolve_table(catalog, n) {
                    Err(e) => Err(e),
                    Ok(table) => Ok(ShowStatement::Columns { table }),
                },
            }
        },
        SqlStatement::ExplainTable { formatted, explain, table_name } => {
            if *formatted {
                return Err(unsupported(owned("DESCRIBE FORMATTED/EXTENDED not supported")));
            }
            if *explain {
                return Err(unsupported(owned("EXPLAIN not supported")));
            }
            match resolve_table(catalog, table_name) {
                Err(e) => Err(e),
                Ok(table) => Ok(ShowStatement::Describe { table }),
            }
        },
        SqlStatement::Other(text) => Err(
            unsupported(cat2("unsupported statement: ", text.as_str())),
        ),
        _ => Err(unsupported(owned("unsupported statement"))),
    }
}

/// What a query as a statement reads, or its refusal: a query of the narrow shape is bound as
/// such, and every other one as a general query.
pub open spec fn select_of(cx: Env<'_>, q: Query) -> Result<StatementView, ErrorView> {
    if narrow_shape(q) {
        narrow_of(cx, q)
    } else {
        match query_of(cx, Seq::empty(), Seq::empty(), 0, q) {
            Err(e) => Err(e),
            Ok(x) => Ok(StatementView::Query(x)),
        }
    }
}

fn bind_select(cx: Env<'_>, q: &Query) -> (r: Result<BoundStatement, HtapError>)
    ensures
        outcome(r) == select_of(cx, *q),
{
    if is_narrow_select_shape(q) {
        return bind_narrow_select(cx, q);
    }
    match bind_query(cx, q) {
        Err(e) => Err(e),
        Ok(x) => Ok(BoundStatement::Query(Box::new(x))),
    }
}

/// Whether the table that a statement alters, or explains how to alter, has the column that decides
/// the partition.
pub open spec fn keeps_to_keys(catalog: CatalogSnapshot, s: SqlStatement) -> bool
    decreases s,
{
    match s {
        SqlStatement::AlterTable(x) => altered_key_exists(catalog, x),
        SqlStatement::Explain { statement, .. } => keeps_to_keys(catalog, *statement),
        _ => true,
    }
}

/// Whether a statement can be bound against the catalog: a partitioned table that it adds
/// partitions to, or reorganizes, has the column that decides the partition.
pub fn is_bindable(statement: &SqlStatement, catalog: &CatalogSnapshot) -> (r: bool)
    ensures
        r == keeps_to_keys(*catalog, *statement),
    decreases *statement,
{
    match statement {
        SqlStatement::AlterTable(x) => has_altered_key(catalog, x),
        SqlStatement::Explain { statement, .. } => is_bindable(statement, catalog),
        _ => true,
    }
}

/// What a statement does, or its refusal.
pub open spec fn statement_of(cx: Env<'_>, s: SqlStatement) -> Result<StatementView, ErrorView>
    decreases s,
{
    match s {
        SqlStatement::CreateTable(x) => creation_of(cx, x),
        SqlStatement::Insert(x) => insertion_of(cx, x),
        SqlStatement::Delete(x) => deletion_of(cx, x),
        SqlStatement::Truncate(x) => truncation_of(cx, x),
        SqlStatement::Query(x) => select_of(cx, x),
        SqlStatement::AlterTable(x) => alteration_of(cx, x),
        SqlStatement::Update(x) => update_of(cx, x),
        SqlStatement::CreateUser(x) => user_creation_of(x),
        SqlStatement::AlterUser(x) => user_alteration_of(x),
        SqlStatement::DropUser { if_exists, names } => user_removal_of(if_exists, names@),
        SqlStatement::Grant(x) => grant_of(*cx.catalog, x),
        SqlStatement::Revoke(x) => revocation_of(*cx.catalog, x),
        SqlStatement::ShowGrants(x) => shown_grants(x),
        SqlStatement::Analyze(x) => analysis_of(*cx.catalog, x),
        SqlStatement::Explain { options, analyze, statement } => if options.given() {
            unsupported_view("unsupported EXPLAIN option"@)
        } else {
            match statement_of(cx, *statement) {
                Err(e) => Err(e),
                Ok(inner) => Ok(StatementView::Explain { inner: Box::new(inner), analyze }),
            }
        },
        SqlStatement::Drop(x) => drop_of(x),
        _ => match show_of(*cx.catalog, s) {
            Err(e) => Err(e),
            Ok(x) => Ok(StatementView::Show(x)),
        },
    }
}

/// Binds a statement against the catalog: checks what it means, and resolves its names.
///
/// Operations on doubles that binding needs are looked up among `answers`.
pub fn bind(statement: &SqlStatement, catalog: &CatalogSnapshot, answers: &Answers) -> (r: Result<
    BoundStatement,
    HtapError,
>)
    requires
        keeps_to_keys(*catalog, *statement),
    ensures
        outcome(r) == statement_of(Env { catalog, answers }, *statement),
    decreases *statement,
{
    let cx = Env { catalog, answers };
    match statement {
        SqlStatement::CreateTable(x) => bind_create_table(cx, x),
        SqlStatement::Insert(x) => bind_insert(cx, x),
        SqlStatement::Delete(x) => bind_delete(cx, x),
        SqlStatement::Truncate(x) => bind_truncate(cx, x),
        SqlStatement::Query(x) => bind_select(cx, x),
        SqlStatement::AlterTable(x) => bind_alter_table(cx, x),
        SqlStatement::Update(x) => bind_update(cx, x),
        SqlStatement::CreateUser(x) => bind_create_user(x),
        SqlStatement::AlterUser(x) => bind_alter_user(x),
        SqlStatement::DropUser { if_exists, names } => bind_drop_user(*if_exists, names),
        SqlStatement::Grant(x) => bind_grant(catalog, x),
        SqlStatement::Revoke(x) => bind_revoke(catalog, x),
        SqlStatement::ShowGrants(x) => bind_show_grants(x),
        SqlStatement::Analyze(x) => bind_analyze_table(catalog, x),
        SqlStatement::Explain { options, analyze, statement } => {
            if options.given() {
                return Err(unsupported(owned("unsupported EXPLAIN option")));
            }
            match bind(statement, catalog, answers) {
                Err(e) => Err(e),
                Ok(inner) => Ok(
                    BoundStatement::Explain { inner: Box::new(inner), analyze: *analyze },
                ),
            }
        },
        SqlStatement::Drop(x) => bind_drop(x),
        _ => match bind_show(catalog, statement) {
            Err(e) => Err(e),
            Ok(x) => Ok(BoundStatement::Show(x)),
        },
    }
}

} // verus!
