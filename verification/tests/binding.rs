use htap_sql::answers::{Answers, Reply};
use htap_sql::ast::{
    AlterPartitions, AnalyticFilter, AnalyticOrderBy, BoundListPartition, BoundPartitioning,
    BoundRangePartition, BoundStatement, ComparisonOp, CreateTable, CreateUserStatement,
    DeleteByPrimaryKey, DeleteStatement, DropTableStatement, DropUserStatement, GrantScope,
    GrantStatement, Insert, InsertSource, PointSelect, ShowGrantsStatement, ShowStatement,
    UpdateTarget,
};
use htap_sql::bind;
use htap_sql::binder::is_bindable;
use htap_sql::binder_narrow::is_narrow_select_shape;
use htap_sql::catalog::{
    CatalogSnapshot, PartitionAlteration, PartitionDefinition, PartitionDescriptor, PartitionRange,
    Partitioning, PartitioningMethod, PrivilegeSet, Schema, TableDescriptor,
};
use htap_sql::clauses::{
    CallModifiers, DropOptions, ExplainOptions, GrantOptions, InsertAliases, KeyOptions, RowLimits,
    SelectModifiers, ShowColumnsModifiers, ShowDatabasesOptions, ShowTablesModifiers,
    ShowTablesOptions, SortClauses, TableClauses, TableExtras, TableFlags, TableInheritance,
    TableLayout, TableModifiers, TableOptions, TableSources, UpdateResults, UserOptions,
    WildcardModifiers,
};
use htap_sql::double::{Double, DoubleOp};
use htap_sql::equi_keys::join_equi_key_types;
use htap_sql::eval::EvalContext;
use htap_sql::expr::Expr;
use htap_sql::optimize::optimize;
use htap_sql::query::{
    BoundQuery, JoinKind, JoinTree, QueryBody, RowFrameBound, SelectBody, SetOpKind, TableSlot,
    WindowFrame, WindowFrameDirection,
};
use htap_sql::stats::{StatsLookup, TableStats};
use htap_sql::value::{ColumnDef, DataType, HtapError, Request, Row, Value};
use htap_sql::sql::{
    ArgumentList, BinaryOperator, CaseWhen, Cte, DateTimeField, Distinct, DuplicateTreatment,
    ExactNumberInfo, FrameBound, FrameUnits, Function, FunctionArg, FunctionArguments, GroupBy,
    Join, JoinConstraint, JoinOperator, LimitClause, ObjectName, ObjectNamePart, OrderBy,
    OrderByExpr, Query, Select, SelectItem, SetExpr, SetOperator, SetQuantifier, SqlDataType,
    SqlExpr, SqlFrame, SqlNode, SqlTypeKind, SqlValue, SqlWindow, TableAlias, TableFactor,
    TableWithJoins, UnaryOperator, WindowType, With,
};
use htap_sql::statement::{
    Action, AlterOperation, Assignment, AssignmentTarget, ColumnOption, ColumnSpec, GrantObjects,
    Grantee, GranteeKind, GranteeName, IndexColumn, LessThanBound, ObjectType, PartitionBy,
    PartitionDef, PartitionValues, PrimaryKeySpec, Privileges,
    ShowFilter, SqlAlterTable, SqlAlterUser, SqlAnalyze, SqlCreateTable, SqlCreateUser, SqlDelete,
    SqlDrop, SqlGrant, SqlInsert, SqlStatement, SqlTruncate, SqlUpdate, TableConstraint,
    TruncateTarget, UserPassword,
};
use sqlparser::ast;

/// The tree of a statement.
fn statement(s: &ast::Statement) -> SqlStatement {
    match s {
        ast::Statement::CreateTable(c) => SqlStatement::CreateTable(create_table(c)),
        ast::Statement::Insert(i) => SqlStatement::Insert(insert(i)),
        ast::Statement::Delete(d) => SqlStatement::Delete(delete(d)),
        ast::Statement::Truncate(t) => SqlStatement::Truncate(truncate(t)),
        ast::Statement::Query(q) => SqlStatement::Query(query(q)),
        ast::Statement::AlterTable(a) => SqlStatement::AlterTable(alter_table(a)),
        ast::Statement::Update(u) => SqlStatement::Update(update(u)),
        ast::Statement::CreateUser(c) => SqlStatement::CreateUser(SqlCreateUser {
            options: UserOptions {
                or_replace: c.or_replace,
                options: !c.options.options.is_empty(),
                with_tags: c.with_tags,
                tags: !c.tags.options.is_empty(),
            },
            name: GranteeName::ObjectName(ident_name(&c.name)),
            if_not_exists: c.if_not_exists,
            identified_by: None,
        }),
        ast::Statement::AlterUser(a) => SqlStatement::AlterUser(SqlAlterUser {
            name: GranteeName::ObjectName(ident_name(&a.name)),
            if_exists: a.if_exists,
            password: a.password.as_ref().map(|p| UserPassword {
                encrypted: p.encrypted,
                password: p.password.clone(),
            }),
        }),
        ast::Statement::Grant(g) => SqlStatement::Grant(SqlGrant {
            options: GrantOptions {
                grant_option: g.with_grant_option,
                as_grantor: g.as_grantor.is_some(),
                granted_by: g.granted_by.is_some(),
                current_grants: g.current_grants.is_some(),
                cascade: false,
            },
            privileges: privileges(&g.privileges),
            objects: g.objects.as_ref().map(grant_objects),
            grantees: g.grantees.iter().map(grantee).collect(),
        }),
        ast::Statement::Revoke(r) => SqlStatement::Revoke(SqlGrant {
            options: GrantOptions {
                granted_by: r.granted_by.is_some(),
                cascade: r.cascade.is_some(),
                ..GrantOptions::default()
            },
            privileges: privileges(&r.privileges),
            objects: r.objects.as_ref().map(grant_objects),
            grantees: r.grantees.iter().map(grantee).collect(),
        }),
        ast::Statement::Analyze(a) => SqlStatement::Analyze(SqlAnalyze {
            table_name: a.table_name.as_ref().map(name),
            for_columns: a.for_columns,
            noscan: a.noscan,
            partitions: a.partitions.is_some(),
        }),
        ast::Statement::Explain {
            analyze,
            verbose,
            query_plan,
            estimate,
            statement: inner,
            format,
            options,
            ..
        } => SqlStatement::Explain {
            options: ExplainOptions {
                verbose: *verbose,
                query_plan: *query_plan,
                estimate: *estimate,
                format: format.is_some(),
                options: options.is_some(),
            },
            analyze: *analyze,
            statement: Box::new(statement(inner)),
        },
        ast::Statement::Drop {
            object_type,
            if_exists,
            names,
            cascade,
            purge,
            temporary,
            table,
            ..
        } => SqlStatement::Drop(SqlDrop {
            object_type: match object_type {
                ast::ObjectType::Table => ObjectType::Table,
                other => ObjectType::Other(other.to_string()),
            },
            if_exists: *if_exists,
            names: names.iter().map(name).collect(),
            options: DropOptions {
                cascade: *cascade,
                purge: *purge,
                temporary: *temporary,
                table: table.is_some(),
            },
        }),
        ast::Statement::ShowTables {
            history,
            extended,
            full,
            external,
            show_options,
            ..
        } => SqlStatement::ShowTables {
            modifiers: ShowTablesModifiers {
                history: *history,
                extended: *extended,
                full: *full,
                external: *external,
            },
            options: ShowTablesOptions {
                show_in: show_options.show_in.is_some(),
                starts_with: show_options.starts_with.is_some(),
                limit: show_options.limit.is_some(),
                limit_from: show_options.limit_from.is_some(),
            },
            filter: show_options.filter_position.as_ref().map(|p| match p {
                ast::ShowStatementFilterPosition::Infix(f)
                | ast::ShowStatementFilterPosition::Suffix(f) => match f {
                    ast::ShowStatementFilter::Like(pattern) => ShowFilter::Like(pattern.clone()),
                    _ => ShowFilter::Other,
                },
            }),
        },
        ast::Statement::ShowDatabases { show_options, .. } => SqlStatement::ShowDatabases {
            options: ShowDatabasesOptions {
                filter: show_options.filter_position.is_some(),
                show_in: show_options.show_in.is_some(),
            },
        },
        ast::Statement::ShowColumns {
            extended,
            full,
            show_options,
        } => SqlStatement::ShowColumns {
            modifiers: ShowColumnsModifiers {
                extended: *extended,
                full: *full,
            },
            filter: show_options.filter_position.is_some(),
            table: show_options
                .show_in
                .as_ref()
                .and_then(|i| i.parent_name.as_ref())
                .map(name),
        },
        ast::Statement::ExplainTable {
            describe_alias,
            hive_format,
            table_name,
            ..
        } => SqlStatement::ExplainTable {
            formatted: hive_format.is_some(),
            explain: matches!(describe_alias, ast::DescribeAlias::Explain),
            table_name: name(table_name),
        },
        other => SqlStatement::Other(other.to_string()),
    }
}

fn name(n: &ast::ObjectName) -> ObjectName {
    ObjectName {
        parts: n
            .0
            .iter()
            .map(|p| match p {
                ast::ObjectNamePart::Identifier(i) => ObjectNamePart::Identifier(i.value.clone()),
                ast::ObjectNamePart::Function(_) => ObjectNamePart::Function,
            })
            .collect(),
        text: n.to_string(),
    }
}

fn ident_name(i: &ast::Ident) -> ObjectName {
    ObjectName {
        parts: vec![ObjectNamePart::Identifier(i.value.clone())],
        text: i.to_string(),
    }
}

/// The tree of a query.
fn query(q: &ast::Query) -> Query {
    Query {
        with: q.with.as_ref().map(|w| With {
            recursive: w.recursive,
            ctes: w.cte_tables.iter().map(cte).collect(),
        }),
        body: Box::new(set_expr(&q.body)),
        order_by: q.order_by.as_ref().map(|o| {
            let (all, exprs) = match &o.kind {
                ast::OrderByKind::All(_) => (true, Vec::new()),
                ast::OrderByKind::Expressions(list) => (false, list.iter().map(order_by).collect()),
            };
            OrderBy {
                all,
                exprs,
                interpolate: o.interpolate.is_some(),
            }
        }),
        limit: q.limit_clause.as_ref().map(|l| match l {
            ast::LimitClause::LimitOffset {
                limit,
                offset,
                limit_by,
            } => LimitClause::LimitOffset {
                limit: limit.as_ref().map(expr),
                offset: offset.as_ref().map(|o| expr(&o.value)),
                limit_by: !limit_by.is_empty(),
            },
            ast::LimitClause::OffsetCommaLimit { offset, limit } => LimitClause::OffsetCommaLimit {
                offset: expr(offset),
                limit: expr(limit),
            },
        }),
        fetch: q.fetch.is_some(),
        locks: !q.locks.is_empty(),
        for_clause: q.for_clause.is_some(),
        settings: q.settings.is_some(),
        format: q.format_clause.is_some(),
        pipes: !q.pipe_operators.is_empty(),
    }
}

fn cte(c: &ast::Cte) -> Cte {
    Cte {
        name: c.alias.name.value.clone(),
        shown: c.alias.name.to_string(),
        columns: c
            .alias
            .columns
            .iter()
            .map(|d| d.name.value.clone())
            .collect(),
        query: Box::new(query(&c.query)),
        from: c.from.is_some(),
    }
}

fn set_expr(s: &ast::SetExpr) -> SetExpr {
    match s {
        ast::SetExpr::Select(b) => SetExpr::Select(Box::new(select(b))),
        ast::SetExpr::Query(q) => SetExpr::Query(Box::new(query(q))),
        ast::SetExpr::SetOperation {
            left,
            op,
            set_quantifier,
            right,
        } => SetExpr::SetOperation {
            op: match op {
                ast::SetOperator::Union => SetOperator::Union,
                ast::SetOperator::Except => SetOperator::Except,
                ast::SetOperator::Intersect => SetOperator::Intersect,
                other => SetOperator::Other(other.to_string()),
            },
            quantifier: match set_quantifier {
                ast::SetQuantifier::All => SetQuantifier::All,
                ast::SetQuantifier::Distinct => SetQuantifier::Distinct,
                ast::SetQuantifier::None => SetQuantifier::Unspecified,
                other => SetQuantifier::Other(other.to_string()),
            },
            left: Box::new(set_expr(left)),
            right: Box::new(set_expr(right)),
        },
        ast::SetExpr::Values(v) => SetExpr::Values(
            v.rows
                .iter()
                .map(|row| row.content.iter().map(expr).collect())
                .collect(),
        ),
        _ => SetExpr::Other,
    }
}

fn select(s: &ast::Select) -> Select {
    Select {
        top: s.top.is_some(),
        into: s.into.is_some(),
        lateral_views: !s.lateral_views.is_empty(),
        prewhere: s.prewhere.is_some(),
        named_window: !s.named_window.is_empty(),
        qualify: s.qualify.is_some(),
        sort_clauses: SortClauses {
            cluster_by: !s.cluster_by.is_empty(),
            distribute_by: !s.distribute_by.is_empty(),
            sort_by: !s.sort_by.is_empty(),
        },
        connect_by: !s.connect_by.is_empty(),
        modifiers: SelectModifiers {
            exclude: s.exclude.is_some(),
            value_table_mode: s.value_table_mode.is_some(),
        },
        distinct: s.distinct.as_ref().map(|d| match d {
            ast::Distinct::All => Distinct::All,
            ast::Distinct::Distinct => Distinct::Distinct,
            ast::Distinct::On(_) => Distinct::On,
        }),
        projection: s.projection.iter().map(select_item).collect(),
        from: s.from.iter().map(table_with_joins).collect(),
        selection: s.selection.as_ref().map(expr),
        group_by: match &s.group_by {
            ast::GroupByExpr::All(_) => GroupBy::All,
            ast::GroupByExpr::Expressions(list, modifiers) => GroupBy::Expressions {
                exprs: list.iter().map(expr).collect(),
                modifiers: !modifiers.is_empty(),
            },
        },
        having: s.having.as_ref().map(expr),
    }
}

fn select_item(item: &ast::SelectItem) -> SelectItem {
    match item {
        ast::SelectItem::Wildcard(o) => SelectItem::Wildcard {
            modified: WildcardModifiers {
                exclude: o.opt_exclude.is_some(),
                except: o.opt_except.is_some(),
                replace: o.opt_replace.is_some(),
                rename: o.opt_rename.is_some(),
                ilike: o.opt_ilike.is_some(),
            },
        },
        ast::SelectItem::QualifiedWildcard(kind, _) => SelectItem::QualifiedWildcard(match kind {
            ast::SelectItemQualifiedWildcardKind::ObjectName(n) => Some(name(n)),
            ast::SelectItemQualifiedWildcardKind::Expr(_) => None,
        }),
        ast::SelectItem::UnnamedExpr(e) => SelectItem::UnnamedExpr(expr(e)),
        ast::SelectItem::ExprWithAlias { expr: e, alias } => SelectItem::ExprWithAlias {
            expr: expr(e),
            alias: alias.value.clone(),
        },
        ast::SelectItem::ExprWithAliases { .. } => SelectItem::ExprWithAliases,
    }
}

fn table_with_joins(t: &ast::TableWithJoins) -> TableWithJoins {
    TableWithJoins {
        relation: table_factor(&t.relation),
        joins: t
            .joins
            .iter()
            .map(|j| Join {
                global: j.global,
                operator: join_operator(&j.join_operator),
                relation: table_factor(&j.relation),
            })
            .collect(),
    }
}

fn join_operator(op: &ast::JoinOperator) -> JoinOperator {
    match op {
        ast::JoinOperator::Join(c) | ast::JoinOperator::Inner(c) => {
            JoinOperator::Inner(join_constraint(c))
        }
        ast::JoinOperator::Left(c) | ast::JoinOperator::LeftOuter(c) => {
            JoinOperator::Left(join_constraint(c))
        }
        ast::JoinOperator::Right(c) | ast::JoinOperator::RightOuter(c) => {
            JoinOperator::Right(join_constraint(c))
        }
        ast::JoinOperator::FullOuter(c) => JoinOperator::Full(join_constraint(c)),
        ast::JoinOperator::CrossJoin(c) => JoinOperator::Cross(join_constraint(c)),
        ast::JoinOperator::Semi(_)
        | ast::JoinOperator::LeftSemi(_)
        | ast::JoinOperator::RightSemi(_) => JoinOperator::Semi,
        ast::JoinOperator::Anti(_)
        | ast::JoinOperator::LeftAnti(_)
        | ast::JoinOperator::RightAnti(_) => JoinOperator::Anti,
        ast::JoinOperator::CrossApply | ast::JoinOperator::OuterApply => JoinOperator::Apply,
        ast::JoinOperator::AsOf { .. } => JoinOperator::AsOf,
        _ => JoinOperator::Other,
    }
}

fn join_constraint(c: &ast::JoinConstraint) -> JoinConstraint {
    match c {
        ast::JoinConstraint::On(e) => JoinConstraint::On(expr(e)),
        ast::JoinConstraint::Using(names) => {
            JoinConstraint::Using(names.iter().map(name).collect())
        }
        ast::JoinConstraint::Natural => JoinConstraint::Natural,
        ast::JoinConstraint::None => JoinConstraint::Unspecified,
    }
}

fn table_alias(a: &ast::TableAlias) -> TableAlias {
    TableAlias {
        name: a.name.value.clone(),
        columns: !a.columns.is_empty(),
    }
}

fn table_factor(t: &ast::TableFactor) -> TableFactor {
    match t {
        ast::TableFactor::Table {
            name: n,
            alias,
            args,
            with_hints,
            version,
            with_ordinality,
            partitions,
            json_path,
            sample,
            index_hints,
        } => TableFactor::Table {
            name: name(n),
            alias: alias.as_ref().map(table_alias),
            options: TableOptions {
                args: args.is_some(),
                with_hints: !with_hints.is_empty(),
                version: version.is_some(),
                partitions: !partitions.is_empty(),
            },
            extras: TableExtras {
                with_ordinality: *with_ordinality,
                json_path: json_path.is_some(),
                sample: sample.is_some(),
                index_hints: !index_hints.is_empty(),
            },
        },
        ast::TableFactor::Derived {
            lateral,
            subquery,
            alias,
            sample,
        } => TableFactor::Derived {
            lateral: *lateral,
            subquery: Box::new(query(subquery)),
            alias: alias.as_ref().map(table_alias),
            sample: sample.is_some(),
        },
        ast::TableFactor::NestedJoin {
            table_with_joins: t,
            alias,
        } => TableFactor::NestedJoin {
            tables: Box::new(table_with_joins(t)),
            alias: alias.is_some(),
        },
        _ => TableFactor::Other,
    }
}

fn order_by(o: &ast::OrderByExpr) -> OrderByExpr {
    OrderByExpr {
        expr: expr(&o.expr),
        asc: o
            .options
            .sort
            .as_ref()
            .map(|s| !matches!(s, ast::OrderBySort::Desc)),
        nulls_first: o.options.nulls_first,
        with_fill: o.with_fill.is_some(),
    }
}

fn boxed(e: &ast::Expr) -> Box<SqlExpr> {
    Box::new(expr(e))
}

fn optional(e: &Option<Box<ast::Expr>>) -> Option<Box<SqlExpr>> {
    e.as_ref().map(|e| boxed(e))
}

/// The tree of an expression.
fn expr(e: &ast::Expr) -> SqlExpr {
    SqlExpr {
        node: node(e),
        text: e.to_string(),
    }
}

fn node(e: &ast::Expr) -> SqlNode {
    match e {
        ast::Expr::Identifier(i) => SqlNode::Identifier(i.value.clone()),
        ast::Expr::CompoundIdentifier(parts) => {
            SqlNode::CompoundIdentifier(parts.iter().map(|p| p.value.clone()).collect())
        }
        ast::Expr::Value(v) => SqlNode::Value(value(&v.value)),
        ast::Expr::Nested(inner) => SqlNode::Nested(boxed(inner)),
        ast::Expr::TypedString(t) => match (&t.data_type, &t.value.value) {
            (ast::DataType::Date, ast::Value::SingleQuotedString(s)) => {
                SqlNode::DateLiteral(Some(s.clone()))
            }
            (ast::DataType::Date, _) => SqlNode::DateLiteral(None),
            _ => SqlNode::TypedLiteral,
        },
        ast::Expr::Interval(i) => SqlNode::Interval {
            value: boxed(&i.value),
            unit: i.leading_field.as_ref().map(field),
        },
        ast::Expr::UnaryOp { op, expr: x } => SqlNode::UnaryOp {
            op: match op {
                ast::UnaryOperator::Not => UnaryOperator::Not,
                ast::UnaryOperator::Minus => UnaryOperator::Minus,
                ast::UnaryOperator::Plus => UnaryOperator::Plus,
                other => UnaryOperator::Other(other.to_string()),
            },
            expr: boxed(x),
        },
        ast::Expr::BinaryOp { left, op, right } => SqlNode::BinaryOp {
            left: boxed(left),
            op: binary_operator(op),
            right: boxed(right),
        },
        ast::Expr::Extract { field: f, expr: x, .. } => SqlNode::Extract {
            field: field(f),
            expr: boxed(x),
        },
        ast::Expr::Substring {
            expr: x,
            substring_from,
            substring_for,
            ..
        } => SqlNode::Substring {
            expr: boxed(x),
            start: optional(substring_from),
            length: optional(substring_for),
        },
        ast::Expr::IsNull(x) => SqlNode::IsNull(boxed(x)),
        ast::Expr::IsNotNull(x) => SqlNode::IsNotNull(boxed(x)),
        ast::Expr::IsTrue(x) => is_truth(x, true, false),
        ast::Expr::IsNotTrue(x) => is_truth(x, true, true),
        ast::Expr::IsFalse(x) => is_truth(x, false, false),
        ast::Expr::IsNotFalse(x) => is_truth(x, false, true),
        ast::Expr::Like {
            negated,
            any,
            expr: x,
            pattern,
            escape_char,
        } => SqlNode::Like {
            negated: *negated,
            any: *any,
            expr: boxed(x),
            pattern: boxed(pattern),
            escape: escape_char.is_some(),
        },
        ast::Expr::InList {
            expr: x,
            list,
            negated,
        } => SqlNode::InList {
            expr: boxed(x),
            list: list.iter().map(expr).collect(),
            negated: *negated,
        },
        ast::Expr::Between {
            expr: x,
            negated,
            low,
            high,
        } => SqlNode::Between {
            expr: boxed(x),
            negated: *negated,
            low: boxed(low),
            high: boxed(high),
        },
        ast::Expr::Case {
            operand,
            conditions,
            else_result,
            ..
        } => SqlNode::Case {
            operand: optional(operand),
            conditions: conditions
                .iter()
                .map(|c| CaseWhen {
                    condition: expr(&c.condition),
                    result: expr(&c.result),
                })
                .collect(),
            else_result: optional(else_result),
        },
        ast::Expr::Cast {
            kind,
            expr: x,
            data_type: t,
            ..
        } => SqlNode::Cast {
            plain: matches!(kind, ast::CastKind::Cast),
            expr: boxed(x),
            data_type: data_type(t),
        },
        ast::Expr::Function(f) => SqlNode::Function(Box::new(function(f))),
        ast::Expr::Subquery(q) => SqlNode::Subquery(Box::new(query(q))),
        ast::Expr::InSubquery {
            expr: x,
            subquery,
            negated,
        } => SqlNode::InSubquery {
            expr: boxed(x),
            subquery: Box::new(query(subquery)),
            negated: *negated,
        },
        ast::Expr::Exists { subquery, negated } => SqlNode::Exists {
            subquery: Box::new(query(subquery)),
            negated: *negated,
        },
        ast::Expr::Tuple(list) => SqlNode::Tuple(list.iter().map(expr).collect()),
        _ => SqlNode::Other,
    }
}

fn is_truth(e: &ast::Expr, target: bool, negated: bool) -> SqlNode {
    SqlNode::IsTruth {
        expr: boxed(e),
        target,
        negated,
    }
}

fn value(v: &ast::Value) -> SqlValue {
    match v {
        ast::Value::Number(digits, _) => SqlValue::Number {
            digits: digits.clone(),
            double: digits
                .parse::<f64>()
                .ok()
                .map(|d| Double { bits: d.to_bits() }),
        },
        ast::Value::SingleQuotedString(s) => SqlValue::SingleQuoted(s.clone()),
        ast::Value::DoubleQuotedString(s) => SqlValue::DoubleQuoted(s.clone()),
        ast::Value::NationalStringLiteral(s) => SqlValue::National(s.clone()),
        ast::Value::EscapedStringLiteral(s) => SqlValue::Escaped(s.clone()),
        ast::Value::HexStringLiteral(s) => SqlValue::Hex(s.clone()),
        ast::Value::Boolean(b) => SqlValue::Boolean(*b),
        ast::Value::Null => SqlValue::Null,
        ast::Value::Placeholder(_) => SqlValue::Placeholder,
        _ => SqlValue::Other,
    }
}

fn binary_operator(op: &ast::BinaryOperator) -> BinaryOperator {
    match op {
        ast::BinaryOperator::Plus => BinaryOperator::Plus,
        ast::BinaryOperator::Minus => BinaryOperator::Minus,
        ast::BinaryOperator::Multiply => BinaryOperator::Multiply,
        ast::BinaryOperator::Divide => BinaryOperator::Divide,
        ast::BinaryOperator::MyIntegerDivide => BinaryOperator::IntegerDivide,
        ast::BinaryOperator::Modulo => BinaryOperator::Modulo,
        ast::BinaryOperator::Eq => BinaryOperator::Eq,
        ast::BinaryOperator::NotEq => BinaryOperator::NotEq,
        ast::BinaryOperator::Lt => BinaryOperator::Lt,
        ast::BinaryOperator::LtEq => BinaryOperator::LtEq,
        ast::BinaryOperator::Gt => BinaryOperator::Gt,
        ast::BinaryOperator::GtEq => BinaryOperator::GtEq,
        ast::BinaryOperator::And => BinaryOperator::And,
        ast::BinaryOperator::Or => BinaryOperator::Or,
        other => BinaryOperator::Other(other.to_string()),
    }
}

fn field(f: &ast::DateTimeField) -> DateTimeField {
    match f {
        ast::DateTimeField::Year => DateTimeField::Year,
        ast::DateTimeField::Month => DateTimeField::Month,
        ast::DateTimeField::Day => DateTimeField::Day,
        other => DateTimeField::Other(other.to_string()),
    }
}

fn function(f: &ast::Function) -> Function {
    Function {
        name: name(&f.name),
        over: f.over.as_ref().map(|w| match w {
            ast::WindowType::NamedWindow(_) => WindowType::Named,
            ast::WindowType::WindowSpec(s) => WindowType::Spec(window(s)),
        }),
        filter: f.filter.is_some(),
        null_treatment: f.null_treatment.is_some(),
        modifiers: CallModifiers {
            within_group: !f.within_group.is_empty(),
            odbc_syntax: f.uses_odbc_syntax,
        },
        parameters: !matches!(f.parameters, ast::FunctionArguments::None),
        args: match &f.args {
            ast::FunctionArguments::None => FunctionArguments::Missing,
            ast::FunctionArguments::Subquery(_) => FunctionArguments::Subquery,
            ast::FunctionArguments::List(list) => FunctionArguments::List(ArgumentList {
                duplicates: list.duplicate_treatment.as_ref().map(|d| match d {
                    ast::DuplicateTreatment::Distinct => DuplicateTreatment::Distinct,
                    ast::DuplicateTreatment::All => DuplicateTreatment::All,
                }),
                args: list.args.iter().map(argument).collect(),
                clauses: !list.clauses.is_empty(),
            }),
        },
    }
}

fn argument(a: &ast::FunctionArg) -> FunctionArg {
    match a {
        ast::FunctionArg::Unnamed(ast::FunctionArgExpr::Expr(e)) => FunctionArg::Expr(expr(e)),
        ast::FunctionArg::Unnamed(ast::FunctionArgExpr::Wildcard) => FunctionArg::Wildcard,
        _ => FunctionArg::Other,
    }
}

fn window(s: &ast::WindowSpec) -> SqlWindow {
    SqlWindow {
        named: s.window_name.is_some(),
        partition_by: s.partition_by.iter().map(expr).collect(),
        order_by: s.order_by.iter().map(order_by).collect(),
        frame: s.window_frame.as_ref().map(|f| SqlFrame {
            units: match f.units {
                ast::WindowFrameUnits::Rows => FrameUnits::Rows,
                ast::WindowFrameUnits::Range => FrameUnits::Range,
                ast::WindowFrameUnits::Groups => FrameUnits::Groups,
            },
            start: frame_bound(&f.start_bound),
            end: f.end_bound.as_ref().map(frame_bound),
        }),
    }
}

fn frame_bound(b: &ast::WindowFrameBound) -> FrameBound {
    match b {
        ast::WindowFrameBound::CurrentRow => FrameBound::CurrentRow,
        ast::WindowFrameBound::Preceding(e) => FrameBound::Preceding(optional(e)),
        ast::WindowFrameBound::Following(e) => FrameBound::Following(optional(e)),
    }
}

fn digits(info: &ast::ExactNumberInfo) -> ExactNumberInfo {
    match info {
        ast::ExactNumberInfo::None => ExactNumberInfo::Unspecified,
        ast::ExactNumberInfo::Precision(p) => ExactNumberInfo::Precision(*p),
        ast::ExactNumberInfo::PrecisionAndScale(p, s) => ExactNumberInfo::PrecisionAndScale(*p, *s),
    }
}

fn data_type(t: &ast::DataType) -> SqlDataType {
    let kind = match t {
        ast::DataType::Boolean => SqlTypeKind::Boolean,
        ast::DataType::Bool => SqlTypeKind::Bool,
        ast::DataType::TinyInt(w) => SqlTypeKind::TinyInt(*w),
        ast::DataType::SmallInt(_) => SqlTypeKind::SmallInt,
        ast::DataType::Int(_) => SqlTypeKind::Int,
        ast::DataType::Integer(_) => SqlTypeKind::Integer,
        ast::DataType::MediumInt(_) => SqlTypeKind::MediumInt,
        ast::DataType::Int4(_) => SqlTypeKind::Int4,
        ast::DataType::BigInt(_) => SqlTypeKind::BigInt,
        ast::DataType::Int8(_) => SqlTypeKind::Int8,
        ast::DataType::Signed => SqlTypeKind::Signed,
        ast::DataType::SignedInteger => SqlTypeKind::SignedInteger,
        ast::DataType::Unsigned => SqlTypeKind::Unsigned,
        ast::DataType::UnsignedInteger => SqlTypeKind::UnsignedInteger,
        ast::DataType::Float(_) => SqlTypeKind::Float,
        ast::DataType::Float4 => SqlTypeKind::Float4,
        ast::DataType::Float8 => SqlTypeKind::Float8,
        ast::DataType::Real => SqlTypeKind::Real,
        ast::DataType::Double(_) => SqlTypeKind::Double,
        ast::DataType::DoublePrecision => SqlTypeKind::DoublePrecision,
        ast::DataType::Decimal(i) => SqlTypeKind::Decimal(digits(i)),
        ast::DataType::Numeric(i) => SqlTypeKind::Numeric(digits(i)),
        ast::DataType::Dec(i) => SqlTypeKind::Dec(digits(i)),
        ast::DataType::Char(_) => SqlTypeKind::Char,
        ast::DataType::Character(_) => SqlTypeKind::Character,
        ast::DataType::Varchar(_) => SqlTypeKind::Varchar,
        ast::DataType::CharVarying(_) => SqlTypeKind::CharVarying,
        ast::DataType::CharacterVarying(_) => SqlTypeKind::CharacterVarying,
        ast::DataType::Text => SqlTypeKind::Text,
        ast::DataType::String(_) => SqlTypeKind::Str,
        ast::DataType::Nvarchar(_) => SqlTypeKind::Nvarchar,
        ast::DataType::Binary(_) => SqlTypeKind::Binary,
        ast::DataType::Varbinary(_) => SqlTypeKind::Varbinary,
        ast::DataType::Blob(_) => SqlTypeKind::Blob,
        ast::DataType::Bytes(_) => SqlTypeKind::Bytes,
        ast::DataType::Timestamp(_, _) => SqlTypeKind::Timestamp,
        ast::DataType::Datetime(_) => SqlTypeKind::Datetime,
        ast::DataType::Date => SqlTypeKind::Date,
        _ => SqlTypeKind::Other,
    };
    SqlDataType {
        kind,
        text: t.to_string(),
    }
}

fn key_spec(k: &ast::PrimaryKeyConstraint) -> PrimaryKeySpec {
    PrimaryKeySpec {
        columns: k
            .columns
            .iter()
            .map(|c| IndexColumn {
                expr: expr(&c.column.expr),
                operator_class: c.operator_class.is_some(),
            })
            .collect(),
        options: KeyOptions {
            index_type: k.index_type.is_some(),
            index_options: !k.index_options.is_empty(),
            characteristics: k.characteristics.is_some(),
        },
    }
}

fn create_table(c: &ast::CreateTable) -> SqlCreateTable {
    SqlCreateTable {
        or_replace: c.or_replace,
        temporary: c.temporary,
        external: c.external,
        global: c.global.is_some(),
        if_not_exists: c.if_not_exists,
        modifiers: TableModifiers {
            transient: c.transient,
            volatile: c.volatile,
            iceberg: c.iceberg,
            snapshot: c.snapshot,
        },
        query: c.query.is_some(),
        without_rowid: c.without_rowid,
        like_or_clone: TableSources {
            like: c.like.is_some(),
            clone: c.clone.is_some(),
        },
        clauses: TableClauses {
            version: c.version.is_some(),
            comment: c.comment.is_some(),
            on_commit: c.on_commit.is_some(),
            on_cluster: c.on_cluster.is_some(),
        },
        layout: TableLayout {
            order_by: c.order_by.is_some(),
            partition_by: c.partition_by.is_some(),
            cluster_by: c.cluster_by.is_some(),
            clustered_by: c.clustered_by.is_some(),
        },
        inheritance: TableInheritance {
            inherits: c.inherits.is_some(),
            partition_of: c.partition_of.is_some(),
            for_values: c.for_values.is_some(),
        },
        flags: TableFlags {
            strict: c.strict,
            copy_grants: c.copy_grants,
        },
        table_options: match &c.table_options {
            ast::CreateTableOptions::None => false,
            ast::CreateTableOptions::With(o)
            | ast::CreateTableOptions::Options(o)
            | ast::CreateTableOptions::Plain(o)
            | ast::CreateTableOptions::TableProperties(o) => !o.is_empty(),
        },
        name: name(&c.name),
        columns: c
            .columns
            .iter()
            .map(|d| ColumnSpec {
                name: d.name.value.clone(),
                data_type: data_type(&d.data_type),
                options: d.options.iter().map(|o| column_option(&o.option)).collect(),
            })
            .collect(),
        constraints: c.constraints.iter().map(constraint).collect(),
        primary_key: c.primary_key.as_ref().map(|e| expr(e)),
        partition_by: None,
    }
}

fn column_option(o: &ast::ColumnOption) -> ColumnOption {
    match o {
        ast::ColumnOption::Null => ColumnOption::Null,
        ast::ColumnOption::NotNull => ColumnOption::NotNull,
        ast::ColumnOption::PrimaryKey(k) => ColumnOption::PrimaryKey(key_spec(k)),
        ast::ColumnOption::Default(_) => ColumnOption::Default,
        ast::ColumnOption::Generated { .. } => ColumnOption::Generated,
        ast::ColumnOption::Unique(_) => ColumnOption::Unique,
        ast::ColumnOption::ForeignKey(_) => ColumnOption::ForeignKey,
        ast::ColumnOption::Check(_) => ColumnOption::Check,
        other => ColumnOption::Other(other.to_string()),
    }
}

fn constraint(c: &ast::TableConstraint) -> TableConstraint {
    match c {
        ast::TableConstraint::PrimaryKey(k) => TableConstraint::PrimaryKey(key_spec(k)),
        ast::TableConstraint::Unique(_) => TableConstraint::Unique,
        ast::TableConstraint::ForeignKey(_) => TableConstraint::ForeignKey,
        ast::TableConstraint::Check(_) | ast::TableConstraint::Exclude(_) => TableConstraint::Check,
        ast::TableConstraint::Index(_) | ast::TableConstraint::FulltextOrSpatial(_) => {
            TableConstraint::Index
        }
        ast::TableConstraint::PrimaryKeyUsingIndex(_)
        | ast::TableConstraint::UniqueUsingIndex(_) => TableConstraint::UsingIndex,
    }
}

fn alter_table(a: &ast::AlterTable) -> SqlAlterTable {
    SqlAlterTable {
        if_exists: a.if_exists,
        only: a.only,
        on_cluster: a.on_cluster.is_some(),
        location: a.location.is_some(),
        table_type: a.table_type.is_some(),
        name: name(&a.name),
        operations: a
            .operations
            .iter()
            .map(|o| AlterOperation::Other(o.to_string()))
            .collect(),
    }
}

fn insert(i: &ast::Insert) -> SqlInsert {
    SqlInsert {
        ignore: i.ignore,
        replace_into: i.replace_into,
        on: i.on.is_some(),
        returning: i.returning.is_some(),
        assignments: !i.assignments.is_empty(),
        alias: InsertAliases {
            table: i.table_alias.is_some(),
            row: i.insert_alias.is_some(),
        },
        table: match &i.table {
            ast::TableObject::TableName(n) => Some(name(n)),
            _ => None,
        },
        columns: i.columns.iter().map(name).collect(),
        source: i.source.as_ref().map(|q| Box::new(query(q))),
    }
}

fn delete(d: &ast::Delete) -> SqlDelete {
    let from = match &d.from {
        ast::FromTable::WithFromKeyword(t) | ast::FromTable::WithoutKeyword(t) => t,
    };
    SqlDelete {
        tables: !d.tables.is_empty(),
        using: d.using.is_some(),
        returning: d.returning.is_some(),
        ordered: RowLimits {
            order_by: !d.order_by.is_empty(),
            limit: d.limit.is_some(),
        },
        from: from.iter().map(table_with_joins).collect(),
        selection: d.selection.as_ref().map(expr),
    }
}

fn truncate(t: &ast::Truncate) -> SqlTruncate {
    SqlTruncate {
        table_names: t
            .table_names
            .iter()
            .map(|n| TruncateTarget {
                name: name(&n.name),
                only: n.only,
                has_asterisk: n.has_asterisk,
            })
            .collect(),
        partitions: t.partitions.is_some(),
        identity: t.identity.is_some(),
        cascade: t.cascade.is_some(),
        on_cluster: t.on_cluster.is_some(),
        if_exists: t.if_exists,
    }
}

fn update(u: &ast::Update) -> SqlUpdate {
    SqlUpdate {
        from: u.from.is_some(),
        returning: UpdateResults {
            returning: u.returning.is_some(),
            output: u.output.is_some(),
        },
        or_clause: u.or.is_some(),
        ordered: RowLimits {
            order_by: !u.order_by.is_empty(),
            limit: u.limit.is_some(),
        },
        table: table_with_joins(&u.table),
        assignments: u
            .assignments
            .iter()
            .map(|a| Assignment {
                target: match &a.target {
                    ast::AssignmentTarget::ColumnName(n) => AssignmentTarget::ColumnName(name(n)),
                    ast::AssignmentTarget::Tuple(_) => AssignmentTarget::Tuple,
                },
                value: expr(&a.value),
            })
            .collect(),
        selection: u.selection.as_ref().map(expr),
    }
}

fn privileges(p: &ast::Privileges) -> Privileges {
    match p {
        ast::Privileges::All { .. } => Privileges::All,
        ast::Privileges::Actions(list) => Privileges::Actions(list.iter().map(action).collect()),
    }
}

fn action(a: &ast::Action) -> Action {
    match a {
        ast::Action::Select { columns } => Action::Select {
            columns: columns.is_some(),
        },
        ast::Action::Insert { columns } => Action::Insert {
            columns: columns.is_some(),
        },
        ast::Action::Update { columns } => Action::Update {
            columns: columns.is_some(),
        },
        ast::Action::Delete => Action::Delete,
        ast::Action::Create { .. } => Action::Create,
        ast::Action::Drop => Action::Drop,
        other => Action::Other(other.to_string()),
    }
}

fn grant_objects(o: &ast::GrantObjects) -> GrantObjects {
    match o {
        ast::GrantObjects::Databases(list) => {
            GrantObjects::Databases(list.iter().map(name).collect())
        }
        ast::GrantObjects::AllTablesInSchema { schemas } => {
            GrantObjects::AllTablesInSchema(schemas.iter().map(name).collect())
        }
        ast::GrantObjects::Tables(list) => GrantObjects::Tables(list.iter().map(name).collect()),
        _ => GrantObjects::Other,
    }
}

fn grantee(g: &ast::Grantee) -> Grantee {
    Grantee {
        kind: match g.grantee_type {
            ast::GranteesType::None => GranteeKind::Unspecified,
            ast::GranteesType::User => GranteeKind::User,
            _ => GranteeKind::Other,
        },
        name: g.name.as_ref().map(|n| match n {
            ast::GranteeName::ObjectName(n) => GranteeName::ObjectName(name(n)),
            ast::GranteeName::UserHost { user, host } => GranteeName::UserHost {
                user: user.value.clone(),
                host: host.value.clone(),
            },
        }),
    }
}

fn double(x: f64) -> Double {
    Double { bits: x.to_bits() }
}

/// Repeats a computation until it waits for no answer about doubles.
fn settle<T>(run: impl Fn(&Answers) -> Result<T, HtapError>) -> Result<T, HtapError> {
    let mut answers = Answers::new();
    loop {
        match run(&answers) {
            Err(HtapError::Pending(Request::Double(op))) => {
                let f = |d: &Double| f64::from_bits(d.bits);
                let reply = match &op {
                    DoubleOp::Add(a, b) => Reply::Double(double(f(a) + f(b))),
                    DoubleOp::Mul(a, b) => Reply::Double(double(f(a) * f(b))),
                    DoubleOp::FromInteger(i) => Reply::Double(double(*i as f64)),
                    DoubleOp::FromText(t) => Reply::Parsed(t.parse::<f64>().ok().map(double)),
                    DoubleOp::FromDecimal(v, s) => {
                        Reply::Double(double(*v as f64 / 10_f64.powi(i32::from(*s))))
                    }
                    other => panic!("unexpected question {other:?}"),
                };
                answers.add(Request::Double(op), reply);
            }
            other => return other,
        }
    }
}

fn column(name: &str, data_type: DataType, nullable: bool, primary_key: bool) -> ColumnDef {
    ColumnDef {
        name: name.into(),
        data_type,
        nullable,
        primary_key,
    }
}

fn table(name: &str, columns: Vec<ColumnDef>, primary_key: Vec<usize>) -> TableDescriptor {
    TableDescriptor {
        name: name.into(),
        schema: Schema::new(columns).unwrap(),
        primary_key,
        partitioning: None,
        partitions: Vec::new(),
    }
}

fn catalog() -> CatalogSnapshot {
    CatalogSnapshot {
        tables: vec![
            table(
                "users",
                vec![
                    column("id", DataType::Int64, false, true),
                    column("name", DataType::String, true, false),
                    column("age", DataType::Int32, true, false),
                ],
                vec![0],
            ),
            table(
                "orders",
                vec![
                    column("order_id", DataType::Int64, false, true),
                    column("customer_id", DataType::Int64, false, false),
                    column("amount", DataType::Float64, true, false),
                ],
                vec![0],
            ),
            table(
                "pairs",
                vec![
                    column("a", DataType::Int64, false, true),
                    column("b", DataType::String, false, true),
                    column("c", DataType::Bool, true, false),
                ],
                vec![1, 0],
            ),
        ],
        partitions: Vec::new(),
    }
}

fn bind_in(sql: &str, catalog: &CatalogSnapshot) -> Result<BoundStatement, HtapError> {
    let parsed = htap_sql::parse_one(sql)?;
    let tree = statement(&parsed);
    settle(|answers| bind(&tree, catalog, answers))
}

fn bound(sql: &str) -> BoundStatement {
    bind_in(sql, &catalog()).unwrap()
}

fn refused(sql: &str) -> HtapError {
    bind_in(sql, &catalog()).unwrap_err()
}

fn invalid(text: &str) -> HtapError {
    HtapError::InvalidArgument(text.into())
}

fn unsupported(text: &str) -> HtapError {
    HtapError::Unsupported(text.into())
}

fn general(sql: &str) -> BoundQuery {
    match bound(sql) {
        BoundStatement::Query(q) => *q,
        other => panic!("expected a general query, got {other:?}"),
    }
}

fn select_body(sql: &str) -> SelectBody {
    match general(sql).body {
        QueryBody::Select(s) => s,
        other => panic!("expected a select block, got {other:?}"),
    }
}

#[test]
fn parsing_takes_one_statement() {
    assert_eq!(
        htap_sql::parse_one("  \n").unwrap_err(),
        invalid("statement is empty")
    );
    assert_eq!(
        htap_sql::parse_one(";").unwrap_err(),
        invalid("statement is empty")
    );
    assert_eq!(
        htap_sql::parse_one("SELECT 1; SELECT 2").unwrap_err(),
        invalid("expected exactly one SQL statement, found 2")
    );
    match htap_sql::parse_one("SELECT FROM WHERE").unwrap_err() {
        HtapError::InvalidArgument(text) => assert!(text.starts_with("SQL parse error: "), "{text}"),
        other => panic!("{other:?}"),
    }
    assert_eq!(
        htap_sql::parse_one(" SELECT 1; ").unwrap().to_string(),
        "SELECT 1"
    );
    assert!(htap_sql::parse_one("EXPLAIN EXPLAIN SELECT 1").is_err());
}

#[test]
fn parsing_takes_many_statements() {
    let texts = |sql: &str| -> Vec<String> {
        htap_sql::parse_many(sql)
            .unwrap()
            .iter()
            .map(|s| s.to_string())
            .collect()
    };
    assert_eq!(texts("SELECT 1;;SELECT 2;"), vec!["SELECT 1", "SELECT 2"]);
    assert_eq!(
        htap_sql::parse_many("").unwrap_err(),
        invalid("statement is empty")
    );
    assert_eq!(
        htap_sql::parse_many(" ; ").unwrap_err(),
        invalid("statement is empty")
    );
    assert!(htap_sql::parse_many("SELECT 1; SELEC 2").is_err());
}

#[test]
fn created_tables_have_schema_and_key() {
    let expected = CreateTable::new(
        "t",
        Schema::new(vec![
            column("id", DataType::Int64, false, true),
            column("name", DataType::String, true, false),
            column("flag", DataType::Bool, false, false),
        ])
        .unwrap(),
        vec![0],
    );
    assert_eq!(
        bound("CREATE TABLE t (id BIGINT PRIMARY KEY, name VARCHAR(10), flag BOOLEAN NOT NULL)"),
        BoundStatement::CreateTable(expected)
    );
    let composite = bound("CREATE TABLE t (a INT NOT NULL, b TEXT NOT NULL, PRIMARY KEY (b, a))");
    match composite {
        BoundStatement::CreateTable(c) => {
            assert_eq!(c.primary_key, vec![1, 0]);
            assert!(c.schema.columns.iter().all(|c| c.primary_key && !c.nullable));
        }
        other => panic!("{other:?}"),
    }
}

#[test]
fn refused_tables() {
    assert!(matches!(
        refused("CREATE TABLE t (id BIGINT)"),
        HtapError::InvalidArgument(_)
    ));
    assert!(matches!(
        refused("CREATE TABLE IF NOT EXISTS t (id BIGINT PRIMARY KEY)"),
        HtapError::Unsupported(_)
    ));
    assert_eq!(
        refused("CREATE TABLE t (id JSON PRIMARY KEY)"),
        unsupported("unsupported data type: JSON")
    );
    assert!(matches!(
        refused("CREATE TABLE t (id BIGINT PRIMARY KEY, id INT)"),
        HtapError::InvalidArgument(_)
    ));
}

#[test]
fn inserted_values_follow_the_schema() {
    assert_eq!(
        bound("INSERT INTO users (age, id, name) VALUES (30, 1, 'Alice'), (NULL, 2, NULL)"),
        BoundStatement::Insert(Insert::new(
            "users",
            vec![
                Row::new(vec![
                    Value::Int64(1),
                    Value::String("Alice".into()),
                    Value::Int32(30),
                ]),
                Row::new(vec![Value::Int64(2), Value::Null, Value::Null]),
            ]
        ))
    );
    assert_eq!(
        refused("INSERT INTO users VALUES (1, 'a', 2)"),
        invalid("INSERT statement requires an explicit column list")
    );
    assert_eq!(
        refused("INSERT INTO ghosts (id) VALUES (1)"),
        htap_sql::table_not_found("ghosts")
    );
    assert!(bind_in("INSERT INTO users (id, id) VALUES (1, 1)", &catalog()).is_err());
    assert!(bind_in("INSERT INTO users (name) VALUES ('a')", &catalog()).is_err());
    assert!(bind_in("INSERT INTO users (id, age) VALUES (1, 'x')", &catalog()).is_err());
    assert!(bind_in("INSERT INTO users (id, age) VALUES (1)", &catalog()).is_err());
}

#[test]
fn written_order_does_not_matter() {
    let first = bound("INSERT INTO users (id, name, age) VALUES (1, 'a', 2), (3, NULL, 4)");
    assert_eq!(
        bound("INSERT INTO users (age, id, name) VALUES (2, 1, 'a'), (4, 3, NULL)"),
        first
    );
    assert_eq!(
        bound("INSERT INTO users (name, age, id) VALUES ('a', 2, 1), (NULL, 4, 3)"),
        first
    );
}

#[test]
fn divisions_do_not_fill_columns_without_null() {
    for op in ["DIV", "%"] {
        let sql = format!("INSERT INTO users (id, name, age) SELECT id {op} 2, name, age FROM users LIMIT 5");
        assert_eq!(refused(&sql), invalid("column 'id' is NOT NULL"));
    }
    for op in ["+", "-", "*"] {
        let sql = format!("INSERT INTO users (id, name, age) SELECT id {op} 2, name, age FROM users LIMIT 5");
        assert!(bind_in(&sql, &catalog()).is_ok());
    }
}

#[test]
fn inserted_queries_match_types_exactly() {
    match bound("INSERT INTO users (id, name, age) SELECT id, name, age FROM users WHERE age > 1 LIMIT 5") {
        BoundStatement::Insert(Insert {
            source: InsertSource::Query { columns, .. },
            ..
        }) => assert_eq!(columns, vec![0, 1, 2]),
        other => panic!("{other:?}"),
    }
    assert!(bind_in(
        "INSERT INTO users (id, name, age) SELECT id, name, id FROM users LIMIT 5",
        &catalog()
    )
    .is_err());
}

#[test]
fn complete_keys_make_point_reads() {
    assert_eq!(
        bound("SELECT name, age FROM users WHERE id = 2"),
        BoundStatement::Select(PointSelect::new("users", vec![1, 2], vec![Value::Int64(2)]))
    );
    assert_eq!(
        bound("SELECT * FROM pairs WHERE a = 7 AND b = 'x'"),
        BoundStatement::Select(PointSelect::new(
            "pairs",
            vec![0, 1, 2],
            vec![Value::String("x".into()), Value::Int64(7)]
        ))
    );
    assert!(matches!(
        bound("SELECT * FROM pairs WHERE a = 7"),
        BoundStatement::AnalyticSelect(_)
    ));
}

#[test]
fn narrow_scans_are_analytic() {
    let BoundStatement::AnalyticSelect(a) =
        bound("SELECT age, COUNT(*), SUM(id) FROM users WHERE age >= 18 AND name IS NOT NULL GROUP BY age ORDER BY age DESC")
    else {
        panic!("expected a scan");
    };
    assert_eq!(a.table, "users");
    assert_eq!(a.group_by, vec![2]);
    assert_eq!(
        a.filter,
        Some(AnalyticFilter::And(vec![
            AnalyticFilter::Comparison {
                column: 2,
                op: ComparisonOp::Gte,
                value: Value::Int32(18),
            },
            AnalyticFilter::IsNotNull { column: 1 },
        ]))
    );
    assert_eq!(a.order_by, vec![AnalyticOrderBy::new(2, false, false)]);
    let names: Vec<&str> = a
        .output_schema
        .columns
        .iter()
        .map(|c| c.name.as_str())
        .collect();
    assert_eq!(names, vec!["age", "COUNT(*)", "SUM(id)"]);
    assert_eq!(a.output_schema.columns[1].data_type, DataType::Int64);
    assert!(!a.output_schema.columns[1].nullable);
    assert!(a.output_schema.columns[2].nullable);
}

#[test]
fn nulls_sort_lowest_unless_told_otherwise() {
    let order = |sql: &str| match bound(sql) {
        BoundStatement::AnalyticSelect(a) => a.order_by,
        other => panic!("{other:?}"),
    };
    assert_eq!(
        order("SELECT age FROM users ORDER BY age"),
        vec![AnalyticOrderBy::new(2, true, true)]
    );
    assert_eq!(
        order("SELECT age FROM users ORDER BY age DESC"),
        vec![AnalyticOrderBy::new(2, false, false)]
    );
    assert_eq!(
        order("SELECT age FROM users ORDER BY age NULLS LAST"),
        vec![AnalyticOrderBy::new(2, true, false)]
    );
}

#[test]
fn wide_shapes_are_general_queries() {
    for sql in [
        "SELECT id FROM users WHERE id = 1 LIMIT 1",
        "SELECT id FROM users u WHERE id = 1",
        "SELECT id FROM users WHERE id = 1 OR id = 2",
        "SELECT DISTINCT age FROM users",
        "SELECT id + 1 FROM users",
        "SELECT @x FROM users",
        "SELECT AVG(age) FROM users",
        "SELECT u.id FROM users u JOIN orders o ON u.id = o.customer_id",
    ] {
        assert!(matches!(bound(sql), BoundStatement::Query(_)), "{sql}");
        match htap_sql::parse_one(sql).unwrap() {
            ast::Statement::Query(q) => assert!(!is_narrow_select_shape(&query(&q)), "{sql}"),
            other => panic!("{other}"),
        }
    }
}

#[test]
fn joined_columns_have_offsets() {
    let s = select_body(
        "SELECT u.name, o.amount FROM users u LEFT JOIN orders o ON u.id = o.customer_id WHERE o.amount > 10",
    );
    assert_eq!(s.slots.len(), 2);
    assert_eq!(
        s.projection[1].expr,
        Expr::ColumnRef {
            slot: 1,
            column: 2,
            offset: 5,
            name: "amount".into(),
            data_type: DataType::Float64,
            nullable: true,
        }
    );
    match &s.join_tree {
        JoinTree::Join { kind, on, .. } => {
            assert_eq!(*kind, JoinKind::Left);
            assert!(on.is_some());
        }
        other => panic!("{other:?}"),
    }
    assert!(s.filter.is_some());
}

#[test]
fn natural_joins_share_columns() {
    let q = general("SELECT * FROM users NATURAL JOIN (SELECT id, amount FROM (SELECT order_id AS id, amount FROM orders) x) y");
    let names: Vec<&str> = q.output_columns.iter().map(|c| c.name.as_str()).collect();
    assert_eq!(names, vec!["id", "name", "age", "amount"]);
    let q = general("SELECT * FROM users JOIN (SELECT id AS i, age FROM users) y USING (age)");
    let names: Vec<&str> = q.output_columns.iter().map(|c| c.name.as_str()).collect();
    assert_eq!(names, vec!["age", "id", "name", "i"]);
}

#[test]
fn names_must_be_known_and_unique() {
    assert!(matches!(
        refused("SELECT ghost FROM users u LIMIT 1"),
        HtapError::InvalidArgument(_)
    ));
    assert!(matches!(
        refused("SELECT id FROM users a, users b"),
        HtapError::InvalidArgument(_)
    ));
    assert_eq!(
        refused("SELECT * FROM ghosts g LIMIT 1"),
        HtapError::NotFound("table 'ghosts' not found".into())
    );
    assert!(bind_in("SELECT a.id FROM users a, users b", &catalog()).is_ok());
}

#[test]
fn grouping_is_strict() {
    assert!(bind_in("SELECT name, COUNT(*) FROM users u GROUP BY age", &catalog()).is_err());
    let s = select_body("SELECT age + 1, AVG(id) FROM users u GROUP BY age + 1 HAVING COUNT(*) > 2");
    assert_eq!(s.group_by.len(), 1);
    assert_eq!(s.aggregates.len(), 2);
    assert!(s.having.is_some());
    assert!(bind_in("SELECT age FROM users u WHERE COUNT(*) > 1", &catalog()).is_err());
}

#[test]
fn limits_and_orders() {
    let q = general("SELECT id FROM users ORDER BY 1 DESC LIMIT 3, 7");
    assert_eq!(q.offset, Some(3));
    assert_eq!(q.limit, Some(7));
    assert_eq!(q.order_by.len(), 1);
    assert!(!q.order_by[0].asc);
    assert!(bind_in("SELECT id FROM users ORDER BY 2 LIMIT 1", &catalog()).is_err());
}

#[test]
fn set_operations_widen_numbers() {
    let q = general("SELECT id FROM users UNION SELECT amount FROM orders");
    assert_eq!(q.output_columns[0].data_type, DataType::Float64);
    assert!(matches!(
        q.body,
        QueryBody::SetOp {
            kind: SetOpKind::UnionDistinct,
            ..
        }
    ));
    assert!(bind_in("SELECT id FROM users UNION SELECT id, age FROM users", &catalog()).is_err());
    assert!(bind_in("SELECT id FROM users UNION SELECT name FROM users", &catalog()).is_err());
    assert!(matches!(
        general("SELECT id FROM users EXCEPT ALL SELECT order_id FROM orders").body,
        QueryBody::SetOp {
            kind: SetOpKind::ExceptAll,
            ..
        }
    ));
}

#[test]
fn subqueries_are_correlated_one_level_deep() {
    let q = general("SELECT id FROM users u WHERE EXISTS (SELECT 1 FROM orders o WHERE o.customer_id = u.id)");
    assert_eq!(q.subqueries.len(), 1);
    assert!(q.subqueries[0].correlated);
    let q = general("SELECT id FROM users u WHERE id IN (SELECT customer_id FROM orders)");
    assert!(!q.subqueries[0].correlated);
    assert!(bind_in(
        "SELECT id FROM users u WHERE EXISTS (SELECT 1 FROM orders o WHERE EXISTS (SELECT 1 FROM pairs p WHERE p.a = u.id))",
        &catalog()
    )
    .is_err());
}

#[test]
fn recursive_queries_have_an_anchor() {
    let q = general("WITH RECURSIVE n AS (SELECT 1 AS i UNION ALL SELECT i + 1 FROM n WHERE i < 5) SELECT i FROM n");
    match q.body {
        QueryBody::Select(s) => match &s.slots[0] {
            TableSlot::Derived { query, .. } => {
                assert!(matches!(query.body, QueryBody::RecursiveQueryBody { .. }))
            }
            other => panic!("{other:?}"),
        },
        other => panic!("{other:?}"),
    }
}

#[test]
fn windows_have_frames() {
    let s = select_body("SELECT id, SUM(age) OVER (PARTITION BY name ORDER BY id ROWS BETWEEN 1 PRECEDING AND CURRENT ROW) FROM users u");
    assert_eq!(s.windows.len(), 1);
    assert_eq!(
        s.windows[0].frame,
        WindowFrame::Rows {
            start: RowFrameBound::Offset {
                value: 1,
                direction: WindowFrameDirection::Preceding,
            },
            end: RowFrameBound::CurrentRow,
        }
    );
    assert!(bind_in("SELECT id FROM users u WHERE ROW_NUMBER() OVER (ORDER BY id) = 1", &catalog()).is_err());
}

#[test]
fn updates_spare_keys() {
    match bound("UPDATE users SET age = age + 1, name = 'x' WHERE id = 3") {
        BoundStatement::Update(u) => {
            assert_eq!(u.table, "users");
            assert_eq!(u.target, UpdateTarget::PrimaryKey(vec![Value::Int64(3)]));
            let columns: Vec<usize> = u.assignments.iter().map(|a| a.0).collect();
            assert_eq!(columns, vec![2, 1]);
        }
        other => panic!("{other:?}"),
    }
    match bound("UPDATE users SET name = NULL") {
        BoundStatement::Update(u) => assert_eq!(u.target, UpdateTarget::Filter(None)),
        other => panic!("{other:?}"),
    }
    assert!(bind_in("UPDATE users SET id = 4 WHERE id = 3", &catalog()).is_err());
    assert!(bind_in("UPDATE users SET age = 1, age = 2", &catalog()).is_err());
    assert!(bind_in("UPDATE users SET age = (SELECT 1)", &catalog()).is_err());
    assert!(bind_in("UPDATE users SET ghost = 1", &catalog()).is_err());
}

#[test]
fn deletes_by_key_and_by_filter() {
    assert_eq!(
        bound("DELETE FROM users WHERE id = 1"),
        BoundStatement::Delete(DeleteByPrimaryKey::new("users", vec![Value::Int64(1)]))
    );
    match bound("DELETE FROM users WHERE age < 3") {
        BoundStatement::DeleteRows(d) => {
            assert!(d.filter.is_some());
            assert!(!d.if_exists);
        }
        other => panic!("{other:?}"),
    }
    assert_eq!(
        bound("TRUNCATE TABLE users"),
        BoundStatement::DeleteRows(DeleteStatement {
            table: "users".into(),
            filter: None,
            if_exists: false,
        })
    );
    assert_eq!(
        refused("DELETE FROM users WHERE id = 1 LIMIT 1"),
        unsupported("DELETE with ORDER BY / LIMIT not supported")
    );
}

#[test]
fn catalog_statements() {
    assert_eq!(
        bound("DROP TABLE IF EXISTS ghosts"),
        BoundStatement::DropTable(DropTableStatement {
            table: "ghosts".into(),
            if_exists: true,
        })
    );
    assert_eq!(
        bound("SHOW TABLES LIKE 'u%'"),
        BoundStatement::Show(ShowStatement::Tables {
            like: Some("u%".into())
        })
    );
    assert_eq!(
        bound("SHOW DATABASES"),
        BoundStatement::Show(ShowStatement::Databases)
    );
    assert_eq!(
        bound("SHOW COLUMNS FROM users"),
        BoundStatement::Show(ShowStatement::Columns {
            table: "users".into()
        })
    );
    assert_eq!(
        bound("DESCRIBE users"),
        BoundStatement::Show(ShowStatement::Describe {
            table: "users".into()
        })
    );
    assert_eq!(refused("DESCRIBE ghosts"), htap_sql::table_not_found("ghosts"));
    assert_eq!(
        bound("ANALYZE TABLE users"),
        BoundStatement::AnalyzeTable("users".into())
    );
    assert_eq!(
        bound("EXPLAIN ANALYZE SELECT name FROM users WHERE id = 1"),
        BoundStatement::Explain {
            inner: Box::new(BoundStatement::Select(PointSelect::new(
                "users",
                vec![1],
                vec![Value::Int64(1)]
            ))),
            analyze: true,
        }
    );
    assert_eq!(
        refused("COMMIT"),
        unsupported("unsupported statement: COMMIT")
    );
}

#[test]
fn grants_name_one_user() {
    assert_eq!(
        bound("GRANT SELECT, INSERT ON htap.users TO 'app'@'%'"),
        BoundStatement::GrantPrivileges(GrantStatement {
            privileges: PrivilegeSet {
                select: true,
                insert: true,
                update: false,
                delete: false,
                create: false,
                drop: false,
            },
            scope: GrantScope::Table("users".into()),
            grantee: "app".into(),
        })
    );
    match bound("REVOKE ALL ON *.* FROM app") {
        BoundStatement::RevokePrivileges(r) => {
            assert_eq!(r.scope, GrantScope::Global);
            assert!(r.privileges.select && r.privileges.drop);
        }
        other => panic!("{other:?}"),
    }
    assert_eq!(
        refused("GRANT SELECT ON other.users TO app"),
        HtapError::NotFound("schema 'other' not found".into())
    );
    assert_eq!(
        refused("GRANT SELECT ON users TO a, b"),
        unsupported("exactly one USER grantee is required")
    );
    assert_eq!(
        refused("GRANT SELECT ON users TO 'a'@'localhost'"),
        unsupported("only '%' host is supported")
    );
}

fn account(name: &str) -> GranteeName {
    GranteeName::ObjectName(ObjectName {
        parts: vec![ObjectNamePart::Identifier(name.into())],
        text: name.into(),
    })
}

fn bind_tree(tree: &SqlStatement, catalog: &CatalogSnapshot) -> Result<BoundStatement, HtapError> {
    settle(|answers| bind(tree, catalog, answers))
}

#[test]
fn accounts_need_passwords() {
    let user = |identified_by: Option<String>| {
        SqlStatement::CreateUser(SqlCreateUser {
            options: UserOptions::default(),
            name: account("app"),
            if_not_exists: true,
            identified_by,
        })
    };
    assert_eq!(
        bind_tree(&user(None), &catalog()).unwrap_err(),
        invalid("CREATE USER requires IDENTIFIED BY")
    );
    assert_eq!(
        bind_tree(&user(Some("s".into())), &catalog()).unwrap(),
        BoundStatement::CreateUser(CreateUserStatement {
            username: "app".into(),
            if_not_exists: true,
            password: Some("s".into()),
        })
    );
    let none = SqlStatement::DropUser {
        if_exists: false,
        names: vec![],
    };
    assert_eq!(
        bind_tree(&none, &catalog()).unwrap_err(),
        invalid("DROP USER requires at least one user")
    );
    let two = SqlStatement::DropUser {
        if_exists: true,
        names: vec![account("a"), account("b")],
    };
    assert_eq!(
        bind_tree(&two, &catalog()).unwrap(),
        BoundStatement::DropUser(DropUserStatement {
            usernames: vec!["a".into(), "b".into()],
            if_exists: true,
        })
    );
    assert_eq!(
        bind_tree(&SqlStatement::ShowGrants(None), &catalog()).unwrap(),
        BoundStatement::ShowGrants(ShowGrantsStatement { for_username: None })
    );
}

fn number(n: i64) -> SqlExpr {
    let text = n.to_string();
    SqlExpr {
        node: SqlNode::Value(SqlValue::Number {
            digits: text.clone(),
            double: Some(double(n as f64)),
        }),
        text,
    }
}

fn less_than(name: &str, bound: Option<i64>) -> PartitionDef {
    PartitionDef {
        name: name.into(),
        values: PartitionValues::LessThan(match bound {
            Some(n) => LessThanBound::Expr(number(n)),
            None => LessThanBound::MaxValue,
        }),
    }
}

fn one_of(name: &str, values: &[i64]) -> PartitionDef {
    PartitionDef {
        name: name.into(),
        values: PartitionValues::In(values.iter().map(|n| number(*n)).collect()),
    }
}

fn create_partitioned(method: PartitioningMethod, partitions: Vec<PartitionDef>) -> SqlStatement {
    let parsed = htap_sql::parse_one("CREATE TABLE m (id BIGINT PRIMARY KEY, v INT)").unwrap();
    match statement(&parsed) {
        SqlStatement::CreateTable(c) => SqlStatement::CreateTable(SqlCreateTable {
            partition_by: Some(PartitionBy {
                method,
                columns: Some(vec!["id".into()]),
                expr: None,
                partitions,
            }),
            ..c
        }),
        other => panic!("{other:?}"),
    }
}

#[test]
fn range_partitions_touch() {
    let tree = create_partitioned(
        PartitioningMethod::Range,
        vec![
            less_than("p0", Some(10)),
            less_than("p1", Some(20)),
            less_than("p2", None),
        ],
    );
    match bind_tree(&tree, &catalog()).unwrap() {
        BoundStatement::CreateTable(c) => assert_eq!(
            c.partitioning,
            Some(BoundPartitioning::Range {
                key_column: 0,
                partitions: vec![
                    BoundRangePartition {
                        name: "p0".into(),
                        lower: None,
                        upper: Some(Value::Int64(10)),
                    },
                    BoundRangePartition {
                        name: "p1".into(),
                        lower: Some(Value::Int64(10)),
                        upper: Some(Value::Int64(20)),
                    },
                    BoundRangePartition {
                        name: "p2".into(),
                        lower: Some(Value::Int64(20)),
                        upper: None,
                    },
                ],
            })
        ),
        other => panic!("{other:?}"),
    }
    for bad in [
        vec![less_than("p0", Some(10)), less_than("p1", Some(10))],
        vec![less_than("p0", None), less_than("p1", Some(10))],
        vec![less_than("p0", Some(10)), less_than("p0", Some(20))],
        vec![one_of("p0", &[1])],
        vec![],
    ] {
        let tree = create_partitioned(PartitioningMethod::Range, bad);
        assert!(bind_tree(&tree, &catalog()).is_err());
    }
}

#[test]
fn list_partitions_are_apart() {
    let tree = create_partitioned(
        PartitioningMethod::List,
        vec![one_of("p0", &[1, 2]), one_of("p1", &[3])],
    );
    match bind_tree(&tree, &catalog()).unwrap() {
        BoundStatement::CreateTable(c) => assert_eq!(
            c.partitioning,
            Some(BoundPartitioning::List {
                key_column: 0,
                partitions: vec![
                    BoundListPartition {
                        name: "p0".into(),
                        values: vec![Value::Int64(1), Value::Int64(2)],
                    },
                    BoundListPartition {
                        name: "p1".into(),
                        values: vec![Value::Int64(3)],
                    },
                ],
            })
        ),
        other => panic!("{other:?}"),
    }
    for bad in [
        vec![one_of("p0", &[1, 1])],
        vec![one_of("p0", &[1]), one_of("p1", &[2, 1])],
        vec![one_of("p0", &[])],
        vec![less_than("p0", Some(1))],
    ] {
        let tree = create_partitioned(PartitioningMethod::List, bad);
        assert!(bind_tree(&tree, &catalog()).is_err());
    }
}

fn partitioned_catalog() -> CatalogSnapshot {
    let mut c = catalog();
    let mut m = table(
        "m",
        vec![
            column("id", DataType::Int64, false, true),
            column("v", DataType::Int32, true, false),
        ],
        vec![0],
    );
    m.partitioning = Some(Partitioning {
        key_column: 0,
        method: PartitioningMethod::Range,
    });
    m.partitions = vec![1, 2];
    c.tables.push(m);
    let range = |id: u64, name: &str, lower: Option<i64>, upper: Option<i64>| PartitionDescriptor {
        id,
        name: name.into(),
        range: Some(PartitionRange {
            lower: lower.map(Value::Int64),
            upper: upper.map(Value::Int64),
        }),
        list_values: vec![],
    };
    c.partitions = vec![
        range(1, "p0", None, Some(10)),
        range(2, "p1", Some(10), Some(20)),
    ];
    c
}

fn alter(operation: AlterOperation) -> Result<BoundStatement, HtapError> {
    let tree = SqlStatement::AlterTable(SqlAlterTable {
        if_exists: false,
        only: false,
        on_cluster: false,
        location: false,
        table_type: false,
        name: ObjectName {
            parts: vec![ObjectNamePart::Identifier("m".into())],
            text: "m".into(),
        },
        operations: vec![operation],
    });
    let c = partitioned_catalog();
    assert!(is_bindable(&tree, &c));
    bind_tree(&tree, &c)
}

#[test]
fn partitions_are_altered() {
    assert_eq!(
        alter(AlterOperation::AddPartition(vec![less_than("p2", Some(30))])).unwrap(),
        BoundStatement::AlterPartitions(AlterPartitions::new(
            "m",
            PartitionAlteration::Add {
                partitions: vec![PartitionDefinition::Range {
                    name: "p2".into(),
                    lower: Some(Value::Int64(20)),
                    upper: Some(Value::Int64(30)),
                }],
            }
        ))
    );
    assert!(alter(AlterOperation::AddPartition(vec![less_than("p2", Some(15))])).is_err());
    assert!(alter(AlterOperation::AddPartition(vec![less_than("p0", Some(30))])).is_err());
    assert_eq!(
        alter(AlterOperation::DropPartition(vec!["p1".into()])).unwrap(),
        BoundStatement::AlterPartitions(AlterPartitions::new(
            "m",
            PartitionAlteration::Drop {
                partitions: vec!["p1".into()],
            }
        ))
    );
    assert_eq!(
        alter(AlterOperation::DropPartition(vec!["p1".into(), "p1".into()])).unwrap_err(),
        invalid("duplicate partition name 'p1' in DROP PARTITION")
    );
    assert_eq!(
        alter(AlterOperation::DropPartition(vec![])).unwrap_err(),
        invalid("DROP PARTITION requires at least one partition name")
    );
    let split = alter(AlterOperation::ReorganizePartition {
        partitions: vec!["p1".into()],
        into_partitions: vec![less_than("q0", Some(15)), less_than("q1", Some(20))],
    });
    assert_eq!(
        split.unwrap(),
        BoundStatement::AlterPartitions(AlterPartitions::new(
            "m",
            PartitionAlteration::Reorganize {
                sources: vec!["p1".into()],
                targets: vec![
                    PartitionDefinition::Range {
                        name: "q0".into(),
                        lower: Some(Value::Int64(10)),
                        upper: Some(Value::Int64(15)),
                    },
                    PartitionDefinition::Range {
                        name: "q1".into(),
                        lower: Some(Value::Int64(15)),
                        upper: Some(Value::Int64(20)),
                    },
                ],
            }
        ))
    );
    assert!(alter(AlterOperation::Other("ADD COLUMN x INT".into())).is_err());
}

#[test]
fn equal_keys_have_a_common_type() {
    let s = select_body("SELECT u.id FROM users u JOIN orders o ON u.id = o.customer_id AND u.age = o.amount");
    let JoinTree::Join { on: Some(on), .. } = &s.join_tree else {
        panic!("expected a condition");
    };
    assert_eq!(
        join_equi_key_types(Some(on), (1, 1)),
        vec![Some(DataType::Int64), Some(DataType::Float64)]
    );
    assert_eq!(join_equi_key_types(None, (1, 1)), vec![]);
}

#[test]
fn optimization_keeps_joined_predicates() {
    let q = general(
        "SELECT u.id FROM users u JOIN orders o ON u.id = o.customer_id JOIN pairs p ON p.a = o.order_id WHERE u.age > 3 AND p.c",
    );
    let plan = optimize(&q, &StatsLookup::none());
    assert!(!plan.fallback);
    let select = plan.select.unwrap();
    assert!(select.filter.is_some());
    assert_eq!(plan.node_estimates.len(), 5);
    assert_eq!(plan.join_build_sides.len(), 2);
    assert_eq!(plan.pushdown_selections.len(), 3);
}

/// A row of a join: for every slot one of its rows, or nothing where `NULL` fills it.
type Choice = Vec<Option<usize>>;

struct Tables {
    widths: Vec<usize>,
    rows: Vec<Vec<Vec<Value>>>,
}

impl Tables {
    fn flat(&self, layout: &[usize], choice: &Choice) -> Vec<Value> {
        let mut out = Vec::new();
        for slot in layout {
            match choice[*slot] {
                Some(i) => out.extend(self.rows[*slot][i].iter().cloned()),
                None => out.extend(vec![Value::Null; self.widths[*slot]]),
            }
        }
        out
    }

    fn holds(&self, e: &Expr, layout: &[usize], choice: &Choice) -> bool {
        if *e == Expr::Literal(Value::Int64(1)) {
            return true;
        }
        let row = self.flat(layout, choice);
        settle(|answers| e.eval_predicate(&EvalContext::row_only(&row, answers))).unwrap()
    }

    /// The slots of a tree and its rows.
    fn join(&self, t: &JoinTree) -> (Vec<usize>, Vec<Choice>) {
        match t {
            JoinTree::Leaf(slot) => {
                let none: Choice = vec![None; self.rows.len()];
                let rows = (0..self.rows[*slot].len())
                    .map(|i| {
                        let mut c = none.clone();
                        c[*slot] = Some(i);
                        c
                    })
                    .collect();
                (vec![*slot], rows)
            }
            JoinTree::Join {
                kind,
                left,
                right,
                on,
            } => {
                let (l, left_rows) = self.join(left);
                let (r, right_rows) = self.join(right);
                let layout: Vec<usize> = l.iter().chain(r.iter()).copied().collect();
                let mut out = Vec::new();
                let mut right_met = vec![false; right_rows.len()];
                for a in &left_rows {
                    let mut met = false;
                    for (j, b) in right_rows.iter().enumerate() {
                        let mut both = a.clone();
                        for slot in &r {
                            both[*slot] = b[*slot];
                        }
                        let ok = match on {
                            Some(e) if *kind != JoinKind::Cross => self.holds(e, &layout, &both),
                            _ => true,
                        };
                        if ok {
                            met = true;
                            right_met[j] = true;
                            out.push(both);
                        }
                    }
                    if !met && (*kind == JoinKind::Left || *kind == JoinKind::Full) {
                        out.push(a.clone());
                    }
                }
                if *kind == JoinKind::Right || *kind == JoinKind::Full {
                    for (j, b) in right_rows.iter().enumerate() {
                        if !right_met[j] {
                            out.push(b.clone());
                        }
                    }
                }
                (layout, out)
            }
        }
    }

    fn select(&self, s: &SelectBody) -> Vec<Choice> {
        let logical: Vec<usize> = (0..self.rows.len()).collect();
        let mut out = self.join(&s.join_tree).1;
        if let Some(f) = &s.filter {
            out.retain(|c| self.holds(f, &logical, c));
        }
        out.sort();
        out
    }
}

#[test]
fn optimization_keeps_the_rows_of_joins() {
    let user = |id: i64, age: Option<i32>| {
        vec![
            Value::Int64(id),
            Value::String(format!("u{id}")),
            age.map_or(Value::Null, Value::Int32),
        ]
    };
    let order = |id: i64, customer: i64, amount: f64| {
        vec![
            Value::Int64(id),
            Value::Int64(customer),
            Value::Float64(double(amount)),
        ]
    };
    let pair = |a: i64, b: &str, c: Option<bool>| {
        vec![
            Value::Int64(a),
            Value::String(b.into()),
            c.map_or(Value::Null, Value::Bool),
        ]
    };
    let users = vec![
        user(1, Some(3)),
        user(2, None),
        user(3, Some(9)),
        user(4, Some(4)),
    ];
    let orders = vec![
        order(1, 1, 5.0),
        order(2, 1, 50.0),
        order(3, 3, 7.5),
        order(4, 9, 1.0),
    ];
    let pairs = vec![
        pair(1, "x", Some(true)),
        pair(2, "u3", None),
        pair(3, "u1", Some(false)),
        pair(9, "y", Some(true)),
    ];
    let froms = [
        "users u JOIN orders o ON u.id = o.customer_id JOIN pairs p ON p.a = o.order_id",
        "users u CROSS JOIN orders o CROSS JOIN pairs p",
        "users u JOIN orders o ON u.id = o.customer_id AND u.age > 2 LEFT JOIN pairs p ON p.a = o.order_id",
        "users u LEFT JOIN orders o ON u.id = o.customer_id JOIN pairs p ON p.a = u.id",
        "users u LEFT JOIN (orders o JOIN pairs p ON o.order_id = p.a AND p.c) ON u.id = o.customer_id",
        "users u RIGHT JOIN orders o ON u.id = o.customer_id JOIN pairs p ON p.a = o.customer_id",
        "users u FULL OUTER JOIN orders o ON u.id = o.customer_id JOIN pairs p ON u.name = p.b",
        "users u JOIN orders o ON u.id = o.customer_id JOIN pairs p ON u.age > 3",
        "(users u JOIN orders o ON u.id = o.customer_id) FULL OUTER JOIN pairs p ON u.name = p.b",
    ];
    let filters = [
        "",
        "WHERE u.age > 3",
        "WHERE o.amount < 10 AND p.c",
        "WHERE u.id = p.a AND o.amount > 1",
        "WHERE p.a IS NULL OR o.order_id = 1",
        "WHERE u.id = o.customer_id AND p.b = u.name",
    ];
    let sizes = |rows: u64| TableStats {
        analyzed_at_version: 1,
        row_count: rows,
        columns: vec![],
    };
    let lookups = [
        StatsLookup::none(),
        StatsLookup {
            tables: vec![
                ("users".into(), sizes(1_000_000)),
                ("orders".into(), sizes(10)),
                ("pairs".into(), sizes(1)),
            ],
        },
    ];
    let mut kept = 0;
    for from in froms {
        for filter in filters {
            let sql = format!("SELECT u.id FROM {from} {filter}");
            let q = general(&sql);
            let QueryBody::Select(s) = &q.body else {
                panic!("expected a select block");
            };
            let tables = Tables {
                widths: vec![3, 3, 3],
                rows: vec![users.clone(), orders.clone(), pairs.clone()],
            };
            for stats in &lookups {
                let plan = optimize(&q, stats);
                let better = plan.select.unwrap();
                if !plan.fallback {
                    kept += 1;
                }
                assert_eq!(tables.select(&better), tables.select(s), "{sql}");
            }
        }
    }
    assert!(kept > froms.len() * filters.len());
}

#[test]
fn aliases_and_columns_take_turns() {
    let q = general("SELECT id AS age FROM users u ORDER BY age LIMIT 1");
    assert!(matches!(
        q.order_by[0].expr,
        Expr::OutputColumn { index: 0, .. }
    ));
    let s = select_body("SELECT MAX(id) AS age FROM users u GROUP BY age HAVING age > 1");
    match s.having.unwrap() {
        Expr::BinaryOp { left, .. } => assert!(matches!(*left, Expr::ColumnRef { column: 2, .. })),
        other => panic!("{other:?}"),
    }
    let s = select_body("SELECT MAX(id) AS top FROM users u GROUP BY age HAVING top > 1");
    match s.having.unwrap() {
        Expr::BinaryOp { left, .. } => assert!(matches!(*left, Expr::OutputColumn { index: 0, .. })),
        other => panic!("{other:?}"),
    }
}

#[test]
fn refusals_name_their_reason() {
    assert_eq!(
        refused("SELECT a.x FROM users u LIMIT 1"),
        invalid("unknown table or alias 'a'")
    );
    assert_eq!(
        refused("SELECT id FROM users u, users u"),
        invalid("not unique table/alias: 'u'")
    );
    assert_eq!(
        refused("SELECT u.id FROM users u LEFT JOIN orders o"),
        invalid("outer joins require an ON condition")
    );
    assert_eq!(
        refused("SELECT @@global.x FROM users u"),
        unsupported("SET/SELECT @@GLOBAL is not supported; this engine only exposes SESSION-scoped system variables")
    );
    assert_eq!(
        refused("SELECT SUM(MAX(id)) FROM users u"),
        invalid("aggregate functions cannot be nested")
    );
    assert_eq!(
        refused("SELECT * LIMIT 1"),
        invalid("SELECT * requires a FROM clause")
    );
    assert_eq!(
        refused("SELECT id FROM users UNION SELECT id, age FROM users"),
        bind_in("SELECT id FROM users UNION SELECT id, name FROM users", &catalog()).unwrap_err()
    );
    assert_eq!(
        refused("DROP VIEW v"),
        unsupported("DROP VIEW not supported")
    );
    assert_eq!(
        refused("ANALYZE TABLE ghosts"),
        htap_sql::table_not_found("ghosts")
    );
    assert_eq!(
        refused("EXPLAIN VERBOSE SELECT 1"),
        unsupported("unsupported EXPLAIN option")
    );
}

fn shape(t: &JoinTree) -> String {
    match t {
        JoinTree::Leaf(s) => s.to_string(),
        JoinTree::Join { left, right, .. } => format!("({} {})", shape(left), shape(right)),
    }
}

#[test]
fn components_with_the_working_table_keep_their_order() {
    let sizes = |rows: u64| TableStats {
        analyzed_at_version: 1,
        row_count: rows,
        columns: vec![],
    };
    let stats = StatsLookup {
        tables: vec![
            ("users".into(), sizes(1_000_000)),
            ("orders".into(), sizes(10)),
            ("pairs".into(), sizes(100)),
        ],
    };
    let q = general(
        "WITH RECURSIVE n AS (SELECT id AS i FROM users UNION ALL SELECT a.id FROM users a JOIN pairs p ON a.id = p.a JOIN orders o ON p.a = o.order_id JOIN n ON n.i = a.id) SELECT i FROM n",
    );
    let QueryBody::Select(outer) = &q.body else {
        panic!("expected a select block");
    };
    let TableSlot::Derived { query, .. } = &outer.slots[0] else {
        panic!("expected a derived table");
    };
    let QueryBody::RecursiveQueryBody { recursive_term, .. } = &query.body else {
        panic!("expected a recursive query");
    };
    let plan = optimize(recursive_term, &stats);
    assert_eq!(shape(&plan.select.unwrap().join_tree), "(((0 1) 2) 3)");

    let q = general("SELECT a.id FROM users a JOIN pairs p ON a.id = p.a JOIN orders o ON p.a = o.order_id");
    let plan = optimize(&q, &stats);
    assert_eq!(shape(&plan.select.unwrap().join_tree), "(0 (1 2))");
}
