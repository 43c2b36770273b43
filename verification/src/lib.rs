//! SQL parsing, binding and optimization for the HTAP storage engine.
//!
//! [`parse_one`] and [`parse_many`] hand text to the SQL parser, [`bind`] resolves a statement
//! against a catalog snapshot, [`Expr::eval`] evaluates a bound expression and
//! [`optimize`](optimize::optimize) reorders the joins of a bound query. Statements are executed
//! elsewhere.

pub mod answers;
pub mod arithmetic;
pub mod ast;
pub mod atoms;
pub mod binder;
pub mod binder_ddl;
pub mod binder_dml;
pub mod binder_expr;
pub mod binder_narrow;
pub mod binder_query;
pub mod calendar;
pub mod cardinality;
pub mod catalog;
pub mod clauses;
pub mod component;
pub mod convert;
pub mod decimal;
pub mod double;
pub mod equi_keys;
pub mod eval;
pub mod expr;
pub mod grouping;
pub mod key_predicate;
pub mod laws_admin;
pub mod laws_answers;
pub mod laws_bind;
pub mod laws_block;
pub mod laws_calls;
pub mod laws_choices;
pub mod laws_conditions;
pub mod laws_cost;
pub mod laws_estimates;
pub mod laws_eval;
pub mod laws_free;
pub mod laws_from;
pub mod laws_functions;
pub mod laws_insert;
pub mod laws_joins;
pub mod laws_layout;
pub mod laws_lists;
pub mod laws_names;
pub mod laws_nulls;
pub mod laws_partitions;
pub mod laws_plan;
pub mod laws_queries;
pub mod laws_rebase;
pub mod laws_resolve;
pub mod laws_rounding;
pub mod laws_rows;
pub mod laws_scans;
pub mod laws_sources;
pub mod laws_tables;
pub mod laws_types;
pub mod laws_values;
pub mod laws_written;
pub mod lists;
pub mod literals;
pub mod materialize;
pub mod meaning;
pub mod model_calls;
pub mod model_expr;
pub mod model_group;
pub mod model_query;
pub mod names;
pub mod optimize;
pub mod parse;
pub mod partitions;
pub mod query;
pub mod reorder;
pub mod requests;
pub mod rounding;
pub mod scope;
pub mod sql;
pub mod statement;
pub mod stats;
pub mod text;
pub mod typing;
pub mod value;

pub use ast::{
    AggregateFunction, AlterPartitions, AlterUserStatement, AnalyticExpr, AnalyticFilter,
    AnalyticOrderBy, AnalyticSelect, BoundStatement, ComparisonOp, CreateTable,
    CreateUserStatement, DeleteStatement, DropTableStatement, DropUserStatement, GrantScope,
    GrantStatement, Insert, InsertSource, PointSelect, RevokeStatement, ShowGrantsStatement,
    ShowStatement, UpdateStatement, UpdateTarget,
};
pub use binder::bind;
pub use catalog::table_not_found;
pub use eval::EvalContext;
pub use expr::{AggFn, AggregateSpec, BinOp, Expr, ExprType, ScalarFn};
pub use parse::{parse_many, parse_one};
pub use query::{
    BoundQuery, JoinKind, JoinSpec, JoinTree, OrderItem, PeerFrameBound, ProjectionItem, QueryBody,
    RowFrameBound, SelectBody, SetOpKind, TableSlot, ValueFrameBound, WindowFrame,
    WindowFrameDirection, WindowFunctionKind, WindowSpec,
};
