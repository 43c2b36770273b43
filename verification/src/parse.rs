//! Parsing of statement texts.

use crate::text::{cat2, count_text, nat_text, owned, trim, trimmed};
use crate::value::{ErrorView, HtapError};
use vstd::prelude::*;

verus! {

/// A statement as the parser gives it.
#[verifier::external_type_specification]
#[verifier::external_body]
pub struct ExParsedStatement(sqlparser::ast::Statement);

/// The statements of a text in the MySQL dialect, or the parser's message.
pub uninterp spec fn parsed_sql(text: Seq<char>) -> Result<
    Seq<sqlparser::ast::Statement>,
    Seq<char>,
>;

/// `sqlparser::parser::Parser::parse_sql` with `sqlparser::dialect::MySqlDialect`: the statements
/// of a text, or the message of its `ParserError`. What they are depends on the text alone.
#[verifier::external_body]
fn parse_sql(text: &str) -> (r: Result<Vec<sqlparser::ast::Statement>, String>)
    ensures
        match r {
            Ok(v) => parsed_sql(text@) == Ok::<Seq<sqlparser::ast::Statement>, Seq<char>>(v@),
            Err(m) => parsed_sql(text@) == Err::<Seq<sqlparser::ast::Statement>, Seq<char>>(m@),
        },
{
    let dialect = sqlparser::dialect::MySqlDialect {};
    sqlparser::parser::Parser::parse_sql(&dialect, text).map_err(|e| e.to_string())
}

/// The refusal of a text without statements.
pub open spec fn empty_text() -> ErrorView {
    ErrorView::InvalidArgument("statement is empty"@)
}

/// The only one of parsed statements, or the refusal of any other number of them.
pub open spec fn single<T>(parsed: Result<Seq<T>, Seq<char>>) -> Result<T, ErrorView> {
    match parsed {
        Err(m) => Err(ErrorView::InvalidArgument("SQL parse error: "@ + m)),
        Ok(list) => if list.len() == 0 {
            Err(empty_text())
        } else if list.len() == 1 {
            Ok(list[0])
        } else {
            Err(
                ErrorView::InvalidArgument(
                    "expected exactly one SQL statement, found "@ + nat_text(list.len()),
                ),
            )
        },
    }
}

/// Parsed statements, or the refusal of none.
pub open spec fn at_least_one<T>(parsed: Result<Seq<T>, Seq<char>>) -> Result<Seq<T>, ErrorView> {
    match parsed {
        Err(m) => Err(ErrorView::InvalidArgument("SQL parse error: "@ + m)),
        Ok(list) => if list.len() == 0 {
            Err(empty_text())
        } else {
            Ok(list)
        },
    }
}

/// The parsed list and message as mathematical values.
pub open spec fn parsed_view<T>(parsed: Result<Vec<T>, String>) -> Result<Seq<T>, Seq<char>> {
    match parsed {
        Ok(v) => Ok(v@),
        Err(m) => Err(m@),
    }
}

/// The only one of parsed statements.
pub fn only_statement<T>(parsed: Result<Vec<T>, String>) -> (r: Result<T, HtapError>)
    ensures
        match r {
            Ok(x) => single(parsed_view(parsed)) == Ok::<T, ErrorView>(x),
            Err(e) => single(parsed_view(parsed)) == Err::<T, ErrorView>(e@),
        },
{
    match parsed {
        Err(m) => Err(HtapError::InvalidArgument(cat2("SQL parse error: ", m.as_str()))),
        Ok(list) => {
            let mut statements = list;
            if statements.len() == 0 {
                return Err(HtapError::InvalidArgument(owned("statement is empty")));
            }
            if statements.len() == 1 {
                return Ok(statements.remove(0));
            }
            let n = count_text(statements.len());
            Err(
                HtapError::InvalidArgument(
                    cat2("expected exactly one SQL statement, found ", n.as_str()),
                ),
            )
        },
    }
}

/// Parsed statements, of which there is at least one.
pub fn some_statements<T>(parsed: Result<Vec<T>, String>) -> (r: Result<Vec<T>, HtapError>)
    ensures
        match r {
            Ok(v) => at_least_one(parsed_view(parsed)) == Ok::<Seq<T>, ErrorView>(v@),
            Err(e) => at_least_one(parsed_view(parsed)) == Err::<Seq<T>, ErrorView>(e@),
        },
{
    match parsed {
        Err(m) => Err(HtapError::InvalidArgument(cat2("SQL parse error: ", m.as_str()))),
        Ok(list) => {
            if list.len() == 0 {
                return Err(HtapError::InvalidArgument(owned("statement is empty")));
            }
            Ok(list)
        },
    }
}

/// Parses a text that holds one statement.
///
/// A text without statements, one with several, and one that the parser refuses are refused.
pub fn parse_one(sql: &str) -> (r: Result<sqlparser::ast::Statement, HtapError>)
    ensures
        trimmed(sql@).len() == 0 ==> r is Err && r->Err_0@ == empty_text(),
        trimmed(sql@).len() > 0 ==> match r {
            Ok(x) => single(parsed_sql(trimmed(sql@))) == Ok::<
                sqlparser::ast::Statement,
                ErrorView,
            >(x),
            Err(e) => single(parsed_sql(trimmed(sql@))) == Err::<
                sqlparser::ast::Statement,
                ErrorView,
            >(e@),
        },
{
    let text = trim(sql);
    if text.unicode_len() == 0 {
        return Err(HtapError::InvalidArgument(owned("statement is empty")));
    }
    only_statement(parse_sql(text))
}

/// Parses a text that holds statements separated by `;`.
///
/// A text without statements and one that the parser refuses are refused.
pub fn parse_many(sql: &str) -> (r: Result<Vec<sqlparser::ast::Statement>, HtapError>)
    ensures
        trimmed(sql@).len() == 0 ==> r is Err && r->Err_0@ == empty_text(),
        trimmed(sql@).len() > 0 ==> match r {
            Ok(v) => at_least_one(parsed_sql(trimmed(sql@))) == Ok::<
                Seq<sqlparser::ast::Statement>,
                ErrorView,
            >(v@),
            Err(e) => at_least_one(parsed_sql(trimmed(sql@))) == Err::<
                Seq<sqlparser::ast::Statement>,
                ErrorView,
            >(e@),
        },
{
    let text = trim(sql);
    if text.unicode_len() == 0 {
        return Err(HtapError::InvalidArgument(owned("statement is empty")));
    }
    some_statements(parse_sql(text))
}

} // verus!
