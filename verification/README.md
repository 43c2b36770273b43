# htap_sql

The SQL front end of a hybrid transactional/analytical database: parsing, binding, evaluation of
expressions, and cost-based reordering of joins, written in Verus. Statements are executed
elsewhere.

- `src/` is the verified library. Data types have mathematical models (`...View`), and every
  function states its result over spec functions of these models.
  - `text`, `value`, `double`, `decimal`, `calendar`, `convert`, `arithmetic`: values and what is
    computed with them. Doubles are kept as their bits; what only floating point can compute is
    asked for (`answers`) and answered from outside.
  - `expr`, `eval`: bound expressions, their types and their values. `requests`: what is done about
    a question that an evaluation asks.
  - `sql`, `statement`, `clauses`: the syntax trees that binding reads. `parse`: statements from text.
  - `catalog`, `names`, `scope`, `typing`, `literals`, `grouping`, `partitions`, `key_predicate`,
    and `binder*`: binding of statements against a catalog snapshot. The `model_*` modules say what
    a bound query is.
  - `query`, `ast`: bound queries and statements.
  - `stats`, `rounding`, `cardinality`, `atoms`, `component`, `reorder`, `materialize`, `optimize`:
    estimates, join orders and the placement of predicates.
  - `meaning`: the rows that a select block lets through. `laws_*`: what holds of the library as a
    whole, among it that optimization keeps those rows.
- `app/` is ordinary Rust around the library: it turns parsed statements into syntax trees and
  answers questions about doubles, variables and subqueries.
- `tests/` runs the library on concrete statements and values.
