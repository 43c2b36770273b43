//! Table statistics, and the estimates that rest on them.

use crate::double::{Double, INFINITY_BITS, SIGN_BIT};
use crate::rounding::{
    count_double, countable, double_of_count, double_product, double_reciprocal, multiply,
    reciprocal, truncate, whole_part,
};
use crate::text::{cat3, same_text};
use crate::value::{DataType, ErrorView, HtapError, Value};
use vstd::prelude::*;

verus! {

/// Statistics of a column.
#[derive(Clone, Debug, PartialEq)]
pub struct ColumnStats {
    /// How many values are `NULL`.
    pub null_count: u64,
    /// How many distinct values there are.
    pub distinct_count: Option<u64>,
    /// Least value.
    pub min: Option<Value>,
    /// Greatest value.
    pub max: Option<Value>,
}

/// Statistics of a table.
#[derive(Clone, Debug, PartialEq)]
pub struct TableStats {
    /// Version at which the table was analyzed.
    pub analyzed_at_version: u64,
    /// How many rows there are.
    pub row_count: u64,
    /// Statistics of the columns.
    pub columns: Vec<ColumnStats>,
}

/// The statistics that are available, by table.
#[derive(Clone, Debug, PartialEq)]
pub struct StatsLookup {
    /// Tables with their statistics.
    pub tables: Vec<(String, TableStats)>,
}

/// The statistics of the first table from the `i`-th on with the given name.
pub open spec fn first_stats(tables: Seq<(String, TableStats)>, name: Seq<char>, i: int) -> Option<
    TableStats,
>
    decreases tables.len() - i,
{
    if i < 0 || i >= tables.len() {
        None
    } else if tables[i].0@ == name {
        Some(tables[i].1)
    } else {
        first_stats(tables, name, i + 1)
    }
}

impl StatsLookup {
    /// The statistics of a table.
    pub open spec fn of_table(self, name: Seq<char>) -> Option<TableStats> {
        first_stats(self.tables@, name, 0)
    }

    /// The statistics of a column.
    pub open spec fn of_column(self, name: Seq<char>, column: int) -> Option<ColumnStats> {
        match self.of_table(name) {
            Some(t) => if 0 <= column < t.columns@.len() {
                Some(t.columns@[column])
            } else {
                None
            },
            None => None,
        }
    }

    /// No statistics.
    pub fn none() -> (r: StatsLookup)
        ensures
            forall|name: Seq<char>| (#[trigger] r.of_table(name)) is None,
    {
        StatsLookup { tables: Vec::new() }
    }

    /// The statistics of a table, if they are available.
    pub fn table_stats(&self, table: &str) -> (r: Option<&TableStats>)
        ensures
            match r {
                Some(t) => self.of_table(table@) == Some(*t),
                None => self.of_table(table@) is None,
            },
    {
        let mut i: usize = 0;
        while i < self.tables.len()
            invariant
                i <= self.tables.len(),
                self.of_table(table@) == first_stats(self.tables@, table@, i as int),
            decreases self.tables.len() - i,
        {
            if same_text(self.tables[i].0.as_str(), table) {
                return Some(&self.tables[i].1);
            }
            i = i + 1;
        }
        None
    }

    /// The statistics of a column, if they are available.
    pub fn column_stats(&self, table: &str, column: usize) -> (r: Option<&ColumnStats>)
        ensures
            match r {
                Some(c) => self.of_column(table@, column as int) == Some(*c),
                None => self.of_column(table@, column as int) is None,
            },
    {
        match self.table_stats(table) {
            Some(t) => if column < t.columns.len() {
                Some(&t.columns[column])
            } else {
                None
            },
            None => None,
        }
    }
}

/// How an estimate was made.
#[derive(Clone, Copy, Debug, PartialEq, Eq, Structural)]
pub enum EstimateSource {
    /// From statistics.
    Stats,
    /// By a fixed default.
    Default,
}

/// The bits of 0.1, the selectivity of an equality without usable statistics.
pub const DEFAULT_EQUALITY_BITS: u64 = 0x3fb9_9999_9999_999a;

/// The bits of 0.3, the selectivity of a range without usable statistics.
pub const DEFAULT_RANGE_BITS: u64 = 0x3fd3_3333_3333_3333;

/// The bits of 1.0.
pub const ONE_BITS: u64 = 0x3ff0_0000_0000_0000;

/// How many rows a table without statistics is taken to have.
pub const DEFAULT_ROWS: u64 = 1000;

/// Estimates the number of rows of a table.
///
/// A table without statistics is refused.
pub fn estimate_row_count(stats: &StatsLookup, table: &str) -> (r: Result<
    (u64, EstimateSource),
    HtapError,
>)
    ensures
        match stats.of_table(table@) {
            Some(t) => r == Ok::<(u64, EstimateSource), HtapError>(
                (t.row_count, EstimateSource::Stats),
            ),
            None => r is Err && r->Err_0@ == ErrorView::NotFound(
                "table statistics for '"@ + table@ + "' not found"@,
            ),
        },
{
    match stats.table_stats(table) {
        Some(t) => Ok((t.row_count, EstimateSource::Stats)),
        None => Err(
            HtapError::NotFound(cat3("table statistics for '", table, "' not found")),
        ),
    }
}

/// The share of rows that an equality on a column keeps: one over the number of distinct values,
/// 0.1 where it is not known.
pub open spec fn equality_share(stats: StatsLookup, table: Seq<char>, column: int) -> (
    Double,
    EstimateSource,
) {
    match stats.of_column(table, column) {
        Some(c) => match c.distinct_count {
            Some(n) => (
                double_reciprocal(
                    count_double(
                        if n == 0 {
                            1
                        } else {
                            n as nat
                        },
                    ),
                ),
                EstimateSource::Stats,
            ),
            None => (Double { bits: DEFAULT_EQUALITY_BITS }, EstimateSource::Default),
        },
        None => (Double { bits: DEFAULT_EQUALITY_BITS }, EstimateSource::Default),
    }
}

/// Estimates the share of rows that an equality on a column keeps.
pub fn estimate_equality_selectivity(stats: &StatsLookup, table: &str, column: usize) -> (r: (
    Double,
    EstimateSource,
))
    ensures
        r == equality_share(*stats, table@, column as int),
        countable(r.0),
{
    match stats.column_stats(table, column) {
        Some(c) => match c.distinct_count {
            Some(n) => {
                let n: u64 = if n == 0 {
                    1
                } else {
                    n
                };
                (reciprocal(double_of_count(n)), EstimateSource::Stats)
            },
            None => (Double { bits: DEFAULT_EQUALITY_BITS }, EstimateSource::Default),
        },
        None => (Double { bits: DEFAULT_EQUALITY_BITS }, EstimateSource::Default),
    }
}

/// Whether the values of a type are numbers or points in time.
pub open spec fn measured(t: DataType) -> bool {
    match t {
        DataType::Int32
        | DataType::Int64
        | DataType::Float64
        | DataType::Decimal { .. }
        | DataType::Timestamp => true,
        _ => false,
    }
}

/// Whether the bounds of a column are known and of one ordered numeric or date-like type.
pub open spec fn has_bounds(c: ColumnStats) -> bool {
    match (c.min, c.max) {
        (Some(a), Some(b)) => match (a@.data_type(), b@.data_type()) {
            (Some(t), Some(u)) => t == u && measured(t),
            _ => false,
        },
        _ => false,
    }
}

/// The share of rows that a range on a column keeps: 0.3, from statistics where the bounds of the
/// column are known.
pub open spec fn range_share(stats: StatsLookup, table: Seq<char>, column: int) -> (
    Double,
    EstimateSource,
) {
    (
        Double { bits: DEFAULT_RANGE_BITS },
        match stats.of_column(table, column) {
            Some(c) => if has_bounds(c) {
                EstimateSource::Stats
            } else {
                EstimateSource::Default
            },
            None => EstimateSource::Default,
        },
    )
}

/// Estimates the share of rows that a range on a column keeps.
pub fn estimate_range_selectivity(stats: &StatsLookup, table: &str, column: usize) -> (r: (
    Double,
    EstimateSource,
))
    ensures
        r == range_share(*stats, table@, column as int),
        countable(r.0),
{
    let known = match stats.column_stats(table, column) {
        Some(c) => match (&c.min, &c.max) {
            (Some(a), Some(b)) => {
                let t = a.data_type();
                let u = b.data_type();
                match (t, u) {
                    (Some(DataType::Int32), Some(DataType::Int32)) => true,
                    (Some(DataType::Int64), Some(DataType::Int64)) => true,
                    (Some(DataType::Float64), Some(DataType::Float64)) => true,
                    (
                        Some(DataType::Decimal { precision: p, scale: s }),
                        Some(DataType::Decimal { precision: q, scale: z }),
                    ) => p == q && s == z,
                    (Some(DataType::Timestamp), Some(DataType::Timestamp)) => true,
                    _ => false,
                }
            },
            _ => false,
        },
        None => false,
    };
    (
        Double { bits: DEFAULT_RANGE_BITS },
        if known {
            EstimateSource::Stats
        } else {
            EstimateSource::Default
        },
    )
}

/// The number of rows of a join whose inputs keep shares that are neither negative nor a NaN.
pub open spec fn kept_rows(left: u64, right: u64, left_share: Double, right_share: Double) -> u64 {
    whole_part(
        double_product(
            double_product(
                double_product(count_double(left as nat), count_double(right as nat)),
                left_share,
            ),
            right_share,
        ),
    )
}

/// The number of rows of a join: the product of the inputs' rows and the shares that are kept, and
/// at least one. A product that is negative or no number counts as zero.
pub open spec fn joined_rows(left: u64, right: u64, left_share: Double, right_share: Double) -> u64 {
    let n = if left_share.nan() || right_share.nan() || left_share.negative()
        != right_share.negative() {
        0
    } else {
        kept_rows(left, right, left_share.absolute(), right_share.absolute())
    };
    if n == 0 {
        1
    } else {
        n
    }
}

/// Estimates the number of rows of a join.
pub fn estimate_join_cardinality(
    left_rows: u64,
    right_rows: u64,
    left_selectivity: Double,
    right_selectivity: Double,
) -> (r: u64)
    ensures
        r == joined_rows(left_rows, right_rows, left_selectivity, right_selectivity),
        r >= 1,
{
    let a = left_selectivity.abs();
    let b = right_selectivity.abs();
    if a.bits > INFINITY_BITS || b.bits > INFINITY_BITS || (left_selectivity.bits >= SIGN_BIT) != (
    right_selectivity.bits >= SIGN_BIT) {
        return 1;
    }
    let product = multiply(double_of_count(left_rows), double_of_count(right_rows));
    let n: u64 = truncate(multiply(multiply(product, a), b));
    if n == 0 {
        1
    } else {
        n
    }
}

} // verus!
