//! The part of the catalog that binding reads.

use crate::text::{cat3, cat7, count_text, nat_text, same_text};
use crate::value::{
    option_view, outcome, views, ColumnDef, ColumnView, ErrorView, HtapError, Value, ValueView,
};
use vstd::prelude::*;

verus! {

/// The columns of a table.
#[derive(Clone, Debug, PartialEq, Eq)]
pub struct Schema {
    /// Columns in order.
    pub columns: Vec<ColumnDef>,
}

/// The first column from `i` on with the given name.
pub open spec fn first_named(columns: Seq<ColumnDef>, name: Seq<char>, i: int) -> Option<int>
    decreases columns.len() - i,
{
    if i < 0 || i >= columns.len() {
        None
    } else if columns[i].name@ == name {
        Some(i)
    } else {
        first_named(columns, name, i + 1)
    }
}

/// The first column from the `i`-th on whose name an earlier column has.
pub open spec fn first_repeated(columns: Seq<ColumnView>, i: int) -> Option<Seq<char>>
    decreases columns.len() - i,
{
    if i < 0 || i >= columns.len() {
        None
    } else if exists|k: int| 0 <= k < i && (#[trigger] columns[k]).name == columns[i].name {
        Some(columns[i].name)
    } else {
        first_repeated(columns, i + 1)
    }
}

/// The columns of a schema, or the refusal of a repeated name.
pub open spec fn schema_of(columns: Seq<ColumnView>) -> Result<Seq<ColumnView>, ErrorView> {
    match first_repeated(columns, 0) {
        None => Ok(columns),
        Some(name) => Err(
            ErrorView::InvalidArgument("duplicate column name '"@ + name + "'"@),
        ),
    }
}

impl View for Schema {
    type V = Seq<ColumnView>;

    open spec fn view(&self) -> Seq<ColumnView> {
        views(self.columns@)
    }
}

impl Schema {
    /// A schema of columns with distinct names.
    pub fn new(columns: Vec<ColumnDef>) -> (r: Result<Schema, HtapError>)
        ensures
            outcome(r) == schema_of(views(columns@)),
            r is Ok ==> r->Ok_0.columns == columns,
    {
        let mut i: usize = 0;
        while i < columns.len()
            invariant
                i <= columns.len(),
                first_repeated(views(columns@), 0) == first_repeated(views(columns@), i as int),
            decreases columns.len() - i,
        {
            let mut k: usize = 0;
            while k < i
                invariant
                    k <= i < columns.len(),
                    first_repeated(views(columns@), 0) == first_repeated(views(columns@), i as int),
                    forall|j: int|
                        0 <= j < k ==> (#[trigger] views(columns@)[j]).name != views(
                            columns@,
                        )[i as int].name,
                decreases i - k,
            {
                if same_text(columns[k].name.as_str(), columns[i].name.as_str()) {
                    assert(views(columns@)[k as int].name == views(columns@)[i as int].name);
                    return Err(
                        HtapError::InvalidArgument(
                            cat3("duplicate column name '", columns[i].name.as_str(), "'"),
                        ),
                    );
                }
                k = k + 1;
            }
            i = i + 1;
        }
        Ok(Schema { columns })
    }

    /// The position of a column, if there is one with the name.
    pub fn column_index(&self, name: &str) -> (r: Option<usize>)
        ensures
            match r {
                Some(i) => i < self.columns@.len() && first_named(self.columns@, name@, 0) == Some(
                    i as int,
                ),
                None => first_named(self.columns@, name@, 0) is None,
            },
    {
        let mut i: usize = 0;
        while i < self.columns.len()
            invariant
                i <= self.columns.len(),
                first_named(self.columns@, name@, 0) == first_named(self.columns@, name@, i as int),
            decreases self.columns.len() - i,
        {
            if same_text(self.columns[i].name.as_str(), name) {
                return Some(i);
            }
            i = i + 1;
        }
        None
    }
}

/// How a table's rows are split.
#[derive(Clone, Copy, Debug, PartialEq, Eq, Structural)]
pub enum PartitioningMethod {
    /// By ranges of the key.
    Range,
    /// By lists of keys.
    List,
}

/// The partitioning of a table.
#[derive(Clone, Copy, Debug, PartialEq, Eq, Structural)]
pub struct Partitioning {
    /// Column that decides the partition.
    pub key_column: usize,
    /// Method.
    pub method: PartitioningMethod,
}

/// A table.
#[derive(Debug)]
pub struct TableDescriptor {
    /// Name.
    pub name: String,
    /// Columns.
    pub schema: Schema,
    /// Positions of the primary key columns, in key order.
    pub primary_key: Vec<usize>,
    /// Partitioning.
    pub partitioning: Option<Partitioning>,
    /// Identifiers of the partitions.
    pub partitions: Vec<u64>,
}

impl TableDescriptor {
    /// Whether the column that decides the partition exists, if there are partitions.
    pub open spec fn partition_key_exists(self) -> bool {
        self.partitioning matches Some(p) ==> p.key_column < self.schema.columns@.len()
    }

    /// Whether the column that decides the partition exists, if there are partitions.
    pub fn has_partition_key(&self) -> (r: bool)
        ensures
            r == self.partition_key_exists(),
    {
        match self.partitioning {
            Some(p) => p.key_column < self.schema.columns.len(),
            None => true,
        }
    }
}

/// The keys of a range partition: from `lower` on, below `upper`.
#[derive(Clone, Debug, PartialEq, Eq)]
pub struct PartitionRange {
    /// Lower bound; `None` for minus infinity.
    pub lower: Option<Value>,
    /// Upper bound; `None` for plus infinity.
    pub upper: Option<Value>,
}

/// A partition.
#[derive(Clone, Debug, PartialEq, Eq)]
pub struct PartitionDescriptor {
    /// Identifier.
    pub id: u64,
    /// Name.
    pub name: String,
    /// Keys, where the table is partitioned by ranges.
    pub range: Option<PartitionRange>,
    /// Keys, where the table is partitioned by lists.
    pub list_values: Vec<Value>,
}

/// The catalog at one moment.
#[derive(Debug)]
pub struct CatalogSnapshot {
    /// Tables.
    pub tables: Vec<TableDescriptor>,
    /// Partitions.
    pub partitions: Vec<PartitionDescriptor>,
}

/// The first partition from `i` on with the given identifier.
pub open spec fn first_partition(partitions: Seq<PartitionDescriptor>, id: u64, i: int) -> Option<
    PartitionDescriptor,
>
    decreases partitions.len() - i,
{
    if i < 0 || i >= partitions.len() {
        None
    } else if partitions[i].id == id {
        Some(partitions[i])
    } else {
        first_partition(partitions, id, i + 1)
    }
}

/// A partition to be made.
#[derive(Clone, Debug, PartialEq, Eq)]
pub enum PartitionDefinition {
    /// A range of keys.
    Range {
        /// Name.
        name: String,
        /// Lower bound; `None` for minus infinity.
        lower: Option<Value>,
        /// Upper bound; `None` for plus infinity.
        upper: Option<Value>,
    },
    /// A list of keys.
    List {
        /// Name.
        name: String,
        /// Keys.
        values: Vec<Value>,
    },
}

/// The mathematical model of a [`PartitionDefinition`].
pub enum DefinitionView {
    /// See [`PartitionDefinition::Range`].
    Range {
        /// Name.
        name: Seq<char>,
        /// Lower bound.
        lower: Option<ValueView>,
        /// Upper bound.
        upper: Option<ValueView>,
    },
    /// See [`PartitionDefinition::List`].
    List {
        /// Name.
        name: Seq<char>,
        /// Keys.
        values: Seq<ValueView>,
    },
}

impl View for PartitionDefinition {
    type V = DefinitionView;

    open spec fn view(&self) -> DefinitionView {
        match self {
            PartitionDefinition::Range { name, lower, upper } => DefinitionView::Range {
                name: name@,
                lower: option_view(*lower),
                upper: option_view(*upper),
            },
            PartitionDefinition::List { name, values } => DefinitionView::List {
                name: name@,
                values: views(values@),
            },
        }
    }
}

/// A change of a table's partitions.
#[derive(Clone, Debug, PartialEq, Eq)]
pub enum PartitionAlteration {
    /// Partitions come.
    Add {
        /// The new partitions.
        partitions: Vec<PartitionDefinition>,
    },
    /// Partitions go.
    Drop {
        /// Their names.
        partitions: Vec<String>,
    },
    /// Partitions take the place of others.
    Reorganize {
        /// Names of those that go.
        sources: Vec<String>,
        /// Those that come.
        targets: Vec<PartitionDefinition>,
    },
}

/// The mathematical model of a [`PartitionAlteration`].
pub enum AlterationView {
    /// See [`PartitionAlteration::Add`].
    Add(Seq<DefinitionView>),
    /// See [`PartitionAlteration::Drop`].
    Drop(Seq<Seq<char>>),
    /// See [`PartitionAlteration::Reorganize`].
    Reorganize {
        /// Names of those that go.
        sources: Seq<Seq<char>>,
        /// Those that come.
        targets: Seq<DefinitionView>,
    },
}

impl View for PartitionAlteration {
    type V = AlterationView;

    open spec fn view(&self) -> AlterationView {
        match self {
            PartitionAlteration::Add { partitions } => AlterationView::Add(views(partitions@)),
            PartitionAlteration::Drop { partitions } => AlterationView::Drop(views(partitions@)),
            PartitionAlteration::Reorganize { sources, targets } => AlterationView::Reorganize {
                sources: views(sources@),
                targets: views(targets@),
            },
        }
    }
}

/// What an account may do.
#[derive(Clone, Copy, Debug, PartialEq, Eq, Structural)]
pub struct PrivilegeSet {
    /// `SELECT`
    pub select: bool,
    /// `INSERT`
    pub insert: bool,
    /// `UPDATE`
    pub update: bool,
    /// `DELETE`
    pub delete: bool,
    /// `CREATE`
    pub create: bool,
    /// `DROP`
    pub drop: bool,
}

/// The first table from `i` on with the given name.
pub open spec fn first_table(tables: Seq<TableDescriptor>, name: Seq<char>, i: int) -> Option<
    TableDescriptor,
>
    decreases tables.len() - i,
{
    if i < 0 || i >= tables.len() {
        None
    } else if tables[i].name@ == name {
        Some(tables[i])
    } else {
        first_table(tables, name, i + 1)
    }
}

impl CatalogSnapshot {
    /// The table with a name.
    pub open spec fn table(self, name: Seq<char>) -> Option<TableDescriptor> {
        first_table(self.tables@, name, 0)
    }

    /// The partition with an identifier.
    pub open spec fn partition_of(self, id: u64) -> Option<PartitionDescriptor> {
        first_partition(self.partitions@, id, 0)
    }

    /// The partition with an identifier, if there is one.
    pub fn partition(&self, id: u64) -> (r: Option<&PartitionDescriptor>)
        ensures
            match r {
                Some(p) => self.partition_of(id) == Some(*p),
                None => self.partition_of(id) is None,
            },
    {
        let mut i: usize = 0;
        while i < self.partitions.len()
            invariant
                i <= self.partitions.len(),
                self.partition_of(id) == first_partition(self.partitions@, id, i as int),
            decreases self.partitions.len() - i,
        {
            if self.partitions[i].id == id {
                return Some(&self.partitions[i]);
            }
            i = i + 1;
        }
        None
    }

    /// The table with a name, if there is one.
    pub fn table_by_name(&self, name: &str) -> (r: Option<&TableDescriptor>)
        ensures
            match r {
                Some(t) => self.table(name@) == Some(*t) && self.tables@.contains(*t),
                None => self.table(name@) is None,
            },
    {
        let mut i: usize = 0;
        while i < self.tables.len()
            invariant
                i <= self.tables.len(),
                self.table(name@) == first_table(self.tables@, name@, i as int),
            decreases self.tables.len() - i,
        {
            if same_text(self.tables[i].name.as_str(), name) {
                return Some(&self.tables[i]);
            }
            i = i + 1;
        }
        None
    }
}

/// The refusal of an unknown table.
pub open spec fn no_table(name: Seq<char>) -> ErrorView {
    ErrorView::NotFound("table '"@ + name + "' not found"@)
}

/// The refusal of an unknown table.
pub fn table_not_found(name: &str) -> (r: HtapError)
    ensures
        r@ == no_table(name@),
{
    HtapError::NotFound(cat3("table '", name, "' not found"))
}

/// What is wrong with the primary key of a table from its `i`-th entry on, if anything.
pub open spec fn key_entries_check(t: TableDescriptor, i: int) -> Result<(), ErrorView>
    decreases t.primary_key@.len() - i,
{
    if i < 0 || i >= t.primary_key@.len() {
        Ok(())
    } else {
        let idx = t.primary_key@[i];
        if idx >= t.schema.columns@.len() {
            Err(
                ErrorView::Internal(
                    "table '"@ + t.name@ + "' primary key index "@ + nat_text(idx as nat)
                        + " out of bounds (schema length "@ + nat_text(t.schema.columns@.len())
                        + ")"@,
                ),
            )
        } else if t.primary_key@.take(i).contains(idx) {
            Err(
                ErrorView::Internal(
                    "table '"@ + t.name@ + "' has duplicate primary key index "@ + nat_text(
                        idx as nat,
                    ),
                ),
            )
        } else if !t.schema.columns@[idx as int].primary_key {
            Err(
                ErrorView::Internal(
                    "table '"@ + t.name@ + "' primary key index "@ + nat_text(idx as nat)
                        + " points to column '"@ + t.schema.columns@[idx as int].name@
                        + "' not marked primary_key"@,
                ),
            )
        } else {
            key_entries_check(t, i + 1)
        }
    }
}

/// Whether a table's primary key is in order, and if not, what is wrong with it.
pub open spec fn key_check(t: TableDescriptor) -> Result<(), ErrorView> {
    if t.primary_key@.len() == 0 {
        Err(ErrorView::Internal("table '"@ + t.name@ + "' has empty primary key in catalog"@))
    } else {
        key_entries_check(t, 0)
    }
}

fn contains_before(list: &Vec<usize>, n: usize, i: usize) -> (r: bool)
    requires
        i <= list.len(),
    ensures
        r == list@.take(i as int).contains(n),
{
    let mut j: usize = 0;
    while j < i
        invariant
            j <= i <= list.len(),
            forall|k: int| 0 <= k < j ==> list@[k] != n,
        decreases i - j,
    {
        if list[j] == n {
            assert(list@.take(i as int)[j as int] == n);
            return true;
        }
        j = j + 1;
    }
    assert forall|k: int| 0 <= k < i implies list@.take(i as int)[k] != n by {
        assert(list@.take(i as int)[k] == list@[k]);
    }
    false
}

/// Checks that the primary key of a table names existing, distinct, marked columns.
pub(crate) fn validate_table_descriptor_primary_key(t: &TableDescriptor) -> (r: Result<
    (),
    HtapError,
>)
    ensures
        outcome(r) == key_check(*t),
{
    if t.primary_key.len() == 0 {
        return Err(
            HtapError::Internal(
                cat3("table '", t.name.as_str(), "' has empty primary key in catalog"),
            ),
        );
    }
    let width = t.schema.columns.len();
    let mut i: usize = 0;
    while i < t.primary_key.len()
        invariant
            i <= t.primary_key@.len(),
            width == t.schema.columns@.len(),
            key_check(*t) == key_entries_check(*t, i as int),
        decreases t.primary_key.len() - i,
    {
        let idx: usize = t.primary_key[i];
        let shown = count_text(idx);
        if idx >= width {
            let len = count_text(width);
            return Err(
                HtapError::Internal(
                    cat7(
                        "table '",
                        t.name.as_str(),
                        "' primary key index ",
                        shown.as_str(),
                        " out of bounds (schema length ",
                        len.as_str(),
                        ")",
                    ),
                ),
            );
        }
        if contains_before(&t.primary_key, idx, i) {
            let front = cat3("table '", t.name.as_str(), "' has duplicate primary key index ");
            return Err(HtapError::Internal(crate::text::cat2(front.as_str(), shown.as_str())));
        }
        if !t.schema.columns[idx].primary_key {
            return Err(
                HtapError::Internal(
                    cat7(
                        "table '",
                        t.name.as_str(),
                        "' primary key index ",
                        shown.as_str(),
                        " points to column '",
                        t.schema.columns[idx].name.as_str(),
                        "' not marked primary_key",
                    ),
                ),
            );
        }
        i = i + 1;
    }
    Ok(())
}

} // verus!
