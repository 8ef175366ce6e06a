//! Table registration: a `GenericTable` describes a table (its name, domain,
//! columns and guarantees) and is used to populate concrete tables.

use vstd::prelude::*;
use vstd::string::{StringExecFns, StringSliceAdditionalSpecFns};
use crate::intern::{str_eq, valid_name, valid_name_view};
use crate::domain::DomainName;
use crate::index::GenericRowId;

verus! {

/// The name of a table.
#[derive(Debug, Clone, Copy)]
pub struct TableName(pub &'static str);

impl View for TableName {
    type V = Seq<char>;

    open spec fn view(&self) -> Seq<char> {
        self.0@
    }
}

impl TableName {
    /// Compares two table names by their characters.
    pub fn same(&self, other: &TableName) -> (r: bool)
        ensures
            r == (self@ == other@),
    {
        str_eq(self.0, other.0)
    }

    /// The name as a string.
    pub fn to_string(&self) -> (r: String)
        ensures
            r@ == self@,
    {
        String::from_str(self.0)
    }
}

/// Structural guarantees a table makes about its rows.
#[derive(Debug, Clone, Copy)]
pub struct Guarantee {
    pub consistent: bool,
    pub sorted: bool,
    pub append_only: bool,
}

impl Default for Guarantee {
    fn default() -> (r: Guarantee)
        ensures
            !r.consistent && !r.sorted && !r.append_only,
    {
        Guarantee { consistent: false, sorted: false, append_only: false }
    }
}

/// Describes a column: its name, the name of its stored type and its version.
#[derive(Debug)]
pub struct ColumnMeta {
    pub name: String,
    pub stored_type_name: String,
    pub version: usize,
}

impl ColumnMeta {
    /// Two metas are the same when their names, type names and versions match.
    pub open spec fn same_as(&self, other: &ColumnMeta) -> bool {
        &&& self.name@ == other.name@
        &&& self.stored_type_name@ == other.stored_type_name@
        &&& self.version == other.version
    }

    /// `==` on column metas.
    pub fn eq(&self, other: &ColumnMeta) -> (r: bool)
        ensures
            r == self.same_as(other),
    {
        str_eq(self.name.as_str(), other.name.as_str()) && str_eq(
            self.stored_type_name.as_str(),
            other.stored_type_name.as_str(),
        ) && self.version == other.version
    }

    /// A copy of this meta.
    pub fn duplicate(&self) -> (r: ColumnMeta)
        ensures
            r.same_as(self),
    {
        ColumnMeta {
            name: self.name.clone(),
            stored_type_name: self.stored_type_name.clone(),
            version: self.version,
        }
    }
}

/// The names and guarantees of the table that a row type belongs to.
pub trait GetTableName {
    /// The domain of the table.
    spec fn spec_get_domain() -> DomainName;

    /// The name of the table.
    spec fn spec_get_name() -> TableName;

    /// The guarantees of the table.
    spec fn spec_get_guarantee() -> Guarantee;

    fn get_domain() -> (r: DomainName)
        ensures
            r == Self::spec_get_domain(),
    ;

    fn get_name() -> (r: TableName)
        ensures
            r == Self::spec_get_name(),
    ;

    fn get_guarantee() -> (r: Guarantee)
        ensures
            r == Self::spec_get_guarantee(),
    ;
}

/// A decimal digit, as text.
pub open spec fn digit_text(d: nat) -> Seq<char> {
    if d == 0 {
        "0"@
    } else if d == 1 {
        "1"@
    } else if d == 2 {
        "2"@
    } else if d == 3 {
        "3"@
    } else if d == 4 {
        "4"@
    } else if d == 5 {
        "5"@
    } else if d == 6 {
        "6"@
    } else if d == 7 {
        "7"@
    } else if d == 8 {
        "8"@
    } else {
        "9"@
    }
}

/// The decimal digits of `n`, most significant first.
pub open spec fn decimal_text(n: nat) -> Seq<char>
    decreases n,
{
    if n < 10 {
        digit_text(n)
    } else {
        decimal_text(n / 10) + digit_text(n % 10)
    }
}

fn digit_str(d: usize) -> (r: &'static str)
    requires
        d < 10,
    ensures
        r@ == digit_text(d as nat),
{
    if d == 0 {
        "0"
    } else if d == 1 {
        "1"
    } else if d == 2 {
        "2"
    } else if d == 3 {
        "3"
    } else if d == 4 {
        "4"
    } else if d == 5 {
        "5"
    } else if d == 6 {
        "6"
    } else if d == 7 {
        "7"
    } else if d == 8 {
        "8"
    } else {
        "9"
    }
}

pub(crate) fn append_decimal(s: &mut String, n: usize)
    ensures
        final(s)@ == old(s)@ + decimal_text(n as nat),
    decreases n,
{
    if n >= 10 {
        append_decimal(s, n / 10);
    }
    s.append(digit_str(n % 10));
    assert(s@ =~= old(s)@ + decimal_text(n as nat));
}


/// Column storage that can make an empty column of its own kind.
pub trait ColumnData: Sized {
    /// The column holds no elements.
    spec fn holds_nothing(&self) -> bool;

    /// A fresh, empty column of the same kind as `self`.
    fn prototype(&self) -> (r: Self)
        ensures
            r.holds_nothing(),
    ;
}

/// The concrete table object that a `GenericTable` carries.
pub trait TTable: Sized {
    /// The domain the table belongs to.
    spec fn spec_domain() -> DomainName;

    /// The table's name.
    spec fn spec_name() -> TableName;

    /// The table's guarantees.
    spec fn spec_guarantee() -> Guarantee;

    fn new() -> Self;

    fn domain() -> (r: DomainName)
        ensures
            r == Self::spec_domain(),
    ;

    fn name() -> (r: TableName)
        ensures
            r == Self::spec_name(),
    ;

    fn guarantee() -> (r: Guarantee)
        ensures
            r == Self::spec_guarantee(),
    ;

    /// A copy of this table without rows.
    fn prototype(&self) -> Self;
}

/// A column of a `GenericTable`: its description and its storage.
pub struct GenericColumn<C> {
    pub meta: ColumnMeta,
    pub data: C,
}

/// A table held by a domain. Its information is used to populate concrete tables.
pub struct GenericTable<T, C, I> {
    pub domain: DomainName,
    pub name: TableName,
    pub schema_version: u32,
    pub columns: Vec<GenericColumn<C>>,
    pub init_fns: Vec<I>,
    pub guarantee: Guarantee,
    pub table: T,
}

/// The column names of a table, in order.
pub open spec fn column_names<C>(cols: Seq<GenericColumn<C>>) -> Seq<Seq<char>> {
    cols.map_values(|c: GenericColumn<C>| c.meta.name@)
}

/// Column `i` is the first one named `name`.
pub open spec fn first_named<C>(cols: Seq<GenericColumn<C>>, name: Seq<char>, i: int) -> bool {
    &&& 0 <= i < cols.len()
    &&& cols[i].meta.name@ == name
    &&& forall|j: int| 0 <= j < i ==> cols[j].meta.name@ != name
}

/// The index of the first column named `name`, if any.
pub open spec fn column_index<C>(cols: Seq<GenericColumn<C>>, name: Seq<char>) -> Option<int> {
    if exists|i: int| first_named(cols, name, i) {
        Some(choose|i: int| first_named(cols, name, i))
    } else {
        None
    }
}

/// The text that `info` writes for the given columns: ` name:[type]` for each.
pub open spec fn columns_info<C>(cols: Seq<GenericColumn<C>>) -> Seq<char>
    decreases cols.len(),
{
    if cols.len() == 0 {
        Seq::empty()
    } else {
        let c = cols.last();
        columns_info(cols.drop_last()) + " "@ + c.meta.name@ + ":["@ + c.meta.stored_type_name@
            + "]"@
    }
}

/// Two tables have the same structure: same domain, name and column metas.
pub open spec fn equivalent_tables<T, C, I>(a: GenericTable<T, C, I>, b: GenericTable<T, C, I>) -> bool {
    &&& a.domain@ == b.domain@
    &&& a.name@ == b.name@
    &&& a.columns@.len() == b.columns@.len()
    &&& forall|i: int|
        0 <= i < a.columns@.len() ==> #[trigger] a.columns@[i].meta.same_as(&b.columns@[i].meta)
}

impl<T, C, I> GenericTable<T, C, I> {
    /// The init functions, in the order they were added.
    pub open spec fn inits(&self) -> Seq<I> {
        self.init_fns@
    }

    /// Creates a table description for the table type `T`, with no columns.
    /// `T`'s name must be a valid name (see `intern::name_error`).
    pub fn new(table: T) -> (r: Self)
        where T: TTable,
        requires
            valid_name_view(T::spec_name()@),
        ensures
            r.name == T::spec_name(),
            r.domain == T::spec_domain(),
            r.guarantee == T::spec_guarantee(),
            r.columns@.len() == 0,
            r.inits().len() == 0,
            r.schema_version == 0,
            r.table == table,
    {
        let domain = T::domain();
        let name = T::name();
        let guarantee = T::guarantee();
        crate::intern::check_name(name.0);
        GenericTable {
            domain,
            name,
            schema_version: 0,
            columns: Vec::new(),
            init_fns: Vec::new(),
            guarantee,
            table,
        }
    }

    /// Adds a function to be run when a universe instantiates the table's domain.
    pub fn add_init(&mut self, init: I)
        ensures
            final(self).inits() == old(self).inits().push(init),
            final(self).columns == old(self).columns,
            final(self).name == old(self).name,
            final(self).domain == old(self).domain,
            final(self).guarantee == old(self).guarantee,
            final(self).schema_version == old(self).schema_version,
            final(self).table == old(self).table,
    {
        self.init_fns.push(init);
    }

    /// The init functions, in the order they were added.
    pub fn get_inits(&self) -> (r: Vec<I>)
        where I: Copy,
        ensures
            r@ == self.inits(),
    {
        let mut out: Vec<I> = Vec::new();
        let mut i: usize = 0;
        while i < self.init_fns.len()
            invariant
                0 <= i <= self.init_fns@.len(),
                out@ == self.init_fns@.subrange(0, i as int),
            decreases self.init_fns@.len() - i,
        {
            out.push(self.init_fns[i]);
            i = i + 1;
        }
        assert(self.init_fns@.subrange(0, self.init_fns@.len() as int) =~= self.init_fns@);
        out
    }

    /// Whether the table has a column with the given name.
    pub fn has_column(&self, name: &str) -> (r: bool)
        ensures
            r == (column_index(self.columns@, name@) is Some),
    {
        let mut i: usize = 0;
        while i < self.columns.len()
            invariant
                0 <= i <= self.columns@.len(),
                forall|j: int| 0 <= j < i ==> self.columns@[j].meta.name@ != name@,
            decreases self.columns@.len() - i,
        {
            if str_eq(self.columns[i].meta.name.as_str(), name) {
                assert(first_named(self.columns@, name@, i as int));
                return true;
            }
            i = i + 1;
        }
        false
    }

    /// Adds a column to the table.
    pub fn add_column(self, col: GenericColumn<C>) -> (r: Self)
        requires
            valid_name_view(col.meta.name@),
            column_index(self.columns@, col.meta.name@) is None,
        ensures
            r.columns@ == self.columns@.push(col),
            r.name == self.name,
            r.domain == self.domain,
            r.guarantee == self.guarantee,
            r.schema_version == self.schema_version,
            r.inits() == self.inits(),
            r.table == self.table,
    {
        let mut t = self;
        t.columns.push(col);
        t
    }
}

impl<T, C, I> GenericTable<T, C, I> {
    /// A copy of this table with empty columns.
    pub fn prototype(&self) -> (r: Self)
        where T: TTable, C: ColumnData, I: Copy,
        ensures
            r.domain == self.domain,
            r.name == self.name,
            r.schema_version == self.schema_version,
            r.guarantee == self.guarantee,
            r.inits() == self.inits(),
            r.columns@.len() == self.columns@.len(),
            forall|i: int|
                0 <= i < self.columns@.len() ==> #[trigger] r.columns@[i].meta.same_as(
                    &self.columns@[i].meta,
                ),
            forall|i: int| 0 <= i < r.columns@.len() ==> (#[trigger] r.columns@[i]).data.holds_nothing(),
            call_ensures(T::prototype, (&self.table,), r.table),
    {
        let mut columns: Vec<GenericColumn<C>> = Vec::new();
        let mut i: usize = 0;
        while i < self.columns.len()
            invariant
                0 <= i <= self.columns@.len(),
                columns@.len() == i,
                forall|j: int|
                    0 <= j < i ==> #[trigger] columns@[j].meta.same_as(&self.columns@[j].meta),
                forall|j: int| 0 <= j < i ==> (#[trigger] columns@[j]).data.holds_nothing(),
            decreases self.columns@.len() - i,
        {
            let c = &self.columns[i];
            columns.push(GenericColumn { meta: c.meta.duplicate(), data: c.data.prototype() });
            i = i + 1;
        }
        GenericTable {
            domain: self.domain,
            name: self.name,
            schema_version: self.schema_version,
            columns,
            init_fns: self.get_inits(),
            guarantee: self.guarantee,
            table: self.table.prototype(),
        }
    }

    /// Finds the position of the column with the given name.
    fn find_column(&self, name: &str) -> (r: Option<usize>)
        ensures
            match r {
                Some(i) => i < self.columns@.len() && column_index(self.columns@, name@) == Some(i as int),
                None => column_index(self.columns@, name@) is None,
            },
    {
        let mut i: usize = 0;
        while i < self.columns.len()
            invariant
                0 <= i <= self.columns@.len(),
                forall|j: int| 0 <= j < i ==> self.columns@[j].meta.name@ != name@,
            decreases self.columns@.len() - i,
        {
            if str_eq(self.columns[i].meta.name.as_str(), name) {
                proof {
                    assert(first_named(self.columns@, name@, i as int));
                    let k = choose|k: int| first_named(self.columns@, name@, k);
                    assert(k == i) by {
                        if k < i {
                            assert(self.columns@[k].meta.name@ == name@);
                        } else if k > i {
                            assert(self.columns@[i as int].meta.name@ != name@);
                        }
                    }
                }
                return Some(i);
            }
            i = i + 1;
        }
        None
    }

    /// The storage of the first column named `name`, whose stored type is named
    /// `stored_type`.
    pub fn get_column(&self, name: &str, stored_type: &str) -> (r: &C)
        requires
            column_index(self.columns@, name@) matches Some(i)
                && self.columns@[i].meta.stored_type_name@ == stored_type@,
        ensures
            column_index(self.columns@, name@) matches Some(i) && *r == self.columns@[i].data,
    {
        let i = self.find_column(name).unwrap();
        &self.columns[i].data
    }

    /// The storage of the first column named `name`, whose stored type is named
    /// `stored_type`, for mutation.
    pub fn get_column_mut(&mut self, name: &str, stored_type: &str) -> (r: &mut C)
        requires
            column_index(old(self).columns@, name@) matches Some(i)
                && old(self).columns@[i].meta.stored_type_name@ == stored_type@,
        ensures
            column_index(old(self).columns@, name@) matches Some(i) && {
                &&& *r == old(self).columns@[i].data
                &&& final(self).columns@.len() == old(self).columns@.len()
                &&& final(self).columns@[i].data == *final(r)
                &&& final(self).columns@[i].meta == old(self).columns@[i].meta
                &&& forall|j: int|
                    0 <= j < old(self).columns@.len() && j != i ==> final(self).columns@[j]
                        == old(self).columns@[j]
            },
            final(self).name == old(self).name,
            final(self).domain == old(self).domain,
            final(self).guarantee == old(self).guarantee,
            final(self).schema_version == old(self).schema_version,
            final(self).init_fns == old(self).init_fns,
            final(self).table == old(self).table,
    {
        let i = self.find_column(name).unwrap();
        &mut self.columns[i].data
    }

    /// Describes the table: its name, then each column's name and stored type.
    pub fn info(&self) -> (r: String)
        ensures
            r@ == self.name@ + ":"@ + columns_info(self.columns@),
    {
        let mut ret = self.name.to_string();
        ret.append(":");
        let mut i: usize = 0;
        while i < self.columns.len()
            invariant
                0 <= i <= self.columns@.len(),
                ret@ == self.name@ + ":"@ + columns_info(self.columns@.subrange(0, i as int)),
            decreases self.columns@.len() - i,
        {
            let c = &self.columns[i];
            ret.append(" ");
            ret.append(c.meta.name.as_str());
            ret.append(":[");
            ret.append(c.meta.stored_type_name.as_str());
            ret.append("]");
            assert(self.columns@.subrange(0, i + 1).drop_last() =~= self.columns@.subrange(0, i as int));
            i = i + 1;
        }
        assert(self.columns@.subrange(0, self.columns@.len() as int) =~= self.columns@);
        ret
    }

    /// Registers this table on its domain (see `GlobalProperties::register_table`).
    pub fn register<S: crate::Schema<Table = T, Column = C, Init = I>>(
        self,
        globals: &mut crate::domain::GlobalProperties<S>,
    )
        requires
            old(globals).wf(),
            old(globals).can_register_table(self),
        ensures
            final(globals).wf(),
            crate::domain::table_registered(*old(globals), *final(globals), self),
    {
        globals.register_table(self);
    }

    /// The table behind a lock.
    pub fn guard(self) -> std::sync::RwLock<Self> {
        crate::guard_value(self)
    }

    /// Whether `other` has the same structure as this table.
    pub fn equivalent(&self, other: &Self) -> (r: bool)
        ensures
            r == equivalent_tables(*self, *other),
    {
        if !str_eq(self.domain.0, other.domain.0) || !self.name.same(&other.name) {
            return false;
        }
        if self.columns.len() != other.columns.len() {
            return false;
        }
        let mut i: usize = 0;
        while i < self.columns.len()
            invariant
                self.columns@.len() == other.columns@.len(),
                0 <= i <= self.columns@.len(),
                forall|j: int|
                    0 <= j < i ==> #[trigger] self.columns@[j].meta.same_as(&other.columns@[j].meta),
            decreases self.columns@.len() - i,
        {
            if !self.columns[i].meta.eq(&other.columns[i].meta) {
                return false;
            }
            i = i + 1;
        }
        true
    }
}

/// A table that is locked for access: its rows can be counted, and rows can be
/// marked as deleted. Implemented by the concrete tables.
pub trait LockedTable: Sized {
    /// The row type that indexes this table.
    type Row;

    /// The number of rows in the table.
    spec fn row_count(&self) -> usize;

    /// The number of rows in the table.
    fn len(&self) -> (r: usize)
        ensures
            r == self.row_count(),
    ;

    /// Whether the row is marked as deleted; tables that never delete say no.
    fn is_deleted(&self, idx: GenericRowId<Self::Row>) -> (r: bool)
        default_ensures
            !r,
    {
        false
    }

    /// Marks the row as deleted.
    fn delete_row(&mut self, idx: GenericRowId<Self::Row>);
}

} // verus!
