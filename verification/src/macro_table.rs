//! The description of a table that the `table!` macro reads, and the checks it
//! makes before generating the table's code.

use vstd::prelude::*;
use crate::parse::Token;

verus! {

/// The kinds of tables.
#[derive(Debug, Copy, Clone, PartialEq, Eq, Structural)]
pub enum TableKind {
    Append,
    Consistent,
    Bag,
    List,
    Sorted,
}

/// Which traits the row type derives.
#[derive(Default, Debug, Clone, Copy)]
pub struct Derives {
    pub clone: bool,
    pub debug: bool,
    pub copy: bool,
}

/// A column of a table description: its other attributes, its name, the tokens
/// of its element type and of its column type, and its flags.
#[derive(Debug)]
pub struct Col {
    pub attrs: Vec<Vec<Token>>,
    pub name: Vec<u8>,
    pub element: Vec<Token>,
    pub colty: Vec<Token>,
    pub indexed: bool,
    pub foreign: bool,
    pub foreign_auto: bool,
}

/// A table description. Names are ASCII bytes; attributes are the tokens
/// between `#[` and `]`.
#[derive(Debug)]
pub struct Table {
    pub module_attrs: Vec<Vec<Token>>,
    pub row_derive: Vec<Vec<Token>>,
    pub is_pub: bool,
    pub domain: Vec<u8>,
    pub name: Vec<u8>,
    pub kind: Option<TableKind>,
    pub cols: Vec<Col>,
    pub add_trackers: Vec<Vec<u8>>,
    pub row_id: Vec<u8>,
    pub version: u32,
    pub save: bool,
    pub derive: Derives,
    pub sort_key: Option<Vec<u8>>,
    pub immutable: bool,
    pub sorted: bool,
    pub consistent: bool,
    pub secret: bool,
}

/// The guarantees are compatible with each other: immutable tables are neither
/// sorted nor secret, sorted ones neither immutable nor consistent, consistent ones
/// neither sorted nor secret, and saved ones derive `Clone`.
pub open spec fn guarantees_ok(t: &Table) -> bool {
    &&& t.immutable ==> !t.sorted && !t.secret
    &&& t.sorted ==> !t.immutable && !t.consistent
    &&& t.consistent ==> !t.sorted && !t.secret
    &&& t.save ==> t.derive.clone
}

/// The word `usize`.
pub open spec fn usize_word() -> Seq<u8> {
    seq![117u8, 115u8, 105u8, 122u8, 101u8]
}

/// The message `validate` gives for a table whose guarantees are compatible.
pub open spec fn validation_error(t: &Table) -> Option<&'static str> {
    if t.domain@.len() == 0 {
        Some("No domain")
    } else if t.name@.len() == 0 {
        Some("No name")
    } else if t.cols@.len() == 0 {
        Some("No columns")
    } else if t.derive.copy && !t.derive.clone {
        Some("deriving copy, but not clone")
    } else {
        None
    }
}

impl Table {
    /// An empty description: rows indexed by `usize`, version 0, no guarantees.
    pub fn new() -> (r: Table)
        ensures
            r.row_id@ == usize_word(),
            r.module_attrs@.len() == 0,
            r.row_derive@.len() == 0,
            r.add_trackers@.len() == 0,
            r.sort_key is None,
            !r.is_pub,
            r.version == 0,
            r.kind is None,
            r.cols@.len() == 0,
            r.domain@.len() == 0,
            r.name@.len() == 0,
            !r.immutable && !r.sorted && !r.consistent && !r.secret && !r.save,
            !r.derive.clone && !r.derive.copy && !r.derive.debug,
    {
        let row_id: Vec<u8> = vec![117u8, 115u8, 105u8, 122u8, 101u8];
        assert(row_id@ =~= usize_word());
        Table {
            module_attrs: Vec::new(),
            row_derive: Vec::new(),
            is_pub: false,
            domain: Vec::new(),
            name: Vec::new(),
            kind: None,
            cols: Vec::new(),
            add_trackers: Vec::new(),
            row_id,
            version: 0,
            save: false,
            derive: Derives { clone: false, debug: false, copy: false },
            sort_key: None,
            immutable: false,
            sorted: false,
            consistent: false,
            secret: false,
        }
    }

    /// Sets the table's kind, and the guarantees that come with it: consistent
    /// tables are not secret, lists are secret, sorted tables are sorted. The kind
    /// must not be set yet, bags and indexed columns are not implemented.
    pub fn set_kind(&mut self, kind: TableKind)
        requires
            old(self).kind is None,
            kind != TableKind::Bag,
            forall|i: int| 0 <= i < old(self).cols@.len() ==> !(#[trigger] old(self).cols@[i]).indexed,
        ensures
            final(self).kind == Some(kind),
            final(self).consistent == (old(self).consistent || kind == TableKind::Consistent),
            final(self).secret == (if kind == TableKind::Consistent {
                false
            } else {
                old(self).secret || kind == TableKind::List
            }),
            final(self).sorted == (old(self).sorted || kind == TableKind::Sorted),
            final(self).immutable == old(self).immutable,
            final(self).save == old(self).save,
            final(self).derive == old(self).derive,
            final(self).cols == old(self).cols,
            final(self).domain == old(self).domain,
            final(self).name == old(self).name,
            final(self).module_attrs == old(self).module_attrs,
            final(self).row_derive == old(self).row_derive,
            final(self).is_pub == old(self).is_pub,
            final(self).add_trackers == old(self).add_trackers,
            final(self).row_id == old(self).row_id,
            final(self).version == old(self).version,
            final(self).sort_key == old(self).sort_key,
    {
        self.kind = Some(kind);
        match kind {
            TableKind::Append => {},
            TableKind::Consistent => {
                self.consistent = true;
                self.secret = false;
            },
            TableKind::Bag => {
                self.secret = true;
            },
            TableKind::List => {
                self.secret = true;
            },
            TableKind::Sorted => {
                self.sorted = true;
            },
        }
    }

    /// Whether the guarantees are compatible (see `guarantees_ok`).
    pub fn check_guarantees(&self) -> (r: bool)
        ensures
            r == guarantees_ok(self),
    {
        (!self.immutable || (!self.sorted && !self.secret)) && (!self.sorted || (!self.immutable
            && !self.consistent)) && (!self.consistent || (!self.sorted && !self.secret)) && (
        !self.save || self.derive.clone)
    }

    /// Checks a description whose guarantees are compatible: it needs a domain, a
    /// name and columns, and cannot derive `Copy` without `Clone`.
    pub fn validate(&mut self) -> (r: Option<&'static str>)
        requires
            guarantees_ok(old(self)),
        ensures
            r == validation_error(old(self)),
            *final(self) == *old(self),
    {
        if self.domain.len() == 0 {
            return Some("No domain");
        }
        if self.name.len() == 0 {
            return Some("No name");
        }
        if self.cols.len() == 0 {
            return Some("No columns");
        }
        if self.derive.copy && !self.derive.clone {
            return Some("deriving copy, but not clone");
        }
        None
    }
}

} // verus!
