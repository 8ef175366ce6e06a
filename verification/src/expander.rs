//! The table expander used by build scripts: it writes each table's module
//! into an output directory.

use vstd::prelude::*;
use std::path::{Path, PathBuf};
use crate::macro_table::{Table, guarantees_ok, validation_error};
use crate::parse::{ParseError, TableV, parse_table, read_table, readable_source};

verus! {

#[verifier::external_type_specification]
#[verifier::external_body]
pub struct ExPathBuf(PathBuf);

#[verifier::external_type_specification]
#[verifier::external_body]
pub struct ExPath(Path);

/// `Path::to_path_buf`: an owned copy of the path.
#[verifier::external_body]
fn to_path_buf(p: &Path) -> PathBuf {
    p.to_path_buf()
}

/// The kinds of tables of the build-script expander.
#[derive(Debug, Copy, Clone, PartialEq, Eq, Structural)]
pub enum TableKind {
    Append,
    Public,
    Bag,
}

/// The serialization frameworks a table can be encoded with.
#[derive(Debug, Copy, Clone, PartialEq, Eq, Structural)]
pub enum Serializer {
    Rustc,
    Serde,
}

/// Writes table modules to `out`, formatting them if `run_rust_format`.
pub struct TableExpander {
    pub out: PathBuf,
    pub run_rust_format: bool,
}

impl TableExpander {
    pub fn new(p: &Path, run_rust_format: bool) -> (r: Self)
        ensures
            r.run_rust_format == run_rust_format,
    {
        TableExpander { out: to_path_buf(p), run_rust_format }
    }
}

/// The guarantees of the description `t` are compatible (see `guarantees_ok`).
pub open spec fn view_guarantees_ok(t: TableV) -> bool {
    &&& t.immutable ==> !t.sorted && !t.secret
    &&& t.sorted ==> !t.immutable && !t.consistent
    &&& t.consistent ==> !t.sorted && !t.secret
    &&& t.save ==> t.derive.clone
}

/// What the checks of `validate` find wrong with the description `t`.
pub open spec fn view_validation_error(t: TableV) -> Option<&'static str> {
    if t.domain.len() == 0 {
        Some("No domain")
    } else if t.name.len() == 0 {
        Some("No name")
    } else if t.cols.len() == 0 {
        Some("No columns")
    } else if t.derive.copy && !t.derive.clone {
        Some("deriving copy, but not clone")
    } else {
        None
    }
}

/// The name of the file a table's module is written to: the table's name with
/// `.rs` appended (inside a directory named after its domain).
pub open spec fn module_file_name(name: Seq<u8>) -> Seq<u8> {
    name + seq![46u8, 114u8, 115u8]
}

/// The source of a `table!` can be expanded: it does not fail fatally, and the
/// table it describes, if any, has compatible guarantees and passes its checks.
/// (On any other source the expansion is a programming error.)
pub open spec fn expandable_source(src: Seq<u8>) -> bool {
    &&& readable_source(src)
    &&& (read_table(src) matches Ok(tv) ==> view_guarantees_ok(tv) && view_validation_error(tv) is None)
}

/// Reads the source of a `table!`; on success, gives the table and the name of
/// the file its module goes to, in the directory named after its domain. A
/// source that does not read as a table gives the error to report.
pub fn plan_table(src: &[u8]) -> (r: Result<(Table, Vec<u8>), ParseError>)
    requires
        expandable_source(src@),
    ensures
        match read_table(src@) {
            Err(e) => r == Err::<(Table, Vec<u8>), ParseError>(e),
            Ok(tv) => r matches Ok(x) && x.0@ == tv && x.1@ == module_file_name(tv.name),
        },
{
    let table = match parse_table(src) {
        Ok(t) => t,
        Err(e) => {
            return Err(e);
        },
    };
    let mut file: Vec<u8> = Vec::new();
    let mut k: usize = 0;
    while k < table.name.len()
        invariant
            k <= table.name@.len(),
            file@ == table.name@.subrange(0, k as int),
        decreases table.name@.len() - k,
    {
        file.push(table.name[k]);
        k = k + 1;
    }
    file.push(46u8);
    file.push(114u8);
    file.push(115u8);
    proof {
        assert(table.name@.subrange(0, table.name@.len() as int) =~= table.name@);
        assert(file@ =~= module_file_name(table.name@));
    }
    Ok((table, file))
}

} // verus!
