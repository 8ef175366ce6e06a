//! The generator of table modules: from a table description, the text of the
//! Rust module that implements the table. The module is a header that records
//! the table's configuration, then labelled sections, chosen by the table's
//! guarantees.

use vstd::prelude::*;
use vstd::string::StringSliceAdditionalSpecFns;
use crate::macro_table::{Col, Derives, Table, TableKind};
use crate::output_text::{
    CHANGE, CHANGE_LABEL, IMPORTS, IMPORTS_LABEL, COMMON, COMMON_LABEL, CONSISTENT_COMMON, CONSISTENT_DROPS, CONSISTENT_ITER,
    CONSISTENT_ITER_LABEL, CONTEXT, CONTEXT_LABEL, DROPS, DROPS_LABEL, EVENT_IGNORE, EVENT_IGNORE_LABEL,
    EVENT_LOG, EVENT_LOG_LABEL, FAKE_FLUSH, FAKE_FLUSH_LABEL, ITER, ITER_LABEL, LOAD, LOAD_LABEL, MERGE,
    MERGE_LABEL, MUT, MUT_LABEL, ORD_LABEL, ORD_ROW, PUSH, PUSH_LABEL, PUSH_SORTED, PUSH_SORTED_LABEL, SAVE,
    SAVE_LABEL, SORTED_EVENTS_LABEL, SORT_KEY_HEAD, SORT_KEY_MID, SORT_KEY_TAIL, SWAP,
    SWAP_LABEL, TABLE_LABEL, TABLE_STRUCT, TRACKING_LABEL, VISIT, VISIT_LABEL,
};
use crate::parse::{ColV, Tok, TableV, Token, col_views, toks};
use crate::expander::{view_guarantees_ok, view_validation_error};

verus! {

/// Appends the bytes of `s`.
fn push_str(out: &mut Vec<u8>, s: &str)
    ensures
        final(out)@ == old(out)@ + s.spec_bytes(),
{
    let b = s.as_bytes();
    let mut i: usize = 0;
    while i < b.len()
        invariant
            0 <= i <= b@.len(),
            b@ == s.spec_bytes(),
            out@ == old(out)@ + b@.subrange(0, i as int),
        decreases b@.len() - i,
    {
        out.push(b[i]);
        i = i + 1;
        assert(b@.subrange(0, i as int) =~= b@.subrange(0, i - 1).push(b@[i - 1]));
    }
    assert(b@.subrange(0, i as int) =~= b@);
}

/// Appends `b`.
fn push_bytes(out: &mut Vec<u8>, b: &Vec<u8>)
    ensures
        final(out)@ == old(out)@ + b@,
{
    let mut i: usize = 0;
    while i < b.len()
        invariant
            0 <= i <= b@.len(),
            out@ == old(out)@ + b@.subrange(0, i as int),
        decreases b@.len() - i,
    {
        out.push(b[i]);
        i = i + 1;
        assert(b@.subrange(0, i as int) =~= b@.subrange(0, i - 1).push(b@[i - 1]));
    }
    assert(b@.subrange(0, i as int) =~= b@);
}

/// The decimal digits of `n`, most significant first.
pub open spec fn decimal(n: nat) -> Seq<u8>
    decreases n,
{
    if n < 10 {
        seq![(48 + n) as u8]
    } else {
        decimal(n / 10) + seq![(48 + n % 10) as u8]
    }
}

/// Appends the decimal digits of `n`.
fn push_decimal(out: &mut Vec<u8>, n: u64)
    ensures
        final(out)@ == old(out)@ + decimal(n as nat),
    decreases n,
{
    if n >= 10 {
        push_decimal(out, n / 10);
    }
    out.push((48 + n % 10) as u8);
    assert(out@ =~= old(out)@ + decimal(n as nat));
}

/// `true` or `false`.
pub open spec fn bool_text(b: bool) -> Seq<u8> {
    if b {
        "true".spec_bytes()
    } else {
        "false".spec_bytes()
    }
}

fn push_bool(out: &mut Vec<u8>, b: bool)
    ensures
        final(out)@ == old(out)@ + bool_text(b),
{
    if b {
        push_str(out, "true");
    } else {
        push_str(out, "false");
    }
}

/// The text of a token: a word as it is, a string between double quotes, a
/// punctuation byte alone.
pub open spec fn tok_text(t: Tok) -> Seq<u8> {
    match t {
        Tok::Word(w) => w,
        Tok::Str(s) => seq![34u8] + s + seq![34u8],
        Tok::Punct(p) => seq![p],
    }
}

/// The text of a type given by its tokens: the tokens in order, with a space
/// between two adjacent words.
pub open spec fn type_text(ts: Seq<Tok>) -> Seq<u8>
    decreases ts.len(),
{
    if ts.len() == 0 {
        Seq::empty()
    } else {
        type_text(ts.drop_last()) + (if ts.len() >= 2 && ts.last() is Word && ts[ts.len() - 2] is Word {
            seq![32u8]
        } else {
            Seq::empty()
        }) + tok_text(ts.last())
    }
}

#[verifier::spinoff_prover]
fn push_type(out: &mut Vec<u8>, ts: &Vec<Token>)
    ensures
        final(out)@ == old(out)@ + type_text(toks(ts@)),
{
    let ghost tv = toks(ts@);
    let mut i: usize = 0;
    let mut prev_word = false;
    while i < ts.len()
        invariant
            0 <= i <= ts@.len(),
            tv == toks(ts@),
            out@ == old(out)@ + type_text(tv.take(i as int)),
            prev_word == (i >= 1 && tv[i - 1] is Word),
        decreases ts@.len() - i,
    {
        let ghost before = out@;
        let is_word = match &ts[i] {
            Token::Word(_) => true,
            _ => false,
        };
        if is_word && prev_word {
            out.push(32u8);
        }
        match &ts[i] {
            Token::Word(w) => {
                push_bytes(out, w);
            },
            Token::Str(s) => {
                out.push(34u8);
                push_bytes(out, s);
                out.push(34u8);
            },
            Token::Punct(p) => {
                out.push(*p);
            },
        }
        proof {
            let t2 = tv.take(i + 1);
            assert(t2.drop_last() =~= tv.take(i as int));
            assert(t2.last() == tv[i as int]);
            assert(out@ =~= old(out)@ + type_text(t2));
        }
        prev_word = is_word;
        i = i + 1;
    }
    assert(tv.take(i as int) =~= tv);
}

/// The storage type of a column inside the generated module.
pub open spec fn col_type_text(c: ColV) -> Seq<u8> {
    if c.indexed {
        "Col<BTreeIndex<".spec_bytes() + type_text(c.colty) + ", Row>, Row>".spec_bytes()
    } else {
        "Col<".spec_bytes() + type_text(c.colty) + ", Row>".spec_bytes()
    }
}

fn push_col_type(out: &mut Vec<u8>, c: &Col)
    ensures
        final(out)@ == old(out)@ + col_type_text(c@),
{
    if c.indexed {
        push_str(out, "Col<BTreeIndex<");
        push_type(out, &c.colty);
        push_str(out, ", Row>, Row>");
    } else {
        push_str(out, "Col<");
        push_type(out, &c.colty);
        push_str(out, ", Row>");
    }
    assert(out@ =~= old(out)@ + col_type_text(c@));
}

/// The kinds of per-column lines of the module.
pub enum ColLine {
    /// The column in the configuration header.
    Config,
    /// The column's `name: [element; column]` description.
    Format,
    /// The column's field in `Row`.
    RowField,
    /// The column's field in `RowRef`.
    RefField,
    /// The column's field in `Row::as_ref`.
    AsRef,
    /// The column's field in `RowRef::to_owned`.
    ToOwned,
    /// The column's field in the read lock.
    ReadLock,
    /// The column's field in the write lock.
    WriteLock,
    /// The tracker type of a foreign-key column.
    ForeignTracker,
    /// The registration of a foreign-key column's tracker with the foreign table.
    ForeignRegister,
    /// The removal of the rows whose sorted foreign key was deleted, for the
    /// foreign-key column that the table is sorted by.
    SortedRemoval,
    /// The tracker implementation of a column marked `#[foreign_auto]`.
    ForeignAuto,
}

/// Column `c` is the sort key `key`.
pub open spec fn is_key(c: ColV, key: Option<Seq<u8>>) -> bool {
    key == Some(c.name)
}

/// The label of the tracker implementation of a `#[foreign_auto]` column.
pub const FOREIGN_AUTO_LABEL: &'static str = "foreign_auto";

/// The body of the tracker implementation of the `#[foreign_auto]` column `c`: it
/// removes the rows whose foreign key was deleted, through the removal that fits
/// the column (by sort key, or by index).
pub open spec fn foreign_auto_body(c: ColV, key: Option<Seq<u8>>) -> Seq<u8> {
    "impl Tracker for track_".spec_bytes() + c.name
        + "_events {\n    fn cleared(&mut self, universe: &Universe) {\n        let mut lock = write(universe);\n        lock.clear();\n        lock.flush(universe);\n    }\n\n    fn track(&mut self, universe: &Universe, deleted_rows: &[usize], _added_rows: &[usize]) {\n        if deleted_rows.is_empty() { return; }\n        let mut lock = write(universe);\n        lock.".spec_bytes()
        + (if is_key(c, key) { "track_sorted_".spec_bytes() } else { "track_".spec_bytes() }) + c.name
        + "_removal(deleted_rows);\n        lock.flush(universe);\n    }\n}".spec_bytes()
}

/// The line of kind `k` for the column `c` of the table named `table`, sorted by
/// `key` if it is a sorted table.
pub open spec fn col_line(c: ColV, table: Seq<u8>, key: Option<Seq<u8>>, k: ColLine) -> Seq<u8> {
    match k {
        ColLine::Config => "//   column ".spec_bytes() + c.name + ": [".spec_bytes() + type_text(c.element)
            + "; ".spec_bytes() + type_text(c.colty) + "]\n".spec_bytes(),
        ColLine::Format => "    pub const ".spec_bytes() + c.name + ": &'static str = \"".spec_bytes() + table
            + ".".spec_bytes() + c.name + ": [".spec_bytes() + type_text(c.element) + "; ".spec_bytes()
            + type_text(c.colty) + "]\";\n".spec_bytes(),
        ColLine::RowField => "    pub ".spec_bytes() + c.name + ": ".spec_bytes() + type_text(c.element)
            + ",\n".spec_bytes(),
        ColLine::RefField => "    pub ".spec_bytes() + c.name + ": &'a ".spec_bytes() + type_text(c.element)
            + ",\n".spec_bytes(),
        ColLine::AsRef => "            ".spec_bytes() + c.name + ": &self.".spec_bytes() + c.name
            + ",\n".spec_bytes(),
        ColLine::ToOwned => "            ".spec_bytes() + c.name + ": self.".spec_bytes() + c.name
            + ".clone(),\n".spec_bytes(),
        ColLine::ReadLock => "    pub ".spec_bytes() + c.name + ": RefA<'u, ".spec_bytes() + col_type_text(c)
            + ">,\n".spec_bytes(),
        ColLine::WriteLock => "    pub ".spec_bytes() + c.name + (if c.indexed {
            ": EditA<'u, ".spec_bytes()
        } else {
            ": MutA<'u, ".spec_bytes()
        }) + col_type_text(c) + ">,\n".spec_bytes(),
        ColLine::ForeignTracker => if c.foreign {
            "\n/// You must implement `Tracker` on this struct to maintain consistency by responding to\n/// structural changes on the foreign table.\n#[allow(non_camel_case_types)]\npub struct track_".spec_bytes()
                + c.name + "_events;\n".spec_bytes()
        } else {
            Seq::empty()
        },
        ColLine::ForeignRegister => if c.foreign {
            "    {\n        type E = ".spec_bytes() + type_text(c.element)
                + ";\n        let gt = _universe.get_generic_table(E::get_domain().get_id(), E::get_name());\n        let mut gt = gt.write().unwrap();\n        let flush = unify(E::from_usize(0).table, gt.table.get_flush());\n        flush.register_tracker(track_".spec_bytes()
                + c.name + "_events, ".spec_bytes() + bool_text(is_key(c, key)) + ");\n    }\n".spec_bytes()
        } else {
            Seq::empty()
        },
        ColLine::SortedRemoval => if c.foreign && is_key(c, key) {
            "    /// Removes the rows whose foreign key is listed in `remove`, which must be sorted.\n    pub fn track_sorted_".spec_bytes()
                + c.name
                + "_removal(&mut self, remove: &[usize]) {\n        if remove.is_empty() || self.len() == 0 { return; }\n        self.remove_sorted_keys(remove, |me, rowid| me.".spec_bytes()
                + c.name + "[rowid].to_usize());\n    }\n".spec_bytes()
        } else {
            Seq::empty()
        },
        ColLine::ForeignAuto => if c.foreign_auto {
            section(FOREIGN_AUTO_LABEL, foreign_auto_body(c, key))
        } else {
            Seq::empty()
        },
    }
}

/// The bytes of a sort key.
pub open spec fn key_view(key: &Option<Vec<u8>>) -> Option<Seq<u8>> {
    match *key {
        Some(v) => Some(v@),
        None => None,
    }
}

fn column_is_key(c: &Col, key: &Option<Vec<u8>>) -> (r: bool)
    ensures
        r == is_key(c@, key_view(key)),
{
    match key {
        Some(k) => crate::parse::bytes_are(k, c.name.as_slice()),
        None => false,
    }
}

#[verifier::spinoff_prover]
#[verifier::rlimit(40)]
fn push_col_line(out: &mut Vec<u8>, c: &Col, table: &Vec<u8>, key: &Option<Vec<u8>>, k: &ColLine)
    ensures
        final(out)@ == old(out)@ + col_line(c@, table@, key_view(key), *k),
{
    match k {
        ColLine::Config => {
            push_str(out, "//   column ");
            push_bytes(out, &c.name);
            push_str(out, ": [");
            push_type(out, &c.element);
            push_str(out, "; ");
            push_type(out, &c.colty);
            push_str(out, "]\n");
            assert(out@ =~= old(out)@ + col_line(c@, table@, key_view(key), *k));
        },
        ColLine::Format => {
            push_str(out, "    pub const ");
            push_bytes(out, &c.name);
            push_str(out, ": &'static str = \"");
            push_bytes(out, table);
            push_str(out, ".");
            push_bytes(out, &c.name);
            push_str(out, ": [");
            push_type(out, &c.element);
            push_str(out, "; ");
            push_type(out, &c.colty);
            push_str(out, "]\";\n");
            assert(out@ =~= old(out)@ + col_line(c@, table@, key_view(key), *k));
        },
        ColLine::RowField => {
            push_str(out, "    pub ");
            push_bytes(out, &c.name);
            push_str(out, ": ");
            push_type(out, &c.element);
            push_str(out, ",\n");
            assert(out@ =~= old(out)@ + col_line(c@, table@, key_view(key), *k));
        },
        ColLine::RefField => {
            push_str(out, "    pub ");
            push_bytes(out, &c.name);
            push_str(out, ": &'a ");
            push_type(out, &c.element);
            push_str(out, ",\n");
            assert(out@ =~= old(out)@ + col_line(c@, table@, key_view(key), *k));
        },
        ColLine::AsRef => {
            push_str(out, "            ");
            push_bytes(out, &c.name);
            push_str(out, ": &self.");
            push_bytes(out, &c.name);
            push_str(out, ",\n");
            assert(out@ =~= old(out)@ + col_line(c@, table@, key_view(key), *k));
        },
        ColLine::ToOwned => {
            push_str(out, "            ");
            push_bytes(out, &c.name);
            push_str(out, ": self.");
            push_bytes(out, &c.name);
            push_str(out, ".clone(),\n");
            assert(out@ =~= old(out)@ + col_line(c@, table@, key_view(key), *k));
        },
        ColLine::ReadLock => {
            push_str(out, "    pub ");
            push_bytes(out, &c.name);
            push_str(out, ": RefA<'u, ");
            push_col_type(out, c);
            push_str(out, ">,\n");
            assert(out@ =~= old(out)@ + col_line(c@, table@, key_view(key), *k));
        },
        ColLine::WriteLock => {
            push_str(out, "    pub ");
            push_bytes(out, &c.name);
            if c.indexed {
                push_str(out, ": EditA<'u, ");
            } else {
                push_str(out, ": MutA<'u, ");
            }
            push_col_type(out, c);
            push_str(out, ">,\n");
            assert(out@ =~= old(out)@ + col_line(c@, table@, key_view(key), *k));
        },
        ColLine::ForeignTracker => {
            if c.foreign {
                push_str(out, "\n/// You must implement `Tracker` on this struct to maintain consistency by responding to\n/// structural changes on the foreign table.\n#[allow(non_camel_case_types)]\npub struct track_");
                push_bytes(out, &c.name);
                push_str(out, "_events;\n");
            }
            assert(out@ =~= old(out)@ + col_line(c@, table@, key_view(key), *k));
        },
        ColLine::ForeignRegister => {
            if c.foreign {
                let key_col = column_is_key(c, key);
                push_str(out, "    {\n        type E = ");
                push_type(out, &c.element);
                push_str(out, ";\n        let gt = _universe.get_generic_table(E::get_domain().get_id(), E::get_name());\n        let mut gt = gt.write().unwrap();\n        let flush = unify(E::from_usize(0).table, gt.table.get_flush());\n        flush.register_tracker(track_");
                push_bytes(out, &c.name);
                push_str(out, "_events, ");
                push_bool(out, key_col);
                push_str(out, ");\n    }\n");
            }
            assert(out@ =~= old(out)@ + col_line(c@, table@, key_view(key), *k));
        },
        ColLine::SortedRemoval => {
            if c.foreign && column_is_key(c, key) {
                push_str(out, "    /// Removes the rows whose foreign key is listed in `remove`, which must be sorted.\n    pub fn track_sorted_");
                push_bytes(out, &c.name);
                push_str(out, "_removal(&mut self, remove: &[usize]) {\n        if remove.is_empty() || self.len() == 0 { return; }\n        self.remove_sorted_keys(remove, |me, rowid| me.");
                push_bytes(out, &c.name);
                push_str(out, "[rowid].to_usize());\n    }\n");
            }
            assert(out@ =~= old(out)@ + col_line(c@, table@, key_view(key), *k));
        },
        ColLine::ForeignAuto => {
            if c.foreign_auto {
                let key_col = column_is_key(c, key);
                let mut b: Vec<u8> = Vec::new();
                push_str(&mut b, "impl Tracker for track_");
                push_bytes(&mut b, &c.name);
                push_str(&mut b, "_events {\n    fn cleared(&mut self, universe: &Universe) {\n        let mut lock = write(universe);\n        lock.clear();\n        lock.flush(universe);\n    }\n\n    fn track(&mut self, universe: &Universe, deleted_rows: &[usize], _added_rows: &[usize]) {\n        if deleted_rows.is_empty() { return; }\n        let mut lock = write(universe);\n        lock.");
                if key_col {
                    push_str(&mut b, "track_sorted_");
                } else {
                    push_str(&mut b, "track_");
                }
                push_bytes(&mut b, &c.name);
                push_str(&mut b, "_removal(deleted_rows);\n        lock.flush(universe);\n    }\n}");
                assert(b@ =~= foreign_auto_body(c@, key_view(key)));
                push_section(out, FOREIGN_AUTO_LABEL, &b);
            }
            assert(out@ =~= old(out)@ + col_line(c@, table@, key_view(key), *k));
        },
    }
}

/// The lines of kind `k` for the columns `cols` of the table named `table`, in order.
pub open spec fn cols_text(cols: Seq<ColV>, table: Seq<u8>, key: Option<Seq<u8>>, k: ColLine) -> Seq<u8>
    decreases cols.len(),
{
    if cols.len() == 0 {
        Seq::empty()
    } else {
        cols_text(cols.drop_last(), table, key, k) + col_line(cols.last(), table, key, k)
    }
}

fn push_cols(out: &mut Vec<u8>, cols: &Vec<Col>, table: &Vec<u8>, key: &Option<Vec<u8>>, k: &ColLine)
    ensures
        final(out)@ == old(out)@ + cols_text(col_views(cols@), table@, key_view(key), *k),
{
    let ghost cv = col_views(cols@);
    let mut i: usize = 0;
    while i < cols.len()
        invariant
            0 <= i <= cols@.len(),
            cv == col_views(cols@),
            out@ == old(out)@ + cols_text(cv.take(i as int), table@, key_view(key), *k),
        decreases cols@.len() - i,
    {
        push_col_line(out, &cols[i], table, key, k);
        proof {
            let c2 = cv.take(i + 1);
            assert(c2.drop_last() =~= cv.take(i as int));
            assert(c2.last() == cols@[i as int]@);
            assert(out@ =~= old(out)@ + cols_text(c2, table@, key_view(key), *k));
        }
        i = i + 1;
    }
    assert(cv.take(i as int) =~= cv);
}

/// How a section starts: a blank line, then its label as a comment.
pub const SECTION_OPEN: &'static str = "\n// ";

/// The end of a line.
pub const NEWLINE: &'static str = "\n";

/// How a section ends.
pub const SECTION_CLOSE: &'static str = "\n\n";

/// A labelled section of the module.
pub open spec fn section(label: &str, body: Seq<u8>) -> Seq<u8> {
    SECTION_OPEN.spec_bytes() + label.spec_bytes() + NEWLINE.spec_bytes() + body + SECTION_CLOSE.spec_bytes()
}

fn push_section(out: &mut Vec<u8>, label: &str, body: &Vec<u8>)
    ensures
        final(out)@ == old(out)@ + section(label, body@),
{
    push_str(out, SECTION_OPEN);
    push_str(out, label);
    push_str(out, NEWLINE);
    push_bytes(out, body);
    push_str(out, SECTION_CLOSE);
    assert(out@ =~= old(out)@ + section(label, body@));
}

fn push_fixed_section(out: &mut Vec<u8>, label: &str, body: &str)
    ensures
        final(out)@ == old(out)@ + section(label, body.spec_bytes()),
{
    push_str(out, SECTION_OPEN);
    push_str(out, label);
    push_str(out, NEWLINE);
    push_str(out, body);
    push_str(out, SECTION_CLOSE);
    assert(out@ =~= old(out)@ + section(label, body.spec_bytes()));
}

/// The body of the imports section: the imports, then the table's constants and
/// the description of each column.
pub open spec fn imports_body(t: TableV) -> Seq<u8> {
    IMPORTS.spec_bytes() + t.name + "\");\npub const TABLE_DOMAIN: DomainName = super::".spec_bytes() + t.domain
        + ";\npub const VERSION: u64 = ".spec_bytes() + decimal(t.version as nat)
        + ";\npub const GUARANTEES: Guarantee = Guarantee {\n    consistent: ".spec_bytes() + bool_text(t.consistent)
        + ",\n};".spec_bytes() + "\n\n#[allow(non_upper_case_globals)]\nmod column_format {\n".spec_bytes()
        + cols_text(t.cols, t.name, t.sort_key, ColLine::Format) + "}".spec_bytes()
}

fn make_imports_body(t: &Table) -> (r: Vec<u8>)
    ensures
        r@ == imports_body(t@),
{
    let mut b: Vec<u8> = Vec::new();
    push_str(&mut b, IMPORTS);
    push_bytes(&mut b, &t.name);
    push_str(&mut b, "\");\npub const TABLE_DOMAIN: DomainName = super::");
    push_bytes(&mut b, &t.domain);
    push_str(&mut b, ";\npub const VERSION: u64 = ");
    push_decimal(&mut b, t.version as u64);
    push_str(&mut b, ";\npub const GUARANTEES: Guarantee = Guarantee {\n    consistent: ");
    push_bool(&mut b, t.consistent);
    push_str(&mut b, ",\n};");
    push_str(&mut b, "\n\n#[allow(non_upper_case_globals)]\nmod column_format {\n");
    push_cols(&mut b, &t.cols, &t.name, &t.sort_key, &ColLine::Format);
    push_str(&mut b, "}");
    assert(b@ == imports_body(t@));
    b
}

/// The name of a kind of table, as `#[kind = ...]` gives it.
pub open spec fn kind_text(k: Option<TableKind>) -> Seq<u8> {
    match k {
        None => "none".spec_bytes(),
        Some(TableKind::Append) => "append".spec_bytes(),
        Some(TableKind::Consistent) => "consistent".spec_bytes(),
        Some(TableKind::Bag) => "bag".spec_bytes(),
        Some(TableKind::List) => "list".spec_bytes(),
        Some(TableKind::Sorted) => "sorted".spec_bytes(),
    }
}

fn push_kind(out: &mut Vec<u8>, k: Option<TableKind>)
    ensures
        final(out)@ == old(out)@ + kind_text(k),
{
    match k {
        None => push_str(out, "none"),
        Some(TableKind::Append) => push_str(out, "append"),
        Some(TableKind::Consistent) => push_str(out, "consistent"),
        Some(TableKind::Bag) => push_str(out, "bag"),
        Some(TableKind::List) => push_str(out, "list"),
        Some(TableKind::Sorted) => push_str(out, "sorted"),
    }
}

broadcast use crate::intern::lemma_concat_regroup;

/// The first lines of the header: the table's names, kind, index type and version.
pub open spec fn header_names(t: TableV) -> Seq<u8> {
    "// Table config:\n//   domain: ".spec_bytes() + t.domain + "\n//   name: ".spec_bytes() + t.name
        + "\n//   kind: ".spec_bytes() + kind_text(t.kind) + "\n//   row_id: ".spec_bytes() + t.row_id
        + "\n//   version: ".spec_bytes() + decimal(t.version as nat) + "\n".spec_bytes()
}

/// A header line that gives a flag.
pub open spec fn flag_line(label: &str, b: bool) -> Seq<u8> {
    label.spec_bytes() + bool_text(b) + NEWLINE.spec_bytes()
}

fn push_flag_line(out: &mut Vec<u8>, label: &str, b: bool)
    ensures
        final(out)@ == old(out)@ + flag_line(label, b),
{
    push_str(out, label);
    push_bool(out, b);
    push_str(out, NEWLINE);
    assert(out@ =~= old(out)@ + flag_line(label, b));
}

/// The lines of the header that give the table's guarantees.
pub open spec fn header_flags(t: TableV) -> Seq<u8> {
    flag_line("//   save: ", t.save) + flag_line("//   immutable: ", t.immutable) + flag_line("//   sorted: ", t.sorted)
        + flag_line("//   consistent: ", t.consistent) + flag_line("//   secret: ", t.secret)
}

/// The header of the module: the table's configuration, as comments, a line per
/// column last.
pub open spec fn header_text(t: TableV) -> Seq<u8> {
    header_names(t) + header_flags(t) + cols_text(t.cols, t.name, t.sort_key, ColLine::Config)
}

fn push_header_names(out: &mut Vec<u8>, t: &Table)
    ensures
        final(out)@ == old(out)@ + header_names(t@),
{
    push_str(out, "// Table config:\n//   domain: ");
    push_bytes(out, &t.domain);
    push_str(out, "\n//   name: ");
    push_bytes(out, &t.name);
    push_str(out, "\n//   kind: ");
    push_kind(out, t.kind);
    push_str(out, "\n//   row_id: ");
    push_bytes(out, &t.row_id);
    push_str(out, "\n//   version: ");
    push_decimal(out, t.version as u64);
    push_str(out, "\n");
    assert(out@ == old(out)@ + header_names(t@));
}

fn push_header_flags(out: &mut Vec<u8>, t: &Table)
    ensures
        final(out)@ == old(out)@ + header_flags(t@),
{
    push_flag_line(out, "//   save: ", t.save);
    push_flag_line(out, "//   immutable: ", t.immutable);
    push_flag_line(out, "//   sorted: ", t.sorted);
    push_flag_line(out, "//   consistent: ", t.consistent);
    push_flag_line(out, "//   secret: ", t.secret);
    assert(out@ == old(out)@ + header_flags(t@));
}

fn push_header(out: &mut Vec<u8>, t: &Table)
    ensures
        final(out)@ == old(out)@ + header_text(t@),
{
    push_header_names(out, t);
    push_header_flags(out, t);
    push_cols(out, &t.cols, &t.name, &t.sort_key, &ColLine::Config);
    assert(out@ == old(out)@ + header_text(t@));
}

pub const INDEXING_LABEL: &'static str = "Indexing";

/// The body of the indexing section: the row index types of the table.
pub open spec fn indexing_body(t: TableV) -> Seq<u8> {
    "/// The internal index type, which also limits the maximum number of rows.\npub type RawType = ".spec_bytes()
        + t.row_id + ";\n\n/// This is the type used to index into `".spec_bytes() + t.name
        + "`'s columns.\n/// It is unique to the table.\npub type RowId = GenericRowId<Row>;\n\n/// An index that is known to be valid for the lifetime of a read lock.\npub type CheckIdRead<'u> = CheckedRowId<'u, Read<'u>>;\n/// An index that is known to be valid for the lifetime of a write lock.\npub type CheckIdWrite<'u> = CheckedRowId<'u, Write<'u>>;\n\n/// A reference to the first row. Is invalid if there is no rows.\npub const FIRST: RowId = RowId {\n    i: 0,\n    table: ::std::marker::PhantomData,\n};\n\n/// Creates an index into the `i`th row.\npub fn at(i: ".spec_bytes()
        + t.row_id + ") -> RowId { RowId::new(i) }".spec_bytes()
}

fn make_indexing_body(t: &Table) -> (r: Vec<u8>)
    ensures
        r@ == indexing_body(t@),
{
    let mut b: Vec<u8> = Vec::new();
    push_str(&mut b, "/// The internal index type, which also limits the maximum number of rows.\npub type RawType = ");
    push_bytes(&mut b, &t.row_id);
    push_str(&mut b, ";\n\n/// This is the type used to index into `");
    push_bytes(&mut b, &t.name);
    push_str(&mut b, "`'s columns.\n/// It is unique to the table.\npub type RowId = GenericRowId<Row>;\n\n/// An index that is known to be valid for the lifetime of a read lock.\npub type CheckIdRead<'u> = CheckedRowId<'u, Read<'u>>;\n/// An index that is known to be valid for the lifetime of a write lock.\npub type CheckIdWrite<'u> = CheckedRowId<'u, Write<'u>>;\n\n/// A reference to the first row. Is invalid if there is no rows.\npub const FIRST: RowId = RowId {\n    i: 0,\n    table: ::std::marker::PhantomData,\n};\n\n/// Creates an index into the `i`th row.\npub fn at(i: ");
    push_bytes(&mut b, &t.row_id);
    push_str(&mut b, ") -> RowId { RowId::new(i) }");
    assert(b@ == indexing_body(t@));
    b
}

/// The derive attributes of the row types: one per derived trait, `Clone`
/// left out of those of the reference row.
pub open spec fn derives_text(d: Derives, with_clone: bool) -> Seq<u8> {
    (if with_clone && d.clone { "#[derive(Clone)]\n".spec_bytes() } else { Seq::empty() })
        + (if d.debug { "#[derive(Debug)]\n".spec_bytes() } else { Seq::empty() })
        + (if d.copy { "#[derive(Copy)]\n".spec_bytes() } else { Seq::empty() })
}

fn push_derives(out: &mut Vec<u8>, d: Derives, with_clone: bool)
    ensures
        final(out)@ == old(out)@ + derives_text(d, with_clone),
{
    let ghost o = out@;
    if with_clone && d.clone {
        push_str(out, "#[derive(Clone)]\n");
    }
    let ghost o1 = out@;
    assert(o1 =~= o + (if with_clone && d.clone { "#[derive(Clone)]\n".spec_bytes() } else { Seq::<u8>::empty() }));
    if d.debug {
        push_str(out, "#[derive(Debug)]\n");
    }
    let ghost o2 = out@;
    assert(o2 =~= o1 + (if d.debug { "#[derive(Debug)]\n".spec_bytes() } else { Seq::<u8>::empty() }));
    if d.copy {
        push_str(out, "#[derive(Copy)]\n");
    }
    assert(out@ =~= o2 + (if d.copy { "#[derive(Copy)]\n".spec_bytes() } else { Seq::<u8>::empty() }));
    assert(out@ =~= o + derives_text(d, with_clone));
}

pub const ROW_LABEL: &'static str = "The `Row` struct";

/// The body of the row section: the row type, the row of references, and the
/// conversion between them.
pub open spec fn row_body(t: TableV) -> Seq<u8> {
    "/**\n * A structure holding a copy of each column's data.\n * */\n".spec_bytes() + derives_text(t.derive, true)
        + "pub struct Row {\n".spec_bytes() + cols_text(t.cols, t.name, t.sort_key, ColLine::RowField)
        + "}\nimpl GetTableName for Row {\n    type Idx = RawType;\n    fn get_domain() -> DomainName { TABLE_DOMAIN }\n    fn get_name() -> TableName { TABLE_NAME }\n    fn get_guarantee() -> Guarantee { GUARANTEES }\n}\n\n/// A row of a reference to each element.\n".spec_bytes()
        + derives_text(t.derive, false) + "#[derive(Clone)]\npub struct RowRef<'a> {\n".spec_bytes()
        + cols_text(t.cols, t.name, t.sort_key, ColLine::RefField)
        + "}\nimpl Row {\n    /// Convert this `Row` into a `RowRef`.\n    pub fn as_ref(&self) -> RowRef {\n        RowRef {\n".spec_bytes()
        + cols_text(t.cols, t.name, t.sort_key, ColLine::AsRef) + "        }\n    }\n}".spec_bytes()
}

fn make_row_body(t: &Table) -> (r: Vec<u8>)
    ensures
        r@ == row_body(t@),
{
    let mut b: Vec<u8> = Vec::new();
    push_str(&mut b, "/**\n * A structure holding a copy of each column's data.\n * */\n");
    push_derives(&mut b, t.derive, true);
    push_str(&mut b, "pub struct Row {\n");
    push_cols(&mut b, &t.cols, &t.name, &t.sort_key, &ColLine::RowField);
    push_str(&mut b, "}\nimpl GetTableName for Row {\n    type Idx = RawType;\n    fn get_domain() -> DomainName { TABLE_DOMAIN }\n    fn get_name() -> TableName { TABLE_NAME }\n    fn get_guarantee() -> Guarantee { GUARANTEES }\n}\n\n/// A row of a reference to each element.\n");
    push_derives(&mut b, t.derive, false);
    push_str(&mut b, "#[derive(Clone)]\npub struct RowRef<'a> {\n");
    push_cols(&mut b, &t.cols, &t.name, &t.sort_key, &ColLine::RefField);
    push_str(&mut b, "}\nimpl Row {\n    /// Convert this `Row` into a `RowRef`.\n    pub fn as_ref(&self) -> RowRef {\n        RowRef {\n");
    push_cols(&mut b, &t.cols, &t.name, &t.sort_key, &ColLine::AsRef);
    push_str(&mut b, "        }\n    }\n}");
    assert(b@ == row_body(t@));
    b
}

pub const OWNED_LABEL: &'static str = "RowRef IntoOwned";

/// The body of the section that copies a row of references into a row.
pub open spec fn owned_body(t: TableV) -> Seq<u8> {
    "impl<'a> RowRef<'a> {\n    pub fn to_owned(&self) -> Row {\n        Row {\n".spec_bytes()
        + cols_text(t.cols, t.name, t.sort_key, ColLine::ToOwned) + "        }\n    }\n}".spec_bytes()
}

fn make_owned_body(t: &Table) -> (r: Vec<u8>)
    ensures
        r@ == owned_body(t@),
{
    let mut b: Vec<u8> = Vec::new();
    push_str(&mut b, "impl<'a> RowRef<'a> {\n    pub fn to_owned(&self) -> Row {\n        Row {\n");
    push_cols(&mut b, &t.cols, &t.name, &t.sort_key, &ColLine::ToOwned);
    push_str(&mut b, "        }\n    }\n}");
    assert(b@ == owned_body(t@));
    b
}

pub const LOCKS_LABEL: &'static str = "Table locks";

/// The body of the locks section: the read and write locks, with a field per
/// column.
pub open spec fn locks_body(t: TableV) -> Seq<u8> {
    "/**\n * The table, locked for reading.\n * */\npub struct Read<'u> {\n    _table: &'u Table,\n".spec_bytes()
        + cols_text(t.cols, t.name, t.sort_key, ColLine::ReadLock)
        + "}\n\n/**\n * The table, locked for writing.\n * */\npub struct Write<'u> {\n    _table: &'u mut Table,\n".spec_bytes()
        + cols_text(t.cols, t.name, t.sort_key, ColLine::WriteLock) + "}".spec_bytes()
}

fn make_locks_body(t: &Table) -> (r: Vec<u8>)
    ensures
        r@ == locks_body(t@),
{
    let mut b: Vec<u8> = Vec::new();
    push_str(&mut b, "/**\n * The table, locked for reading.\n * */\npub struct Read<'u> {\n    _table: &'u Table,\n");
    push_cols(&mut b, &t.cols, &t.name, &t.sort_key, &ColLine::ReadLock);
    push_str(&mut b, "}\n\n/**\n * The table, locked for writing.\n * */\npub struct Write<'u> {\n    _table: &'u mut Table,\n");
    push_cols(&mut b, &t.cols, &t.name, &t.sort_key, &ColLine::WriteLock);
    push_str(&mut b, "}");
    assert(b@ == locks_body(t@));
    b
}

/// The ordering of the rows of references by the sort key `k`, if there is one.
/// It stands outside any labelled section.
pub open spec fn sort_key_text(k: Option<Seq<u8>>) -> Seq<u8> {
    match k {
        None => Seq::empty(),
        Some(k) => SORT_KEY_HEAD.spec_bytes() + k + SORT_KEY_MID.spec_bytes() + k + SORT_KEY_TAIL.spec_bytes()
            + NEWLINE.spec_bytes(),
    }
}

fn push_sort_key(out: &mut Vec<u8>, k: &Option<Vec<u8>>)
    ensures
        final(out)@ == old(out)@ + sort_key_text(match *k {
            None => None,
            Some(v) => Some(v@),
        }),
{
    match k {
        None => {
            assert(out@ =~= old(out)@ + Seq::<u8>::empty());
        },
        Some(v) => {
            push_str(out, SORT_KEY_HEAD);
            push_bytes(out, v);
            push_str(out, SORT_KEY_MID);
            push_bytes(out, v);
            push_str(out, SORT_KEY_TAIL);
            push_str(out, NEWLINE);
            assert(out@ =~= old(out)@ + sort_key_text(Some(v@)));
        },
    }
}

/// The body of the section that removes the rows whose sorted foreign key was
/// deleted.
pub open spec fn sorted_events_body(t: TableV) -> Seq<u8> {
    "impl<'u> Write<'u> {\n".spec_bytes() + cols_text(t.cols, t.name, t.sort_key, ColLine::SortedRemoval)
        + "}".spec_bytes()
}

fn make_sorted_events_body(t: &Table) -> (r: Vec<u8>)
    ensures
        r@ == sorted_events_body(t@),
{
    let mut b: Vec<u8> = Vec::new();
    push_str(&mut b, "impl<'u> Write<'u> {\n");
    push_cols(&mut b, &t.cols, &t.name, &t.sort_key, &ColLine::SortedRemoval);
    push_str(&mut b, "}");
    b
}

/// The body of the tracking section: a tracker type per foreign-key column, and
/// the registration of each with its foreign table.
pub open spec fn tracking_body(t: TableV) -> Seq<u8> {
    cols_text(t.cols, t.name, t.sort_key, ColLine::ForeignTracker)
        + "fn register_foreign_trackers(_universe: &Universe) {\n    use std::marker::PhantomData;\n    use std::any::Any;\n    fn unify<K: GetTableName + 'static>(_t: PhantomData<K>, flush: &mut Any) -> &mut Flush<K> {\n        flush.downcast_mut().expect(\"wrong foreign table type\")\n    }\n".spec_bytes()
        + cols_text(t.cols, t.name, t.sort_key, ColLine::ForeignRegister) + "}".spec_bytes()
}

fn make_tracking_body(t: &Table) -> (r: Vec<u8>)
    ensures
        r@ == tracking_body(t@),
{
    let mut b: Vec<u8> = Vec::new();
    push_cols(&mut b, &t.cols, &t.name, &t.sort_key, &ColLine::ForeignTracker);
    push_str(&mut b, "fn register_foreign_trackers(_universe: &Universe) {\n    use std::marker::PhantomData;\n    use std::any::Any;\n    fn unify<K: GetTableName + 'static>(_t: PhantomData<K>, flush: &mut Any) -> &mut Flush<K> {\n        flush.downcast_mut().expect(\"wrong foreign table type\")\n    }\n");
    push_cols(&mut b, &t.cols, &t.name, &t.sort_key, &ColLine::ForeignRegister);
    push_str(&mut b, "}");
    b
}

/// The body of the section that names the table's locks for `context!`.
pub open spec fn context_body(t: TableV) -> Seq<u8> {
    "const TABLE_PATH: &'static str = \"".spec_bytes() + t.domain + "/".spec_bytes() + t.name
        + " version=".spec_bytes() + decimal(t.version as nat) + ",cols=".spec_bytes() + decimal(t.cols.len())
        + "\";\n\n".spec_bytes() + CONTEXT.spec_bytes()
}

fn make_context_body(t: &Table) -> (r: Vec<u8>)
    ensures
        r@ == context_body(t@),
{
    let mut b: Vec<u8> = Vec::new();
    push_str(&mut b, "const TABLE_PATH: &'static str = \"");
    push_bytes(&mut b, &t.domain);
    push_str(&mut b, "/");
    push_bytes(&mut b, &t.name);
    push_str(&mut b, " version=");
    push_decimal(&mut b, t.version as u64);
    push_str(&mut b, ",cols=");
    proof {
        assert(t@.cols.len() == t.cols@.len());
    }
    push_decimal(&mut b, t.cols.len() as u64);
    push_str(&mut b, "\";\n\n");
    push_str(&mut b, CONTEXT);
    assert(b@ == context_body(t@));
    b
}

/// The section labelled `label` with the fixed body `body` where `c` holds, and
/// nothing elsewhere.
pub open spec fn opt_section(c: bool, label: &str, body: &str) -> Seq<u8> {
    if c {
        section(label, body.spec_bytes())
    } else {
        Seq::empty()
    }
}

fn push_opt_section(out: &mut Vec<u8>, c: bool, label: &str, body: &str)
    ensures
        final(out)@ == old(out)@ + opt_section(c, label, body),
{
    if c {
        push_fixed_section(out, label, body);
    } else {
        assert(out@ =~= old(out)@ + Seq::<u8>::empty());
    }
}

/// One of two fixed sections, as `c` holds or not.
pub open spec fn either_section(c: bool, label: &str, body: &str, other_label: &str, other_body: &str) -> Seq<u8> {
    if c {
        section(label, body.spec_bytes())
    } else {
        section(other_label, other_body.spec_bytes())
    }
}

fn push_either_section(out: &mut Vec<u8>, c: bool, label: &str, body: &str, other_label: &str, other_body: &str)
    ensures
        final(out)@ == old(out)@ + either_section(c, label, body, other_label, other_body),
{
    if c {
        push_fixed_section(out, label, body);
    } else {
        push_fixed_section(out, other_label, other_body);
    }
}

/// The section that copies a row of references into a row, for tables whose rows
/// derive `Clone`.
pub open spec fn owned_part(t: TableV) -> Seq<u8> {
    if t.derive.clone {
        section(OWNED_LABEL, owned_body(t))
    } else {
        Seq::empty()
    }
}

fn push_owned_part(out: &mut Vec<u8>, t: &Table)
    ensures
        final(out)@ == old(out)@ + owned_part(t@),
{
    if t.derive.clone {
        let b = make_owned_body(t);
        push_section(out, OWNED_LABEL, &b);
    } else {
        assert(out@ =~= old(out)@ + Seq::<u8>::empty());
    }
}

/// The first part of the module: its header, and the sections that declare the
/// table's types.
pub open spec fn module_types(t: TableV) -> Seq<u8> {
    header_text(t) + section(IMPORTS_LABEL, imports_body(t)) + section(INDEXING_LABEL, indexing_body(t))
        + section(ROW_LABEL, row_body(t)) + section(TABLE_LABEL, TABLE_STRUCT.spec_bytes()) + owned_part(t)
        + section(LOCKS_LABEL, locks_body(t))
}

/// The sections that read the table and log its changes, chosen by whether it
/// is consistent.
pub open spec fn module_access(t: TableV) -> Seq<u8> {
    either_section(t.consistent, CONSISTENT_ITER_LABEL, CONSISTENT_ITER, ITER_LABEL, ITER)
        + either_section(t.consistent, COMMON_LABEL, CONSISTENT_COMMON, COMMON_LABEL, COMMON)
        + either_section(t.consistent, CHANGE_LABEL, CHANGE, FAKE_FLUSH_LABEL, FAKE_FLUSH)
        + section(SORTED_EVENTS_LABEL, sorted_events_body(t)) + cols_text(t.cols, t.name, t.sort_key, ColLine::ForeignAuto)
        + either_section(t.consistent, DROPS_LABEL, CONSISTENT_DROPS, DROPS_LABEL, DROPS)
        + either_section(t.consistent, EVENT_LOG_LABEL, EVENT_LOG, EVENT_IGNORE_LABEL, EVENT_IGNORE)
        + section(MUT_LABEL, MUT.spec_bytes())
}

/// The sections that change the table's rows, chosen by its guarantees.
pub open spec fn module_changes(t: TableV) -> Seq<u8> {
    opt_section(t.sorted, ORD_LABEL, ORD_ROW) + sort_key_text(t.sort_key)
        + opt_section(t.sorted || !t.immutable, SWAP_LABEL, SWAP)
        + opt_section(!t.immutable && t.derive.clone && !t.consistent, MERGE_LABEL, MERGE)
        + opt_section(!t.immutable && t.derive.clone && !t.sorted && !t.consistent, VISIT_LABEL, VISIT)
        + opt_section(!t.immutable && t.sorted && !t.consistent, PUSH_SORTED_LABEL, PUSH_SORTED)
        + opt_section(!(!t.immutable && t.sorted && !t.consistent) && !t.sorted, PUSH_LABEL, PUSH)
}

/// The last sections: locking the table, tracking other tables, naming the locks,
/// and saving for tables that are saved.
pub open spec fn module_locking(t: TableV) -> Seq<u8> {
    section(LOAD_LABEL, LOAD.spec_bytes()) + section(TRACKING_LABEL, tracking_body(t))
        + section(CONTEXT_LABEL, context_body(t)) + opt_section(t.save, SAVE_LABEL, SAVE)
}

/// The text of the module of the table described by `t`.
pub open spec fn module_text(t: TableV) -> Seq<u8> {
    module_types(t) + module_access(t) + module_changes(t) + module_locking(t)
}

fn push_module_types(out: &mut Vec<u8>, t: &Table)
    ensures
        final(out)@ == old(out)@ + module_types(t@),
{
    push_header(out, t);
    let b = make_imports_body(t);
    push_section(out, IMPORTS_LABEL, &b);
    let b = make_indexing_body(t);
    push_section(out, INDEXING_LABEL, &b);
    let b = make_row_body(t);
    push_section(out, ROW_LABEL, &b);
    push_fixed_section(out, TABLE_LABEL, TABLE_STRUCT);
    push_owned_part(out, t);
    let b = make_locks_body(t);
    push_section(out, LOCKS_LABEL, &b);
}

fn push_module_access(out: &mut Vec<u8>, t: &Table)
    ensures
        final(out)@ == old(out)@ + module_access(t@),
{
    push_either_section(out, t.consistent, CONSISTENT_ITER_LABEL, CONSISTENT_ITER, ITER_LABEL, ITER);
    push_either_section(out, t.consistent, COMMON_LABEL, CONSISTENT_COMMON, COMMON_LABEL, COMMON);
    push_either_section(out, t.consistent, CHANGE_LABEL, CHANGE, FAKE_FLUSH_LABEL, FAKE_FLUSH);
    let b = make_sorted_events_body(t);
    push_section(out, SORTED_EVENTS_LABEL, &b);
    push_cols(out, &t.cols, &t.name, &t.sort_key, &ColLine::ForeignAuto);
    push_either_section(out, t.consistent, DROPS_LABEL, CONSISTENT_DROPS, DROPS_LABEL, DROPS);
    push_either_section(out, t.consistent, EVENT_LOG_LABEL, EVENT_LOG, EVENT_IGNORE_LABEL, EVENT_IGNORE);
    push_fixed_section(out, MUT_LABEL, MUT);
}

fn push_module_changes(out: &mut Vec<u8>, t: &Table)
    ensures
        final(out)@ == old(out)@ + module_changes(t@),
{
    push_opt_section(out, t.sorted, ORD_LABEL, ORD_ROW);
    push_sort_key(out, &t.sort_key);
    proof {
        assert((match t.sort_key {
            None => None,
            Some(v) => Some(v@),
        }) == t@.sort_key);
    }
    push_opt_section(out, t.sorted || !t.immutable, SWAP_LABEL, SWAP);
    push_opt_section(out, !t.immutable && t.derive.clone && !t.consistent, MERGE_LABEL, MERGE);
    push_opt_section(out, !t.immutable && t.derive.clone && !t.sorted && !t.consistent, VISIT_LABEL, VISIT);
    let sorted_push = !t.immutable && t.sorted && !t.consistent;
    push_opt_section(out, sorted_push, PUSH_SORTED_LABEL, PUSH_SORTED);
    push_opt_section(out, !sorted_push && !t.sorted, PUSH_LABEL, PUSH);
}

fn push_module_locking(out: &mut Vec<u8>, t: &Table)
    ensures
        final(out)@ == old(out)@ + module_locking(t@),
{
    push_fixed_section(out, LOAD_LABEL, LOAD);
    let b = make_tracking_body(t);
    push_section(out, TRACKING_LABEL, &b);
    let b = make_context_body(t);
    push_section(out, CONTEXT_LABEL, &b);
    push_opt_section(out, t.save, SAVE_LABEL, SAVE);
}

/// Every column marked `#[foreign_auto]` is indexed or is the sort key, so that
/// its tracker has a removal to delegate to.
pub open spec fn foreign_auto_ok(t: TableV) -> bool {
    forall|k: int|
        0 <= k < t.cols.len() && (#[trigger] t.cols[k]).foreign_auto ==> t.cols[k].indexed || is_key(
            t.cols[k],
            t.sort_key,
        )
}

impl Table {
    /// Whether every column marked `#[foreign_auto]` is indexed or is the sort key.
    pub fn check_foreign_auto(&self) -> (r: bool)
        ensures
            r == foreign_auto_ok(self@),
    {
        let mut k: usize = 0;
        while k < self.cols.len()
            invariant
                0 <= k <= self.cols@.len(),
                forall|j: int|
                    0 <= j < k && (#[trigger] self@.cols[j]).foreign_auto ==> self@.cols[j].indexed || is_key(
                        self@.cols[j],
                        self@.sort_key,
                    ),
            decreases self.cols@.len() - k,
        {
            let c = &self.cols[k];
            assert(self@.cols[k as int] == c@);
            if c.foreign_auto && !c.indexed && !column_is_key(c, &self.sort_key) {
                return false;
            }
            k = k + 1;
        }
        true
    }
}

/// The text of the module of `table`: a header that records the configuration,
/// then the labelled sections that the table's guarantees call for. The table
/// must have passed its checks (compatible guarantees, and a domain, a name and
/// columns), and a column marked `#[foreign_auto]` must be indexed or be the
/// sort key.
pub fn table_module(table: &Table) -> (r: Vec<u8>)
    requires
        view_guarantees_ok(table@),
        view_validation_error(table@) is None,
        foreign_auto_ok(table@),
    ensures
        r@ == module_text(table@),
        exists|k: int| crate::output_laws::contains_at(r@, k, crate::output_laws::guarantees_decl(table@.consistent)),
        exists|k: int| crate::output_laws::contains_at(
            r@,
            k,
            crate::output_laws::constants_decl(table@.name, table@.domain, table@.version, table@.consistent),
        ),
{
    proof {
        crate::output_laws::lemma_module_declares_constants(table@);
    }
    let mut out: Vec<u8> = Vec::new();
    push_module_types(&mut out, table);
    push_module_access(&mut out, table);
    push_module_changes(&mut out, table);
    push_module_locking(&mut out, table);
    assert(out@ =~= module_text(table@));
    out
}

} // verus!
