//! Laws of the generated table modules: what their text says of the table.

use vstd::prelude::*;
use vstd::string::StringSliceAdditionalSpecFns;
use crate::parse::{TableV, all_digits, digits_value, is_digit, parse_u32_spec};
use crate::output::{
    ColLine, OWNED_LABEL, either_section, opt_section, sort_key_text, owned_body, sorted_events_body,
    tracking_body, context_body, NEWLINE, SECTION_CLOSE, SECTION_OPEN, INDEXING_LABEL, LOCKS_LABEL, ROW_LABEL, bool_text,
    cols_text, decimal, header_text, imports_body, indexing_body, locks_body, module_access, module_changes,
    module_locking, module_text, module_types, owned_part, row_body, section,
};
use crate::output_text::{
    CHANGE, CHANGE_LABEL, COMMON, COMMON_LABEL, CONSISTENT_COMMON, CONSISTENT_DROPS, CONSISTENT_ITER,
    CONSISTENT_ITER_LABEL, CONTEXT_LABEL, DROPS, DROPS_LABEL, EVENT_IGNORE, EVENT_IGNORE_LABEL, EVENT_LOG,
    EVENT_LOG_LABEL, FAKE_FLUSH, FAKE_FLUSH_LABEL, IMPORTS, IMPORTS_LABEL, ITER, ITER_LABEL, LOAD, LOAD_LABEL,
    MERGE, MERGE_LABEL, MUT, MUT_LABEL, ORD_LABEL, ORD_ROW, PUSH, PUSH_LABEL, PUSH_SORTED, PUSH_SORTED_LABEL,
    SAVE, SAVE_LABEL, SORTED_EVENTS_LABEL, SWAP, SWAP_LABEL, TABLE_LABEL, TABLE_STRUCT, TRACKING_LABEL, VISIT,
    VISIT_LABEL,
};

verus! {

/// `s` holds `w` at position `k`.
pub open spec fn contains_at(s: Seq<u8>, k: int, w: Seq<u8>) -> bool {
    &&& 0 <= k
    &&& k + w.len() <= s.len()
    &&& s.subrange(k, k + w.len()) == w
}

/// The declaration of the `GUARANTEES` constant of a table that is consistent
/// exactly when `consistent` holds.
pub open spec fn guarantees_decl(consistent: bool) -> Seq<u8> {
    ";\npub const GUARANTEES: Guarantee = Guarantee {\n    consistent: ".spec_bytes() + (if consistent {
        "true".spec_bytes()
    } else {
        "false".spec_bytes()
    }) + ",\n};".spec_bytes()
}

/// The decimal digits of a number are digits, and read back as the number: what
/// a `u32` is written as parses back to it.
pub proof fn lemma_decimal_reads_back(n: nat)
    ensures
        decimal(n).len() > 0,
        all_digits(decimal(n)),
        digits_value(decimal(n)) == n,
        n <= u32::MAX ==> parse_u32_spec(decimal(n)) == Some(n as u32),
    decreases n,
{
    let s = decimal(n);
    if n < 10 {
        assert(s.drop_last() =~= Seq::<u8>::empty());
        assert(s.last() == (48 + n) as u8);
        assert(digits_value(s) == digits_value(s.drop_last()) * 10 + (s.last() - 48));
    } else {
        lemma_decimal_reads_back(n / 10);
        let d = decimal(n / 10);
        assert(s == d + seq![(48 + n % 10) as u8]);
        assert(s.drop_last() =~= d);
        assert(s.last() == (48 + n % 10) as u8);
        assert(digits_value(s) == digits_value(d) * 10 + (s.last() - 48));
        assert(n == (n / 10) * 10 + n % 10) by {
            vstd::arithmetic::div_mod::lemma_fundamental_div_mod(n as int, 10);
        }
        assert forall|i: int| 0 <= i < s.len() implies is_digit(#[trigger] s[i]) by {
            if i < d.len() {
                assert(s[i] == d[i]);
            }
        }
    }
    assert(is_digit(s[0]));
}

/// Text held by `x` is held by `x` followed or preceded by more text.
pub proof fn lemma_contains_extend(x: Seq<u8>, y: Seq<u8>, k: int, w: Seq<u8>)
    requires
        contains_at(x, k, w),
    ensures
        contains_at(x + y, k, w),
        contains_at(y + x, y.len() + k, w),
{
    assert((x + y).subrange(k, k + w.len()) =~= x.subrange(k, k + w.len()));
    assert((y + x).subrange(y.len() + k, y.len() + k + w.len()) =~= x.subrange(k, k + w.len()));
}

/// The declarations of the table's constants: its name, domain, version and
/// guarantees, as the end of the imports gives them.
pub open spec fn constants_decl(name: Seq<u8>, domain: Seq<u8>, version: u32, consistent: bool) -> Seq<u8> {
    IMPORTS.spec_bytes() + name + "\");\npub const TABLE_DOMAIN: DomainName = super::".spec_bytes() + domain
        + ";\npub const VERSION: u64 = ".spec_bytes() + decimal(version as nat) + guarantees_decl(consistent)
}

/// Text of the imports section's body is text of the module.
#[verifier::spinoff_prover]
#[verifier::rlimit(40)]
pub proof fn lemma_imports_text_in_module(t: TableV, k0: int, w: Seq<u8>)
    requires
        contains_at(imports_body(t), k0, w),
    ensures
        exists|k: int| contains_at(module_text(t), k, w),
{
    let body = imports_body(t);
    let opening = SECTION_OPEN.spec_bytes() + IMPORTS_LABEL.spec_bytes() + NEWLINE.spec_bytes();
    lemma_contains_extend(body, opening, k0, w);
    let k1: int = opening.len() + k0;
    lemma_contains_extend(opening + body, SECTION_CLOSE.spec_bytes(), k1, w);
    let s1 = section(IMPORTS_LABEL, body);
    assert(s1 == opening + body + SECTION_CLOSE.spec_bytes());
    let h = header_text(t);
    lemma_contains_extend(s1, h, k1, w);
    let k: int = h.len() + k1;
    let p1 = h + s1;
    let p2 = p1 + section(INDEXING_LABEL, indexing_body(t));
    lemma_contains_extend(p1, section(INDEXING_LABEL, indexing_body(t)), k, w);
    let p3 = p2 + section(ROW_LABEL, row_body(t));
    lemma_contains_extend(p2, section(ROW_LABEL, row_body(t)), k, w);
    let p4 = p3 + section(TABLE_LABEL, TABLE_STRUCT.spec_bytes());
    lemma_contains_extend(p3, section(TABLE_LABEL, TABLE_STRUCT.spec_bytes()), k, w);
    let p5 = p4 + owned_part(t);
    lemma_contains_extend(p4, owned_part(t), k, w);
    let p6 = p5 + section(LOCKS_LABEL, locks_body(t));
    lemma_contains_extend(p5, section(LOCKS_LABEL, locks_body(t)), k, w);
    assert(module_types(t) == p6);
    lemma_contains_extend(p6, module_access(t), k, w);
    lemma_contains_extend(p6 + module_access(t), module_changes(t), k, w);
    lemma_contains_extend(p6 + module_access(t) + module_changes(t), module_locking(t), k, w);
    assert(contains_at(module_text(t), k, w));
}

/// The module of a table declares its constants from the table: `TABLE_NAME` is
/// the table's name, `TABLE_DOMAIN` its domain, `VERSION` its version in
/// decimal, and `GUARANTEES` consistent exactly when the table is consistent.
#[verifier::spinoff_prover]
#[verifier::rlimit(40)]
pub proof fn lemma_module_declares_constants(t: TableV)
    ensures
        exists|k: int| contains_at(module_text(t), k, constants_decl(t.name, t.domain, t.version, t.consistent)),
        exists|k: int| contains_at(module_text(t), k, guarantees_decl(t.consistent)),
{
    let decl = guarantees_decl(t.consistent);
    let pre = IMPORTS.spec_bytes() + t.name + "\");\npub const TABLE_DOMAIN: DomainName = super::".spec_bytes()
        + t.domain + ";\npub const VERSION: u64 = ".spec_bytes() + decimal(t.version as nat);
    let g = ";\npub const GUARANTEES: Guarantee = Guarantee {\n    consistent: ".spec_bytes();
    let bv = bool_text(t.consistent);
    let w1 = ",\n};".spec_bytes();
    let w2 = "\n\n#[allow(non_upper_case_globals)]\nmod column_format {\n".spec_bytes();
    let cols = cols_text(t.cols, t.name, t.sort_key, ColLine::Format);
    let close = "}".spec_bytes();
    let head = ((pre + g) + bv) + w1;
    let all = constants_decl(t.name, t.domain, t.version, t.consistent);
    assert(decl == (g + bv) + w1);
    assert(head.subrange(pre.len() as int, (pre.len() + decl.len()) as int) =~= decl);
    assert(all =~= head);
    assert(head.subrange(0, all.len() as int) =~= all);
    let body = imports_body(t);
    assert(body == head + w2 + cols + close);
    assert(body == head + (w2 + cols + close)) by {
        assert(body =~= head + (w2 + cols + close));
    }
    lemma_contains_extend(head, w2 + cols + close, pre.len() as int, decl);
    lemma_contains_extend(head, w2 + cols + close, 0, all);
    lemma_imports_text_in_module(t, pre.len() as int, decl);
    lemma_imports_text_in_module(t, 0, all);
}

/// A sequence holds itself.
pub proof fn lemma_contains_whole(x: Seq<u8>)
    ensures
        contains_at(x, 0, x),
{
    assert(x.subrange(0, x.len() as int) =~= x);
}

/// Text of one of four parts is text of the four together.
pub proof fn lemma_in_four(a: Seq<u8>, b: Seq<u8>, c: Seq<u8>, d: Seq<u8>, which: int, k0: int, w: Seq<u8>) -> (k: int)
    requires
        which == 0 ==> contains_at(a, k0, w),
        which == 1 ==> contains_at(b, k0, w),
        which == 2 ==> contains_at(c, k0, w),
        which == 3 ==> contains_at(d, k0, w),
        0 <= which < 4,
    ensures
        contains_at(a + b + c + d, k, w),
{
    if which == 0 {
        lemma_contains_extend(a, b, k0, w);
        lemma_contains_extend(a + b, c, k0, w);
        lemma_contains_extend(a + b + c, d, k0, w);
        k0
    } else if which == 1 {
        lemma_contains_extend(b, a, k0, w);
        let k: int = a.len() + k0;
        lemma_contains_extend(a + b, c, k, w);
        lemma_contains_extend(a + b + c, d, k, w);
        k
    } else if which == 2 {
        lemma_contains_extend(c, a + b, k0, w);
        let k: int = (a + b).len() + k0;
        lemma_contains_extend(a + b + c, d, k, w);
        k
    } else {
        lemma_contains_extend(d, a + b + c, k0, w);
        (a + b + c).len() + k0
    }
}

/// Text of the access sections is text of the module.
#[verifier::spinoff_prover]
pub proof fn lemma_access_text_in_module(t: TableV, k0: int, w: Seq<u8>)
    requires
        contains_at(module_access(t), k0, w),
    ensures
        exists|k: int| contains_at(module_text(t), k, w),
{
    let k = lemma_in_four(module_types(t), module_access(t), module_changes(t), module_locking(t), 1, k0, w);
    assert(contains_at(module_text(t), k, w));
}

/// Text of the sections that change rows is text of the module.
#[verifier::spinoff_prover]
pub proof fn lemma_changes_text_in_module(t: TableV, k0: int, w: Seq<u8>)
    requires
        contains_at(module_changes(t), k0, w),
    ensures
        exists|k: int| contains_at(module_text(t), k, w),
{
    let k = lemma_in_four(module_types(t), module_access(t), module_changes(t), module_locking(t), 2, k0, w);
    assert(contains_at(module_text(t), k, w));
}

/// Text of the last sections is text of the module.
#[verifier::spinoff_prover]
pub proof fn lemma_locking_text_in_module(t: TableV, k0: int, w: Seq<u8>)
    requires
        contains_at(module_locking(t), k0, w),
    ensures
        exists|k: int| contains_at(module_text(t), k, w),
{
    let k = lemma_in_four(module_types(t), module_access(t), module_changes(t), module_locking(t), 3, k0, w);
    assert(contains_at(module_text(t), k, w));
}

/// Text of the type sections is text of the module.
#[verifier::spinoff_prover]
pub proof fn lemma_types_text_in_module(t: TableV, k0: int, w: Seq<u8>)
    requires
        contains_at(module_types(t), k0, w),
    ensures
        exists|k: int| contains_at(module_text(t), k, w),
{
    let k = lemma_in_four(module_types(t), module_access(t), module_changes(t), module_locking(t), 0, k0, w);
    assert(contains_at(module_text(t), k, w));
}

/// The module holds the sections that the table's guarantees call for: change
/// tracking and event logging for a consistent table, a fake flush and ignored
/// events otherwise; the ordering of rows for a sorted table; pushing rows for a
/// table that is not sorted, and merging them in for a sorted table that is
/// neither immutable nor consistent; the copy of a row of references for rows
/// that derive `Clone`; saving for a saved table.
#[verifier::spinoff_prover]
#[verifier::rlimit(40)]
pub proof fn lemma_module_sections(t: TableV)
    ensures
        t.consistent ==> exists|k: int| contains_at(module_text(t), k, section(CHANGE_LABEL, CHANGE.spec_bytes())),
        !t.consistent ==> exists|k: int| contains_at(module_text(t), k, section(FAKE_FLUSH_LABEL, FAKE_FLUSH.spec_bytes())),
        t.consistent ==> exists|k: int| contains_at(module_text(t), k, section(EVENT_LOG_LABEL, EVENT_LOG.spec_bytes())),
        !t.consistent ==> exists|k: int|
            contains_at(module_text(t), k, section(EVENT_IGNORE_LABEL, EVENT_IGNORE.spec_bytes())),
        t.sorted ==> exists|k: int| contains_at(module_text(t), k, section(ORD_LABEL, ORD_ROW.spec_bytes())),
        !t.sorted ==> exists|k: int| contains_at(module_text(t), k, section(PUSH_LABEL, PUSH.spec_bytes())),
        !t.immutable && t.sorted && !t.consistent ==> exists|k: int|
            contains_at(module_text(t), k, section(PUSH_SORTED_LABEL, PUSH_SORTED.spec_bytes())),
        t.derive.clone ==> exists|k: int| contains_at(module_text(t), k, section(OWNED_LABEL, owned_body(t))),
        t.save ==> exists|k: int| contains_at(module_text(t), k, section(SAVE_LABEL, SAVE.spec_bytes())),
{
    // The access sections.
    let a1 = either_section(t.consistent, CONSISTENT_ITER_LABEL, CONSISTENT_ITER, ITER_LABEL, ITER);
    let a2 = either_section(t.consistent, COMMON_LABEL, CONSISTENT_COMMON, COMMON_LABEL, COMMON);
    let a3 = either_section(t.consistent, CHANGE_LABEL, CHANGE, FAKE_FLUSH_LABEL, FAKE_FLUSH);
    let a4 = section(SORTED_EVENTS_LABEL, sorted_events_body(t));
    let a5 = cols_text(t.cols, t.name, t.sort_key, ColLine::ForeignAuto);
    let a6 = either_section(t.consistent, DROPS_LABEL, CONSISTENT_DROPS, DROPS_LABEL, DROPS);
    let a7 = either_section(t.consistent, EVENT_LOG_LABEL, EVENT_LOG, EVENT_IGNORE_LABEL, EVENT_IGNORE);
    let a8 = section(MUT_LABEL, MUT.spec_bytes());
    assert(module_access(t) == a1 + a2 + a3 + a4 + a5 + a6 + a7 + a8);
    lemma_contains_whole(a3);
    lemma_contains_extend(a3, a1 + a2, 0, a3);
    let k3: int = (a1 + a2).len() as int;
    lemma_contains_extend(a1 + a2 + a3, a4, k3, a3);
    lemma_contains_extend(a1 + a2 + a3 + a4, a5, k3, a3);
    lemma_contains_extend(a1 + a2 + a3 + a4 + a5, a6, k3, a3);
    lemma_contains_extend(a1 + a2 + a3 + a4 + a5 + a6, a7, k3, a3);
    lemma_contains_extend(a1 + a2 + a3 + a4 + a5 + a6 + a7, a8, k3, a3);
    lemma_access_text_in_module(t, k3, a3);
    lemma_contains_whole(a7);
    let pre7 = a1 + a2 + a3 + a4 + a5 + a6;
    lemma_contains_extend(a7, pre7, 0, a7);
    lemma_contains_extend(pre7 + a7, a8, pre7.len() as int, a7);
    lemma_access_text_in_module(t, pre7.len() as int, a7);
    // The sections that change rows.
    let c1 = opt_section(t.sorted, ORD_LABEL, ORD_ROW);
    let c2 = sort_key_text(t.sort_key);
    let c3 = opt_section(t.sorted || !t.immutable, SWAP_LABEL, SWAP);
    let c4 = opt_section(!t.immutable && t.derive.clone && !t.consistent, MERGE_LABEL, MERGE);
    let c5 = opt_section(!t.immutable && t.derive.clone && !t.sorted && !t.consistent, VISIT_LABEL, VISIT);
    let c6 = opt_section(!t.immutable && t.sorted && !t.consistent, PUSH_SORTED_LABEL, PUSH_SORTED);
    let c7 = opt_section(!(!t.immutable && t.sorted && !t.consistent) && !t.sorted, PUSH_LABEL, PUSH);
    assert(module_changes(t) == c1 + c2 + c3 + c4 + c5 + c6 + c7);
    lemma_contains_whole(c1);
    lemma_contains_extend(c1, c2, 0, c1);
    lemma_contains_extend(c1 + c2, c3, 0, c1);
    lemma_contains_extend(c1 + c2 + c3, c4, 0, c1);
    lemma_contains_extend(c1 + c2 + c3 + c4, c5, 0, c1);
    lemma_contains_extend(c1 + c2 + c3 + c4 + c5, c6, 0, c1);
    lemma_contains_extend(c1 + c2 + c3 + c4 + c5 + c6, c7, 0, c1);
    lemma_changes_text_in_module(t, 0, c1);
    lemma_contains_whole(c6);
    let pre6 = c1 + c2 + c3 + c4 + c5;
    lemma_contains_extend(c6, pre6, 0, c6);
    lemma_contains_extend(pre6 + c6, c7, pre6.len() as int, c6);
    lemma_changes_text_in_module(t, pre6.len() as int, c6);
    lemma_contains_whole(c7);
    let pre7c = c1 + c2 + c3 + c4 + c5 + c6;
    lemma_contains_extend(c7, pre7c, 0, c7);
    lemma_changes_text_in_module(t, pre7c.len() as int, c7);
    // The last sections.
    let l1 = section(LOAD_LABEL, LOAD.spec_bytes());
    let l2 = section(TRACKING_LABEL, tracking_body(t));
    let l3 = section(CONTEXT_LABEL, context_body(t));
    let l4 = opt_section(t.save, SAVE_LABEL, SAVE);
    assert(module_locking(t) == l1 + l2 + l3 + l4);
    lemma_contains_whole(l4);
    lemma_contains_extend(l4, l1 + l2 + l3, 0, l4);
    lemma_locking_text_in_module(t, (l1 + l2 + l3).len() as int, l4);
    // The copy of a row of references, among the type sections.
    let h = header_text(t);
    let p4 = h + section(IMPORTS_LABEL, imports_body(t)) + section(INDEXING_LABEL, indexing_body(t))
        + section(ROW_LABEL, row_body(t)) + section(TABLE_LABEL, TABLE_STRUCT.spec_bytes());
    let o = owned_part(t);
    let l = section(LOCKS_LABEL, locks_body(t));
    assert(module_types(t) == p4 + o + l);
    lemma_contains_whole(o);
    lemma_contains_extend(o, p4, 0, o);
    lemma_contains_extend(p4 + o, l, p4.len() as int, o);
    lemma_types_text_in_module(t, p4.len() as int, o);
}

} // verus!
