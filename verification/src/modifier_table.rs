//! The other form of `table!`, whose table is configured by modifiers:
//!
//! ```text
//! [#[attr]]* [pub] name { column: [Element; Column], ... }
//! [impl { Modifier; Modifier(arg, ...); RowId = Type; ... }]
//! [mod { code }]
//! ```
//!
//! The source is read from bytes (with the lexer of `parse`) into a `Table`, and
//! `validate` checks it.

use vstd::prelude::*;
use vstd::string::StringSliceAdditionalSpecFns;
use crate::expander::Serializer;
use crate::parse::{
    ColSyn, ColSyntax, Tok, Token, attr_toks, bytes_are, col_syns, copy_tokens, is_close, is_open, is_pub_word,
    is_punct, lex, lex_spec, parse_attrs, parse_attrs_exec, parse_cols, parse_cols_exec, pub_word, scan,
    scan_end, toks, word_of,
};

verus! {

/// A column: its attributes, its name, and the tokens of its element type and of
/// its column type.
pub type Col = ColSyntax;

/// A table configured by modifiers.
pub struct Table {
    pub attrs: Vec<Vec<Token>>,
    pub is_pub: bool,
    pub name: Vec<u8>,
    pub cols: Vec<Col>,
    pub debug: bool,
    pub version: usize,
    pub row_id: Vec<Token>,
    pub track_modify: bool,
    pub track_rm: bool,
    pub sync_rm: Option<Vec<u8>>,
    pub free_list: bool,
    pub encode: Vec<Serializer>,
    pub decode: Vec<Serializer>,
    pub cascade_deletions: Vec<Vec<u8>>,
    pub generic_sort: bool,
    pub sort_by: Vec<Vec<u8>>,
    pub static_data: bool,
    pub mod_code: Option<Vec<Token>>,
}

/// What the modifiers set.
pub struct Mods {
    pub debug: bool,
    pub row_id: Seq<Tok>,
    pub track_modify: bool,
    pub track_rm: bool,
    pub free_list: bool,
    pub encode: Seq<Serializer>,
    pub decode: Seq<Serializer>,
    pub cascade_deletions: Seq<Seq<u8>>,
    pub generic_sort: bool,
    pub sort_by: Seq<Seq<u8>>,
    pub static_data: bool,
}

/// A table's description, as values.
pub struct TableV {
    pub attrs: Seq<Seq<Tok>>,
    pub is_pub: bool,
    pub name: Seq<u8>,
    pub cols: Seq<ColSyn>,
    pub version: usize,
    pub sync_rm: Option<Seq<u8>>,
    pub mods: Mods,
    pub mod_code: Option<Seq<Tok>>,
}

/// The bytes of each entry.
pub open spec fn byte_seqs(v: Seq<Vec<u8>>) -> Seq<Seq<u8>> {
    v.map_values(|w: Vec<u8>| w@)
}

impl Table {
    /// The modifiers' part of the table.
    pub open spec fn mods(&self) -> Mods {
        Mods {
            debug: self.debug,
            row_id: toks(self.row_id@),
            track_modify: self.track_modify,
            track_rm: self.track_rm,
            free_list: self.free_list,
            encode: self.encode@,
            decode: self.decode@,
            cascade_deletions: byte_seqs(self.cascade_deletions@),
            generic_sort: self.generic_sort,
            sort_by: byte_seqs(self.sort_by@),
            static_data: self.static_data,
        }
    }
}

impl View for Table {
    type V = TableV;

    open spec fn view(&self) -> TableV {
        TableV {
            attrs: attr_toks(self.attrs@),
            is_pub: self.is_pub,
            name: self.name@,
            cols: col_syns(self.cols@),
            version: self.version,
            sync_rm: match self.sync_rm {
                Some(v) => Some(v@),
                None => None,
            },
            mods: self.mods(),
            mod_code: match self.mod_code {
                Some(v) => Some(toks(v@)),
                None => None,
            },
        }
    }
}

/// The token `usize`.
pub open spec fn usize_tok() -> Tok {
    Tok::Word("usize".spec_bytes())
}

/// The modifiers of a table that names none: debug output, `usize` row ids.
pub open spec fn mods_init() -> Mods {
    Mods {
        debug: true,
        row_id: seq![usize_tok()],
        track_modify: false,
        track_rm: false,
        free_list: false,
        encode: Seq::empty(),
        decode: Seq::empty(),
        cascade_deletions: Seq::empty(),
        generic_sort: false,
        sort_by: Seq::empty(),
        static_data: false,
    }
}

impl Table {
    /// A table with no columns and the default modifiers: debug output, `usize`
    /// row ids, version 1.
    pub fn new() -> (r: Self)
        ensures
            r@.attrs.len() == 0,
            !r.is_pub,
            r.name@.len() == 0,
            r.cols@.len() == 0,
            r.version == 1,
            r.sync_rm is None,
            r.mods() == mods_init(),
            r.mod_code is None,
    {
        let mut row_id: Vec<Token> = Vec::new();
        let u = "usize".as_bytes();
        let mut w: Vec<u8> = Vec::new();
        let mut k: usize = 0;
        while k < u.len()
            invariant
                k <= u@.len(),
                u@ == "usize".spec_bytes(),
                w@ == u@.subrange(0, k as int),
            decreases u@.len() - k,
        {
            w.push(u[k]);
            k = k + 1;
        }
        assert(w@ =~= "usize".spec_bytes());
        row_id.push(Token::Word(w));
        let r = Table {
            attrs: Vec::new(),
            is_pub: false,
            name: Vec::new(),
            cols: Vec::new(),
            debug: true,
            version: 1,
            row_id,
            track_modify: false,
            track_rm: false,
            sync_rm: None,
            free_list: false,
            encode: Vec::new(),
            decode: Vec::new(),
            cascade_deletions: Vec::new(),
            generic_sort: false,
            sort_by: Vec::new(),
            static_data: false,
            mod_code: None,
        };
        assert(r.mods().row_id =~= seq![usize_tok()]);
        assert(r.mods().cascade_deletions =~= Seq::<Seq<u8>>::empty());
        assert(r.mods().sort_by =~= Seq::<Seq<u8>>::empty());
        assert(r@.attrs =~= Seq::<Seq<Tok>>::empty());
        r
    }
}

/// What can go wrong reading the source of a `table!` of this form.
#[derive(Debug, Clone, Copy, PartialEq, Eq, Structural)]
pub enum ReadError {
    /// The bytes do not split into tokens.
    Lex,
    /// The tokens do not follow the grammar.
    Syntax,
    /// `Encode` or `Decode` names a serializer other than `Rustc` and `Serde`.
    UnknownSerializer,
    /// A modifier has an unknown name.
    UnknownModifier,
    /// `mod` is not followed by a delimited block of code.
    BadModuleCode,
}

/// The errors that stand for a programming error rather than a malformed source:
/// on these the table is not to be read at all.
pub open spec fn is_fatal(e: ReadError) -> bool {
    ||| e is UnknownSerializer
    ||| e is UnknownModifier
    ||| e is BadModuleCode
}

/// The words of a parenthesized list read from `q`, just after `(`, appended to
/// `acc`: words separated by commas, with an optional comma after the last one,
/// up to `)`; and the position after the `)`.
pub open spec fn words_from(t: Seq<Tok>, q: int, acc: Seq<Seq<u8>>) -> Option<(Seq<Seq<u8>>, int)>
    decreases t.len() - q,
{
    if q < 0 || q >= t.len() {
        None
    } else if t[q] == Tok::Punct(41) {
        Some((acc, q + 1))
    } else {
        match t[q] {
            Tok::Word(w) => if q + 1 < t.len() && t[q + 1] == Tok::Punct(44) {
                words_from(t, q + 2, acc.push(w))
            } else if q + 1 < t.len() && t[q + 1] == Tok::Punct(41) {
                Some((acc.push(w), q + 2))
            } else {
                None
            },
            _ => None,
        }
    }
}

/// The argument list of a modifier at `p`: none if no `(` stands there.
pub open spec fn arglist(t: Seq<Tok>, p: int) -> Option<(Seq<Seq<u8>>, int)> {
    if 0 <= p < t.len() && t[p] == Tok::Punct(40) {
        words_from(t, p + 1, Seq::empty())
    } else {
        Some((Seq::empty(), p))
    }
}

pub proof fn lemma_words_from(t: Seq<Tok>, q: int, acc: Seq<Seq<u8>>)
    ensures
        words_from(t, q, acc) matches Some((_, e)) ==> q < e <= t.len(),
    decreases t.len() - q,
{
    if 0 <= q < t.len() && t[q] != Tok::Punct(41) {
        if let Tok::Word(w) = t[q] {
            if q + 1 < t.len() && t[q + 1] == Tok::Punct(44) {
                lemma_words_from(t, q + 2, acc.push(w));
            }
        }
    }
}

/// The serializers named by `args`, appended to `acc`; `None` at the first name
/// that is neither `Rustc` nor `Serde`.
pub open spec fn serializers(args: Seq<Seq<u8>>, acc: Seq<Serializer>) -> Option<Seq<Serializer>>
    decreases args.len(),
{
    if args.len() == 0 {
        Some(acc)
    } else if args[0] == "Rustc".spec_bytes() {
        serializers(args.drop_first(), acc.push(Serializer::Rustc))
    } else if args[0] == "Serde".spec_bytes() {
        serializers(args.drop_first(), acc.push(Serializer::Serde))
    } else {
        None
    }
}

/// The serializers that `Encode` or `Decode` with the arguments `args` add to
/// `acc`: `Rustc` when there are none.
pub open spec fn serializers_of(args: Seq<Seq<u8>>, acc: Seq<Serializer>) -> Option<Seq<Serializer>> {
    if args.len() == 0 {
        Some(acc.push(Serializer::Rustc))
    } else {
        serializers(args, acc)
    }
}

/// What the modifier named `n`, whose arguments start at `p`, does to `m`, and the
/// position after its arguments.
pub open spec fn apply_mod(t: Seq<Tok>, p: int, n: Seq<u8>, m: Mods) -> Result<(Mods, int), ReadError> {
    if n == "RowId".spec_bytes() {
        if 0 <= p < t.len() && t[p] == Tok::Punct(61) {
            let e = scan_end(t, p + 1, 0, Some(59));
            if e > p + 1 {
                Ok((Mods { row_id: t.subrange(p + 1, e), ..m }, e))
            } else {
                Err(ReadError::Syntax)
            }
        } else {
            Err(ReadError::Syntax)
        }
    } else if n == "NoDebug".spec_bytes() {
        Ok((Mods { debug: false, ..m }, p))
    } else if n == "TrackRm".spec_bytes() {
        Ok((Mods { track_rm: true, ..m }, p))
    } else if n == "TrackModify".spec_bytes() {
        Ok((Mods { track_modify: true, ..m }, p))
    } else if n == "GenericSort".spec_bytes() {
        Ok((Mods { generic_sort: true, ..m }, p))
    } else if n == "FreeList".spec_bytes() {
        Ok((Mods { free_list: true, ..m }, p))
    } else if n == "Static".spec_bytes() {
        Ok((Mods { static_data: true, ..m }, p))
    } else if n == "ForeignCascade".spec_bytes() || n == "SortBy".spec_bytes() {
        match arglist(t, p) {
            None => Err(ReadError::Syntax),
            Some((args, q)) => if n == "SortBy".spec_bytes() {
                Ok((Mods { sort_by: m.sort_by + args, ..m }, q))
            } else {
                Ok((Mods { cascade_deletions: m.cascade_deletions + args, ..m }, q))
            },
        }
    } else if n == "Encode".spec_bytes() || n == "Decode".spec_bytes() {
        match arglist(t, p) {
            None => Err(ReadError::Syntax),
            Some((args, q)) => if n == "Encode".spec_bytes() {
                match serializers_of(args, m.encode) {
                    Some(e) => Ok((Mods { encode: e, ..m }, q)),
                    None => Err(ReadError::UnknownSerializer),
                }
            } else {
                match serializers_of(args, m.decode) {
                    Some(d) => Ok((Mods { decode: d, ..m }, q)),
                    None => Err(ReadError::UnknownSerializer),
                }
            },
        }
    } else {
        Err(ReadError::UnknownModifier)
    }
}

pub proof fn lemma_apply_mod(t: Seq<Tok>, p: int, n: Seq<u8>, m: Mods)
    requires
        0 <= p <= t.len(),
    ensures
        apply_mod(t, p, n, m) matches Ok((_, q)) ==> p <= q <= t.len(),
{
    if 0 <= p < t.len() {
        crate::parse::lemma_scan_end(t, p + 1, 0, Some(59));
        if t[p] == Tok::Punct(40) {
            lemma_words_from(t, p + 1, Seq::empty());
        }
    }
}

/// The modifiers read from `i`, inside `impl { ... }`, applied in order to `m`: each
/// is a name, its arguments and `;`, up to `}`; and the position after the `}`.
pub open spec fn read_mods(t: Seq<Tok>, i: int, m: Mods) -> Result<(Mods, int), ReadError>
    decreases t.len() - i,
{
    if i < 0 || i >= t.len() {
        Err(ReadError::Syntax)
    } else if t[i] == Tok::Punct(125) {
        Ok((m, i + 1))
    } else {
        match t[i] {
            Tok::Word(n) => match apply_mod(t, i + 1, n, m) {
                Err(e) => Err(e),
                Ok((m2, q)) => {
                    proof {
                        lemma_apply_mod(t, i + 1, n, m);
                    }
                    if q < t.len() && t[q] == Tok::Punct(59) {
                        read_mods(t, q + 1, m2)
                    } else {
                        Err(ReadError::Syntax)
                    }
                },
            },
            _ => Err(ReadError::Syntax),
        }
    }
}

/// The bytes of the modifier names: they differ from each other.
pub proof fn lemma_modifier_words()
    ensures
        "RowId".spec_bytes() == seq![82u8, 111u8, 119u8, 73u8, 100u8],
        "NoDebug".spec_bytes() == seq![78u8, 111u8, 68u8, 101u8, 98u8, 117u8, 103u8],
        "TrackRm".spec_bytes() == seq![84u8, 114u8, 97u8, 99u8, 107u8, 82u8, 109u8],
        "TrackModify".spec_bytes() == seq![84u8, 114u8, 97u8, 99u8, 107u8, 77u8, 111u8, 100u8, 105u8, 102u8, 121u8],
        "GenericSort".spec_bytes() == seq![71u8, 101u8, 110u8, 101u8, 114u8, 105u8, 99u8, 83u8, 111u8, 114u8, 116u8],
        "FreeList".spec_bytes() == seq![70u8, 114u8, 101u8, 101u8, 76u8, 105u8, 115u8, 116u8],
        "Static".spec_bytes() == seq![83u8, 116u8, 97u8, 116u8, 105u8, 99u8],
        "ForeignCascade".spec_bytes() == seq![70u8, 111u8, 114u8, 101u8, 105u8, 103u8, 110u8, 67u8, 97u8, 115u8, 99u8, 97u8, 100u8, 101u8],
        "SortBy".spec_bytes() == seq![83u8, 111u8, 114u8, 116u8, 66u8, 121u8],
        "Encode".spec_bytes() == seq![69u8, 110u8, 99u8, 111u8, 100u8, 101u8],
        "Decode".spec_bytes() == seq![68u8, 101u8, 99u8, 111u8, 100u8, 101u8],
{
    broadcast use vstd::string::is_ascii_spec_bytes;
    reveal_strlit("RowId");
    reveal_strlit("NoDebug");
    reveal_strlit("TrackRm");
    reveal_strlit("TrackModify");
    reveal_strlit("GenericSort");
    reveal_strlit("FreeList");
    reveal_strlit("Static");
    assert(vstd::string::is_ascii("RowId"));
    assert("RowId".spec_bytes() =~= seq![82u8, 111u8, 119u8, 73u8, 100u8]);
    assert(vstd::string::is_ascii("NoDebug"));
    assert("NoDebug".spec_bytes() =~= seq![78u8, 111u8, 68u8, 101u8, 98u8, 117u8, 103u8]);
    assert(vstd::string::is_ascii("TrackRm"));
    assert("TrackRm".spec_bytes() =~= seq![84u8, 114u8, 97u8, 99u8, 107u8, 82u8, 109u8]);
    assert(vstd::string::is_ascii("TrackModify"));
    assert("TrackModify".spec_bytes() =~= seq![84u8, 114u8, 97u8, 99u8, 107u8, 77u8, 111u8, 100u8, 105u8, 102u8, 121u8]);
    assert(vstd::string::is_ascii("GenericSort"));
    assert("GenericSort".spec_bytes() =~= seq![71u8, 101u8, 110u8, 101u8, 114u8, 105u8, 99u8, 83u8, 111u8, 114u8, 116u8]);
    assert(vstd::string::is_ascii("FreeList"));
    assert("FreeList".spec_bytes() =~= seq![70u8, 114u8, 101u8, 101u8, 76u8, 105u8, 115u8, 116u8]);
    assert(vstd::string::is_ascii("Static"));
    assert("Static".spec_bytes() =~= seq![83u8, 116u8, 97u8, 116u8, 105u8, 99u8]);
    reveal_strlit("ForeignCascade");
    reveal_strlit("SortBy");
    reveal_strlit("Encode");
    reveal_strlit("Decode");
    assert(vstd::string::is_ascii("ForeignCascade"));
    assert("ForeignCascade".spec_bytes() =~= seq![70u8, 111u8, 114u8, 101u8, 105u8, 103u8, 110u8, 67u8, 97u8, 115u8, 99u8, 97u8, 100u8, 101u8]);
    assert(vstd::string::is_ascii("SortBy"));
    assert("SortBy".spec_bytes() =~= seq![83u8, 111u8, 114u8, 116u8, 66u8, 121u8]);
    assert(vstd::string::is_ascii("Encode"));
    assert("Encode".spec_bytes() =~= seq![69u8, 110u8, 99u8, 111u8, 100u8, 101u8]);
    assert(vstd::string::is_ascii("Decode"));
    assert("Decode".spec_bytes() =~= seq![68u8, 101u8, 99u8, 111u8, 100u8, 101u8]);
}

/// At `i` stands the modifier `word;` with no arguments.
pub open spec fn bare_modifier_at(t: Seq<Tok>, i: int, word: &str) -> bool {
    &&& 0 <= i
    &&& i + 1 < t.len()
    &&& t[i] == Tok::Word(word.spec_bytes())
    &&& t[i + 1] == Tok::Punct(59)
}

/// The flags of `m` that modifiers turn on (or, for debug output, off) are all in
/// the same state in `m2` or further along.
pub open spec fn flags_kept(m: Mods, m2: Mods) -> bool {
    &&& m.generic_sort ==> m2.generic_sort
    &&& m.track_rm ==> m2.track_rm
    &&& m.track_modify ==> m2.track_modify
    &&& m.free_list ==> m2.free_list
    &&& m.static_data ==> m2.static_data
    &&& !m.debug ==> !m2.debug
    &&& m.sort_by.len() <= m2.sort_by.len() && m2.sort_by.take(m.sort_by.len() as int) == m.sort_by
    &&& m.cascade_deletions.len() <= m2.cascade_deletions.len() && m2.cascade_deletions.take(
        m.cascade_deletions.len() as int,
    ) == m.cascade_deletions
    &&& m.encode.len() <= m2.encode.len() && m2.encode.take(m.encode.len() as int) == m.encode
    &&& m.decode.len() <= m2.decode.len() && m2.decode.take(m.decode.len() as int) == m.decode
}

/// At `i` stands the modifier `word(arg);` with one argument.
pub open spec fn one_arg_modifier_at(t: Seq<Tok>, i: int, word: &str, arg: Seq<u8>) -> bool {
    &&& 0 <= i
    &&& i + 4 < t.len()
    &&& t[i] == Tok::Word(word.spec_bytes())
    &&& t[i + 1] == Tok::Punct(40)
    &&& t[i + 2] == Tok::Word(arg)
    &&& t[i + 3] == Tok::Punct(41)
    &&& t[i + 4] == Tok::Punct(59)
}

/// Serializers are added after those already there.
pub proof fn lemma_serializers_prefix(args: Seq<Seq<u8>>, acc: Seq<Serializer>)
    ensures
        serializers(args, acc) matches Some(r) ==> acc.len() <= r.len() && r.take(acc.len() as int) == acc,
    decreases args.len(),
{
    if args.len() == 0 {
        assert(acc.take(acc.len() as int) =~= acc);
    } else if args[0] == "Rustc".spec_bytes() {
        lemma_serializers_prefix(args.drop_first(), acc.push(Serializer::Rustc));
        if let Some(r) = serializers(args, acc) {
            assert(r.take(acc.len() as int) =~= r.take((acc.len() + 1) as int).take(acc.len() as int));
            assert(acc.push(Serializer::Rustc).take(acc.len() as int) =~= acc);
        }
    } else if args[0] == "Serde".spec_bytes() {
        lemma_serializers_prefix(args.drop_first(), acc.push(Serializer::Serde));
        if let Some(r) = serializers(args, acc) {
            assert(r.take(acc.len() as int) =~= r.take((acc.len() + 1) as int).take(acc.len() as int));
            assert(acc.push(Serializer::Serde).take(acc.len() as int) =~= acc);
        }
    }
}

/// A modifier keeps what earlier ones did.
pub proof fn lemma_apply_mod_keeps(t: Seq<Tok>, p: int, n: Seq<u8>, m: Mods)
    ensures
        apply_mod(t, p, n, m) matches Ok((m1, _)) ==> flags_kept(m, m1),
{
    lemma_modifier_words();
    if let Ok((m1, _)) = apply_mod(t, p, n, m) {
        assert(m.sort_by.take(m.sort_by.len() as int) =~= m.sort_by);
        assert(m.cascade_deletions.take(m.cascade_deletions.len() as int) =~= m.cascade_deletions);
        assert(m.encode.take(m.encode.len() as int) =~= m.encode);
        assert(m.decode.take(m.decode.len() as int) =~= m.decode);
        if let Some((args, _)) = arglist(t, p) {
            assert((m.sort_by + args).take(m.sort_by.len() as int) =~= m.sort_by);
            assert((m.cascade_deletions + args).take(m.cascade_deletions.len() as int) =~= m.cascade_deletions);
            lemma_serializers_prefix(args, m.encode);
            lemma_serializers_prefix(args, m.decode);
            assert(m.encode.push(Serializer::Rustc).take(m.encode.len() as int) =~= m.encode);
            assert(m.decode.push(Serializer::Rustc).take(m.decode.len() as int) =~= m.decode);
        }
    }
}

/// Modifiers keep themselves.
pub proof fn lemma_flags_kept_refl(a: Mods)
    ensures
        flags_kept(a, a),
{
    assert(a.sort_by.take(a.sort_by.len() as int) =~= a.sort_by);
    assert(a.cascade_deletions.take(a.cascade_deletions.len() as int) =~= a.cascade_deletions);
    assert(a.encode.take(a.encode.len() as int) =~= a.encode);
    assert(a.decode.take(a.decode.len() as int) =~= a.decode);
}

/// Keeping is transitive.
pub proof fn lemma_flags_kept_trans(a: Mods, b: Mods, c: Mods)
    requires
        flags_kept(a, b),
        flags_kept(b, c),
    ensures
        flags_kept(a, c),
{
    assert(c.sort_by.take(a.sort_by.len() as int) =~= c.sort_by.take(b.sort_by.len() as int).take(a.sort_by.len() as int));
    assert(c.cascade_deletions.take(a.cascade_deletions.len() as int) =~= c.cascade_deletions.take(
        b.cascade_deletions.len() as int,
    ).take(a.cascade_deletions.len() as int));
    assert(c.encode.take(a.encode.len() as int) =~= c.encode.take(b.encode.len() as int).take(a.encode.len() as int));
    assert(c.decode.take(a.decode.len() as int) =~= c.decode.take(b.decode.len() as int).take(a.decode.len() as int));
}

/// Each modifier does its own part, and none undoes another's: reading modifiers
/// from `i` keeps every flag already set and every list entry already there; a
/// block whose next modifier is `GenericSort;`, `TrackRm;`, `TrackModify;`,
/// `FreeList;`, `Static;` or `NoDebug;` gives modifiers with the matching flag
/// set (debug output off for `NoDebug`); `SortBy(w);` and `ForeignCascade(w);`
/// add `w` after the entries already listed; `Encode;` and `Decode;` add the
/// `Rustc` serializer.
pub proof fn lemma_modifiers_set_their_flags(t: Seq<Tok>, i: int, m: Mods, w: Seq<u8>)
    ensures
        read_mods(t, i, m) matches Ok((m2, _)) ==> {
            &&& flags_kept(m, m2)
            &&& bare_modifier_at(t, i, "GenericSort") ==> m2.generic_sort
            &&& bare_modifier_at(t, i, "TrackRm") ==> m2.track_rm
            &&& bare_modifier_at(t, i, "TrackModify") ==> m2.track_modify
            &&& bare_modifier_at(t, i, "FreeList") ==> m2.free_list
            &&& bare_modifier_at(t, i, "Static") ==> m2.static_data
            &&& bare_modifier_at(t, i, "NoDebug") ==> !m2.debug
            &&& one_arg_modifier_at(t, i, "SortBy", w) ==> m2.sort_by.len() > m.sort_by.len()
                && m2.sort_by[m.sort_by.len() as int] == w
            &&& one_arg_modifier_at(t, i, "ForeignCascade", w) ==> m2.cascade_deletions.len()
                > m.cascade_deletions.len() && m2.cascade_deletions[m.cascade_deletions.len() as int] == w
            &&& bare_modifier_at(t, i, "Encode") ==> m2.encode.len() > m.encode.len() && m2.encode[m.encode.len() as int]
                == Serializer::Rustc
            &&& bare_modifier_at(t, i, "Decode") ==> m2.decode.len() > m.decode.len() && m2.decode[m.decode.len() as int]
                == Serializer::Rustc
        },
    decreases t.len() - i,
{
    lemma_modifier_words();
    lemma_flags_kept_refl(m);
    if 0 <= i < t.len() && t[i] != Tok::Punct(125) {
        if let Tok::Word(n) = t[i] {
            lemma_apply_mod(t, i + 1, n, m);
            lemma_apply_mod_keeps(t, i + 1, n, m);
            if let Ok((m1, q)) = apply_mod(t, i + 1, n, m) {
                if q < t.len() && t[q] == Tok::Punct(59) {
                    lemma_modifiers_set_their_flags(t, q + 1, m1, w);
                    if let Ok((m2, _)) = read_mods(t, q + 1, m1) {
                        lemma_flags_kept_trans(m, m1, m2);
                        if one_arg_modifier_at(t, i, "SortBy", w) {
                            assert(words_from(t, i + 3, Seq::<Seq<u8>>::empty().push(w)) == Some((seq![w], i + 4))) by {
                                assert(Seq::<Seq<u8>>::empty().push(w) =~= seq![w]);
                            }
                            assert(m1.sort_by == m.sort_by + seq![w]);
                            assert(m2.sort_by.take(m1.sort_by.len() as int)[m.sort_by.len() as int] == w);
                        }
                        if one_arg_modifier_at(t, i, "ForeignCascade", w) {
                            assert(words_from(t, i + 3, Seq::<Seq<u8>>::empty().push(w)) == Some((seq![w], i + 4))) by {
                                assert(Seq::<Seq<u8>>::empty().push(w) =~= seq![w]);
                            }
                            assert(m1.cascade_deletions == m.cascade_deletions + seq![w]);
                            assert(m2.cascade_deletions.take(m1.cascade_deletions.len() as int)[m.cascade_deletions.len() as int] == w);
                        }
                        if bare_modifier_at(t, i, "Encode") {
                            assert(m2.encode.take(m1.encode.len() as int)[m.encode.len() as int] == Serializer::Rustc);
                        }
                        if bare_modifier_at(t, i, "Decode") {
                            assert(m2.decode.take(m1.decode.len() as int)[m.decode.len() as int] == Serializer::Rustc);
                        }
                    }
                }
            }
        }
    }
}

/// The `impl { ... }` block of modifiers at `k`, if one stands there, applied to
/// the defaults; and the position after it.
pub open spec fn impl_block(t: Seq<Tok>, k: int) -> Result<(Mods, int), ReadError> {
    if 0 <= k < t.len() && t[k] == Tok::Word("impl".spec_bytes()) {
        if k + 1 < t.len() && t[k + 1] == Tok::Punct(123) {
            read_mods(t, k + 2, mods_init())
        } else {
            Err(ReadError::Syntax)
        }
    } else {
        Ok((mods_init(), k))
    }
}

/// The code of the `mod { ... }` block at `k`, if one stands there: the tokens
/// inside its delimiters.
pub open spec fn mod_block(t: Seq<Tok>, k: int) -> Result<Option<Seq<Tok>>, ReadError> {
    if 0 <= k < t.len() && t[k] == Tok::Word("mod".spec_bytes()) {
        if k + 1 >= t.len() || is_close(t[k + 1]) {
            Err(ReadError::Syntax)
        } else if !is_open(t[k + 1]) {
            Err(ReadError::BadModuleCode)
        } else {
            let c = scan_end(t, k + 2, 0, None);
            if c < t.len() {
                Ok(Some(t.subrange(k + 2, c)))
            } else {
                Err(ReadError::Syntax)
            }
        }
    } else {
        Ok(None)
    }
}

/// The table that the source `src` describes, or the first problem met reading it
/// in order: the attributes, an optional `pub`, the name, the columns between
/// braces, an optional `impl` block of modifiers, an optional `mod` block. What
/// follows is left unread.
pub open spec fn read_table(src: Seq<u8>) -> Result<TableV, ReadError> {
    match lex_spec(src) {
        None => Err(ReadError::Lex),
        Some(t) => match parse_attrs(t, 0) {
            None => Err(ReadError::Syntax),
            Some(a) => {
                let i = a.1;
                let is_pub = 0 <= i < t.len() && t[i] == Tok::Word(pub_word());
                let j = if is_pub {
                    i + 1
                } else {
                    i
                };
                if 0 <= j && j + 1 < t.len() && t[j] is Word && t[j + 1] == Tok::Punct(123) {
                    match parse_cols(t, j + 2) {
                        None => Err(ReadError::Syntax),
                        Some(c) => match impl_block(t, c.2 + 1) {
                            Err(e) => Err(e),
                            Ok((m, k)) => match mod_block(t, k) {
                                Err(e) => Err(e),
                                Ok(code) => Ok(
                                    TableV {
                                        attrs: a.0,
                                        is_pub,
                                        name: t[j]->Word_0,
                                        cols: c.0,
                                        version: 1,
                                        sync_rm: None,
                                        mods: m,
                                        mod_code: code,
                                    },
                                ),
                            },
                        },
                    }
                } else {
                    Err(ReadError::Syntax)
                }
            },
        },
    }
}

/// The source reads as a table, or fails in a way that is reported rather than
/// fatal.
pub open spec fn readable_source(src: Seq<u8>) -> bool {
    !(read_table(src) matches Err(e) && is_fatal(e))
}

/// What `validate` finds wrong with the description `t`.
pub open spec fn validation_error(t: TableV) -> Option<&'static str> {
    if t.cols.len() == 0 {
        Some("No columns")
    } else if t.mods.static_data && (t.mods.track_modify || t.mods.track_rm || t.sync_rm is Some
        || t.mods.free_list || t.mods.cascade_deletions.len() > 0 || t.mods.sort_by.len() > 0) {
        Some("static tables shouldn't have modification features")
    } else {
        None
    }
}

impl Table {
    /// Checks the table: it needs columns, and a static table cannot have
    /// modification features. A table that passes and sorts by some column gets
    /// the generic sort too.
    pub fn validate(&mut self) -> (r: Option<&'static str>)
        ensures
            r == validation_error(old(self)@),
            *final(self) == (Table { generic_sort: old(self).generic_sort || (r is None && old(self).sort_by@.len() > 0), ..*old(self) }),
    {
        if self.cols.len() == 0 {
            return Some("No columns");
        }
        if self.static_data {
            if self.track_modify || self.track_rm || self.sync_rm.is_some() || self.free_list
                || self.cascade_deletions.len() > 0 || self.sort_by.len() > 0 {
                return Some("static tables shouldn't have modification features");
            }
        }
        if self.sort_by.len() > 0 {
            self.generic_sort = true;
        }
        None
    }
}

/// The words of a parenthesized list (see `words_from`), appended to `acc`.
fn words_exec(t: &Vec<Token>, q: usize, acc: &mut Vec<Vec<u8>>) -> (r: Option<usize>)
    requires
        q <= t@.len(),
    ensures
        match r {
            Some(e) => words_from(toks(t@), q as int, byte_seqs(old(acc)@)) == Some(
                (byte_seqs(final(acc)@), e as int),
            ),
            None => words_from(toks(t@), q as int, byte_seqs(old(acc)@)) is None,
        },
{
    let ghost tv = toks(t@);
    let n = t.len();
    let mut i = q;
    while i < n
        invariant
            tv == toks(t@),
            n == t@.len(),
            q <= i <= n,
            words_from(tv, i as int, byte_seqs(acc@)) == words_from(tv, q as int, byte_seqs(old(acc)@)),
        decreases n - i,
    {
        assert(tv[i as int] == t@[i as int]@);
        if is_punct(&t[i], 41) {
            return Some(i + 1);
        }
        let w = match word_of(&t[i]) {
            Some(w) => w,
            None => {
                return None;
            },
        };
        if i + 1 < n && is_punct(&t[i + 1], 44) {
            let ghost before = byte_seqs(acc@);
            acc.push(w);
            assert(byte_seqs(acc@) =~= before.push(w@));
            i = i + 2;
        } else if i + 1 < n && is_punct(&t[i + 1], 41) {
            let ghost before = byte_seqs(acc@);
            acc.push(w);
            assert(byte_seqs(acc@) =~= before.push(w@));
            return Some(i + 2);
        } else {
            return None;
        }
    }
    None
}

/// Appends the serializers that `Encode` or `Decode` with the arguments `args`
/// name (see `serializers_of`); `false` at a name it does not know.
fn push_serializers(args: &Vec<Vec<u8>>, out: &mut Vec<Serializer>) -> (r: bool)
    ensures
        r == (serializers_of(byte_seqs(args@), old(out)@) is Some),
        r ==> serializers_of(byte_seqs(args@), old(out)@) == Some(final(out)@),
{
    let ghost av = byte_seqs(args@);
    if args.len() == 0 {
        out.push(Serializer::Rustc);
        return true;
    }
    let mut i: usize = 0;
    assert(av.skip(0) =~= av);
    while i < args.len()
        invariant
            av == byte_seqs(args@),
            av.len() > 0,
            i <= av.len(),
            serializers(av.skip(i as int), out@) == serializers(av, old(out)@),
        decreases av.len() - i,
    {
        assert(av.skip(i as int)[0] == args@[i as int]@);
        assert(av.skip(i as int).drop_first() =~= av.skip(i + 1));
        if bytes_are(&args[i], "Rustc".as_bytes()) {
            out.push(Serializer::Rustc);
        } else if bytes_are(&args[i], "Serde".as_bytes()) {
            out.push(Serializer::Serde);
        } else {
            return false;
        }
        i = i + 1;
    }
    assert(av.skip(i as int) =~= Seq::<Seq<u8>>::empty());
    true
}

/// `b` is `a` with other modifiers.
pub open spec fn same_but_mods(a: TableV, b: TableV) -> bool {
    &&& b.attrs == a.attrs
    &&& b.is_pub == a.is_pub
    &&& b.name == a.name
    &&& b.cols == a.cols
    &&& b.version == a.version
    &&& b.sync_rm == a.sync_rm
    &&& b.mod_code == a.mod_code
}

/// Applies the modifier named `name` whose arguments start at `p` (see
/// `apply_mod`), giving the position after its arguments.
#[verifier::rlimit(40)]
fn apply_mod_exec(t: &Vec<Token>, p: usize, name: &Vec<u8>, tb: &mut Table) -> (r: Result<usize, ReadError>)
    requires
        p <= t@.len(),
    ensures
        match r {
            Ok(q) => apply_mod(toks(t@), p as int, name@, old(tb).mods()) == Ok::<(Mods, int), ReadError>(
                (final(tb).mods(), q as int),
            ) && same_but_mods(old(tb)@, final(tb)@),
            Err(e) => apply_mod(toks(t@), p as int, name@, old(tb).mods()) == Err::<(Mods, int), ReadError>(e),
        },
{
    let ghost tv = toks(t@);
    let n = t.len();
    if bytes_are(name, "RowId".as_bytes()) {
        if p < n && is_punct(&t[p], 61) {
            let e = scan(t, p + 1, Some(59));
            if e > p + 1 {
                proof {
                    crate::parse::lemma_scan_end(tv, p + 1, 0, Some(59));
                }
                tb.row_id = copy_tokens(t, p + 1, e);
                return Ok(e);
            }
        }
        return Err(ReadError::Syntax);
    }
    if bytes_are(name, "NoDebug".as_bytes()) {
        tb.debug = false;
        return Ok(p);
    }
    if bytes_are(name, "TrackRm".as_bytes()) {
        tb.track_rm = true;
        return Ok(p);
    }
    if bytes_are(name, "TrackModify".as_bytes()) {
        tb.track_modify = true;
        return Ok(p);
    }
    if bytes_are(name, "GenericSort".as_bytes()) {
        tb.generic_sort = true;
        return Ok(p);
    }
    if bytes_are(name, "FreeList".as_bytes()) {
        tb.free_list = true;
        return Ok(p);
    }
    if bytes_are(name, "Static".as_bytes()) {
        tb.static_data = true;
        return Ok(p);
    }
    let sort_by = bytes_are(name, "SortBy".as_bytes());
    let cascade = bytes_are(name, "ForeignCascade".as_bytes());
    let encode = bytes_are(name, "Encode".as_bytes());
    let decode = bytes_are(name, "Decode".as_bytes());
    if !(sort_by || cascade || encode || decode) {
        return Err(ReadError::UnknownModifier);
    }
    let mut args: Vec<Vec<u8>> = Vec::new();
    assert(byte_seqs(args@) =~= Seq::<Seq<u8>>::empty());
    let q = if p < n && is_punct(&t[p], 40) {
        match words_exec(t, p + 1, &mut args) {
            Some(q) => q,
            None => {
                return Err(ReadError::Syntax);
            },
        }
    } else {
        p
    };
    proof {
        assert(arglist(tv, p as int) == Some((byte_seqs(args@), q as int)));
    }
    if sort_by || cascade {
        let mut k: usize = 0;
        let ghost start = if sort_by { byte_seqs(tb.sort_by@) } else { byte_seqs(tb.cascade_deletions@) };
        while k < args.len()
            invariant
                k <= args@.len(),
                sort_by ==> byte_seqs(tb.sort_by@) == start + byte_seqs(args@).take(k as int),
                !sort_by ==> byte_seqs(tb.cascade_deletions@) == start + byte_seqs(args@).take(k as int),
                sort_by ==> tb.cascade_deletions == old(tb).cascade_deletions && start == byte_seqs(old(tb).sort_by@),
                !sort_by ==> tb.sort_by == old(tb).sort_by && start == byte_seqs(old(tb).cascade_deletions@),
                tb.debug == old(tb).debug,
                tb.row_id == old(tb).row_id,
                tb.track_modify == old(tb).track_modify,
                tb.track_rm == old(tb).track_rm,
                tb.free_list == old(tb).free_list,
                tb.encode == old(tb).encode,
                tb.decode == old(tb).decode,
                tb.generic_sort == old(tb).generic_sort,
                tb.static_data == old(tb).static_data,
                same_but_mods(old(tb)@, tb@),
            decreases args@.len() - k,
        {
            let w = crate::parse::copy_range(args[k].as_slice(), 0, args[k].len());
            assert(w@ =~= args@[k as int]@);
            if sort_by {
                let ghost before = byte_seqs(tb.sort_by@);
                tb.sort_by.push(w);
                assert(byte_seqs(tb.sort_by@) =~= before.push(w@));
            } else {
                let ghost before = byte_seqs(tb.cascade_deletions@);
                tb.cascade_deletions.push(w);
                assert(byte_seqs(tb.cascade_deletions@) =~= before.push(w@));
            }
            assert(byte_seqs(args@).take(k + 1) =~= byte_seqs(args@).take(k as int).push(args@[k as int]@));
            k = k + 1;
        }
        assert(byte_seqs(args@).take(k as int) =~= byte_seqs(args@));
        assert(tb.mods() =~~= (if sort_by { Mods { sort_by: old(tb).mods().sort_by + byte_seqs(args@), ..old(tb).mods() } } else { Mods { cascade_deletions: old(tb).mods().cascade_deletions + byte_seqs(args@), ..old(tb).mods() } }));
        return Ok(q);
    }
    let ok = if encode {
        push_serializers(&args, &mut tb.encode)
    } else {
        push_serializers(&args, &mut tb.decode)
    };
    if ok {
        Ok(q)
    } else {
        Err(ReadError::UnknownSerializer)
    }
}

/// Reads the modifiers from `i` onto the table (see `read_mods`), giving the
/// position after the closing `}`.
fn read_mods_exec(t: &Vec<Token>, i: usize, tb: &mut Table) -> (r: Result<usize, ReadError>)
    requires
        i <= t@.len(),
    ensures
        match r {
            Ok(k) => read_mods(toks(t@), i as int, old(tb).mods()) == Ok::<(Mods, int), ReadError>(
                (final(tb).mods(), k as int),
            ) && same_but_mods(old(tb)@, final(tb)@),
            Err(e) => read_mods(toks(t@), i as int, old(tb).mods()) == Err::<(Mods, int), ReadError>(e),
        },
{
    let ghost tv = toks(t@);
    let n = t.len();
    let mut j = i;
    while j < n
        invariant
            tv == toks(t@),
            n == t@.len(),
            i <= j <= n,
            read_mods(tv, j as int, tb.mods()) == read_mods(tv, i as int, old(tb).mods()),
            same_but_mods(old(tb)@, tb@),
        decreases n - j,
    {
        assert(tv[j as int] == t@[j as int]@);
        if is_punct(&t[j], 125) {
            return Ok(j + 1);
        }
        let name = match word_of(&t[j]) {
            Some(w) => w,
            None => {
                return Err(ReadError::Syntax);
            },
        };
        let ghost before = tb.mods();
        let q = match apply_mod_exec(t, j + 1, &name, tb) {
            Ok(q) => q,
            Err(e) => {
                return Err(e);
            },
        };
        proof {
            lemma_apply_mod(tv, j + 1, name@, before);
        }
        if q < n && is_punct(&t[q], 59) {
            j = q + 1;
        } else {
            return Err(ReadError::Syntax);
        }
    }
    Err(ReadError::Syntax)
}

/// Reads the source of a `table!` of this form into a table, or gives the first
/// problem met, fatal ones included (see `read_table`).
pub fn read_table_bytes(src: &[u8]) -> (r: Result<Table, ReadError>)
    ensures
        match r {
            Ok(t) => read_table(src@) == Ok::<TableV, ReadError>(t@),
            Err(e) => read_table(src@) == Err::<TableV, ReadError>(e),
        },
{
    let tokens = match lex(src) {
        Some(v) => v,
        None => {
            return Err(ReadError::Lex);
        },
    };
    let ghost tv = toks(tokens@);
    let n = tokens.len();
    proof {
        crate::parse::lemma_parse_attrs(tv, 0);
    }
    let (attrs, i) = match parse_attrs_exec(&tokens, 0) {
        Some(a) => a,
        None => {
            return Err(ReadError::Syntax);
        },
    };
    let is_pub = i < n && is_pub_word(&tokens[i]);
    let j = if is_pub {
        i + 1
    } else {
        i
    };
    if !(j < n && n - j > 1 && is_punct(&tokens[j + 1], 123)) {
        return Err(ReadError::Syntax);
    }
    let name = match word_of(&tokens[j]) {
        Some(w) => w,
        None => {
            return Err(ReadError::Syntax);
        },
    };
    let (cols, _, e) = match parse_cols_exec(&tokens, j + 2) {
        Some(c) => c,
        None => {
            return Err(ReadError::Syntax);
        },
    };
    proof {
        crate::parse::lemma_parse_cols_end(tv, j + 2);
    }
    let mut table = Table::new();
    table.attrs = attrs;
    table.is_pub = is_pub;
    table.name = name;
    table.cols = cols;
    let k = e + 1;
    let k2 = if k < n && word_is(&tokens[k], "impl".as_bytes()) {
        if k + 1 < n && is_punct(&tokens[k + 1], 123) {
            match read_mods_exec(&tokens, k + 2, &mut table) {
                Ok(k2) => k2,
                Err(e) => {
                    return Err(e);
                },
            }
        } else {
            return Err(ReadError::Syntax);
        }
    } else {
        k
    };
    if k2 < n && word_is(&tokens[k2], "mod".as_bytes()) {
        if k2 + 1 >= n || is_close_token(&tokens[k2 + 1]) {
            return Err(ReadError::Syntax);
        }
        if !is_open_token(&tokens[k2 + 1]) {
            return Err(ReadError::BadModuleCode);
        }
        let c = scan(&tokens, k2 + 2, None);
        proof {
            crate::parse::lemma_scan_end(tv, k2 + 2, 0, None);
        }
        if c < n {
            table.mod_code = Some(copy_tokens(&tokens, k2 + 2, c));
        } else {
            return Err(ReadError::Syntax);
        }
    }
    Ok(table)
}

/// Whether `t` is the word whose bytes are `lit`.
fn word_is(t: &Token, lit: &[u8]) -> (r: bool)
    ensures
        r == (t@ == Tok::Word(lit@)),
{
    match t {
        Token::Word(w) => bytes_are(w, lit),
        _ => false,
    }
}

fn is_open_token(t: &Token) -> (r: bool)
    ensures
        r == is_open(t@),
{
    is_punct(t, 40) || is_punct(t, 91) || is_punct(t, 123)
}

fn is_close_token(t: &Token) -> (r: bool)
    ensures
        r == is_close(t@),
{
    is_punct(t, 41) || is_punct(t, 93) || is_punct(t, 125)
}

/// Reads the source of a `table!` of this form into a table (see `read_table`).
/// The source must not fail fatally (see `readable_source`; `read_table_bytes`
/// tells which sources do).
pub fn parse_table(src: &[u8]) -> (r: Result<Table, ReadError>)
    requires
        readable_source(src@),
    ensures
        match r {
            Ok(t) => read_table(src@) == Ok::<TableV, ReadError>(t@),
            Err(e) => read_table(src@) == Err::<TableV, ReadError>(e) && !is_fatal(e),
        },
{
    read_table_bytes(src)
}

} // verus!
