//! Reading the `table!` grammar from source bytes: the bytes are split into
//! tokens, the tokens are read as the table's syntax, and the syntax is turned
//! into a table description.
//!
//! ```text
//! table!  := attr* ["pub"] "[" domain "/" name "]" "{" [col ("," col)* [","]] "}"
//! attr    := "#" "[" tokens "]"
//! col     := attr* name ":" "[" type ";" type "]"
//! ```
//!
//! Tokens are words (letters, digits and `_`), string literals (`"..."`, without
//! escapes) and single ASCII punctuation bytes; ASCII whitespace separates them.
//! Attribute contents and types are token sequences whose brackets are balanced.

use vstd::prelude::*;
use crate::macro_table::{Col, Derives, Table, TableKind, usize_word};

verus! {

/// A token of the `table!` grammar.
#[derive(Debug, Clone, PartialEq, Eq)]
pub enum Token {
    /// A word: letters, digits and underscores.
    Word(Vec<u8>),
    /// The contents of a string literal.
    Str(Vec<u8>),
    /// A single punctuation byte.
    Punct(u8),
}

/// The value of a token.
pub enum Tok {
    Word(Seq<u8>),
    Str(Seq<u8>),
    Punct(u8),
}

impl View for Token {
    type V = Tok;

    open spec fn view(&self) -> Tok {
        match self {
            Token::Word(w) => Tok::Word(w@),
            Token::Str(s) => Tok::Str(s@),
            Token::Punct(p) => Tok::Punct(*p),
        }
    }
}

/// The values of a sequence of tokens.
pub open spec fn toks(v: Seq<Token>) -> Seq<Tok> {
    v.map_values(|t: Token| t@)
}

pub open spec fn is_space(b: u8) -> bool {
    b == 32 || b == 9 || b == 10 || b == 13
}

pub open spec fn is_word_byte(b: u8) -> bool {
    (48 <= b <= 57) || (65 <= b <= 90) || (97 <= b <= 122) || b == 95
}

/// A byte that stands for itself: printable ASCII that is neither part of a word
/// nor a quote.
pub open spec fn is_punct_byte(b: u8) -> bool {
    33 <= b <= 126 && !is_word_byte(b) && b != 34
}

/// The end of the word that starts at `i`.
pub open spec fn word_end(s: Seq<u8>, i: int) -> int
    decreases s.len() - i,
{
    if 0 <= i < s.len() && is_word_byte(s[i]) {
        word_end(s, i + 1)
    } else {
        i
    }
}

/// The position of the first quote at or after `i` (the length if there is none).
pub open spec fn quote_at(s: Seq<u8>, i: int) -> int
    decreases s.len() - i,
{
    if 0 <= i < s.len() && s[i] != 34 {
        quote_at(s, i + 1)
    } else {
        i
    }
}

/// The tokens of `s` from byte `i` on, or `None` if a string literal is not
/// closed or a byte is neither whitespace, a word byte, a quote nor punctuation.
pub open spec fn lex_from(s: Seq<u8>, i: int) -> Option<Seq<Tok>>
    decreases s.len() - i, 0int,
{
    if i < 0 || i >= s.len() {
        Some(Seq::empty())
    } else if is_space(s[i]) {
        lex_from(s, i + 1)
    } else if is_word_byte(s[i]) {
        let e = word_end(s, i);
        if e <= i {
            None
        } else {
            proof {
                lemma_word_end(s, i);
            }
            match lex_from(s, e) {
                Some(rest) => Some(seq![Tok::Word(s.subrange(i, e))] + rest),
                None => None,
            }
        }
    } else if s[i] == 34 {
        let e = quote_at(s, i + 1);
        if e >= s.len() || e <= i {
            None
        } else {
            match lex_from(s, e + 1) {
                Some(rest) => Some(seq![Tok::Str(s.subrange(i + 1, e))] + rest),
                None => None,
            }
        }
    } else if is_punct_byte(s[i]) {
        match lex_from(s, i + 1) {
            Some(rest) => Some(seq![Tok::Punct(s[i])] + rest),
            None => None,
        }
    } else {
        None
    }
}

/// The tokens of `s`.
pub open spec fn lex_spec(s: Seq<u8>) -> Option<Seq<Tok>> {
    lex_from(s, 0)
}

/// Where a word ends, and that all its bytes are word bytes.
pub proof fn lemma_word_end(s: Seq<u8>, i: int)
    requires
        0 <= i <= s.len(),
    ensures
        i <= word_end(s, i) <= s.len(),
        forall|k: int| i <= k < word_end(s, i) ==> is_word_byte(s[k]),
        word_end(s, i) < s.len() ==> !is_word_byte(s[word_end(s, i)]),
    decreases s.len() - i,
{
    if i < s.len() && is_word_byte(s[i]) {
        lemma_word_end(s, i + 1);
    }
}

/// The bytes `s[i..e]`.
pub(crate) fn copy_range(s: &[u8], i: usize, e: usize) -> (r: Vec<u8>)
    requires
        i <= e <= s@.len(),
    ensures
        r@ == s@.subrange(i as int, e as int),
{
    let mut r: Vec<u8> = Vec::new();
    let mut k: usize = i;
    while k < e
        invariant
            i <= k <= e <= s@.len(),
            r@ == s@.subrange(i as int, k as int),
        decreases e - k,
    {
        r.push(s[k]);
        k = k + 1;
    }
    r
}

/// Splits `s` into tokens (see `lex_spec`).
pub fn lex(s: &[u8]) -> (r: Option<Vec<Token>>)
    ensures
        match r {
            Some(v) => lex_spec(s@) == Some(toks(v@)),
            None => lex_spec(s@) is None,
        },
{
    let n = s.len();
    let mut out: Vec<Token> = Vec::new();
    let mut i: usize = 0;
    while i < n
        invariant
            n == s@.len(),
            i <= n,
            lex_spec(s@) == match lex_from(s@, i as int) {
                Some(rest) => Some(toks(out@) + rest),
                None => None::<Seq<Tok>>,
            },
        decreases n - i,
    {
        let b = s[i];
        if b == 32 || b == 9 || b == 10 || b == 13 {
            i = i + 1;
        } else if (48 <= b && b <= 57) || (65 <= b && b <= 90) || (97 <= b && b <= 122) || b == 95 {
            let mut e: usize = i;
            while e < n && ((48 <= s[e] && s[e] <= 57) || (65 <= s[e] && s[e] <= 90) || (97 <= s[e] && s[e] <= 122) || s[e] == 95)
                invariant
                    i <= e <= n,
                    n == s@.len(),
                    word_end(s@, i as int) == word_end(s@, e as int),
                decreases n - e,
            {
                e = e + 1;
            }
            proof {
                lemma_word_end(s@, i as int);
            }
            let w = copy_range(s, i, e);
            let ghost before = out@;
            out.push(Token::Word(w));
            proof {
                assert(toks(out@) =~= toks(before) + seq![Tok::Word(s@.subrange(i as int, e as int))]);
                match lex_from(s@, e as int) {
                    Some(rest) => {
                        assert(toks(before) + (seq![Tok::Word(s@.subrange(i as int, e as int))] + rest) =~= toks(out@) + rest);
                    },
                    None => {},
                }
            }
            i = e;
        } else if b == 34 {
            let mut e: usize = i + 1;
            while e < n && s[e] != 34
                invariant
                    i + 1 <= e <= n,
                    n == s@.len(),
                    quote_at(s@, i + 1) == quote_at(s@, e as int),
                decreases n - e,
            {
                e = e + 1;
            }
            if e >= n {
                return None;
            }
            let w = copy_range(s, i + 1, e);
            let ghost before = out@;
            out.push(Token::Str(w));
            proof {
                assert(toks(out@) =~= toks(before) + seq![Tok::Str(s@.subrange(i + 1, e as int))]);
                match lex_from(s@, e + 1) {
                    Some(rest) => {
                        assert(toks(before) + (seq![Tok::Str(s@.subrange(i + 1, e as int))] + rest) =~= toks(out@) + rest);
                    },
                    None => {},
                }
            }
            i = e + 1;
        } else if 33 <= b && b <= 126 {
            let ghost before = out@;
            out.push(Token::Punct(b));
            proof {
                assert(toks(out@) =~= toks(before) + seq![Tok::Punct(b)]);
                match lex_from(s@, i + 1) {
                    Some(rest) => {
                        assert(toks(before) + (seq![Tok::Punct(b)] + rest) =~= toks(out@) + rest);
                    },
                    None => {},
                }
            }
            i = i + 1;
        } else {
            return None;
        }
    }
    proof {
        assert(toks(out@) + Seq::empty() =~= toks(out@));
    }
    Some(out)
}

/// `t` is the punctuation `stop` names.
pub open spec fn is_stop(t: Tok, stop: Option<u8>) -> bool {
    match stop {
        Some(b) => t == Tok::Punct(b),
        None => false,
    }
}

/// An opening bracket: `(`, `[` or `{`.
pub open spec fn is_open(t: Tok) -> bool {
    t == Tok::Punct(40) || t == Tok::Punct(91) || t == Tok::Punct(123)
}

/// A closing bracket: `)`, `]` or `}`.
pub open spec fn is_close(t: Tok) -> bool {
    t == Tok::Punct(41) || t == Tok::Punct(93) || t == Tok::Punct(125)
}

/// Scanning from `i` at bracket depth `d`: the position of the first closing
/// bracket at depth 0 (or of the first `stop` punctuation at depth 0), or the
/// length if there is none.
pub open spec fn scan_end(t: Seq<Tok>, i: int, d: nat, stop: Option<u8>) -> int
    decreases t.len() - i,
{
    if i < 0 || i >= t.len() {
        t.len() as int
    } else if is_open(t[i]) {
        scan_end(t, i + 1, d + 1, stop)
    } else if is_close(t[i]) {
        if d == 0 {
            i
        } else {
            scan_end(t, i + 1, (d - 1) as nat, stop)
        }
    } else if d == 0 && is_stop(t[i], stop) {
        i
    } else {
        scan_end(t, i + 1, d, stop)
    }
}

/// Where a scan ends: not before it starts, and not past the end.
pub proof fn lemma_scan_end(t: Seq<Tok>, i: int, d: nat, stop: Option<u8>)
    requires
        0 <= i <= t.len(),
    ensures
        i <= scan_end(t, i, d, stop) <= t.len(),
    decreases t.len() - i,
{
    if i < t.len() {
        if is_open(t[i]) {
            lemma_scan_end(t, i + 1, d + 1, stop);
        } else if is_close(t[i]) {
            if d != 0 {
                lemma_scan_end(t, i + 1, (d - 1) as nat, stop);
            }
        } else if !(d == 0 && is_stop(t[i], stop)) {
            lemma_scan_end(t, i + 1, d, stop);
        }
    }
}

/// The attributes that start at `i`, each given by the tokens between `#[` and
/// its closing `]`, and the position after them.
pub open spec fn parse_attrs(t: Seq<Tok>, i: int) -> Option<(Seq<Seq<Tok>>, int)>
    decreases t.len() - i,
{
    if 0 <= i < t.len() && t[i] == Tok::Punct(35) {
        if i + 1 < t.len() && t[i + 1] == Tok::Punct(91) {
            let e = scan_end(t, i + 2, 0, None);
            if e < t.len() && t[e] == Tok::Punct(93) {
                proof {
                    lemma_scan_end(t, i + 2, 0, None);
                }
                match parse_attrs(t, e + 1) {
                    Some(r) => Some((seq![t.subrange(i + 2, e)] + r.0, r.1)),
                    None => None,
                }
            } else {
                None
            }
        } else {
            None
        }
    } else {
        Some((Seq::empty(), i))
    }
}

/// Parsing attributes does not go backwards.
pub proof fn lemma_parse_attrs(t: Seq<Tok>, i: int)
    requires
        0 <= i <= t.len(),
    ensures
        parse_attrs(t, i) matches Some(r) ==> i <= r.1 <= t.len(),
    decreases t.len() - i,
{
    if 0 <= i < t.len() && t[i] == Tok::Punct(35) && i + 1 < t.len() && t[i + 1] == Tok::Punct(91) {
        let e = scan_end(t, i + 2, 0, None);
        lemma_scan_end(t, i + 2, 0, None);
        if e < t.len() && t[e] == Tok::Punct(93) {
            lemma_parse_attrs(t, e + 1);
        }
    }
}

/// The syntax of a column: its attributes, its name, and the tokens of its
/// element type and of its column type.
pub struct ColSyn {
    pub attrs: Seq<Seq<Tok>>,
    pub name: Seq<u8>,
    pub element: Seq<Tok>,
    pub colty: Seq<Tok>,
}

/// The syntax of a `table!`.
pub struct TableSyn {
    pub attrs: Seq<Seq<Tok>>,
    pub is_pub: bool,
    pub domain: Seq<u8>,
    pub name: Seq<u8>,
    pub cols: Seq<ColSyn>,
    pub trailing_comma: bool,
}

/// The column that starts at `i`: `attr* name ":" "[" element ";" colty "]"`,
/// where both types are non-empty, and the position after it.
pub open spec fn parse_col(t: Seq<Tok>, i: int) -> Option<(ColSyn, int)> {
    match parse_attrs(t, i) {
        None => None,
        Some(a) => {
            let j = a.1;
            if 0 <= j && j + 2 < t.len() && t[j + 1] == Tok::Punct(58) && t[j + 2] == Tok::Punct(91) {
                match t[j] {
                    Tok::Word(name) => {
                        let s = scan_end(t, j + 3, 0, Some(59));
                        if s < t.len() && t[s] == Tok::Punct(59) && s > j + 3 {
                            let c = scan_end(t, s + 1, 0, None);
                            if c < t.len() && t[c] == Tok::Punct(93) && c > s + 1 {
                                Some(
                                    (
                                        ColSyn {
                                            attrs: a.0,
                                            name,
                                            element: t.subrange(j + 3, s),
                                            colty: t.subrange(s + 1, c),
                                        },
                                        c + 1,
                                    ),
                                )
                            } else {
                                None
                            }
                        } else {
                            None
                        }
                    },
                    _ => None,
                }
            } else {
                None
            }
        },
    }
}

/// A column ends after it starts, within the tokens.
pub proof fn lemma_parse_col(t: Seq<Tok>, i: int)
    requires
        0 <= i <= t.len(),
    ensures
        parse_col(t, i) matches Some(r) ==> i < r.1 <= t.len(),
{
    lemma_parse_attrs(t, i);
    if let Some(a) = parse_attrs(t, i) {
        let j = a.1;
        if 0 <= j && j + 2 < t.len() {
            lemma_scan_end(t, j + 3, 0, Some(59));
            let s = scan_end(t, j + 3, 0, Some(59));
            if s < t.len() {
                lemma_scan_end(t, s + 1, 0, None);
            }
        }
    }
}

/// The columns that start at `i`, up to the closing `}` (whose position is
/// returned), separated by commas, with an optional comma after the last one.
pub open spec fn parse_cols(t: Seq<Tok>, i: int) -> Option<(Seq<ColSyn>, bool, int)>
    decreases t.len() - i,
{
    if i < 0 || i >= t.len() {
        None
    } else if t[i] == Tok::Punct(125) {
        Some((Seq::empty(), false, i))
    } else {
        match parse_col(t, i) {
            None => None,
            Some(c) => {
                let k = c.1;
                proof {
                    lemma_parse_col(t, i);
                }
                if k < t.len() && t[k] == Tok::Punct(125) {
                    Some((seq![c.0], false, k))
                } else if k < t.len() && t[k] == Tok::Punct(44) {
                    match parse_cols(t, k + 1) {
                        Some(rest) => Some(
                            (seq![c.0] + rest.0, if rest.0.len() == 0 {
                                true
                            } else {
                                rest.1
                            }, rest.2),
                        ),
                        None => None,
                    }
                } else {
                    None
                }
            },
        }
    }
}

/// The word `pub`.
pub open spec fn pub_word() -> Seq<u8> {
    seq![112u8, 117u8, 98u8]
}

/// The columns end at a `}` within the tokens, at or after where they start.
pub proof fn lemma_parse_cols_end(t: Seq<Tok>, i: int)
    ensures
        parse_cols(t, i) matches Some(c) ==> i <= c.2 < t.len() && t[c.2] == Tok::Punct(125),
    decreases t.len() - i,
{
    if 0 <= i < t.len() && t[i] != Tok::Punct(125) {
        lemma_parse_col(t, i);
        if let Some(c) = parse_col(t, i) {
            let k = c.1;
            if k < t.len() && t[k] == Tok::Punct(44) {
                lemma_parse_cols_end(t, k + 1);
            }
        }
    }
}

/// The syntax of the tokens `t` of a whole `table!`, if they follow the grammar.
pub open spec fn parse_syntax(t: Seq<Tok>) -> Option<TableSyn> {
    match parse_attrs(t, 0) {
        None => None,
        Some(a) => {
            let i = a.1;
            let is_pub = 0 <= i < t.len() && t[i] == Tok::Word(pub_word());
            let j = if is_pub {
                i + 1
            } else {
                i
            };
            if 0 <= j && j + 5 < t.len() && t[j] == Tok::Punct(91) && t[j + 2] == Tok::Punct(47) && t[j + 4]
                == Tok::Punct(93) && t[j + 5] == Tok::Punct(123) {
                match (t[j + 1], t[j + 3]) {
                    (Tok::Word(domain), Tok::Word(name)) => match parse_cols(t, j + 6) {
                        Some(c) => if c.2 + 1 == t.len() {
                            Some(
                                TableSyn {
                                    attrs: a.0,
                                    is_pub,
                                    domain,
                                    name,
                                    cols: c.0,
                                    trailing_comma: c.1,
                                },
                            )
                        } else {
                            None
                        },
                        None => None,
                    },
                    _ => None,
                }
            } else {
                None
            }
        },
    }
}

/// The token values of each attribute.
pub open spec fn attr_toks(v: Seq<Vec<Token>>) -> Seq<Seq<Tok>> {
    v.map_values(|a: Vec<Token>| toks(a@))
}

/// The syntax of a column.
#[derive(Debug)]
pub struct ColSyntax {
    pub attrs: Vec<Vec<Token>>,
    pub name: Vec<u8>,
    pub element: Vec<Token>,
    pub colty: Vec<Token>,
}

impl View for ColSyntax {
    type V = ColSyn;

    open spec fn view(&self) -> ColSyn {
        ColSyn {
            attrs: attr_toks(self.attrs@),
            name: self.name@,
            element: toks(self.element@),
            colty: toks(self.colty@),
        }
    }
}

/// The syntax of a `table!`.
#[derive(Debug)]
pub struct TableSyntax {
    pub attrs: Vec<Vec<Token>>,
    pub is_pub: bool,
    pub domain: Vec<u8>,
    pub name: Vec<u8>,
    pub cols: Vec<ColSyntax>,
    pub trailing_comma: bool,
}

/// The syntax of each column.
pub open spec fn col_syns(v: Seq<ColSyntax>) -> Seq<ColSyn> {
    v.map_values(|c: ColSyntax| c@)
}

impl View for TableSyntax {
    type V = TableSyn;

    open spec fn view(&self) -> TableSyn {
        TableSyn {
            attrs: attr_toks(self.attrs@),
            is_pub: self.is_pub,
            domain: self.domain@,
            name: self.name@,
            cols: col_syns(self.cols@),
            trailing_comma: self.trailing_comma,
        }
    }
}

/// Whether `t` is the punctuation byte `b`.
pub(crate) fn is_punct(t: &Token, b: u8) -> (r: bool)
    ensures
        r == (t@ == Tok::Punct(b)),
{
    match t {
        Token::Punct(p) => *p == b,
        _ => false,
    }
}

/// A copy of `t`.
fn copy_token(t: &Token) -> (r: Token)
    ensures
        r@ == t@,
{
    match t {
        Token::Word(w) => {
            let c = copy_range(w.as_slice(), 0, w.len());
            assert(c@ =~= w@);
            Token::Word(c)
        },
        Token::Str(w) => {
            let c = copy_range(w.as_slice(), 0, w.len());
            assert(c@ =~= w@);
            Token::Str(c)
        },
        Token::Punct(p) => Token::Punct(*p),
    }
}

/// Copies of the tokens `t[i..e]`.
pub(crate) fn copy_tokens(t: &Vec<Token>, i: usize, e: usize) -> (r: Vec<Token>)
    requires
        i <= e <= t@.len(),
    ensures
        toks(r@) == toks(t@).subrange(i as int, e as int),
{
    let mut r: Vec<Token> = Vec::new();
    let mut k: usize = i;
    while k < e
        invariant
            i <= k <= e <= t@.len(),
            toks(r@) == toks(t@).subrange(i as int, k as int),
        decreases e - k,
    {
        let c = copy_token(&t[k]);
        let ghost before = r@;
        r.push(c);
        proof {
            assert(toks(r@) =~= toks(before).push(c@));
            assert(toks(t@).subrange(i as int, k + 1) =~= toks(t@).subrange(i as int, k as int).push(t@[k as int]@));
        }
        k = k + 1;
    }
    r
}

/// Scans from `i` at depth 0 (see `scan_end`).
pub(crate) fn scan(t: &Vec<Token>, i: usize, stop: Option<u8>) -> (r: usize)
    requires
        i <= t@.len(),
    ensures
        r == scan_end(toks(t@), i as int, 0, stop),
{
    let ghost tv = toks(t@);
    let n = t.len();
    let mut k: usize = i;
    let mut d: usize = 0;
    while k < n
        invariant
            n == t@.len(),
            tv == toks(t@),
            i <= k <= n,
            d <= k,
            scan_end(tv, i as int, 0, stop) == scan_end(tv, k as int, d as nat, stop),
        decreases n - k,
    {
        let x = &t[k];
        assert(tv[k as int] == x@);
        if is_punct(x, 40) || is_punct(x, 91) || is_punct(x, 123) {
            d = d + 1;
        } else if is_punct(x, 41) || is_punct(x, 93) || is_punct(x, 125) {
            if d == 0 {
                return k;
            }
            d = d - 1;
        } else if d == 0 && match stop {
            Some(b) => is_punct(x, b),
            None => false,
        } {
            return k;
        }
        k = k + 1;
    }
    n
}

/// The attributes that start at `i` (see `parse_attrs`).
pub(crate) fn parse_attrs_exec(t: &Vec<Token>, i: usize) -> (r: Option<(Vec<Vec<Token>>, usize)>)
    requires
        i <= t@.len(),
    ensures
        match r {
            Some(x) => parse_attrs(toks(t@), i as int) == Some((attr_toks(x.0@), x.1 as int)),
            None => parse_attrs(toks(t@), i as int) is None,
        },
    decreases t@.len() - i,
{
    let ghost tv = toks(t@);
    let n = t.len();
    if i < n && is_punct(&t[i], 35) {
        if i + 1 < n && is_punct(&t[i + 1], 91) {
            let e = scan(t, i + 2, None);
            if e < n && is_punct(&t[e], 93) {
                proof {
                    lemma_scan_end(tv, i + 2, 0, None);
                }
                let a = copy_tokens(t, i + 2, e);
                match parse_attrs_exec(t, e + 1) {
                    Some(rest) => {
                        let (mut v, j) = rest;
                        let ghost rv = v@;
                        v.insert(0, a);
                        proof {
                            assert(attr_toks(v@) =~= seq![tv.subrange(i + 2, e as int)] + attr_toks(rv));
                        }
                        Some((v, j))
                    },
                    None => None,
                }
            } else {
                None
            }
        } else {
            None
        }
    } else {
        proof {
            assert(attr_toks(Seq::<Vec<Token>>::empty()) =~= Seq::empty());
        }
        Some((Vec::new(), i))
    }
}

/// The bytes of `t` if it is a word.
pub(crate) fn word_of(t: &Token) -> (r: Option<Vec<u8>>)
    ensures
        match t@ {
            Tok::Word(w) => r matches Some(v) && v@ == w,
            _ => r is None,
        },
{
    match t {
        Token::Word(w) => {
            let c = copy_range(w.as_slice(), 0, w.len());
            assert(c@ =~= w@);
            Some(c)
        },
        _ => None,
    }
}

/// The column that starts at `i` (see `parse_col`).
fn parse_col_exec(t: &Vec<Token>, i: usize) -> (r: Option<(ColSyntax, usize)>)
    requires
        i <= t@.len(),
    ensures
        match r {
            Some(x) => parse_col(toks(t@), i as int) == Some((x.0@, x.1 as int)),
            None => parse_col(toks(t@), i as int) is None,
        },
{
    let ghost tv = toks(t@);
    let n = t.len();
    proof {
        lemma_parse_attrs(tv, i as int);
    }
    let (attrs, j) = match parse_attrs_exec(t, i) {
        Some(a) => a,
        None => {
            return None;
        },
    };
    if !(j < n && n - j > 2 && is_punct(&t[j + 1], 58) && is_punct(&t[j + 2], 91)) {
        return None;
    }
    let name = match word_of(&t[j]) {
        Some(w) => w,
        None => {
            return None;
        },
    };
    let s = scan(t, j + 3, Some(59));
    proof {
        lemma_scan_end(tv, j + 3, 0, Some(59));
    }
    if !(s < n && is_punct(&t[s], 59) && s > j + 3) {
        return None;
    }
    let c = scan(t, s + 1, None);
    proof {
        lemma_scan_end(tv, s + 1, 0, None);
    }
    if !(c < n && is_punct(&t[c], 93) && c > s + 1) {
        return None;
    }
    let element = copy_tokens(t, j + 3, s);
    let colty = copy_tokens(t, s + 1, c);
    Some((ColSyntax { attrs, name, element, colty }, c + 1))
}

/// The columns that start at `i` (see `parse_cols`).
pub(crate) fn parse_cols_exec(t: &Vec<Token>, i: usize) -> (r: Option<(Vec<ColSyntax>, bool, usize)>)
    requires
        i <= t@.len(),
    ensures
        match r {
            Some(x) => parse_cols(toks(t@), i as int) == Some((col_syns(x.0@), x.1, x.2 as int)),
            None => parse_cols(toks(t@), i as int) is None,
        },
    decreases t@.len() - i,
{
    let ghost tv = toks(t@);
    let n = t.len();
    if i >= n {
        return None;
    }
    if is_punct(&t[i], 125) {
        proof {
            assert(col_syns(Seq::<ColSyntax>::empty()) =~= Seq::empty());
        }
        return Some((Vec::new(), false, i));
    }
    proof {
        lemma_parse_col(tv, i as int);
    }
    let (c, k) = match parse_col_exec(t, i) {
        Some(x) => x,
        None => {
            return None;
        },
    };
    let ghost cv = c@;
    if k < n && is_punct(&t[k], 125) {
        let mut v: Vec<ColSyntax> = Vec::new();
        v.push(c);
        proof {
            assert(col_syns(v@) =~= seq![cv]);
        }
        Some((v, false, k))
    } else if k < n && is_punct(&t[k], 44) {
        match parse_cols_exec(t, k + 1) {
            Some(rest) => {
                let (mut v, tr, m) = rest;
                let ghost rv = v@;
                let trailing = if v.len() == 0 {
                    true
                } else {
                    tr
                };
                v.insert(0, c);
                proof {
                    assert(col_syns(v@) =~= seq![cv] + col_syns(rv));
                }
                Some((v, trailing, m))
            },
            None => None,
        }
    } else {
        None
    }
}

/// Whether `t` is the word `pub`.
pub(crate) fn is_pub_word(t: &Token) -> (r: bool)
    ensures
        r == (t@ == Tok::Word(pub_word())),
{
    match t {
        Token::Word(w) => {
            let r = w.len() == 3 && w[0] == 112 && w[1] == 117 && w[2] == 98;
            proof {
                if r {
                    assert(w@ =~= pub_word());
                }
            }
            r
        },
        _ => false,
    }
}

/// The syntax of the tokens of a whole `table!` (see `parse_syntax`).
pub fn parse_syntax_exec(t: &Vec<Token>) -> (r: Option<TableSyntax>)
    ensures
        match r {
            Some(x) => parse_syntax(toks(t@)) == Some(x@),
            None => parse_syntax(toks(t@)) is None,
        },
{
    let ghost tv = toks(t@);
    let n = t.len();
    proof {
        lemma_parse_attrs(tv, 0);
    }
    let (attrs, i) = match parse_attrs_exec(t, 0) {
        Some(a) => a,
        None => {
            return None;
        },
    };
    let is_pub = i < n && is_pub_word(&t[i]);
    let j = if is_pub {
        i + 1
    } else {
        i
    };
    if !(j < n && n - j > 5 && is_punct(&t[j], 91) && is_punct(&t[j + 2], 47) && is_punct(&t[j + 4], 93)
        && is_punct(&t[j + 5], 123)) {
        return None;
    }
    let domain = match word_of(&t[j + 1]) {
        Some(w) => w,
        None => {
            return None;
        },
    };
    let name = match word_of(&t[j + 3]) {
        Some(w) => w,
        None => {
            return None;
        },
    };
    match parse_cols_exec(t, j + 6) {
        Some(c) => {
            let (cols, trailing_comma, m) = c;
            if m < n && m + 1 == n {
                Some(TableSyntax { attrs, is_pub, domain, name, cols, trailing_comma })
            } else {
                None
            }
        },
        None => None,
    }
}

/// Whether `w` holds the bytes of `lit`.
pub(crate) fn bytes_are(w: &Vec<u8>, lit: &[u8]) -> (r: bool)
    ensures
        r == (w@ == lit@),
{
    if w.len() != lit.len() {
        return false;
    }
    let mut k: usize = 0;
    while k < w.len()
        invariant
            w@.len() == lit@.len(),
            k <= w@.len(),
            forall|j: int| 0 <= j < k ==> w@[j] == lit@[j],
        decreases w@.len() - k,
    {
        if w[k] != lit[k] {
            return false;
        }
        k = k + 1;
    }
    assert(w@ =~= lit@);
    true
}

/// What can go wrong reading a `table!`.
#[derive(Debug, Clone, Copy, PartialEq, Eq, Structural)]
pub enum ParseError {
    /// The bytes do not split into tokens.
    Lex,
    /// The tokens do not follow the grammar.
    Syntax,
    /// An attribute does not start with its name.
    UnnamedAttribute,
    /// An attribute that needs a value is not of the form `#[name = "value"]`.
    BadAttribute,
    /// `#[kind = "..."]` names no kind of table.
    UnknownKind,
    /// The kind is given twice.
    KindAlreadySet,
    /// Bags are not implemented.
    BagsUnimplemented,
    /// `#[version = "..."]` holds no `u32`.
    BadVersion,
    /// No `#[kind = "..."]` is given.
    KindNotSet,
    /// Two columns are marked `#[sort_key]`.
    SortKeyAlreadySet,
    /// `#[sort_key]` is used on a table that is not sorted.
    SortKeyNeedsSorted,
}

pub open spec fn kind_word() -> Seq<u8> {
    seq![107u8, 105u8, 110u8, 100u8]
}

pub open spec fn row_id_word() -> Seq<u8> {
    seq![114u8, 111u8, 119u8, 95u8, 105u8, 100u8]
}

pub open spec fn row_derive_word() -> Seq<u8> {
    seq![114u8, 111u8, 119u8, 95u8, 100u8, 101u8, 114u8, 105u8, 118u8, 101u8]
}

pub open spec fn save_word() -> Seq<u8> {
    seq![115u8, 97u8, 118u8, 101u8]
}

pub open spec fn version_word() -> Seq<u8> {
    seq![118u8, 101u8, 114u8, 115u8, 105u8, 111u8, 110u8]
}

pub open spec fn add_tracker_word() -> Seq<u8> {
    seq![97u8, 100u8, 100u8, 95u8, 116u8, 114u8, 97u8, 99u8, 107u8, 101u8, 114u8]
}

pub open spec fn append_word() -> Seq<u8> {
    seq![97u8, 112u8, 112u8, 101u8, 110u8, 100u8]
}

pub open spec fn consistent_word() -> Seq<u8> {
    seq![99u8, 111u8, 110u8, 115u8, 105u8, 115u8, 116u8, 101u8, 110u8, 116u8]
}

pub open spec fn bag_word() -> Seq<u8> {
    seq![98u8, 97u8, 103u8]
}

pub open spec fn list_word() -> Seq<u8> {
    seq![108u8, 105u8, 115u8, 116u8]
}

pub open spec fn sorted_word() -> Seq<u8> {
    seq![115u8, 111u8, 114u8, 116u8, 101u8, 100u8]
}

pub open spec fn clone_word() -> Seq<u8> {
    seq![67u8, 108u8, 111u8, 110u8, 101u8]
}

pub open spec fn copy_word() -> Seq<u8> {
    seq![67u8, 111u8, 112u8, 121u8]
}

pub open spec fn debug_word() -> Seq<u8> {
    seq![68u8, 101u8, 98u8, 117u8, 103u8]
}

pub open spec fn index_word() -> Seq<u8> {
    seq![105u8, 110u8, 100u8, 101u8, 120u8]
}

pub open spec fn foreign_word() -> Seq<u8> {
    seq![102u8, 111u8, 114u8, 101u8, 105u8, 103u8, 110u8]
}

pub open spec fn sort_key_word() -> Seq<u8> {
    seq![115u8, 111u8, 114u8, 116u8, 95u8, 107u8, 101u8, 121u8]
}

pub open spec fn foreign_auto_word() -> Seq<u8> {
    seq![102u8, 111u8, 114u8, 101u8, 105u8, 103u8, 110u8, 95u8, 97u8, 117u8, 116u8, 111u8]
}

/// The name of an attribute: its first token, a word.
pub open spec fn attr_name(a: Seq<Tok>) -> Option<Seq<u8>> {
    if a.len() > 0 {
        match a[0] {
            Tok::Word(w) => Some(w),
            _ => None,
        }
    } else {
        None
    }
}

/// The value of an attribute of the form `name = "value"`.
pub open spec fn meta_value(a: Seq<Tok>) -> Option<Seq<u8>> {
    if a.len() == 3 && a[1] == Tok::Punct(61) {
        match a[2] {
            Tok::Str(v) => Some(v),
            _ => None,
        }
    } else {
        None
    }
}

/// The kind of table that `v` names.
pub open spec fn kind_named(v: Seq<u8>) -> Option<TableKind> {
    if v == append_word() {
        Some(TableKind::Append)
    } else if v == consistent_word() {
        Some(TableKind::Consistent)
    } else if v == bag_word() {
        Some(TableKind::Bag)
    } else if v == list_word() {
        Some(TableKind::List)
    } else if v == sorted_word() {
        Some(TableKind::Sorted)
    } else {
        None
    }
}

pub open spec fn is_digit(b: u8) -> bool {
    48 <= b <= 57
}

/// The number that the decimal digits `s` write.
pub open spec fn digits_value(s: Seq<u8>) -> int
    decreases s.len(),
{
    if s.len() == 0 {
        0
    } else {
        digits_value(s.drop_last()) * 10 + (s.last() - 48)
    }
}

/// Every byte of `s` is a decimal digit.
pub open spec fn all_digits(s: Seq<u8>) -> bool {
    forall|i: int| 0 <= i < s.len() ==> is_digit(#[trigger] s[i])
}

/// How `str::parse::<u32>` reads `s`: an optional `+`, then at least one decimal
/// digit, and a value that fits in a `u32`.
pub open spec fn parse_u32_spec(s: Seq<u8>) -> Option<u32> {
    let d = if s.len() > 0 && s[0] == 43 {
        s.skip(1)
    } else {
        s
    };
    if d.len() > 0 && all_digits(d) && digits_value(d) <= u32::MAX {
        Some(digits_value(d) as u32)
    } else {
        None
    }
}

/// An attribute of the list form `name(...)`.
pub open spec fn is_list(a: Seq<Tok>) -> bool {
    &&& a.len() >= 3
    &&& a[1] == Tok::Punct(40)
    &&& scan_end(a, 2, 0, None) == a.len() - 1
    &&& a[a.len() - 1] == Tok::Punct(41)
}

/// The comma-separated items of `a[i..end]`.
pub open spec fn list_items(a: Seq<Tok>, i: int, end: int) -> Seq<Seq<Tok>>
    decreases end - i,
{
    if i < 0 || i >= end || end > a.len() {
        Seq::empty()
    } else {
        let e = scan_end(a, i, 0, Some(44));
        if e >= end || e < i {
            seq![a.subrange(i, end)]
        } else {
            seq![a.subrange(i, e)] + list_items(a, e + 1, end)
        }
    }
}

/// One of `items` is the single word `w`.
pub open spec fn has_word_item(items: Seq<Seq<Tok>>, w: Seq<u8>) -> bool {
    exists|k: int| 0 <= k < items.len() && #[trigger] items[k] == seq![Tok::Word(w)]
}

/// What the attributes of a table set.
pub struct Header {
    pub kind: Option<TableKind>,
    pub consistent: bool,
    pub secret: bool,
    pub sorted: bool,
    pub row_id: Seq<u8>,
    pub row_derive: Seq<Seq<Tok>>,
    pub derive: Derives,
    pub save: bool,
    pub version: u32,
    pub add_trackers: Seq<Seq<u8>>,
    pub module_attrs: Seq<Seq<Tok>>,
}

/// The header before any attribute.
pub open spec fn header_init() -> Header {
    Header {
        kind: None,
        consistent: false,
        secret: false,
        sorted: false,
        row_id: usize_word(),
        row_derive: Seq::empty(),
        derive: Derives { clone: false, debug: false, copy: false },
        save: false,
        version: 0,
        add_trackers: Seq::empty(),
        module_attrs: Seq::empty(),
    }
}

/// What one attribute does to the header.
pub open spec fn apply_attr(h: Header, a: Seq<Tok>) -> Result<Header, ParseError> {
    match attr_name(a) {
        None => Err(ParseError::UnnamedAttribute),
        Some(n) => if n == kind_word() {
            match meta_value(a) {
                None => Err(ParseError::BadAttribute),
                Some(v) => match kind_named(v) {
                    None => Err(ParseError::UnknownKind),
                    Some(k) => if h.kind is Some {
                        Err(ParseError::KindAlreadySet)
                    } else if k == TableKind::Bag {
                        Err(ParseError::BagsUnimplemented)
                    } else {
                        Ok(
                            Header {
                                kind: Some(k),
                                consistent: h.consistent || k == TableKind::Consistent,
                                secret: if k == TableKind::Consistent {
                                    false
                                } else {
                                    h.secret || k == TableKind::List
                                },
                                sorted: h.sorted || k == TableKind::Sorted,
                                ..h
                            },
                        )
                    },
                },
            }
        } else if n == row_id_word() {
            match meta_value(a) {
                None => Err(ParseError::BadAttribute),
                Some(v) => Ok(Header { row_id: v, ..h }),
            }
        } else if n == row_derive_word() {
            if is_list(a) {
                let items = list_items(a, 2, a.len() - 1);
                Ok(
                    Header {
                        row_derive: h.row_derive + items,
                        derive: Derives {
                            clone: h.derive.clone || has_word_item(items, clone_word()),
                            debug: h.derive.debug || has_word_item(items, debug_word()),
                            copy: h.derive.copy || has_word_item(items, copy_word()),
                        },
                        ..h
                    },
                )
            } else {
                Ok(h)
            }
        } else if n == save_word() {
            Ok(Header { save: true, ..h })
        } else if n == version_word() {
            match meta_value(a) {
                None => Err(ParseError::BadAttribute),
                Some(v) => match parse_u32_spec(v) {
                    None => Err(ParseError::BadVersion),
                    Some(x) => Ok(Header { version: x, ..h }),
                },
            }
        } else if n == add_tracker_word() {
            match meta_value(a) {
                Some(v) => Ok(Header { add_trackers: h.add_trackers.push(v), ..h }),
                None => Ok(h),
            }
        } else {
            Ok(Header { module_attrs: h.module_attrs.push(a), ..h })
        },
    }
}

/// The header that the attributes `attrs` set, in order.
pub open spec fn header_of(attrs: Seq<Seq<Tok>>) -> Result<Header, ParseError>
    decreases attrs.len(),
{
    if attrs.len() == 0 {
        Ok(header_init())
    } else {
        match header_of(attrs.drop_last()) {
            Err(e) => Err(e),
            Ok(h) => apply_attr(h, attrs.last()),
        }
    }
}

/// A column attribute that sets a flag rather than being kept.
pub open spec fn is_col_flag(a: Seq<Tok>) -> bool {
    attr_name(a) matches Some(n) && (n == index_word() || n == foreign_word() || n == sort_key_word() || n
        == foreign_auto_word())
}

/// One of the attributes is named `w`.
pub open spec fn has_attr(attrs: Seq<Seq<Tok>>, w: Seq<u8>) -> bool {
    exists|k: int| 0 <= k < attrs.len() && attr_name(#[trigger] attrs[k]) == Some(w)
}

/// A column of a table description.
pub struct ColV {
    pub attrs: Seq<Seq<Tok>>,
    pub name: Seq<u8>,
    pub element: Seq<Tok>,
    pub colty: Seq<Tok>,
    pub indexed: bool,
    pub foreign: bool,
    pub foreign_auto: bool,
}

/// The column described by `c`.
pub open spec fn col_of(c: ColSyn) -> ColV {
    ColV {
        attrs: c.attrs.filter(|a: Seq<Tok>| !is_col_flag(a)),
        name: c.name,
        element: c.element,
        colty: c.colty,
        indexed: has_attr(c.attrs, index_word()),
        foreign: has_attr(c.attrs, foreign_word()) || has_attr(c.attrs, foreign_auto_word()),
        foreign_auto: has_attr(c.attrs, foreign_auto_word()),
    }
}

/// The columns described by `cols` and the sort key among them, for a table of
/// kind `kind`.
pub open spec fn cols_of(cols: Seq<ColSyn>, kind: Option<TableKind>) -> Result<(Seq<ColV>, Option<Seq<u8>>), ParseError>
    decreases cols.len(),
{
    if cols.len() == 0 {
        Ok((Seq::empty(), None))
    } else {
        match cols_of(cols.drop_last(), kind) {
            Err(e) => Err(e),
            Ok(r) => {
                let c = cols.last();
                if exists|k: int| 0 <= k < c.attrs.len() && attr_name(#[trigger] c.attrs[k]) is None {
                    Err(ParseError::UnnamedAttribute)
                } else if has_attr(c.attrs, sort_key_word()) {
                    if r.1 is Some {
                        Err(ParseError::SortKeyAlreadySet)
                    } else if kind != Some(TableKind::Sorted) {
                        Err(ParseError::SortKeyNeedsSorted)
                    } else {
                        Ok((r.0.push(col_of(c)), Some(c.name)))
                    }
                } else {
                    Ok((r.0.push(col_of(c)), r.1))
                }
            },
        }
    }
}

/// A table description.
pub struct TableV {
    pub module_attrs: Seq<Seq<Tok>>,
    pub row_derive: Seq<Seq<Tok>>,
    pub is_pub: bool,
    pub domain: Seq<u8>,
    pub name: Seq<u8>,
    pub kind: Option<TableKind>,
    pub cols: Seq<ColV>,
    pub add_trackers: Seq<Seq<u8>>,
    pub row_id: Seq<u8>,
    pub version: u32,
    pub save: bool,
    pub derive: Derives,
    pub sort_key: Option<Seq<u8>>,
    pub immutable: bool,
    pub sorted: bool,
    pub consistent: bool,
    pub secret: bool,
}

/// Where the columns of a table start: after the attributes, an optional `pub`
/// and `[domain/name] {`, when those are well formed and the brace group closes.
pub open spec fn columns_start(t: Seq<Tok>) -> Option<int> {
    match parse_attrs(t, 0) {
        None => None,
        Some(a) => {
            let i = a.1;
            let is_pub = 0 <= i < t.len() && t[i] == Tok::Word(pub_word());
            let j = if is_pub {
                i + 1
            } else {
                i
            };
            if 0 <= j && j + 5 < t.len() && t[j] == Tok::Punct(91) && t[j + 1] is Word && t[j + 2] == Tok::Punct(47)
                && t[j + 3] is Word && t[j + 4] == Tok::Punct(93) && t[j + 5] == Tok::Punct(123) && scan_end(
                t,
                j + 6,
                0,
                None,
            ) < t.len() && t[scan_end(t, j + 6, 0, None)] == Tok::Punct(125) {
                Some(j + 6)
            } else {
                None
            }
        },
    }
}

/// Reading the columns from `i` one by one, each checked as soon as it is read
/// (`key_seen` tells whether a sort key came before): the first fatal problem
/// met before the columns stop being well formed, if any.
pub open spec fn first_column_fatal(t: Seq<Tok>, i: int, kind: Option<TableKind>, key_seen: bool) -> Option<
    ParseError,
>
    decreases t.len() - i,
{
    if i < 0 || i >= t.len() || t[i] == Tok::Punct(125) {
        None
    } else {
        match parse_col(t, i) {
            None => None,
            Some(c) => {
                proof {
                    lemma_parse_col(t, i);
                }
                let col = c.0;
                let is_key = has_attr(col.attrs, sort_key_word());
                if exists|k: int| 0 <= k < col.attrs.len() && attr_name(#[trigger] col.attrs[k]) is None {
                    None
                } else if is_key && key_seen {
                    Some(ParseError::SortKeyAlreadySet)
                } else if is_key && kind != Some(TableKind::Sorted) {
                    Some(ParseError::SortKeyNeedsSorted)
                } else if c.1 < t.len() && t[c.1] == Tok::Punct(44) {
                    first_column_fatal(t, c.1 + 1, kind, key_seen || is_key)
                } else {
                    None
                }
            },
        }
    }
}

/// The fatal problem met among the columns of a table whose tokens do not all
/// follow the grammar, if one comes before the first malformed column.
pub open spec fn column_fatal(t: Seq<Tok>, kind: Option<TableKind>) -> Option<ParseError> {
    match columns_start(t) {
        Some(s) => first_column_fatal(t, s, kind, false),
        None => None,
    }
}

/// The table description that the source `src` of a `table!` gives, or why it
/// gives none. The attributes are read and applied first, then the kind is
/// required, then the rest is read and its columns checked; where the rest does
/// not follow the grammar, a fatal problem in a column read before the first
/// malformed one comes first.
pub open spec fn read_table(src: Seq<u8>) -> Result<TableV, ParseError> {
    match lex_spec(src) {
        None => Err(ParseError::Lex),
        Some(t) => match parse_attrs(t, 0) {
            None => Err(ParseError::Syntax),
            Some(a) => match header_of(a.0) {
                Err(e) => Err(e),
                Ok(h) => if h.kind is None {
                    Err(ParseError::KindNotSet)
                } else {
                    match parse_syntax(t) {
                        None => match column_fatal(t, h.kind) {
                            Some(e) => Err(e),
                            None => Err(ParseError::Syntax),
                        },
                        Some(syn) => match cols_of(syn.cols, h.kind) {
                            Err(e) => Err(e),
                            Ok(c) => Ok(
                                TableV {
                                    module_attrs: h.module_attrs,
                                    row_derive: h.row_derive,
                                    is_pub: syn.is_pub,
                                    domain: syn.domain,
                                    name: syn.name,
                                    kind: h.kind,
                                    cols: c.0,
                                    add_trackers: h.add_trackers,
                                    row_id: h.row_id,
                                    version: h.version,
                                    save: h.save,
                                    derive: h.derive,
                                    sort_key: c.1,
                                    immutable: false,
                                    sorted: h.sorted,
                                    consistent: h.consistent,
                                    secret: h.secret,
                                },
                            ),
                        },
                    }
                },
            },
        },
    }
}

/// The bytes of each entry.
pub open spec fn byte_strs(v: Seq<Vec<u8>>) -> Seq<Seq<u8>> {
    v.map_values(|w: Vec<u8>| w@)
}

impl View for Col {
    type V = ColV;

    open spec fn view(&self) -> ColV {
        ColV {
            attrs: attr_toks(self.attrs@),
            name: self.name@,
            element: toks(self.element@),
            colty: toks(self.colty@),
            indexed: self.indexed,
            foreign: self.foreign,
            foreign_auto: self.foreign_auto,
        }
    }
}

/// The description of each column.
pub open spec fn col_views(v: Seq<Col>) -> Seq<ColV> {
    v.map_values(|c: Col| c@)
}

impl View for Table {
    type V = TableV;

    open spec fn view(&self) -> TableV {
        TableV {
            module_attrs: attr_toks(self.module_attrs@),
            row_derive: attr_toks(self.row_derive@),
            is_pub: self.is_pub,
            domain: self.domain@,
            name: self.name@,
            kind: self.kind,
            cols: col_views(self.cols@),
            add_trackers: byte_strs(self.add_trackers@),
            row_id: self.row_id@,
            version: self.version,
            save: self.save,
            derive: self.derive,
            sort_key: match self.sort_key {
                Some(k) => Some(k@),
                None => None,
            },
            immutable: self.immutable,
            sorted: self.sorted,
            consistent: self.consistent,
            secret: self.secret,
        }
    }
}

/// What the attributes of `t` have set.
pub open spec fn header_of_table(t: Table) -> Header {
    Header {
        kind: t.kind,
        consistent: t.consistent,
        secret: t.secret,
        sorted: t.sorted,
        row_id: t.row_id@,
        row_derive: attr_toks(t.row_derive@),
        derive: t.derive,
        save: t.save,
        version: t.version,
        add_trackers: byte_strs(t.add_trackers@),
        module_attrs: attr_toks(t.module_attrs@),
    }
}

/// The name of an attribute (see `attr_name`).
fn attr_name_exec(a: &Vec<Token>) -> (r: Option<Vec<u8>>)
    ensures
        match r {
            Some(w) => attr_name(toks(a@)) == Some(w@),
            None => attr_name(toks(a@)) is None,
        },
{
    if a.len() > 0 {
        word_of(&a[0])
    } else {
        None
    }
}

/// The value of an attribute (see `meta_value`).
fn meta_value_exec(a: &Vec<Token>) -> (r: Option<Vec<u8>>)
    ensures
        match r {
            Some(v) => meta_value(toks(a@)) == Some(v@),
            None => meta_value(toks(a@)) is None,
        },
{
    if a.len() == 3 && is_punct(&a[1], 61) {
        match &a[2] {
            Token::Str(v) => {
                let c = copy_range(v.as_slice(), 0, v.len());
                assert(c@ =~= v@);
                Some(c)
            },
            _ => None,
        }
    } else {
        None
    }
}

/// The kind of table that `v` names (see `kind_named`).
fn kind_named_exec(v: &Vec<u8>) -> (r: Option<TableKind>)
    ensures
        r == kind_named(v@),
{
    proof {
        assert(seq![97u8, 112u8, 112u8, 101u8, 110u8, 100u8] =~= append_word());
        assert(seq![99u8, 111u8, 110u8, 115u8, 105u8, 115u8, 116u8, 101u8, 110u8, 116u8] =~= consistent_word());
        assert(seq![98u8, 97u8, 103u8] =~= bag_word());
        assert(seq![108u8, 105u8, 115u8, 116u8] =~= list_word());
        assert(seq![115u8, 111u8, 114u8, 116u8, 101u8, 100u8] =~= sorted_word());
    }
    if bytes_are(v, &[97u8, 112u8, 112u8, 101u8, 110u8, 100u8]) {
        Some(TableKind::Append)
    } else if bytes_are(v, &[99u8, 111u8, 110u8, 115u8, 105u8, 115u8, 116u8, 101u8, 110u8, 116u8]) {
        Some(TableKind::Consistent)
    } else if bytes_are(v, &[98u8, 97u8, 103u8]) {
        Some(TableKind::Bag)
    } else if bytes_are(v, &[108u8, 105u8, 115u8, 116u8]) {
        Some(TableKind::List)
    } else if bytes_are(v, &[115u8, 111u8, 114u8, 116u8, 101u8, 100u8]) {
        Some(TableKind::Sorted)
    } else {
        None
    }
}

/// Reads a `u32` the way `str::parse` does (see `parse_u32_spec`).
pub fn parse_u32(v: &Vec<u8>) -> (r: Option<u32>)
    ensures
        r == parse_u32_spec(v@),
{
    let n = v.len();
    let start: usize = if n > 0 && v[0] == 43 {
        1
    } else {
        0
    };
    let ghost d = if n > 0 && v@[0] == 43 {
        v@.skip(1)
    } else {
        v@
    };
    assert(d == (if v@.len() > 0 && v@[0] == 43 {
        v@.skip(1)
    } else {
        v@
    }));
    if start >= n {
        return None;
    }
    let mut value: u32 = 0;
    let mut k: usize = start;
    while k < n
        invariant
            start <= k <= n,
            n == v@.len(),
            d == v@.subrange(start as int, n as int),
            d == (if v@.len() > 0 && v@[0] == 43 {
                v@.skip(1)
            } else {
                v@
            }),
            start < n,
            forall|j: int| 0 <= j < k - start ==> is_digit(#[trigger] d[j]),
            value == digits_value(d.take(k - start)),
        decreases n - k,
    {
        let b = v[k];
        if !(48 <= b && b <= 57) {
            proof {
                assert(d[k - start] == b);
                assert(!is_digit(d[k - start]));
                assert(!all_digits(d));
            }
            return None;
        }
        let digit: u32 = (b - 48) as u32;
        proof {
            assert(d.take(k - start + 1).drop_last() =~= d.take(k - start));
        }
        if value > (4294967295u32 - digit) / 10 {
            proof {
                assert(value * 10 + digit > 4294967295) by (nonlinear_arith)
                    requires
                        value > (4294967295u32 - digit) / 10,
                        digit <= 9,
                ;
                assert(digits_value(d.take(k - start + 1)) > u32::MAX);
                if all_digits(d) {
                    lemma_digits_grow(d, k - start + 1);
                }
            }
            return None;
        }
        assert(value * 10 + digit <= 4294967295) by (nonlinear_arith)
            requires
                value <= (4294967295u32 - digit) / 10,
                digit <= 9,
        ;
        value = value * 10 + digit;
        k = k + 1;
    }
    proof {
        assert(d.take(n - start) =~= d);
    }
    Some(value)
}

/// Digits write a number that is not negative.
pub proof fn lemma_digits_nonneg(d: Seq<u8>)
    requires
        forall|j: int| 0 <= j < d.len() ==> is_digit(#[trigger] d[j]),
    ensures
        digits_value(d) >= 0,
    decreases d.len(),
{
    if d.len() > 0 {
        lemma_digits_nonneg(d.drop_last());
    }
}

/// Adding digits does not make the number smaller.
pub proof fn lemma_digits_grow(d: Seq<u8>, k: int)
    requires
        0 <= k <= d.len(),
        forall|j: int| 0 <= j < d.len() ==> is_digit(#[trigger] d[j]),
    ensures
        digits_value(d.take(k)) <= digits_value(d),
    decreases d.len() - k,
{
    if k < d.len() {
        lemma_digits_grow(d, k + 1);
        assert(d.take(k + 1).drop_last() =~= d.take(k));
        lemma_digits_nonneg(d.take(k));
    } else {
        assert(d.take(k) =~= d);
    }
}

/// The comma-separated items of `a[i..end]` (see `list_items`).
fn list_items_exec(a: &Vec<Token>, i: usize, end: usize) -> (r: Vec<Vec<Token>>)
    requires
        end <= a@.len(),
    ensures
        attr_toks(r@) == list_items(toks(a@), i as int, end as int),
    decreases end - i,
{
    let ghost av = toks(a@);
    if i >= end {
        proof {
            assert(attr_toks(Seq::<Vec<Token>>::empty()) =~= Seq::empty());
        }
        return Vec::new();
    }
    let e = scan(a, i, Some(44));
    proof {
        lemma_scan_end(av, i as int, 0, Some(44));
    }
    if e >= end {
        let item = copy_tokens(a, i, end);
        let mut r: Vec<Vec<Token>> = Vec::new();
        r.push(item);
        proof {
            assert(attr_toks(r@) =~= seq![av.subrange(i as int, end as int)]);
        }
        r
    } else {
        let item = copy_tokens(a, i, e);
        let mut r = list_items_exec(a, e + 1, end);
        let ghost rv = r@;
        r.insert(0, item);
        proof {
            assert(attr_toks(r@) =~= seq![av.subrange(i as int, e as int)] + attr_toks(rv));
        }
        r
    }
}

/// Whether one of `items` is the single word `lit` (see `has_word_item`).
fn has_word_item_exec(items: &Vec<Vec<Token>>, lit: &[u8]) -> (r: bool)
    ensures
        r == has_word_item(attr_toks(items@), lit@),
{
    let ghost iv = attr_toks(items@);
    let mut k: usize = 0;
    while k < items.len()
        invariant
            k <= items@.len(),
            iv == attr_toks(items@),
            forall|j: int| 0 <= j < k ==> iv[j] != seq![Tok::Word(lit@)],
        decreases items@.len() - k,
    {
        let item = &items[k];
        if item.len() == 1 {
            match &item[0] {
                Token::Word(w) => {
                    if bytes_are(w, lit) {
                        proof {
                            assert(iv[k as int] =~= seq![Tok::Word(lit@)]);
                        }
                        return true;
                    }
                },
                _ => {},
            }
        }
        proof {
            assert(iv[k as int] == toks(item@));
            if toks(item@) == seq![Tok::Word(lit@)] {
                assert(toks(item@)[0] == item@[0]@);
            }
        }
        k = k + 1;
    }
    false
}

/// Whether the attribute has the list form `name(...)` (see `is_list`).
fn is_list_exec(a: &Vec<Token>) -> (r: bool)
    ensures
        r == is_list(toks(a@)),
{
    if a.len() < 3 {
        return false;
    }
    if !is_punct(&a[1], 40) {
        return false;
    }
    let e = scan(a, 2, None);
    e == a.len() - 1 && is_punct(&a[a.len() - 1], 41)
}

/// Applies the attribute `a` to the header of `t` (see `apply_attr`); no column
/// is there yet.
fn apply_attr_exec(t: &mut Table, a: &Vec<Token>) -> (r: Result<(), ParseError>)
    requires
        old(t).cols@.len() == 0,
        !old(t).immutable,
    ensures
        match r {
            Ok(_) => apply_attr(header_of_table(*old(t)), toks(a@)) == Ok::<Header, ParseError>(header_of_table(*final(t))),
            Err(e) => apply_attr(header_of_table(*old(t)), toks(a@)) == Err::<Header, ParseError>(e),
        },
        final(t).cols == old(t).cols,
        final(t).is_pub == old(t).is_pub,
        final(t).domain == old(t).domain,
        final(t).name == old(t).name,
        final(t).sort_key == old(t).sort_key,
        final(t).immutable == old(t).immutable,
{
    let ghost av = toks(a@);
    let ghost h = header_of_table(*t);
    let name = match attr_name_exec(a) {
        Some(n) => n,
        None => {
            return Err(ParseError::UnnamedAttribute);
        },
    };
    proof {
        assert(seq![107u8, 105u8, 110u8, 100u8] =~= kind_word());
        assert(seq![114u8, 111u8, 119u8, 95u8, 105u8, 100u8] =~= row_id_word());
        assert(seq![114u8, 111u8, 119u8, 95u8, 100u8, 101u8, 114u8, 105u8, 118u8, 101u8] =~= row_derive_word());
        assert(seq![115u8, 97u8, 118u8, 101u8] =~= save_word());
        assert(seq![118u8, 101u8, 114u8, 115u8, 105u8, 111u8, 110u8] =~= version_word());
        assert(seq![97u8, 100u8, 100u8, 95u8, 116u8, 114u8, 97u8, 99u8, 107u8, 101u8, 114u8] =~= add_tracker_word());
        assert(seq![67u8, 108u8, 111u8, 110u8, 101u8] =~= clone_word());
        assert(seq![67u8, 111u8, 112u8, 121u8] =~= copy_word());
        assert(seq![68u8, 101u8, 98u8, 117u8, 103u8] =~= debug_word());
    }
    if bytes_are(&name, &[107u8, 105u8, 110u8, 100u8]) {
        let v = match meta_value_exec(a) {
            Some(v) => v,
            None => {
                return Err(ParseError::BadAttribute);
            },
        };
        let k = match kind_named_exec(&v) {
            Some(k) => k,
            None => {
                return Err(ParseError::UnknownKind);
            },
        };
        if t.kind.is_some() {
            return Err(ParseError::KindAlreadySet);
        }
        if k == TableKind::Bag {
            return Err(ParseError::BagsUnimplemented);
        }
        t.set_kind(k);
        Ok(())
    } else if bytes_are(&name, &[114u8, 111u8, 119u8, 95u8, 105u8, 100u8]) {
        let v = match meta_value_exec(a) {
            Some(v) => v,
            None => {
                return Err(ParseError::BadAttribute);
            },
        };
        t.row_id = v;
        Ok(())
    } else if bytes_are(&name, &[114u8, 111u8, 119u8, 95u8, 100u8, 101u8, 114u8, 105u8, 118u8, 101u8]) {
        if is_list_exec(a) {
            let mut items = list_items_exec(a, 2, a.len() - 1);
            let clone = has_word_item_exec(&items, &[67u8, 108u8, 111u8, 110u8, 101u8]);
            let copy = has_word_item_exec(&items, &[67u8, 111u8, 112u8, 121u8]);
            let debug = has_word_item_exec(&items, &[68u8, 101u8, 98u8, 117u8, 103u8]);
            t.derive = Derives {
                clone: t.derive.clone || clone,
                debug: t.derive.debug || debug,
                copy: t.derive.copy || copy,
            };
            let ghost before = t.row_derive@;
            let ghost iv = items@;
            t.row_derive.append(&mut items);
            proof {
                assert(attr_toks(t.row_derive@) =~= attr_toks(before) + attr_toks(iv));
            }
        }
        Ok(())
    } else if bytes_are(&name, &[115u8, 97u8, 118u8, 101u8]) {
        t.save = true;
        Ok(())
    } else if bytes_are(&name, &[118u8, 101u8, 114u8, 115u8, 105u8, 111u8, 110u8]) {
        let v = match meta_value_exec(a) {
            Some(v) => v,
            None => {
                return Err(ParseError::BadAttribute);
            },
        };
        match parse_u32(&v) {
            Some(x) => {
                t.version = x;
                Ok(())
            },
            None => Err(ParseError::BadVersion),
        }
    } else if bytes_are(&name, &[97u8, 100u8, 100u8, 95u8, 116u8, 114u8, 97u8, 99u8, 107u8, 101u8, 114u8]) {
        match meta_value_exec(a) {
            Some(v) => {
                let ghost before = t.add_trackers@;
                let ghost vv = v@;
                t.add_trackers.push(v);
                proof {
                    assert(byte_strs(t.add_trackers@) =~= byte_strs(before).push(vv));
                }
            },
            None => {},
        }
        Ok(())
    } else {
        let c = copy_tokens(a, 0, a.len());
        let ghost before = t.module_attrs@;
        t.module_attrs.push(c);
        proof {
            assert(av.subrange(0, av.len() as int) =~= av);
            assert(attr_toks(t.module_attrs@) =~= attr_toks(before).push(av));
        }
        Ok(())
    }
}

/// Some attribute among the first `k` has the name `w`.
pub open spec fn named_within(attrs: Seq<Seq<Tok>>, k: int, w: Seq<u8>) -> bool {
    exists|j: int| 0 <= j < k && attr_name(#[trigger] attrs[j]) == Some(w)
}

/// The column described by `c`, and whether it is marked `#[sort_key]`; `None`
/// if one of its attributes has no name.
fn col_exec(c: &ColSyntax) -> (r: Option<(Col, bool)>)
    ensures
        match r {
            Some(x) => {
                &&& forall|k: int| 0 <= k < c@.attrs.len() ==> attr_name(#[trigger] c@.attrs[k]) is Some
                &&& x.0@ == col_of(c@)
                &&& x.1 == has_attr(c@.attrs, sort_key_word())
            },
            None => exists|k: int| 0 <= k < c@.attrs.len() && attr_name(#[trigger] c@.attrs[k]) is None,
        },
{
    let ghost av = attr_toks(c.attrs@);
    let mut kept: Vec<Vec<Token>> = Vec::new();
    let mut indexed = false;
    let mut foreign = false;
    let mut foreign_auto = false;
    let mut sort_key = false;
    let mut k: usize = 0;
    proof {
        assert(seq![105u8, 110u8, 100u8, 101u8, 120u8] =~= index_word());
        assert(seq![102u8, 111u8, 114u8, 101u8, 105u8, 103u8, 110u8] =~= foreign_word());
        assert(seq![115u8, 111u8, 114u8, 116u8, 95u8, 107u8, 101u8, 121u8] =~= sort_key_word());
        assert(seq![102u8, 111u8, 114u8, 101u8, 105u8, 103u8, 110u8, 95u8, 97u8, 117u8, 116u8, 111u8] =~= foreign_auto_word());
        reveal(Seq::filter);
        assert(av.take(0).filter(|a: Seq<Tok>| !is_col_flag(a)) =~= Seq::empty());
        assert(attr_toks(kept@) =~= Seq::empty());
    }
    while k < c.attrs.len()
        invariant
            k <= c.attrs@.len(),
            av == attr_toks(c.attrs@),
            forall|j: int| 0 <= j < k ==> attr_name(#[trigger] av[j]) is Some,
            attr_toks(kept@) == av.take(k as int).filter(|a: Seq<Tok>| !is_col_flag(a)),
            indexed == named_within(av, k as int, index_word()),
            foreign == (named_within(av, k as int, foreign_word()) || named_within(av, k as int, foreign_auto_word())),
            foreign_auto == named_within(av, k as int, foreign_auto_word()),
            sort_key == named_within(av, k as int, sort_key_word()),
        decreases c.attrs@.len() - k,
    {
        let a = &c.attrs[k];
        assert(av[k as int] == toks(a@));
        proof {
            assert(seq![105u8, 110u8, 100u8, 101u8, 120u8] =~= index_word());
            assert(seq![102u8, 111u8, 114u8, 101u8, 105u8, 103u8, 110u8] =~= foreign_word());
            assert(seq![115u8, 111u8, 114u8, 116u8, 95u8, 107u8, 101u8, 121u8] =~= sort_key_word());
            assert(seq![102u8, 111u8, 114u8, 101u8, 105u8, 103u8, 110u8, 95u8, 97u8, 117u8, 116u8, 111u8] =~= foreign_auto_word());
        }
        let name = match attr_name_exec(a) {
            Some(n) => n,
            None => {
                return None;
            },
        };
        let is_index = bytes_are(&name, &[105u8, 110u8, 100u8, 101u8, 120u8]);
        let is_foreign = bytes_are(&name, &[102u8, 111u8, 114u8, 101u8, 105u8, 103u8, 110u8]);
        let is_sort_key = bytes_are(&name, &[115u8, 111u8, 114u8, 116u8, 95u8, 107u8, 101u8, 121u8]);
        let is_foreign_auto = bytes_are(&name, &[102u8, 111u8, 114u8, 101u8, 105u8, 103u8, 110u8, 95u8, 97u8, 117u8, 116u8, 111u8]);
        let ghost before = kept@;
        if is_index {
            indexed = true;
        } else if is_foreign {
            foreign = true;
        } else if is_sort_key {
            sort_key = true;
        } else if is_foreign_auto {
            foreign = true;
            foreign_auto = true;
        } else {
            let copy = copy_tokens(a, 0, a.len());
            kept.push(copy);
            proof {
                assert(toks(a@).subrange(0, toks(a@).len() as int) =~= toks(a@));
            }
        }
        proof {
            reveal(Seq::filter);
            assert(av.take(k + 1).drop_last() =~= av.take(k as int));
            assert(av.take(k + 1).last() == av[k as int]);
            if !is_col_flag(av[k as int]) {
                assert(attr_toks(kept@) =~= attr_toks(before).push(av[k as int]));
            } else {
                assert(attr_toks(kept@) =~= attr_toks(before));
            }
            assert forall|w: Seq<u8>| named_within(av, k + 1, w) == (named_within(av, k as int, w) || attr_name(av[k as int]) == Some(w)) by {
                if named_within(av, k + 1, w) && !(attr_name(av[k as int]) == Some(w)) {
                    let j = choose|j: int| 0 <= j < k + 1 && attr_name(#[trigger] av[j]) == Some(w);
                    assert(j < k);
                }
            }
        }
        k = k + 1;
    }
    proof {
        assert(av.take(c.attrs@.len() as int) =~= av);
    }
    let element = copy_tokens(&c.element, 0, c.element.len());
    let colty = copy_tokens(&c.colty, 0, c.colty.len());
    let name = copy_range(c.name.as_slice(), 0, c.name.len());
    proof {
        assert(toks(element@) =~= toks(c.element@));
        assert(toks(colty@) =~= toks(c.colty@));
        assert(name@ =~= c.name@);
    }
    Some((Col { attrs: kept, name, element, colty, indexed, foreign, foreign_auto }, sort_key))
}

/// Once the attributes of a prefix fail, the whole list fails the same way.
pub proof fn lemma_header_err(attrs: Seq<Seq<Tok>>, m: int, n: int)
    requires
        0 <= m <= n <= attrs.len(),
        header_of(attrs.take(m)) is Err,
    ensures
        header_of(attrs.take(n)) == header_of(attrs.take(m)),
    decreases n - m,
{
    if n > m {
        lemma_header_err(attrs, m, n - 1);
        assert(attrs.take(n).drop_last() =~= attrs.take(n - 1));
    }
}

/// Once the columns of a prefix fail, the whole list fails the same way.
pub proof fn lemma_cols_err(cols: Seq<ColSyn>, kind: Option<TableKind>, m: int, n: int)
    requires
        0 <= m <= n <= cols.len(),
        cols_of(cols.take(m), kind) is Err,
    ensures
        cols_of(cols.take(n), kind) == cols_of(cols.take(m), kind),
    decreases n - m,
{
    if n > m {
        lemma_cols_err(cols, kind, m, n - 1);
        assert(cols.take(n).drop_last() =~= cols.take(n - 1));
    }
}

/// Applies the attributes `attrs`, in order, to the fresh description `t` (see
/// `header_of`).
fn read_header(attrs: &Vec<Vec<Token>>, t: &mut Table) -> (r: Result<(), ParseError>)
    requires
        header_of_table(*old(t)) == header_init(),
        old(t).cols@.len() == 0,
        !old(t).immutable,
    ensures
        match r {
            Ok(_) => header_of(attr_toks(attrs@)) == Ok::<Header, ParseError>(header_of_table(*final(t))),
            Err(e) => header_of(attr_toks(attrs@)) == Err::<Header, ParseError>(e),
        },
        final(t).cols == old(t).cols,
        final(t).is_pub == old(t).is_pub,
        final(t).domain == old(t).domain,
        final(t).name == old(t).name,
        final(t).sort_key == old(t).sort_key,
        final(t).immutable == old(t).immutable,
{
    let ghost av = attr_toks(attrs@);
    let mut k: usize = 0;
    proof {
        assert(av.take(0) =~= Seq::empty());
    }
    while k < attrs.len()
        invariant
            k <= attrs@.len(),
            av == attr_toks(attrs@),
            header_of(av.take(k as int)) == Ok::<Header, ParseError>(header_of_table(*t)),
            t.cols == old(t).cols,
            t.cols@.len() == 0,
            t.is_pub == old(t).is_pub,
            t.domain == old(t).domain,
            t.name == old(t).name,
            t.sort_key == old(t).sort_key,
            t.immutable == old(t).immutable,
            !t.immutable,
        decreases attrs@.len() - k,
    {
        proof {
            assert(av.take(k + 1).drop_last() =~= av.take(k as int));
            assert(av.take(k + 1).last() == av[k as int]);
            assert(av[k as int] == toks(attrs@[k as int]@));
        }
        match apply_attr_exec(t, &attrs[k]) {
            Ok(_) => {},
            Err(e) => {
                proof {
                    lemma_header_err(av, k + 1, av.len() as int);
                    assert(av.take(av.len() as int) =~= av);
                }
                return Err(e);
            },
        }
        k = k + 1;
    }
    proof {
        assert(av.take(attrs@.len() as int) =~= av);
    }
    Ok(())
}

/// The columns described by `cols`, for a table of kind `kind`, and the name of
/// the sort key (see `cols_of`).
fn read_cols(cols: &Vec<ColSyntax>, kind: Option<TableKind>) -> (r: Result<(Vec<Col>, Option<Vec<u8>>), ParseError>)
    ensures
        match r {
            Ok(x) => cols_of(col_syns(cols@), kind) == Ok::<(Seq<ColV>, Option<Seq<u8>>), ParseError>(
                (col_views(x.0@), match x.1 {
                    Some(k) => Some(k@),
                    None => None,
                }),
            ),
            Err(e) => cols_of(col_syns(cols@), kind) == Err::<(Seq<ColV>, Option<Seq<u8>>), ParseError>(e),
        },
{
    let ghost cv = col_syns(cols@);
    let mut out: Vec<Col> = Vec::new();
    let mut sort_key: Option<Vec<u8>> = None;
    let mut k: usize = 0;
    proof {
        assert(cv.take(0) =~= Seq::empty());
        assert(col_views(out@) =~= Seq::empty());
    }
    while k < cols.len()
        invariant
            k <= cols@.len(),
            cv == col_syns(cols@),
            cols_of(cv.take(k as int), kind) == Ok::<(Seq<ColV>, Option<Seq<u8>>), ParseError>(
                (col_views(out@), match sort_key {
                    Some(n) => Some(n@),
                    None => None,
                }),
            ),
        decreases cols@.len() - k,
    {
        proof {
            assert(cv.take(k + 1).drop_last() =~= cv.take(k as int));
            assert(cv.take(k + 1).last() == cv[k as int]);
            assert(cv[k as int] == cols@[k as int]@);
        }
        let c = &cols[k];
        match col_exec(c) {
            None => {
                proof {
                    lemma_cols_err(cv, kind, k + 1, cv.len() as int);
                    assert(cv.take(cv.len() as int) =~= cv);
                }
                return Err(ParseError::UnnamedAttribute);
            },
            Some(x) => {
                let (col, is_sort_key) = x;
                if is_sort_key {
                    if sort_key.is_some() {
                        proof {
                            lemma_cols_err(cv, kind, k + 1, cv.len() as int);
                            assert(cv.take(cv.len() as int) =~= cv);
                        }
                        return Err(ParseError::SortKeyAlreadySet);
                    }
                    if kind != Some(TableKind::Sorted) {
                        proof {
                            lemma_cols_err(cv, kind, k + 1, cv.len() as int);
                            assert(cv.take(cv.len() as int) =~= cv);
                        }
                        return Err(ParseError::SortKeyNeedsSorted);
                    }
                    let n = copy_range(c.name.as_slice(), 0, c.name.len());
                    proof {
                        assert(n@ =~= c.name@);
                    }
                    sort_key = Some(n);
                }
                let ghost before = out@;
                let ghost colv = col@;
                out.push(col);
                proof {
                    assert(col_views(out@) =~= col_views(before).push(colv));
                }
            },
        }
        k = k + 1;
    }
    proof {
        assert(cv.take(cols@.len() as int) =~= cv);
    }
    Ok((out, sort_key))
}

/// The errors that stand for a programming error in the source of a `table!`
/// rather than a malformed one: on these the table is not to be read at all.
pub open spec fn is_fatal_error(e: ParseError) -> bool {
    ||| e is BadAttribute
    ||| e is KindAlreadySet
    ||| e is BagsUnimplemented
    ||| e is BadVersion
    ||| e is SortKeyAlreadySet
    ||| e is SortKeyNeedsSorted
}

/// The source reads as a table, or fails in a way that is reported rather than
/// fatal.
pub open spec fn readable_source(src: Seq<u8>) -> bool {
    !(read_table(src) matches Err(e) && is_fatal_error(e))
}

/// Where the columns start (see `columns_start`).
fn columns_start_exec(t: &Vec<Token>) -> (r: Option<usize>)
    ensures
        match r {
            Some(s) => columns_start(toks(t@)) == Some(s as int) && s <= t@.len(),
            None => columns_start(toks(t@)) is None,
        },
{
    let ghost tv = toks(t@);
    let n = t.len();
    proof {
        lemma_parse_attrs(tv, 0);
    }
    let (_, i) = match parse_attrs_exec(t, 0) {
        Some(a) => a,
        None => {
            return None;
        },
    };
    let is_pub = i < n && is_pub_word(&t[i]);
    let j = if is_pub {
        i + 1
    } else {
        i
    };
    if !(j < n && n - j > 5 && is_punct(&t[j], 91) && is_punct(&t[j + 2], 47) && is_punct(&t[j + 4], 93)
        && is_punct(&t[j + 5], 123)) {
        return None;
    }
    if word_of(&t[j + 1]).is_none() || word_of(&t[j + 3]).is_none() {
        return None;
    }
    let e = scan(t, j + 6, None);
    if e < n && is_punct(&t[e], 125) {
        Some(j + 6)
    } else {
        None
    }
}

/// The first fatal problem among the columns read one by one (see
/// `column_fatal`).
fn column_fatal_exec(t: &Vec<Token>, kind: Option<TableKind>) -> (r: Option<ParseError>)
    ensures
        r == column_fatal(toks(t@), kind),
{
    let ghost tv = toks(t@);
    let n = t.len();
    let start = match columns_start_exec(t) {
        Some(s) => s,
        None => {
            return None;
        },
    };
    let mut i = start;
    let mut key_seen = false;
    while i < n && !is_punct(&t[i], 125)
        invariant
            tv == toks(t@),
            n == t@.len(),
            start <= i <= n,
            columns_start(tv) == Some(start as int),
            first_column_fatal(tv, i as int, kind, key_seen) == column_fatal(tv, kind),
        decreases n - i,
    {
        proof {
            lemma_parse_col(tv, i as int);
        }
        let (c, k) = match parse_col_exec(t, i) {
            Some(x) => x,
            None => {
                return None;
            },
        };
        let is_key = match col_exec(&c) {
            Some(x) => x.1,
            None => {
                return None;
            },
        };
        if is_key && key_seen {
            return Some(ParseError::SortKeyAlreadySet);
        }
        if is_key && kind != Some(TableKind::Sorted) {
            return Some(ParseError::SortKeyNeedsSorted);
        }
        if k < n && is_punct(&t[k], 44) {
            key_seen = key_seen || is_key;
            i = k + 1;
        } else {
            return None;
        }
    }
    None
}

/// Reads the source of a `table!` into a table description (see `read_table`).
/// The source must not fail fatally (see `readable_source`; `read_table_bytes`
/// tells which sources do).
pub fn parse_table(src: &[u8]) -> (r: Result<Table, ParseError>)
    requires
        readable_source(src@),
    ensures
        match r {
            Ok(t) => read_table(src@) == Ok::<TableV, ParseError>(t@),
            Err(e) => read_table(src@) == Err::<TableV, ParseError>(e) && !is_fatal_error(e),
        },
        r matches Ok(t) ==> t@.add_trackers == source_attrs(src@).filter_map(|a: Seq<Tok>| tracker_value(a)),
        r matches Ok(t) ==> t@.module_attrs == source_attrs(src@).filter(|a: Seq<Tok>| !is_table_attr(a)),
{
    proof {
        lemma_read_table_keeps_every_tracker(src@);
        lemma_read_table_keeps_module_attrs(src@);
    }
    read_table_bytes(src)
}

/// Reads the source of a `table!` into a table description, or gives the first
/// problem found, fatal ones included (see `read_table`).
pub fn read_table_bytes(src: &[u8]) -> (r: Result<Table, ParseError>)
    ensures
        match r {
            Ok(t) => read_table(src@) == Ok::<TableV, ParseError>(t@),
            Err(e) => read_table(src@) == Err::<TableV, ParseError>(e),
        },
        r matches Ok(t) ==> t@.add_trackers == source_attrs(src@).filter_map(|a: Seq<Tok>| tracker_value(a)),
        r matches Ok(t) ==> t@.module_attrs == source_attrs(src@).filter(|a: Seq<Tok>| !is_table_attr(a)),
{
    proof {
        lemma_read_table_keeps_every_tracker(src@);
        lemma_read_table_keeps_module_attrs(src@);
    }
    let tokens = match lex(src) {
        Some(v) => v,
        None => {
            return Err(ParseError::Lex);
        },
    };
    let (attrs, _) = match parse_attrs_exec(&tokens, 0) {
        Some(a) => a,
        None => {
            return Err(ParseError::Syntax);
        },
    };
    let mut table = Table::new();
    proof {
        assert(attr_toks(table.row_derive@) =~= Seq::empty());
        assert(attr_toks(table.module_attrs@) =~= Seq::empty());
        assert(byte_strs(table.add_trackers@) =~= Seq::empty());
        assert(header_of_table(table) == header_init());
    }
    match read_header(&attrs, &mut table) {
        Ok(_) => {},
        Err(e) => {
            return Err(e);
        },
    }
    if table.kind.is_none() {
        return Err(ParseError::KindNotSet);
    }
    let syn = match parse_syntax_exec(&tokens) {
        Some(s) => s,
        None => {
            return match column_fatal_exec(&tokens, table.kind) {
                Some(e) => Err(e),
                None => Err(ParseError::Syntax),
            };
        },
    };
    proof {
        assert(syn@.attrs == attr_toks(attrs@));
    }
    let (cols, sort_key) = match read_cols(&syn.cols, table.kind) {
        Ok(x) => x,
        Err(e) => {
            return Err(e);
        },
    };
    table.is_pub = syn.is_pub;
    table.domain = syn.domain;
    table.name = syn.name;
    table.cols = cols;
    table.sort_key = sort_key;
    Ok(table)
}

/// The value of an attribute `#[add_tracker = "value"]`; none for any other.
pub open spec fn tracker_value(a: Seq<Tok>) -> Option<Seq<u8>> {
    if attr_name(a) == Some(add_tracker_word()) {
        meta_value(a)
    } else {
        None
    }
}

/// The attributes at the start of the source `src`, if it lexes and they parse.
pub open spec fn source_attrs(src: Seq<u8>) -> Seq<Seq<Tok>> {
    match lex_spec(src) {
        Some(t) => match parse_attrs(t, 0) {
            Some(a) => a.0,
            None => Seq::empty(),
        },
        None => Seq::empty(),
    }
}

/// Every `#[add_tracker = "..."]` is kept: the trackers that attributes set are
/// the values of the `add_tracker` attributes among them, all of them, in order.
pub proof fn lemma_header_keeps_every_tracker(attrs: Seq<Seq<Tok>>)
    ensures
        header_of(attrs) matches Ok(h) ==> h.add_trackers == attrs.filter_map(|a: Seq<Tok>| tracker_value(a)),
    decreases attrs.len(),
{
    let f = |a: Seq<Tok>| tracker_value(a);
    if attrs.len() == 0 {
        assert(header_init().add_trackers =~= attrs.filter_map(f));
    } else {
        lemma_header_keeps_every_tracker(attrs.drop_last());
        if let Ok(h0) = header_of(attrs.drop_last()) {
            let a = attrs.last();
            if let Ok(h) = apply_attr(h0, a) {
                match f(a) {
                    Some(v) => {
                        assert(h.add_trackers =~= h0.add_trackers + seq![v]);
                    },
                    None => {
                        assert(h.add_trackers == h0.add_trackers);
                    },
                }
            }
        }
    }
}

/// The attribute is one that configures the table (rather than one kept for the
/// module).
pub open spec fn is_table_attr(a: Seq<Tok>) -> bool {
    attr_name(a) matches Some(n) && (n == kind_word() || n == row_id_word() || n == row_derive_word() || n
        == save_word() || n == version_word() || n == add_tracker_word())
}

/// The attributes that do not configure the table are all kept for the module,
/// in order; and the table is saved exactly when one of the attributes is
/// `#[save]`.
pub proof fn lemma_header_keeps_module_attrs(attrs: Seq<Seq<Tok>>)
    ensures
        header_of(attrs) matches Ok(h) ==> {
            &&& h.module_attrs == attrs.filter(|a: Seq<Tok>| !is_table_attr(a))
            &&& h.save == exists|k: int| 0 <= k < attrs.len() && attr_name(#[trigger] attrs[k]) == Some(save_word())
        },
    decreases attrs.len(),
{
    let f = |a: Seq<Tok>| !is_table_attr(a);
    reveal(Seq::filter);
    if attrs.len() == 0 {
        assert(header_init().module_attrs =~= attrs.filter(f));
    } else {
        lemma_header_keeps_module_attrs(attrs.drop_last());
        let a = attrs.last();
        assert(attrs.filter(f) == (if f(a) {
            attrs.drop_last().filter(f).push(a)
        } else {
            attrs.drop_last().filter(f)
        }));
        if let Ok(h0) = header_of(attrs.drop_last()) {
            if let Ok(h) = apply_attr(h0, a) {
                assert(h.save == (h0.save || attr_name(a) == Some(save_word())));
                if f(a) {
                    assert(h.module_attrs == h0.module_attrs.push(a));
                } else {
                    assert(h.module_attrs == h0.module_attrs);
                }
                let init = attrs.drop_last();
                if h.save {
                    if !h0.save {
                        assert(attr_name(attrs[attrs.len() - 1]) == Some(save_word()));
                    } else {
                        let k = choose|k: int| 0 <= k < init.len() && attr_name(#[trigger] init[k]) == Some(save_word());
                        assert(attrs[k] == init[k]);
                    }
                } else {
                    assert forall|k: int| 0 <= k < attrs.len() implies attr_name(#[trigger] attrs[k]) != Some(save_word()) by {
                        if k < init.len() {
                            assert(attrs[k] == init[k]);
                        }
                    }
                }
            }
        }
    }
}

/// A table read from source keeps for its module every attribute that does not
/// configure it, in order, and is saved exactly when one attribute is `#[save]`.
pub proof fn lemma_read_table_keeps_module_attrs(src: Seq<u8>)
    ensures
        read_table(src) matches Ok(t) ==> {
            &&& t.module_attrs == source_attrs(src).filter(|a: Seq<Tok>| !is_table_attr(a))
            &&& t.save == exists|k: int|
                0 <= k < source_attrs(src).len() && attr_name(#[trigger] source_attrs(src)[k]) == Some(save_word())
        },
{
    if let Some(t) = lex_spec(src) {
        if let Some(a) = parse_attrs(t, 0) {
            lemma_header_keeps_module_attrs(a.0);
        }
    }
}

/// A table read from source keeps the value of each of its `#[add_tracker]`
/// attributes, in source order.
pub proof fn lemma_read_table_keeps_every_tracker(src: Seq<u8>)
    ensures
        read_table(src) matches Ok(t) ==> t.add_trackers == source_attrs(src).filter_map(
            |a: Seq<Tok>| tracker_value(a),
        ),
{
    if let Some(t) = lex_spec(src) {
        if let Some(a) = parse_attrs(t, 0) {
            lemma_header_keeps_every_tracker(a.0);
        }
    }
}

/// The guarantees that the attributes set are those of the kind they set:
/// consistent tables are consistent, lists are secret, sorted tables are sorted,
/// and nothing else is.
pub proof fn lemma_header_guarantees(attrs: Seq<Seq<Tok>>)
    ensures
        header_of(attrs) matches Ok(h) ==> {
            &&& h.consistent == (h.kind == Some(TableKind::Consistent))
            &&& h.secret == (h.kind == Some(TableKind::List))
            &&& h.sorted == (h.kind == Some(TableKind::Sorted))
        },
    decreases attrs.len(),
{
    if attrs.len() > 0 {
        lemma_header_guarantees(attrs.drop_last());
    }
}

/// A table read from source has its kind set, is not immutable, and has exactly
/// the guarantees of its kind.
pub proof fn lemma_read_table_guarantees(src: Seq<u8>)
    ensures
        read_table(src) matches Ok(t) ==> {
            &&& t.kind is Some
            &&& !t.immutable
            &&& t.consistent == (t.kind == Some(TableKind::Consistent))
            &&& t.secret == (t.kind == Some(TableKind::List))
            &&& t.sorted == (t.kind == Some(TableKind::Sorted))
        },
{
    if let Some(t) = lex_spec(src) {
        if let Some(syn) = parse_syntax(t) {
            lemma_header_guarantees(syn.attrs);
        }
    }
}

} // verus!
