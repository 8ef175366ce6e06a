use v11::expander::plan_table;
use v11::output::table_module;
use v11::invocations::table_invocations;
use v11::macro_table::TableKind;
use v11::parse::{lex, parse_table, parse_u32, read_table_bytes, ParseError, Token};

fn word(s: &str) -> Token {
    Token::Word(s.as_bytes().to_vec())
}

fn punct(c: char) -> Token {
    Token::Punct(c as u8)
}

fn words(v: &[Token]) -> Vec<String> {
    v.iter()
        .map(|t| match t {
            Token::Word(w) => String::from_utf8(w.clone()).unwrap(),
            Token::Str(s) => format!("{:?}", String::from_utf8(s.clone()).unwrap()),
            Token::Punct(p) => (*p as char).to_string(),
        })
        .collect()
}

const EXAMPLE: &str = r#"
    #[kind = "consistent"]
    #[row_derive(Clone, Debug)]
    #[version = "3"]
    #[add_tracker = "my_tracker()"]
    #[doc = "Ships."]
    pub [SEA/ships] {
        #[index]
        name: [String; VecCol<String>],
        #[foreign_auto]
        #[serde(skip)]
        harbor: [harbor::RowId; VecCol<harbor::RowId>],
        grid: [[u8; 4]; VecCol<[u8; 4]>],
    }
"#;

#[test]
fn lexes_words_strings_and_punctuation() {
    let toks = lex(br#"#[kind = "sorted"] x_1: [u8;4]"#).unwrap();
    assert_eq!(
        words(&toks),
        vec!["#", "[", "kind", "=", "\"sorted\"", "]", "x_1", ":", "[", "u8", ";", "4", "]"]
    );
    assert_eq!(toks[0], punct('#'));
    assert_eq!(toks[2], word("kind"));
    assert_eq!(toks[4], Token::Str(b"sorted".to_vec()));
}

#[test]
fn lex_refuses_open_strings_and_non_ascii() {
    assert!(lex(br#"#[kind = "sorted]"#).is_none());
    assert!(lex("na\u{e9}me".as_bytes()).is_none());
    assert_eq!(lex(b"  \n\t ").unwrap().len(), 0);
}

#[test]
fn parses_a_full_table() {
    let t = parse_table(EXAMPLE.as_bytes()).unwrap();
    assert!(t.is_pub);
    assert_eq!(t.domain, b"SEA".to_vec());
    assert_eq!(t.name, b"ships".to_vec());
    assert_eq!(t.kind, Some(TableKind::Consistent));
    assert!(t.consistent && !t.secret && !t.sorted && !t.immutable);
    assert_eq!(t.version, 3);
    assert!(t.derive.clone && t.derive.debug && !t.derive.copy);
    assert_eq!(t.row_derive.len(), 2);
    assert_eq!(t.row_derive[0], vec![word("Clone")]);
    assert_eq!(t.add_trackers, vec![b"my_tracker()".to_vec()]);
    assert_eq!(t.module_attrs.len(), 1);
    assert_eq!(words(&t.module_attrs[0]), vec!["doc", "=", "\"Ships.\""]);
    assert_eq!(t.row_id, b"usize".to_vec());
    assert_eq!(t.sort_key, None);
    assert_eq!(t.cols.len(), 3);
    let name = &t.cols[0];
    assert_eq!(name.name, b"name".to_vec());
    assert!(name.indexed && !name.foreign && !name.foreign_auto);
    assert!(name.attrs.is_empty());
    assert_eq!(words(&name.element), vec!["String"]);
    assert_eq!(words(&name.colty), vec!["VecCol", "<", "String", ">"]);
    let harbor = &t.cols[1];
    assert!(harbor.foreign && harbor.foreign_auto && !harbor.indexed);
    assert_eq!(harbor.attrs.len(), 1);
    assert_eq!(words(&harbor.attrs[0]), vec!["serde", "(", "skip", ")"]);
    assert_eq!(words(&harbor.element), vec!["harbor", ":", ":", "RowId"]);
    let grid = &t.cols[2];
    assert_eq!(words(&grid.element), vec!["[", "u8", ";", "4", "]"]);
    assert_eq!(words(&grid.colty), vec!["VecCol", "<", "[", "u8", ";", "4", "]", ">"]);
}

#[test]
fn sorted_table_with_sort_key() {
    let src = br#"#[kind = "sorted"] [D/t] { #[sort_key] a: [u32; VecCol<u32>], b: [u8; VecCol<u8>] }"#;
    let t = parse_table(src).unwrap();
    assert_eq!(t.kind, Some(TableKind::Sorted));
    assert!(t.sorted);
    assert!(!t.is_pub);
    assert_eq!(t.sort_key, Some(b"a".to_vec()));
    assert_eq!(t.cols.len(), 2);
}

#[test]
fn list_tables_are_secret_and_rows_can_be_empty() {
    let t = parse_table(br#"#[kind = "list"] #[save] #[row_id = "u32"] [D/t] {}"#).unwrap();
    assert!(t.secret && t.save);
    assert_eq!(t.row_id, b"u32".to_vec());
    assert_eq!(t.cols.len(), 0);
}

#[test]
fn trailing_comma_is_allowed() {
    assert!(parse_table(br#"#[kind = "append"] [D/t] { a: [u8; X], }"#).is_ok());
    assert_eq!(parse_table(br#"#[kind = "append"] [D/t] { , }"#).err(), Some(ParseError::Syntax));
}

#[test]
fn each_error() {
    let cases: Vec<(&[u8], ParseError)> = vec![
        (br#"#[kind = "append"] [D/t] { a: [u8; X] "#, ParseError::Syntax),
        (br#"#[kind = "append"] [D/t] { a: [u8; X] } extra"#, ParseError::Syntax),
        (br#"#[kind = "append"] [D/t] { a: [; X] }"#, ParseError::Syntax),
        (br#"#[kind = "append"] [D/t] { "a": [u8; X] }"#, ParseError::Syntax),
        (br#"#[kind = "open] [D/t] {}"#, ParseError::Lex),
        (br#"#[kind = "heap"] [D/t] {}"#, ParseError::UnknownKind),
        (br#"#[kind] [D/t] {}"#, ParseError::BadAttribute),
        (br#"#["kind"] [D/t] {}"#, ParseError::UnnamedAttribute),
        (br#"#[kind = "list"] #[kind = "list"] [D/t] {}"#, ParseError::KindAlreadySet),
        (br#"#[kind = "bag"] [D/t] {}"#, ParseError::BagsUnimplemented),
        (br#"#[kind = "list"] #[version = "x1"] [D/t] {}"#, ParseError::BadVersion),
        (br#"#[save] [D/t] {}"#, ParseError::KindNotSet),
        (br#"#[kind = "heap"] [D/t] { a: "#, ParseError::UnknownKind),
        (br#"#[kind = "bag"] [D/t] { a: "#, ParseError::BagsUnimplemented),
        (br#"#[save] [D/t] { a: "#, ParseError::KindNotSet),
        (br#"#[kind = "bag"] #[save [D/t] {}"#, ParseError::Syntax),
        (br#"#[kind = "list"] [D/t] { #[sort_key] a: [u8; X], b: [u8] }"#, ParseError::SortKeyNeedsSorted),
        (br#"#[kind = "sorted"] [D/t] { #[sort_key] a: [u8; X], #[sort_key] b: [u8; X], c }"#, ParseError::SortKeyAlreadySet),
        (br#"#[kind = "list"] [D/t] { a: [u8], #[sort_key] b: [u8; X] }"#, ParseError::Syntax),
        (br#"#[kind = "list"] [D/t] { #[sort_key] a: [u8; X] } extra"#, ParseError::SortKeyNeedsSorted),
        (br#"#[kind = "list"] [D/t] { #[sort_key] a: [u8; X]"#, ParseError::Syntax),
        (br#"#[kind = "list"] [D/t] { #[sort_key] a: [u8; X] }"#, ParseError::SortKeyNeedsSorted),
        (
            br#"#[kind = "sorted"] [D/t] { #[sort_key] a: [u8; X], #[sort_key] b: [u8; X] }"#,
            ParseError::SortKeyAlreadySet,
        ),
    ];
    for (src, e) in cases {
        assert_eq!(read_table_bytes(src).err(), Some(e), "{}", String::from_utf8_lossy(src));
    }
    for src in [&br#"#[kind = "heap"] [D/t] {}"#[..], br#"#["kind"] [D/t] {}"#, br#"#[save] [D/t] {}"#] {
        assert_eq!(parse_table(src).err(), read_table_bytes(src).err());
    }
}

#[test]
fn u32_like_str_parse() {
    let cases = ["0", "42", "+7", "4294967295", "4294967296", "", "+", "-1", "1a", "007"];
    for c in cases.iter() {
        let ours = parse_u32(&c.as_bytes().to_vec());
        let std = c.parse::<u32>().ok();
        assert_eq!(ours, std, "{:?}", c);
    }
}

#[test]
fn reads_the_ship_and_sailor_tables() {
    let ships = br#"
        #[kind = "consistent"]
        #[row_derive(Clone, Debug)]
        [EXAMPLE/ships] {
            name: [String; VecCol<String>],
            cargo: [u8; VecCol<u8>],
        }
    "#;
    let sailors = br#"
        #[kind = "consistent"]
        #[row_derive(Debug)]
        [EXAMPLE/sailors] {
            #[foreign_auto]
            #[index]
            ship: [ships::RowId; VecCol<ships::RowId>],
            name: [String; VecCol<String>],
        }
    "#;
    let s = parse_table(ships).unwrap();
    assert_eq!(s.name, b"ships".to_vec());
    assert!(s.derive.clone && s.derive.debug);
    assert_eq!(s.cols.len(), 2);
    let t = parse_table(sailors).unwrap();
    assert!(!t.derive.clone && t.derive.debug);
    assert!(t.cols[0].foreign && t.cols[0].foreign_auto && t.cols[0].indexed);
    assert!(!t.cols[1].foreign && !t.cols[1].indexed);
    assert_eq!(t.domain, b"EXAMPLE".to_vec());
}

#[test]
fn planning_a_table_module() {
    let (t, file) = plan_table(br#"#[kind = "append"] [SEA/ships] { a: [u8; VecCol<u8>] }"#).unwrap();
    assert_eq!(t.domain, b"SEA".to_vec());
    assert_eq!(file, b"ships.rs".to_vec());
    assert!(matches!(plan_table(br#"#[save] [SEA/ships] { a: [u8; X] }"#), Err(ParseError::KindNotSet)));
    let mut t = parse_table(br#"#[kind = "append"] [SEA/ships] {}"#).unwrap();
    assert!(t.check_guarantees());
    assert_eq!(t.validate(), Some("No columns"));
    let mut t = parse_table(br#"#[kind = "append"] #[row_derive(Copy)] [SEA/ships] { a: [u8; X] }"#).unwrap();
    assert_eq!(t.validate(), Some("deriving copy, but not clone"));
    let t = parse_table(br#"#[kind = "append"] #[save] [SEA/ships] { a: [u8; X] }"#).unwrap();
    assert!(!t.check_guarantees());
}

fn module_of(src: &[u8]) -> String {
    let (t, _) = plan_table(src).unwrap();
    String::from_utf8(table_module(&t)).unwrap()
}

#[test]
fn a_module_starts_with_its_configuration() {
    let m = module_of(br#"#[kind = "append"] #[version = "12"] [SEA/ships] { a: [u8; VecCol<u8>] }"#);
    assert!(m.starts_with(
        "// Table config:\n//   domain: SEA\n//   name: ships\n//   kind: append\n//   row_id: usize\n//   version: 12\n//   save: false\n"
    ));
    assert!(m.contains("//   column a: [u8; VecCol<u8>]\n"));
    assert!(m.contains("\n// Imports & header data\n"));
    assert!(m.contains("pub const TABLE_NAME: TableName = TableName(\"ships\");\n"));
    assert!(m.contains("pub const TABLE_DOMAIN: DomainName = super::SEA;\n"));
    assert!(m.contains("pub const VERSION: u64 = 12;\n"));
    assert!(m.contains("    pub const a: &'static str = \"ships.a: [u8; VecCol<u8>]\";\n"));
    assert!(m.contains("/// This is the type used to index into `ships`'s columns.\n"));
    assert!(m.contains("pub struct Row {\n    pub a: u8,\n}\n"));
    assert!(m.contains("    pub a: RefA<'u, Col<VecCol<u8>, Row>>,\n"));
    assert!(m.contains("    pub a: MutA<'u, Col<VecCol<u8>, Row>>,\n"));
    assert!(m.contains("const TABLE_PATH: &'static str = \"SEA/ships version=12,cols=1\";\n"));
    assert!(m.ends_with("fn lock(universe: &'u Universe) -> Self { read(universe) }\n}\n\n"));
}

#[test]
fn a_module_has_the_sections_of_its_kind() {
    let append = module_of(br#"#[kind = "append"] #[row_derive(Clone)] [SEA/ships] { a: [u8; VecCol<u8>] }"#);
    for label in ["inconsistent iterators", "fake flush", "RowRef IntoOwned", "merge functions", "visit", "row pushing for unsorted tables", "swapping"] {
        assert!(append.contains(&format!("\n// {}\n", label)), "{}", label);
    }
    for label in ["consistent iterators", "Change tracking", "Save", "derive Ord for Row from RowRef", "row pushing for sorted tables"] {
        assert!(!append.contains(&format!("\n// {}\n", label)), "{}", label);
    }
    assert!(append.contains("            a: self.a.clone(),\n"));
    assert!(append.contains("#[derive(Clone)]\npub struct Row {"));

    let consistent = module_of(br#"#[kind = "consistent"] [SEA/ships] { #[index] a: [u8; VecCol<u8>] }"#);
    for label in ["consistent iterators", "Change tracking", "event logging for consistent tables", "swapping", "row pushing for unsorted tables"] {
        assert!(consistent.contains(&format!("\n// {}\n", label)), "{}", label);
    }
    for label in ["fake flush", "merge functions", "visit", "RowRef IntoOwned"] {
        assert!(!consistent.contains(&format!("\n// {}\n", label)), "{}", label);
    }
    assert!(consistent.contains("    pub a: EditA<'u, Col<BTreeIndex<VecCol<u8>, Row>, Row>>,\n"));

    let sorted = module_of(
        br#"#[kind = "sorted"] #[row_derive(Clone, Debug)] #[save] [SEA/ships] { #[sort_key] a: [u8; VecCol<u8>], b: [u16; VecCol<u16>] }"#,
    );
    for label in ["derive Ord for Row from RowRef", "row pushing for sorted tables", "merge functions", "Save"] {
        assert!(sorted.contains(&format!("\n// {}\n", label)), "{}", label);
    }
    for label in ["row pushing for unsorted tables", "visit"] {
        assert!(!sorted.contains(&format!("\n// {}\n", label)), "{}", label);
    }
    assert!(sorted.contains("        self.a.cmp(&rhs.a)\n"));
    assert!(sorted.contains("#[derive(Debug)]\n#[derive(Clone)]\npub struct RowRef<'a> {\n    pub a: &'a u8,\n    pub b: &'a u16,\n}"));
}

#[test]
fn finds_the_table_invocations_of_a_file() {
    let src = b"use x;\ntable! {\n    #[kind = \"append\"]\n    [SEA/ships] { a: [u8; VecCol<u8>] }\n}\nfn f() { my_table! { } }\ntable!{ [B/c] { } }";
    let spans = table_invocations(src);
    assert_eq!(spans.len(), 2);
    let (a, e) = spans[0];
    assert_eq!(&src[a..e], &b"\n    #[kind = \"append\"]\n    [SEA/ships] { a: [u8; VecCol<u8>] }\n"[..]);
    assert!(parse_table(&src[a..e]).is_ok());
    let (a, e) = spans[1];
    assert_eq!(&src[a..e], &b" [B/c] { } "[..]);
    assert!(table_invocations(b"table! { unclosed").is_empty());
    assert!(table_invocations(b"").is_empty());
}

#[test]
fn foreign_columns_get_trackers() {
    let m = module_of(
        br#"#[kind = "sorted"] #[row_derive(Clone)] [SEA/crew] { #[sort_key] #[foreign_auto] ship: [ships::RowId; VecCol<ships::RowId>], #[foreign] #[index] home: [ports::RowId; VecCol<ports::RowId>] }"#,
    );
    assert!(m.contains("pub struct track_ship_events;\n"));
    assert!(m.contains("pub struct track_home_events;\n"));
    assert!(m.contains("        flush.register_tracker(track_ship_events, true);\n"));
    assert!(m.contains("        flush.register_tracker(track_home_events, false);\n"));
    assert!(m.contains("    pub fn track_sorted_ship_removal(&mut self, remove: &[usize]) {\n"));
    assert!(!m.contains("track_sorted_home_removal"));
    assert!(m.contains("\n// foreign_auto\nimpl Tracker for track_ship_events {\n"));
    assert!(m.contains("        lock.track_sorted_ship_removal(deleted_rows);\n"));
    assert_eq!(m.matches("\n// foreign_auto\n").count(), 1);
}

#[test]
fn foreign_auto_needs_an_index_or_the_sort_key() {
    let ok = parse_table(br#"#[kind = "list"] [SEA/crew] { #[index] #[foreign_auto] ship: [u8; X] }"#).unwrap();
    assert!(ok.check_foreign_auto());
    let keyed = parse_table(br#"#[kind = "sorted"] [SEA/crew] { #[sort_key] #[foreign_auto] ship: [u8; X] }"#).unwrap();
    assert!(keyed.check_foreign_auto());
    let bad = parse_table(br#"#[kind = "list"] [SEA/crew] { a: [u8; X], #[foreign_auto] ship: [u8; X] }"#).unwrap();
    assert!(!bad.check_foreign_auto());
}
