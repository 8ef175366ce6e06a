use v11::expander::Serializer;
use v11::modifier_table::{parse_table, read_table_bytes, ReadError, Table};
use v11::parse::Token;

fn word(t: &Token) -> String {
    match t {
        Token::Word(w) => String::from_utf8(w.clone()).unwrap(),
        Token::Str(s) => format!("{:?}", String::from_utf8(s.clone()).unwrap()),
        Token::Punct(p) => (*p as char).to_string(),
    }
}

fn text(v: &[Token]) -> Vec<String> {
    v.iter().map(word).collect()
}

#[test]
fn reads_a_table_with_modifiers_and_code() {
    let src = br#"
        #[doc = "Ships."]
        pub ships {
            position: [Coord; VecCol<Coord>],
            #[foo] color: [u8; SegCol<u8>],
        }
        impl {
            RowId = u16;
            NoDebug;
            TrackRm;
            SortBy(position, color,);
            ForeignCascade(owner);
            Encode;
            Decode(Serde, Rustc);
            FreeList;
        }
        mod {
            fn helper() {}
        }
    "#;
    let t = parse_table(src).unwrap();
    assert!(t.is_pub);
    assert_eq!(t.name, b"ships".to_vec());
    assert_eq!(t.attrs.len(), 1);
    assert_eq!(t.cols.len(), 2);
    assert_eq!(t.cols[1].name, b"color".to_vec());
    assert_eq!(text(&t.cols[1].colty), vec!["SegCol", "<", "u8", ">"]);
    assert_eq!(text(&t.row_id), vec!["u16"]);
    assert!(!t.debug && t.track_rm && t.free_list && !t.track_modify && !t.static_data);
    assert_eq!(t.sort_by, vec![b"position".to_vec(), b"color".to_vec()]);
    assert_eq!(t.cascade_deletions, vec![b"owner".to_vec()]);
    assert!(matches!(t.encode[..], [Serializer::Rustc]));
    assert!(matches!(t.decode[..], [Serializer::Serde, Serializer::Rustc]));
    assert_eq!(text(t.mod_code.as_ref().unwrap()), vec!["fn", "helper", "(", ")", "{", "}"]);
    assert_eq!(t.version, 1);
}

#[test]
fn the_defaults_hold_without_modifiers() {
    let t = parse_table(b"cheese { x: [i32; VecCol<i32>] }").unwrap();
    assert!(!t.is_pub && t.debug && t.mod_code.is_none());
    assert_eq!(text(&t.row_id), vec!["usize"]);
    let n = Table::new();
    assert!(n.cols.is_empty() && n.debug && n.version == 1);
}

#[test]
fn reports_and_fatal_errors() {
    let cases: Vec<(&[u8], ReadError)> = vec![
        (b"t { x: [i32; V] ", ReadError::Syntax),
        (b"t { x: [i32; V] } impl { Static }", ReadError::Syntax),
        (b"t { x: [i32; V] } impl { RowId u8; }", ReadError::Syntax),
        (b"t { x: [i32; V] } impl { Sparkle; }", ReadError::UnknownModifier),
        (b"t { x: [i32; V] } impl { Encode(Json); }", ReadError::UnknownSerializer),
        (b"t { x: [i32; V] } mod fn", ReadError::BadModuleCode),
        (b"t { x: [i32; V] } mod { fn", ReadError::Syntax),
        (b"t \"open", ReadError::Lex),
    ];
    for (src, e) in cases {
        assert_eq!(read_table_bytes(src).err(), Some(e), "{}", String::from_utf8_lossy(src));
    }
    assert_eq!(parse_table(b"t { x: [i32; V] ").err(), Some(ReadError::Syntax));
}

#[test]
fn validation_of_modifier_tables() {
    let mut t = parse_table(b"t { }").unwrap();
    assert_eq!(t.validate(), Some("No columns"));
    let mut t = parse_table(b"t { x: [i32; V] } impl { Static; TrackModify; }").unwrap();
    assert_eq!(t.validate(), Some("static tables shouldn't have modification features"));
    let mut t = parse_table(b"t { x: [i32; V] } impl { Static; }").unwrap();
    assert_eq!(t.validate(), None);
    assert!(!t.generic_sort);
    let mut t = parse_table(b"t { x: [i32; V] } impl { SortBy(x); }").unwrap();
    assert_eq!(t.validate(), None);
    assert!(t.generic_sort);
}
