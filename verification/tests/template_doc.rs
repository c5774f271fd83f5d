//! The template engine, the parser glue and the path accessors, driven end
//! to end: fill a template, parse the result, read the fields back.

use asciii::template::{Templater, list_keywords};
use asciii::doc::{Node, parse_document};
use asciii::project::Project;
use asciii::error::StoreError;

fn pairs(ps: &[(&str, &str)]) -> Vec<(String, String)> {
    ps.iter().map(|(k, v)| (k.to_string(), v.to_string())).collect()
}

#[test]
fn fill_replaces_whole_tokens() {
    let t = Templater::new("name: __NAME__ and __OTHER__");
    let filled = t.fill_in_data(&pairs(&[("NAME", "Foo")])).finalize();
    assert_eq!(filled.filled, "name: Foo and __OTHER__");
    assert_eq!(filled.remaining, vec!["OTHER".to_string()]);
}

#[test]
fn fill_ignores_unknown_mapping_keys() {
    let t = Templater::new("a: __A__");
    let filled = t.fill_in_data(&pairs(&[("A", "1"), ("UNUSED", "x")])).finalize();
    assert_eq!(filled.filled, "a: 1");
    assert!(filled.remaining.is_empty());
}

#[test]
fn fill_is_incremental() {
    let t = Templater::new("__A__ __B__");
    let once = t.fill_in_data(&pairs(&[("A", "1")]));
    let twice = once.fill_in_data(&pairs(&[("B", "2")])).finalize();
    assert_eq!(twice.filled, "1 2");
    assert!(twice.remaining.is_empty());
}

#[test]
fn fill_in_field_replaces_one_key() {
    let t = Templater::new("x: __KEY-1__\ny: __KEY-2__\n");
    let out = t.fill_in_field("KEY-1", "val").finalize();
    assert_eq!(out.filled, "x: val\ny: __KEY-2__\n");
    assert_eq!(out.remaining, vec!["KEY-2".to_string()]);
}

#[test]
fn list_keywords_finds_tokens_in_order() {
    let ks = list_keywords("__B2__ text __A-X__ __B2__");
    assert_eq!(ks, vec!["B2".to_string(), "A-X".to_string(), "B2".to_string()]);
}

#[test]
fn round_trip_fill_then_parse() {
    // a template whose placeholders are all supplied parses, and the parsed
    // fields carry exactly the supplied values
    let template = "event:\n  name: __NAME__\nmanager: __MANAGER__\ndate: __DATE__\n";
    let filled = Templater::new(template)
        .fill_in_data(&pairs(&[("NAME", "Big Party"), ("MANAGER", "Mia"), ("DATE", "24.12.2016")]))
        .finalize();
    assert!(filled.remaining.is_empty());
    let p = Project::open_file_content("working/big-party/big-party.yml", &filled.filled).unwrap();
    assert_eq!(p.name().unwrap(), "Big Party");
    assert_eq!(p.responsible().unwrap(), "Mia");
    let d = p.event_date().unwrap();
    assert_eq!((d.year, d.month, d.day), (2016, 12, 24));
}

#[test]
fn parse_document_reads_scalars_and_paths() {
    let doc = parse_document("a:\n  b:\n    - begin: 3\n    - 4\nflag: true\ns: hello\n").unwrap();
    assert_eq!(doc.get_int("a/b/1"), Some(4));
    assert_eq!(doc.get_int("a.b.0.begin"), Some(3));
    assert_eq!(doc.get_bool("flag"), Some(true));
    assert_eq!(doc.get_str("s").unwrap(), "hello");
    assert!(doc.get("a/missing").is_none());
    assert!(doc.get_str("a").is_none());
}

#[test]
fn parse_document_rejects_malformed_text() {
    let r = parse_document("a: [unclosed\nb: 2\n");
    match r {
        Err(StoreError::ParseFailure { .. }) => {},
        _ => panic!("malformed text must be a parse failure"),
    }
}

#[test]
fn get_to_string_renders_scalars() {
    let doc = parse_document("i: 42\nneg: -7\nb: false\ns: x\n").unwrap();
    assert_eq!(doc.get_to_string("i").unwrap(), "42");
    assert_eq!(doc.get_to_string("neg").unwrap(), "-7");
    assert_eq!(doc.get_to_string("b").unwrap(), "false");
    assert_eq!(doc.get_to_string("s").unwrap(), "x");
    assert!(doc.get_to_string("missing").is_none());
}

#[test]
fn lists_of_strings_read_whole() {
    let doc = parse_document("xs:\n  - a\n  - 2\nbad:\n  - a\n  - [1]\n").unwrap();
    assert_eq!(
        doc.get_list_of_strings("xs").unwrap(),
        vec!["a".to_string(), "2".to_string()]
    );
    // a non-scalar element, or anything else at the path, is no string list
    assert!(doc.get_list_of_strings("bad").is_none());
    assert!(doc.get_list_of_strings("missing").is_none());
}

#[test]
fn floats_keep_their_textual_form() {
    let doc = parse_document("price: 10.00\n").unwrap();
    assert_eq!(doc.get_str("price").unwrap(), "10.00");
    match doc.get("price") {
        Some(Node::Str(s)) => assert_eq!(s, "10.00"),
        other => panic!("expected a textual scalar, got {:?}", other),
    }
}

#[test]
fn replace_field_checks_the_result() {
    let content = "name: __NAME__\n";
    let p = Project::open_file_content("a/b.yml", content).unwrap();
    let new_content = p.replace_field("NAME", "fest").unwrap();
    assert_eq!(new_content, "name: fest\n");
    // a value that breaks the document is refused with a line-numbered
    // diagnostic
    let bad = p.replace_field("NAME", "[broken");
    match bad {
        Err(StoreError::ParseFailure { message, .. }) => {
            assert!(message.starts_with("1 name: [broken\n"));
        },
        other => panic!("expected a parse failure, got {:?}", other),
    }
}

#[test]
fn empty_fields_reports_unresolved_keywords() {
    let p = Project::open_file_content("a/b.yml", "name: __NAME__\nmanager: m\n").unwrap();
    assert_eq!(p.empty_fields(), vec!["NAME".to_string()]);
}
