use stackgraph::callgraph_info::ast::{get_object_map, Field, Item, Object};
use stackgraph::callgraph_info::ci::{Parser, SyntaxError, SyntaxErrorKind};

fn field(key: &str, value: &str) -> Item {
    Item::Field(Field { key: key.to_string(), value: value.to_string() })
}

fn object(kind: &str, items: Vec<Item>) -> Item {
    Item::Object(Object { kind: kind.to_string(), items })
}

fn fault(kind: SyntaxErrorKind, offset: usize) -> Result<Object, SyntaxError> {
    Err(SyntaxError { kind, offset })
}

#[test]
fn parses_an_empty_object() {
    assert_eq!(Parser::parse("graph: { }"), Ok(Object { kind: "graph".to_string(), items: vec![] }));
    assert_eq!(Parser::parse("graph{}"), Ok(Object { kind: "graph".to_string(), items: vec![] }));
}

#[test]
fn parses_fields_and_nested_objects_in_order() {
    let text = "graph: { title: \"a.c\"\nnode: { title: \"f\" label: \"f\\na.c:1:2\" }\nedge: { sourcename: \"f\" targetname: \"g\" }\n}\n";
    let tree = Parser::parse(text).unwrap();
    assert_eq!(tree.kind, "graph");
    assert_eq!(
        tree.items,
        vec![
            field("title", "a.c"),
            object("node", vec![field("title", "f"), field("label", "f\\na.c:1:2")]),
            object("edge", vec![field("sourcename", "f"), field("targetname", "g")]),
        ]
    );
}

#[test]
fn colon_after_a_kind_is_optional() {
    let with = Parser::parse("graph: { node: { title: \"f\" } }").unwrap();
    let without = Parser::parse("graph { node { title: \"f\" } }").unwrap();
    assert_eq!(with, without);
}

#[test]
fn value_may_be_a_bare_word() {
    let tree = Parser::parse("node: { title: \"f\" shape : ellipse }").unwrap();
    assert_eq!(tree.items, vec![field("title", "f"), field("shape", "ellipse")]);
}

#[test]
fn bare_word_ends_at_a_brace() {
    let tree = Parser::parse("node:{shape:ellipse}").unwrap();
    assert_eq!(tree.items, vec![field("shape", "ellipse")]);
}

#[test]
fn quoted_value_is_taken_as_it_stands() {
    let tree = Parser::parse("node: { label: \"two\nlines: {and} more\" }").unwrap();
    assert_eq!(tree.items, vec![field("label", "two\nlines: {and} more")]);
}

#[test]
fn quoted_value_may_be_empty() {
    let tree = Parser::parse("node: { label: \"\" }").unwrap();
    assert_eq!(tree.items, vec![field("label", "")]);
}

#[test]
fn nesting_can_go_deep() {
    let depth = 200;
    let mut text = String::new();
    for _ in 0..depth {
        text.push_str("o: { ");
    }
    text.push_str("k: v ");
    for _ in 0..depth {
        text.push_str("} ");
    }
    let mut tree = Parser::parse(&text).unwrap();
    for _ in 1..depth {
        assert_eq!(tree.kind, "o");
        assert_eq!(tree.items.len(), 1);
        tree = match tree.items.pop() {
            Some(Item::Object(inner)) => inner,
            other => panic!("expected an object, got {:?}", other),
        };
    }
    assert_eq!(tree.items, vec![field("k", "v")]);
}

#[test]
fn blanks_around_the_dump_are_skipped() {
    let tree = Parser::parse(" \t\r\n graph: { }\n\n").unwrap();
    assert_eq!(tree.kind, "graph");
}

#[test]
fn characters_outside_ascii_count_as_one_position() {
    let tree = Parser::parse("größe: { é: \"ü\" }").unwrap();
    assert_eq!(tree.kind, "größe");
    assert_eq!(tree.items, vec![field("é", "ü")]);
    assert_eq!(Parser::parse("größe: { é }"), fault(SyntaxErrorKind::ExpectedColonOrBrace, 11));
}

#[test]
fn empty_text_lacks_a_name() {
    assert_eq!(Parser::parse(""), fault(SyntaxErrorKind::ExpectedName, 0));
    assert_eq!(Parser::parse("   "), fault(SyntaxErrorKind::ExpectedName, 3));
    assert_eq!(Parser::parse("{ }"), fault(SyntaxErrorKind::ExpectedName, 0));
}

#[test]
fn item_must_start_with_a_name() {
    assert_eq!(Parser::parse("graph: { \"x\" }"), fault(SyntaxErrorKind::ExpectedName, 9));
    assert_eq!(Parser::parse("graph: { : x }"), fault(SyntaxErrorKind::ExpectedName, 9));
}

#[test]
fn name_needs_a_colon_or_a_brace() {
    assert_eq!(Parser::parse("graph"), fault(SyntaxErrorKind::ExpectedColonOrBrace, 5));
    assert_eq!(Parser::parse("graph: { title \"x\" }"), fault(SyntaxErrorKind::ExpectedColonOrBrace, 15));
    assert_eq!(Parser::parse("graph: { a b }"), fault(SyntaxErrorKind::ExpectedColonOrBrace, 11));
}

#[test]
fn key_needs_a_value() {
    assert_eq!(Parser::parse("graph: { title: }"), fault(SyntaxErrorKind::ExpectedValue, 16));
    assert_eq!(Parser::parse("graph: { title:"), fault(SyntaxErrorKind::ExpectedValue, 15));
    assert_eq!(Parser::parse("graph: { a: : }"), fault(SyntaxErrorKind::ExpectedValue, 12));
}

#[test]
fn quoted_value_must_be_closed() {
    assert_eq!(Parser::parse("graph: { title: \"x }"), fault(SyntaxErrorKind::UnterminatedValue, 16));
}

#[test]
fn object_must_be_closed() {
    assert_eq!(Parser::parse("graph: {"), fault(SyntaxErrorKind::UnclosedObject, 8));
    assert_eq!(Parser::parse("graph: { node: { title: \"f\" }  "), fault(SyntaxErrorKind::UnclosedObject, 31));
}

#[test]
fn dump_must_be_an_object() {
    assert_eq!(Parser::parse("title: \"x\""), fault(SyntaxErrorKind::ExpectedObject, 0));
    assert_eq!(Parser::parse("  shape: ellipse"), fault(SyntaxErrorKind::ExpectedObject, 2));
}

#[test]
fn nothing_may_follow_the_dump() {
    assert_eq!(Parser::parse("graph: { } x"), fault(SyntaxErrorKind::TrailingText, 11));
    assert_eq!(Parser::parse("graph: { } }"), fault(SyntaxErrorKind::TrailingText, 11));
    assert_eq!(Parser::parse("a: { } b: { }"), fault(SyntaxErrorKind::TrailingText, 7));
}

#[test]
fn error_in_a_nested_object_fails_the_whole_dump() {
    assert_eq!(
        Parser::parse("graph: { node: { title: \"f\" } node: { title } }"),
        fault(SyntaxErrorKind::ExpectedColonOrBrace, 44)
    );
}

#[test]
fn object_map_holds_the_fields_by_key() {
    let map = get_object_map(vec![field("title", "f"), field("label", "f\\na.c:1:2")]);
    assert_eq!(map.get("title"), Some(&"f".to_string()));
    assert_eq!(map.get("label"), Some(&"f\\na.c:1:2".to_string()));
    assert_eq!(map.get("shape"), None);
}

#[test]
fn object_map_keeps_the_later_of_two_values() {
    let map = get_object_map(vec![field("k", "first"), field("other", "x"), field("k", "second")]);
    assert_eq!(map.get("k"), Some(&"second".to_string()));
    assert_eq!(map.get("other"), Some(&"x".to_string()));
}

#[test]
fn object_map_leaves_nested_objects_out() {
    let map = get_object_map(vec![
        object("title", vec![field("title", "inner")]),
        field("label", "l"),
        object("node", vec![]),
    ]);
    assert_eq!(map.get("title"), None);
    assert_eq!(map.get("node"), None);
    assert_eq!(map.get("label"), Some(&"l".to_string()));
}

#[test]
fn object_map_of_nothing_is_empty() {
    let map = get_object_map(vec![]);
    assert_eq!(map.get("title"), None);
    assert_eq!(map.get(""), None);
}

#[test]
fn tree_written_in_the_grammar_is_read_back() {
    let text = "graph: { title: \"a.c\" node: { title: \"f\" label: \"\" } edge: { } }";
    assert_eq!(
        Parser::parse(text),
        Ok(Object {
            kind: "graph".to_string(),
            items: vec![
                field("title", "a.c"),
                object("node", vec![field("title", "f"), field("label", "")]),
                object("edge", vec![]),
            ],
        })
    );
}
