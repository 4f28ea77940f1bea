use pdf_ok::{
    parse_metadata, parse_yaml, resolve_metadata, split_front_matter, yaml_mapping_to_hashmap,
    FieldBinding, MetadataMapping, YamlNode,
};

fn binding(label: &str, key: &str) -> FieldBinding {
    FieldBinding { output_label: label.to_string(), source_key: key.to_string() }
}

fn text(s: &str) -> YamlNode {
    YamlNode::Text(s.to_string())
}

#[test]
fn round_trip_resolves_the_author() {
    let lines: Vec<String> =
        "---\nauthor: Jane\n---\n# Hello\n".lines().map(String::from).collect();
    let segments = split_front_matter(&lines);
    let mapping = parse_metadata(&segments.yaml_text).unwrap();
    let found = resolve_metadata(&mapping, &vec![binding("AuthoR", "author")]);
    assert_eq!(found.len(), 1);
    assert_eq!(found.get("AuthoR"), Some(&text("Jane")));
    assert_eq!(found.entry(0), Some((&"AuthoR".to_string(), &text("Jane"))));
    assert_eq!(segments.markdown_text, "# Hello\n");
}

#[test]
fn a_missing_source_key_leaves_no_entry() {
    let mapping = parse_metadata("author: Jane\n").unwrap();
    let bindings = vec![binding("AuthoR", "author"), binding("Keywords", "keywords")];
    let found = resolve_metadata(&mapping, &bindings);
    assert_eq!(found.len(), 1);
    assert_eq!(found.get("Keywords"), None);
    assert_eq!(found.get("keywords"), None);
    assert_eq!(found.get("AuthoR"), Some(&text("Jane")));
    assert_eq!(found.entry(1), None);
}

#[test]
fn resolving_against_an_empty_mapping_gives_nothing() {
    let bindings = vec![binding("AuthoR", "author"), binding("Subject", "description")];
    let found = resolve_metadata(&MetadataMapping::new(), &bindings);
    assert_eq!(found.len(), 0);
    assert_eq!(found, MetadataMapping::new());
}

#[test]
fn resolved_entries_follow_the_order_of_the_bindings() {
    let mapping = parse_metadata("language: en\nauthor: Jane\ndescription: Short\n").unwrap();
    let bindings = vec![
        binding("AuthoR", "author"),
        binding("Keywords", "keywords"),
        binding("Subject", "description"),
        binding("Language", "language"),
    ];
    let found = resolve_metadata(&mapping, &bindings);
    assert_eq!(found.len(), 3);
    assert_eq!(found.entry(0), Some((&"AuthoR".to_string(), &text("Jane"))));
    assert_eq!(found.entry(1), Some((&"Subject".to_string(), &text("Short"))));
    assert_eq!(found.entry(2), Some((&"Language".to_string(), &text("en"))));
}

#[test]
fn a_later_binding_with_the_same_label_wins() {
    let mapping = parse_metadata("a: first\nb: second\n").unwrap();
    let found = resolve_metadata(&mapping, &vec![binding("X", "a"), binding("X", "b")]);
    assert_eq!(found.len(), 1);
    assert_eq!(found.get("X"), Some(&text("second")));
    let kept = resolve_metadata(&mapping, &vec![binding("X", "a"), binding("X", "missing")]);
    assert_eq!(kept.get("X"), Some(&text("first")));
}

#[test]
fn two_bindings_may_share_a_source_key() {
    let mapping = parse_metadata("description: Short\n").unwrap();
    let found =
        resolve_metadata(&mapping, &vec![binding("Subject", "description"), binding("Title", "description")]);
    assert_eq!(found.get("Subject"), Some(&text("Short")));
    assert_eq!(found.get("Title"), Some(&text("Short")));
}

#[test]
fn keys_are_case_sensitive() {
    let mapping = parse_metadata("Author: Jane\nauthor: Joe\n").unwrap();
    assert_eq!(mapping.len(), 2);
    assert_eq!(mapping.get("author"), Some(&text("Joe")));
    assert_eq!(mapping.get("Author"), Some(&text("Jane")));
    assert_eq!(mapping.get("AUTHOR"), None);
}

#[test]
fn values_keep_their_structure() {
    let mapping =
        parse_metadata("title: T\ncount: 3\nratio: 1.5\ndraft: true\nnone: ~\ntags:\n  - a\n  - b\nnested:\n  k: v\n")
            .unwrap();
    assert_eq!(mapping.len(), 7);
    assert_eq!(mapping.get("title"), Some(&text("T")));
    assert_eq!(mapping.get("count"), Some(&YamlNode::Number("3".to_string())));
    assert_eq!(mapping.get("ratio"), Some(&YamlNode::Number("1.5".to_string())));
    assert_eq!(mapping.get("draft"), Some(&YamlNode::Bool(true)));
    assert_eq!(mapping.get("none"), Some(&YamlNode::Null));
    assert_eq!(mapping.get("tags"), Some(&YamlNode::Sequence(vec![text("a"), text("b")])));
    assert_eq!(mapping.get("nested"), Some(&YamlNode::Mapping(vec![(text("k"), text("v"))])));
    assert_eq!(mapping.entry(0), Some((&"title".to_string(), &text("T"))));
}

#[test]
fn numbers_are_kept_as_serde_yaml_prints_them() {
    let root = parse_yaml("[-7, 18446744073709551615, 2.0, .inf, 0x10]").unwrap();
    assert_eq!(
        root,
        YamlNode::Sequence(vec![
            YamlNode::Number("-7".to_string()),
            YamlNode::Number("18446744073709551615".to_string()),
            YamlNode::Number("2.0".to_string()),
            YamlNode::Number(".inf".to_string()),
            YamlNode::Number("16".to_string()),
        ])
    );
}

#[test]
fn tagged_values_keep_their_tag() {
    let root = parse_yaml("!Thing x").unwrap();
    assert_eq!(root, YamlNode::Tagged("!Thing".to_string(), Box::new(text("x"))));
}

#[test]
fn a_root_that_is_no_mapping_gives_no_metadata() {
    assert_eq!(parse_metadata("- a\n- b\n"), None);
    assert_eq!(parse_metadata("just a scalar\n"), None);
    assert_eq!(parse_metadata("42\n"), None);
    assert_eq!(parse_metadata(""), None);
    assert_eq!(yaml_mapping_to_hashmap(&YamlNode::Null), None);
    assert_eq!(yaml_mapping_to_hashmap(&YamlNode::Sequence(vec![text("a")])), None);
    assert_eq!(yaml_mapping_to_hashmap(&text("a")), None);
    assert_eq!(yaml_mapping_to_hashmap(&YamlNode::Bool(false)), None);
    assert_eq!(yaml_mapping_to_hashmap(&YamlNode::Number("1".to_string())), None);
    assert_eq!(
        yaml_mapping_to_hashmap(&YamlNode::Tagged(
            "!t".to_string(),
            Box::new(YamlNode::Mapping(Vec::new()))
        )),
        None
    );
}

#[test]
fn malformed_yaml_gives_no_metadata() {
    assert_eq!(parse_yaml("a: [1, 2\n"), None);
    assert_eq!(parse_metadata("a: [1, 2\n"), None);
    assert_eq!(parse_metadata("a: b: c: d\n  - x\n"), None);
    assert_eq!(parse_metadata("\"unterminated\n"), None);
}

#[test]
fn a_key_that_is_no_string_gives_no_metadata() {
    assert_eq!(parse_metadata("1: one\n"), None);
    assert_eq!(parse_metadata("a: 1\ntrue: 2\n"), None);
    let root = YamlNode::Mapping(vec![
        (text("a"), YamlNode::Null),
        (YamlNode::Number("1".to_string()), text("one")),
    ]);
    assert_eq!(yaml_mapping_to_hashmap(&root), None);
}

#[test]
fn an_empty_mapping_is_a_mapping() {
    let mapping = parse_metadata("{}").unwrap();
    assert_eq!(mapping.len(), 0);
    assert_eq!(yaml_mapping_to_hashmap(&YamlNode::Mapping(Vec::new())), Some(MetadataMapping::new()));
}

#[test]
fn the_last_occurrence_of_a_key_wins() {
    let root = YamlNode::Mapping(vec![
        (text("name"), text("John")),
        (text("age"), YamlNode::Number("30".to_string())),
        (text("name"), text("Jane")),
    ]);
    let mapping = yaml_mapping_to_hashmap(&root).unwrap();
    assert_eq!(mapping.len(), 2);
    assert_eq!(mapping.get("name"), Some(&text("Jane")));
    assert_eq!(mapping.get("age"), Some(&YamlNode::Number("30".to_string())));
    assert_eq!(mapping.entry(0), Some((&"name".to_string(), &text("Jane"))));
    assert_eq!(mapping.entry(1), Some((&"age".to_string(), &YamlNode::Number("30".to_string()))));
}

#[test]
fn yaml_with_a_repeated_key_is_malformed() {
    assert_eq!(parse_yaml("a: 1\na: 2\n"), None);
    assert_eq!(parse_metadata("a: 1\na: 2\n"), None);
}

#[test]
fn name_and_age_convert() {
    let root = parse_yaml("name: John\nage: 30").unwrap();
    let mapping = yaml_mapping_to_hashmap(&root).unwrap();
    assert_eq!(mapping.get("name"), Some(&text("John")));
    assert_eq!(mapping.get("age"), Some(&YamlNode::Number("30".to_string())));
}

#[test]
fn insert_replaces_in_place_and_appends_new_keys() {
    let mut mapping = MetadataMapping::new();
    assert_eq!(mapping.len(), 0);
    assert_eq!(mapping.get("a"), None);
    mapping.insert("a".to_string(), YamlNode::Null);
    mapping.insert("b".to_string(), YamlNode::Bool(true));
    mapping.insert("a".to_string(), YamlNode::Bool(false));
    assert_eq!(mapping.len(), 2);
    assert_eq!(mapping.entry(0), Some((&"a".to_string(), &YamlNode::Bool(false))));
    assert_eq!(mapping.entry(1), Some((&"b".to_string(), &YamlNode::Bool(true))));
    assert_eq!(mapping.entry(2), None);
    assert_eq!(mapping.get("b"), Some(&YamlNode::Bool(true)));
}

#[test]
fn clones_are_deep_and_equal() {
    let node = parse_yaml("a:\n  - 1\n  - {b: !t c}\n").unwrap();
    assert_eq!(node.clone(), node);
    let mapping = yaml_mapping_to_hashmap(&node).unwrap();
    assert_eq!(mapping.clone(), mapping);
    let b = binding("L", "k");
    assert_eq!(b.clone(), b);
}
