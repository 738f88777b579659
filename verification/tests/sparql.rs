//! Writing values as terms, and binding them.

use ikigai_store::sparql::{
    bindings_json, boolean, integer, iri, literal, parse_bindings, term, Literal, NamedNode, Term,
};

#[test]
fn an_injected_literal_cannot_escape_its_quotes() {
    let hostile = r#"" } ; DROP ALL ; INSERT DATA { <urn:x> <urn:y> ""#;
    let escaped = literal(hostile);
    let unescaped_quotes = escaped
        .char_indices()
        .filter(|(i, c)| *c == '"' && (*i == 0 || escaped.as_bytes()[i - 1] != b'\\'))
        .count();
    assert_eq!(unescaped_quotes, 2, "escaped form was {escaped}");
    assert!(escaped.starts_with('"') && escaped.ends_with('"'));
    assert!(escaped[1..escaped.len() - 1].contains("\\\""));
}

#[test]
fn a_backslash_is_escaped_before_a_quote_can_hide_behind_it() {
    assert_eq!(literal("a\\\"b"), r#""a\\\"b""#);
}

#[test]
fn oxigraph_escapes_control_characters_for_us() {
    assert_eq!(literal("a\u{7}b"), "\"a\\u0007b\"");
    assert_eq!(literal("a\u{0}b"), "\"a\\u0000b\"");
    assert_eq!(literal("a\nb\tc\rd"), r#""a\nb\tc\rd""#);
}

#[test]
fn an_iri_with_a_closing_bracket_is_refused_not_mangled() {
    for hostile in ["urn:x:a>b", "urn:x:a b", "urn:x:a{b}", "urn:x:a\"b"] {
        assert!(iri(hostile, "about").is_err(), "accepted {hostile}");
    }
    assert_eq!(
        iri("urn:repo:file:ikigai-cli/src/main.rs", "about").unwrap(),
        "<urn:repo:file:ikigai-cli/src/main.rs>"
    );
}

#[test]
fn scalars_carry_their_datatypes() {
    assert_eq!(
        integer(3),
        r#""3"^^<http://www.w3.org/2001/XMLSchema#integer>"#
    );
    assert_eq!(
        boolean(true),
        r#""true"^^<http://www.w3.org/2001/XMLSchema#boolean>"#
    );
}

#[test]
fn a_bare_json_string_is_a_plain_literal() {
    let bound = parse_bindings(r#"{"title": "a \" b"}"#).unwrap();
    assert_eq!(bound.len(), 1);
    assert_eq!(bound[0].0, "title");
    assert_eq!(term(&bound[0].1), r#""a \" b""#);
}

#[test]
fn json_scalars_become_typed_literals() {
    let bound = parse_bindings(r#"{"n": 3, "x": 1.5, "b": true}"#).unwrap();
    let rendered: Vec<String> = bound.iter().map(|(_, t)| term(t)).collect();
    assert!(rendered.contains(&integer(3)), "{rendered:?}");
    assert!(rendered.contains(&boolean(true)), "{rendered:?}");
    assert!(
        rendered
            .iter()
            .any(|t| t.ends_with("XMLSchema#double>") && t.starts_with("\"1.5\"")),
        "{rendered:?}"
    );
}

#[test]
fn the_results_json_term_shapes_round_trip() {
    let bound = parse_bindings(
        r#"{"s": {"type":"uri","value":"urn:example:a"},
            "d": {"type":"literal","value":"3","datatype":"http://www.w3.org/2001/XMLSchema#integer"},
            "l": {"type":"literal","value":"bonjour","xml:lang":"fr"}}"#,
    )
    .unwrap();
    let by_name: std::collections::BTreeMap<_, _> =
        bound.into_iter().map(|(n, t)| (n, term(&t))).collect();
    assert_eq!(by_name["s"], "<urn:example:a>");
    assert_eq!(by_name["d"], integer(3));
    assert_eq!(by_name["l"], r#""bonjour"@fr"#);
}

#[test]
fn unbindable_values_are_refused_with_the_reason() {
    for (json, expect) in [
        (r#"{"x": null}"#, "not a binding"),
        (r#"{"x": [1,2]}"#, "no RDF term"),
        (r#"{"x": {"type":"bnode","value":"b0"}}"#, "Skolemize"),
        (r#"{"x": {"value":"no type"}}"#, "no `type`"),
        (
            r#"{"x": {"type":"uri","value":"not an iri at all"}}"#,
            "not an IRI",
        ),
        (
            r#"{"?x": "leading question mark"}"#,
            "without the leading `?`",
        ),
        (r#"["not","an","object"]"#, "JSON OBJECT"),
        ("not json", "not JSON"),
    ] {
        let err = parse_bindings(json).unwrap_err().message();
        assert!(err.contains(expect), "{json} gave {err}");
    }
}

#[test]
fn bindings_json_round_trips_through_parse_bindings() {
    let json = bindings_json(vec![
        ("title", Term::from(Literal::new_simple_literal("a \" b"))),
        ("s", Term::from(NamedNode::new("urn:example:a").unwrap())),
        ("n", Term::from(Literal::from_integer(3))),
    ]);
    let back: std::collections::BTreeMap<_, _> = parse_bindings(&json)
        .unwrap()
        .into_iter()
        .map(|(n, t)| (n, term(&t)))
        .collect();
    assert_eq!(back["title"], r#""a \" b""#);
    assert_eq!(back["s"], "<urn:example:a>");
    assert_eq!(back["n"], integer(3));
}
