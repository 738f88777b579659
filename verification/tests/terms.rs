//! Terms, the JSON that stands for them, and the texts they are made of.

use ikigai_store::confine::{check_graphs, check_quads};
use ikigai_store::dataset::{GraphPlace, Statement};
use ikigai_store::results::{bare_media, graph_format, rdf_format, results_format};
use ikigai_store::sparql::{
    bind, bindings_json, iri, json_to_term, lang_literal, literal, named_node, parse_bindings, term,
    typed_literal, Given, Literal, NamedNode, Term,
};
use ikigai_store::text::{ascii_lowercase, contains_text, decimal, join};
use ikigai_store::Error;

fn round_trip(value: Term) -> String {
    let json = bindings_json(vec![("v", value)]);
    let bound = parse_bindings(&json).unwrap();
    assert_eq!(bound.len(), 1);
    assert_eq!(bound[0].0, "v");
    term(&bound[0].1)
}

#[test]
fn every_bindable_term_comes_out_as_it_went_in() {
    let node = NamedNode::new("urn:example:a").unwrap();
    assert_eq!(round_trip(Term::from(node)), "<urn:example:a>");
    let plain = Literal::new_simple_literal("a \"b\"\n\\c");
    assert_eq!(round_trip(Term::from(plain)), r#""a \"b\"\n\\c""#);
    let tagged = Literal::new_language_tagged_literal("bonjour", "FR-ca").unwrap();
    assert_eq!(tagged.language(), Some("fr-ca"));
    assert_eq!(round_trip(Term::from(tagged)), r#""bonjour"@fr-ca"#);
    let datatype = NamedNode::new("urn:example:type").unwrap();
    let typed = Literal::new_typed_literal("1", datatype);
    assert_eq!(round_trip(Term::from(typed)), r#""1"^^<urn:example:type>"#);
    assert_eq!(
        round_trip(Term::from(Literal::from_boolean(false))),
        r#""false"^^<http://www.w3.org/2001/XMLSchema#boolean>"#
    );
}

#[test]
fn a_literal_knows_its_value_and_its_datatype() {
    let string = NamedNode::new("http://www.w3.org/2001/XMLSchema#string").unwrap();
    let literal = Literal::new_typed_literal("x", string);
    assert_eq!(literal.value(), "x");
    assert_eq!(literal.language(), None);
    assert_eq!(literal.datatype(), "http://www.w3.org/2001/XMLSchema#string");
    assert_eq!(term(&Term::from(literal)), "\"x\"");
    assert_eq!(
        Literal::from_integer(i64::MIN).value(),
        "-9223372036854775808"
    );
    let tagged = Literal::new_language_tagged_literal("x", "en").unwrap();
    assert_eq!(
        tagged.datatype(),
        "http://www.w3.org/1999/02/22-rdf-syntax-ns#langString"
    );
}

#[test]
fn two_texts_never_share_a_literal() {
    let texts = ["", "\"", "\\", "\\\"", "\\n", "\n", "\u{7}", "\\u0007", "a", "\u{7f}"];
    for one in texts {
        for two in texts {
            assert_eq!(literal(one) == literal(two), one == two, "{one:?} {two:?}");
        }
    }
}

#[test]
fn written_terms_carry_their_annotation() {
    assert_eq!(
        typed_literal("3", "urn:example:type", "arg").unwrap(),
        r#""3"^^<urn:example:type>"#
    );
    assert_eq!(lang_literal("chat", "FR", "arg").unwrap(), r#""chat"@fr"#);
    let err = typed_literal("3", "no type", "arg").unwrap_err();
    assert!(
        err.message().starts_with("invalid argument `arg`: `no type` is not a datatype IRI: "),
        "{err:?}"
    );
    let err = lang_literal("chat", "not a tag", "arg").unwrap_err();
    assert!(
        err.message().starts_with("invalid argument `arg`: `not a tag` is not a language tag: "),
        "{err:?}"
    );
    let err = iri("no scheme", "about").unwrap_err();
    assert!(
        err.message().starts_with("invalid argument `about`: `no scheme` is not an IRI ("),
        "{err:?}"
    );
    assert_eq!(named_node("urn:x", "about").unwrap().as_str(), "urn:x");
    assert!(NamedNode::new("relative").is_err());
}

#[test]
fn a_bindings_argument_reads_each_json_value() {
    let bound = parse_bindings(
        r#"{"i": -7, "big": 18446744073709551615, "e": 1e3, "t": {"type":"typed-literal","value":"v"},
            "u": {"type":"iri","value":"urn:u"}, "l": {"type":"literal","value":"v","lang":"EN"}}"#,
    )
    .unwrap();
    let written = |name: &str| {
        let found = bound.iter().find(|(n, _)| n == name).unwrap();
        term(&found.1)
    };
    let xsd = "http://www.w3.org/2001/XMLSchema#";
    assert_eq!(written("i"), format!("\"-7\"^^<{xsd}integer>"));
    assert_eq!(
        written("big"),
        format!("\"18446744073709551615\"^^<{xsd}integer>")
    );
    assert_eq!(written("e"), format!("\"1000.0\"^^<{xsd}double>"));
    assert_eq!(written("t"), "\"v\"");
    assert_eq!(written("u"), "<urn:u>");
    assert_eq!(written("l"), "\"v\"@en");
    assert!(parse_bindings("{}").unwrap().is_empty());
}

#[test]
fn a_value_that_no_term_can_mean_is_refused() {
    let message = |value: &Given| match json_to_term("x", value) {
        Ok(_) => panic!("no term means that"),
        Err(e) => e.message(),
    };
    let fields = |pairs: &[(&str, &str)]| {
        Given::Object(
            pairs
                .iter()
                .map(|(k, v)| (k.to_string(), Some(v.to_string())))
                .collect(),
        )
    };
    assert!(message(&Given::Null).contains("is null"));
    assert!(message(&Given::Array).contains("is an array"));
    assert_eq!(
        message(&fields(&[("type", "uri")])),
        "invalid argument `bindings`: `x` is a `uri` term with no `value`"
    );
    assert_eq!(
        message(&fields(&[("type", "triple"), ("value", "v")])),
        "invalid argument `bindings`: `x` has type `triple`; one of `uri`, `literal`"
    );
    assert_eq!(
        message(&fields(&[
            ("type", "literal"),
            ("value", "v"),
            ("xml:lang", "en"),
            ("datatype", "urn:t"),
        ])),
        "invalid argument `bindings`: `x` carries both `xml:lang` and `datatype`; a literal has \
         one or the other"
    );
    assert!(message(&fields(&[
        ("type", "literal"),
        ("value", "v"),
        ("datatype", "no type"),
    ]))
    .contains("`x`'s datatype: "));
    let offers = vec![("ok".to_string(), Given::Boolean(true)), (String::new(), Given::Null)];
    let err = bind(&offers).unwrap_err();
    assert_eq!(
        err.message(),
        "invalid argument `bindings`: `` is not a SPARQL variable name (letters, digits and `_`); \
         write it without the leading `?`"
    );
}

#[test]
fn a_language_or_a_datatype_that_is_not_a_text_is_refused_and_not_dropped() {
    for (key, value) in [
        ("datatype", "7"),
        ("datatype", "null"),
        ("datatype", "[\"urn:t\"]"),
        ("xml:lang", "true"),
        ("lang", "{\"tag\":\"en\"}"),
    ] {
        let json = format!("{{\"n\": {{\"type\":\"literal\",\"value\":\"3\",\"{key}\":{value}}}}}");
        match parse_bindings(&json) {
            Ok(_) => panic!("{json} was taken for a plain literal"),
            Err(e) => assert_eq!(
                e.message(),
                format!("invalid argument `bindings`: `n`'s `{key}` is not a JSON string")
            ),
        }
    }
    let json = r#"{"n": {"type":"literal","value":"3","xml:lang":7,"lang":"en"}}"#;
    assert!(parse_bindings(json).is_err());
    let json = r#"{"n": {"type":"literal","value":"3","note":7}}"#;
    assert_eq!(term(&parse_bindings(json).unwrap()[0].1), "\"3\"");
}

#[test]
fn a_name_that_stands_twice_is_bound_once() {
    let bound = parse_bindings(r#"{"b": 1, "a": 2, "b": 3}"#).unwrap();
    let mut names: Vec<&str> = bound.iter().map(|(name, _)| name.as_str()).collect();
    names.sort();
    assert_eq!(names, vec!["a", "b"]);
    let written = bound.iter().find(|(name, _)| name == "b").unwrap();
    assert_eq!(
        term(&written.1),
        "\"3\"^^<http://www.w3.org/2001/XMLSchema#integer>"
    );
}

#[test]
fn what_escapes_a_graph_is_found_in_order() {
    let graph = NamedNode::new("urn:g").unwrap();
    let statement = |graph: GraphPlace| Statement {
        subject: "<urn:s>".to_string(),
        predicate: "<urn:p>".to_string(),
        object: "\"o\"".to_string(),
        graph,
    };
    let own = || GraphPlace::Iri("urn:g".to_string());
    assert_eq!(check_quads(&graph, &vec![statement(own())]), Ok(()));
    let err = check_quads(
        &graph,
        &vec![
            statement(own()),
            statement(GraphPlace::Blank("b".to_string())),
            statement(GraphPlace::Default),
        ],
    )
    .unwrap_err();
    assert!(matches!(&err, Error::Denied(_)), "{err:?}");
    assert!(
        err.message().contains("would have written graph _:b (`<urn:s> <urn:p> \"o\"`)"),
        "{err:?}"
    );
    assert_eq!(check_graphs(&graph, &vec![own(), own()]), Ok(()));
    let err = check_graphs(&graph, &vec![own(), GraphPlace::Iri("urn:h".to_string())]).unwrap_err();
    assert!(err.message().contains("created graph <urn:h>."), "{err:?}");
}

#[test]
fn a_media_type_is_bared_of_its_parameters() {
    assert_eq!(bare_media("text/csv; charset=utf-8"), "text/csv");
    assert_eq!(bare_media(" text/csv "), "text/csv");
    assert_eq!(bare_media("text/csv"), "text/csv");
    assert_eq!(bare_media(";"), "");
    assert_eq!(bare_media(""), "");
}

#[test]
fn a_format_is_found_by_its_media_type() {
    assert!(rdf_format("text/turtle").is_some());
    assert!(rdf_format("text/nothing").is_none());
    assert!(rdf_format("application/ld+json;profile=\"").is_none());
    assert!(rdf_format("application/ld+json;profile=\"\"").is_some());
    assert!(results_format(None).is_ok());
    assert!(results_format(Some("text/csv")).is_ok());
    assert!(results_format(Some("text/turtle")).is_err());
    assert!(graph_format(None).is_ok());
    assert!(graph_format(Some("text/turtle")).is_ok());
    assert!(graph_format(Some("text/csv")).is_err());
}

#[test]
fn texts_are_counted_joined_and_searched() {
    assert_eq!(decimal(0), "0");
    assert_eq!(decimal(u64::MAX), "18446744073709551615");
    assert_eq!(join(&["a", "b", "c"], ", "), "a, b, c");
    assert_eq!(join(&[], ", "), "");
    assert!(contains_text("the projection of", "projection"));
    assert!(contains_text("anything", ""));
    assert!(!contains_text("", "x"));
    assert_eq!(ascii_lowercase("LOCK \u{c4}"), "lock \u{c4}");
}
