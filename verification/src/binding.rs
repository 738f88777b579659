//! What a value means as an RDF term, told by the JSON it is given in and the text it is written
//! as.

use crate::error::ErrorModel;
use crate::json::{entries_map, json_model, JsonModel, Shape};
use crate::laws::{lemma_escaped_first, lemma_field};
use crate::sparql::{
    bindings_view, binds, bound_by, bound_term, bound_terms, given_entries, given_of,
    not_a_datatype, not_a_language, not_an_iri, pairs_view, variable_name, Term,
};
use crate::term::{
    boolean_text, escaped, escaped_char, hex_digit, iri_refusal, language_refusal, plain, quoted,
    tagged, typed, AnnotationModel, LiteralModel, TermModel,
};
use crate::text::{is_letter_or_digit, lowered, occurs_in};
use serde_json::Value;
use vstd::prelude::*;

verus! {

// ------------------------------------------------------------------- a value in JSON

/// The text of a field of a JSON object, where it has the field and it is a text.
pub open spec fn text_field(
    order: Seq<Seq<char>>,
    fields: Map<Seq<char>, JsonModel>,
    key: Seq<char>,
) -> Option<Seq<char>> {
    if order.contains(key) && fields[key] is Text {
        Some(fields[key]->Text_0)
    } else {
        None
    }
}

/// Whether a JSON object has no such field, or has a text there.
pub open spec fn text_or_nothing(
    order: Seq<Seq<char>>,
    fields: Map<Seq<char>, JsonModel>,
    key: Seq<char>,
) -> bool {
    order.contains(key) ==> fields[key] is Text
}

/// Whether a JSON value means this term. A bare text is a plain literal; a truth value is the
/// literal `true` or `false` of `xsd:boolean`; a number is the literal of its digits, of
/// `xsd:integer` or `xsd:double`; and an object is the term it describes. Nothing else means
/// anything.
pub open spec fn means(json: JsonModel, term: TermModel) -> bool {
    match json {
        JsonModel::Text(text) => term == TermModel::Literal(
            LiteralModel { value: text, annotation: AnnotationModel::Plain },
        ),
        JsonModel::Boolean(value) => term == TermModel::Literal(
            LiteralModel {
                value: if value {
                    "true"@
                } else {
                    "false"@
                },
                annotation: AnnotationModel::Datatype("http://www.w3.org/2001/XMLSchema#boolean"@),
            },
        ),
        JsonModel::Number { text, float } => term == TermModel::Literal(
            LiteralModel {
                value: text,
                annotation: AnnotationModel::Datatype(
                    if float {
                        "http://www.w3.org/2001/XMLSchema#double"@
                    } else {
                        "http://www.w3.org/2001/XMLSchema#integer"@
                    },
                ),
            },
        ),
        JsonModel::Object { order, fields } => {
            let kind = text_field(order, fields, "type"@);
            let value = text_field(order, fields, "value"@);
            ||| {
                &&& kind == Some("uri"@) || kind == Some("iri"@)
                &&& value is Some
                &&& iri_refusal(value->Some_0) == None::<Seq<char>>
                &&& term == TermModel::NamedNode(value->Some_0)
            }
            ||| {
                &&& kind == Some("literal"@) || kind == Some("typed-literal"@)
                &&& value is Some
                &&& text_or_nothing(order, fields, "xml:lang"@)
                &&& text_or_nothing(order, fields, "lang"@)
                &&& text_or_nothing(order, fields, "datatype"@)
                &&& term is Literal
                &&& term->Literal_0.value == value->Some_0
                &&& annotates(order, fields, term->Literal_0.annotation)
            }
        },
        _ => false,
    }
}

/// Whether a term object gives a literal this language or this datatype. It gives one or the
/// other, or neither; `xml:lang` goes before `lang`; and `xsd:string` is what a literal with
/// neither is.
pub open spec fn annotates(
    order: Seq<Seq<char>>,
    fields: Map<Seq<char>, JsonModel>,
    annotation: AnnotationModel,
) -> bool {
    let language = match text_field(order, fields, "xml:lang"@) {
        Some(tag) => Some(tag),
        None => text_field(order, fields, "lang"@),
    };
    match (language, text_field(order, fields, "datatype"@)) {
        (Some(tag), None) => language_refusal(lowered(tag)) == None::<Seq<char>> && annotation
            == AnnotationModel::Language(lowered(tag)),
        (None, Some(datatype)) => {
            &&& iri_refusal(datatype) == None::<Seq<char>>
            &&& annotation == if datatype == "http://www.w3.org/2001/XMLSchema#string"@ {
                AnnotationModel::Plain
            } else {
                AnnotationModel::Datatype(datatype)
            }
        },
        (None, None) => annotation == AnnotationModel::Plain,
        (Some(_), Some(_)) => false,
    }
}

/// A JSON value offered for a variable is bound to the term it means, and refused where it means
/// none. The refusal blames the `bindings` argument and names the variable.
pub proof fn a_value_is_bound_to_what_it_means(name: Seq<char>, json: JsonModel)
    requires
        variable_name(name),
    ensures
        forall|term: TermModel|
            bound_term(name, given_of(json)) == Ok::<TermModel, ErrorModel>(term) <==> #[trigger]
            means(json, term),
        bound_term(name, given_of(json)) matches Err(e) ==> blames_bindings(e, name),
{
    reveal_strlit("`");
    reveal_strlit("http://www.w3.org/2001/XMLSchema#boolean");
    reveal_strlit("http://www.w3.org/2001/XMLSchema#double");
    reveal_strlit("http://www.w3.org/2001/XMLSchema#integer");
    reveal_strlit("http://www.w3.org/2001/XMLSchema#string");
    assert("http://www.w3.org/2001/XMLSchema#string"@[33] == 's');
    assert("http://www.w3.org/2001/XMLSchema#boolean"@[33] == 'b');
    assert("http://www.w3.org/2001/XMLSchema#double"@[33] == 'd');
    assert("http://www.w3.org/2001/XMLSchema#integer"@[33] == 'i');
    if let JsonModel::Object { order, fields } = json {
        lemma_field(order, fields, "type"@);
        lemma_field(order, fields, "value"@);
        lemma_field(order, fields, "xml:lang"@);
        lemma_field(order, fields, "lang"@);
        lemma_field(order, fields, "datatype"@);
        reveal_strlit("uri");
        reveal_strlit("iri");
        reveal_strlit("literal");
        reveal_strlit("typed-literal");
        assert("uri"@.len() == 3 && "iri"@.len() == 3);
        assert("literal"@.len() == 7 && "typed-literal"@.len() == 13);
    }
    if let Err(e) = bound_term(name, given_of(json)) {
        if e is InvalidArgument {
            let detail = e->detail;
            assert(detail.subrange(1, 1int + name.len()) =~= name);
            assert(occurs_in(name, detail));
        }
    }
}

/// A literal whose language or datatype is there and is no text is refused for that field, which is
/// named, the language before the datatype.
pub proof fn a_field_that_is_no_text_is_named(
    name: Seq<char>,
    order: Seq<Seq<char>>,
    fields: Map<Seq<char>, JsonModel>,
)
    requires
        variable_name(name),
        text_field(order, fields, "type"@) == Some("literal"@),
        text_field(order, fields, "value"@) is Some,
    ensures
        ({
            let refused = |key: Seq<char>|
                bound_term(name, given_of(JsonModel::Object { order, fields })) == Err::<
                    TermModel,
                    ErrorModel,
                >(
                    ErrorModel::InvalidArgument {
                        name: "bindings"@,
                        detail: "`"@ + name + "`'s `"@ + key + "` is not a JSON string"@,
                    },
                );
            let tag = text_or_nothing(order, fields, "xml:lang"@);
            let other = text_or_nothing(order, fields, "lang"@);
            let datatype = text_or_nothing(order, fields, "datatype"@);
            &&& !tag ==> refused("xml:lang"@)
            &&& tag && !other ==> refused("lang"@)
            &&& tag && other && !datatype ==> refused("datatype"@)
        }),
{
    lemma_field(order, fields, "type"@);
    lemma_field(order, fields, "value"@);
    lemma_field(order, fields, "xml:lang"@);
    lemma_field(order, fields, "lang"@);
    lemma_field(order, fields, "datatype"@);
    reveal_strlit("uri");
    reveal_strlit("iri");
    reveal_strlit("literal");
    assert("uri"@.len() == 3 && "iri"@.len() == 3 && "literal"@.len() == 7);
}

/// A value that is no IRI, or no language tag, is refused in words that repeat it and give the RDF
/// library's own reason, behind the name of the variable.
pub proof fn a_value_that_is_refused_is_told_why(
    name: Seq<char>,
    order: Seq<Seq<char>>,
    fields: Map<Seq<char>, JsonModel>,
    value: Seq<char>,
    tag: Seq<char>,
    reason: Seq<char>,
)
    requires
        variable_name(name),
        text_field(order, fields, "value"@) == Some(value),
    ensures
        text_field(order, fields, "type"@) == Some("uri"@) && iri_refusal(value) == Some(reason)
            ==> bound_term(name, given_of(JsonModel::Object { order, fields })) == Err::<
            TermModel,
            ErrorModel,
        >(
            ErrorModel::InvalidArgument {
                name: "bindings"@,
                detail: "`"@ + name + "`: "@ + not_an_iri(value, "bindings"@, reason).message(),
            },
        ),
        text_field(order, fields, "type"@) == Some("literal"@) && text_field(
            order,
            fields,
            "xml:lang"@,
        ) == Some(tag) && !order.contains("lang"@) && !order.contains("datatype"@)
            && language_refusal(lowered(tag)) == Some(reason) ==> bound_term(
            name,
            given_of(JsonModel::Object { order, fields }),
        ) == Err::<TermModel, ErrorModel>(
            ErrorModel::InvalidArgument {
                name: "bindings"@,
                detail: "`"@ + name + "`: `"@ + tag + "` is not a language tag: "@ + reason,
            },
        ),
{
    lemma_field(order, fields, "type"@);
    lemma_field(order, fields, "value"@);
    lemma_field(order, fields, "xml:lang"@);
    lemma_field(order, fields, "lang"@);
    lemma_field(order, fields, "datatype"@);
    reveal_strlit("uri");
    reveal_strlit("iri");
    reveal_strlit("literal");
    assert("uri"@.len() == 3 && "iri"@.len() == 3 && "literal"@.len() == 7);
}

/// Whether an error blames the `bindings` argument and names this variable.
pub open spec fn blames_bindings(e: ErrorModel, name: Seq<char>) -> bool {
    e matches ErrorModel::InvalidArgument { name: arg, detail } && arg == "bindings"@
        && occurs_in(name, detail)
}

/// A truth value, a number and a text are each bound to a term of their own, so two different
/// ones never bind the same.
pub proof fn different_scalars_bind_different_terms(
    name: Seq<char>,
    one: JsonModel,
    two: JsonModel,
)
    requires
        variable_name(name),
        one is Text || one is Boolean || one is Number,
        two is Text || two is Boolean || two is Number,
        bound_term(name, given_of(one)) == bound_term(name, given_of(two)),
    ensures
        one == two,
{
    a_value_is_bound_to_what_it_means(name, one);
    a_value_is_bound_to_what_it_means(name, two);
    let term = bound_term(name, given_of(one))->Ok_0;
    assert(exists|t: TermModel| means(one, t)) by {
        lemma_scalar_means(one);
    }
    let t = choose|t: TermModel| means(one, t);
    assert(means(one, t));
    assert(means(two, t));
    reveal_strlit("true");
    reveal_strlit("false");
    assert("true"@.len() == 4 && "false"@.len() == 5);
    reveal_strlit("http://www.w3.org/2001/XMLSchema#boolean");
    reveal_strlit("http://www.w3.org/2001/XMLSchema#double");
    reveal_strlit("http://www.w3.org/2001/XMLSchema#integer");
    assert("http://www.w3.org/2001/XMLSchema#boolean"@[33] == 'b');
    assert("http://www.w3.org/2001/XMLSchema#double"@[33] == 'd');
    assert("http://www.w3.org/2001/XMLSchema#integer"@[33] == 'i');
}

/// A scalar means something.
proof fn lemma_scalar_means(json: JsonModel)
    requires
        json is Text || json is Boolean || json is Number,
    ensures
        exists|t: TermModel| means(json, t),
{
    let t = match json {
        JsonModel::Text(text) => TermModel::Literal(plain(text)),
        JsonModel::Boolean(value) => TermModel::Literal(
            LiteralModel {
                value: if value {
                    "true"@
                } else {
                    "false"@
                },
                annotation: AnnotationModel::Datatype("http://www.w3.org/2001/XMLSchema#boolean"@),
            },
        ),
        JsonModel::Number { text, float } => TermModel::Literal(
            LiteralModel {
                value: text,
                annotation: AnnotationModel::Datatype(
                    if float {
                        "http://www.w3.org/2001/XMLSchema#double"@
                    } else {
                        "http://www.w3.org/2001/XMLSchema#integer"@
                    },
                ),
            },
        ),
        _ => TermModel::BlankNode(Seq::empty()),
    };
    assert(means(json, t));
}

/// A `bindings` object binds every one of its keys, in order, to the term that its value means;
/// and it is refused if and only if some key is no variable name or some value means nothing.
pub proof fn a_bindings_object_binds_every_key(
    order: Seq<Seq<char>>,
    fields: Map<Seq<char>, JsonModel>,
)
    ensures
        match bound_by(Ok(JsonModel::Object { order, fields })) {
            Ok(list) => {
                &&& list.len() == order.len()
                &&& forall|i: int|
                    0 <= i < order.len() ==> (#[trigger] list[i]).0 == order[i] && variable_name(
                        order[i],
                    ) && means(fields[order[i]], list[i].1)
            },
            Err(e) => exists|i: int|
                {
                    &&& 0 <= i < order.len()
                    &&& blames_bindings(e, #[trigger] order[i])
                    &&& variable_name(order[i]) ==> forall|term: TermModel|
                        !#[trigger] means(fields[order[i]], term)
                },
        },
{
    lemma_each_is_bound(order, fields, order.len() as int);
    assert(order.take(order.len() as int) =~= order);
}

proof fn lemma_each_is_bound(order: Seq<Seq<char>>, fields: Map<Seq<char>, JsonModel>, n: int)
    requires
        0 <= n <= order.len(),
    ensures
        match bound_terms(given_entries(order.take(n), fields)) {
            Ok(list) => {
                &&& list.len() == n
                &&& forall|i: int|
                    0 <= i < n ==> (#[trigger] list[i]).0 == order[i] && variable_name(order[i])
                        && means(fields[order[i]], list[i].1)
            },
            Err(e) => exists|i: int|
                {
                    &&& 0 <= i < n
                    &&& blames_bindings(e, #[trigger] order[i])
                    &&& variable_name(order[i]) ==> forall|term: TermModel|
                        !#[trigger] means(fields[order[i]], term)
                },
        },
    decreases n,
{
    let entries = given_entries(order.take(n), fields);
    if n > 0 {
        lemma_each_is_bound(order, fields, n - 1);
        assert(entries.drop_last() =~= given_entries(order.take(n - 1), fields));
        let name = order[n - 1];
        assert(entries.last() == (name, given_of(fields[name])));
        if variable_name(name) {
            a_value_is_bound_to_what_it_means(name, fields[name]);
        } else {
            reveal_strlit("`");
            let e = bound_term(name, given_of(fields[name]))->Err_0;
            assert(e->detail.subrange(1, 1int + name.len()) =~= name);
            assert(occurs_in(name, e->detail));
        }
        match bound_terms(entries.drop_last()) {
            Ok(list) => {
                match bound_term(name, given_of(fields[name])) {
                    Ok(term) => {
                        assert(means(fields[name], term));
                        let longer = list.push((name, term));
                        assert(bound_terms(entries) == Ok::<
                            Seq<(Seq<char>, TermModel)>,
                            ErrorModel,
                        >(longer));
                        assert forall|i: int| 0 <= i < n implies (#[trigger] longer[i]).0
                            == order[i] && variable_name(order[i]) && means(
                            fields[order[i]],
                            longer[i].1,
                        ) by {
                            if i < n - 1 {
                                assert(longer[i] == list[i]);
                            }
                        }
                    },
                    Err(e) => {
                        assert(blames_bindings(e, order[n - 1]));
                    },
                }
            },
            Err(e) => {},
        }
    }
}

/// What is not a JSON object binds nothing, and is refused as the `bindings` argument; what is not
/// JSON at all in the parser's own words.
pub proof fn only_an_object_binds(read: Result<JsonModel, Seq<char>>)
    requires
        !(read matches Ok(json) && json is Object),
    ensures
        bound_by(read) matches Err(ErrorModel::InvalidArgument { name, detail }) && name
            == "bindings"@ && (read matches Err(reason) ==> occurs_in(reason, detail)),
{
    if let Err(reason) = read {
        let detail = bound_by(read)->Err_0->detail;
        let at = "not JSON: "@.len() as int;
        assert(detail.subrange(at, at + reason.len()) =~= reason);
    }
}

/// A name is taken for a variable's character by character: letters, digits and `_`, at least
/// one, and nothing else matters.
pub proof fn a_variable_is_named_character_by_character(one: Seq<char>, c: char)
    ensures
        !variable_name(Seq::<char>::empty()),
        variable_name(seq![c]) <==> is_letter_or_digit(c) || c == '_',
        one.len() > 0 ==> (variable_name(one.push(c)) <==> variable_name(one) && (
        is_letter_or_digit(c) || c == '_')),
{
    let single = seq![c];
    assert(single[0] == c);
    let longer = one.push(c);
    assert(longer[one.len() as int] == c);
    if variable_name(longer) {
        assert forall|i: int| 0 <= i < one.len() implies is_letter_or_digit(#[trigger] one[i])
            || one[i] == '_' by {
            assert(longer[i] == one[i]);
        }
    }
}

/// Of several entries with one name the last counts, and every name counts.
pub proof fn the_last_entry_with_a_name_counts<T>(entries: Seq<(Seq<char>, T)>, i: int)
    requires
        0 <= i < entries.len(),
        forall|j: int| i < j < entries.len() ==> #[trigger] entries[j].0 != entries[i].0,
    ensures
        entries_map(entries).contains_key(entries[i].0),
        entries_map(entries)[entries[i].0] == entries[i].1,
    decreases entries.len(),
{
    let shorter = entries.drop_last();
    if i < entries.len() - 1 {
        assert(entries[entries.len() - 1].0 != entries[i].0);
        assert forall|j: int| i < j < shorter.len() implies #[trigger] shorter[j].0
            != shorter[i].0 by {
            assert(shorter[j] == entries[j]);
        }
        the_last_entry_with_a_name_counts(shorter, i);
    }
}

/// No name counts that no entry has.
pub proof fn only_the_names_of_entries_count<T>(entries: Seq<(Seq<char>, T)>, name: Seq<char>)
    requires
        forall|j: int| 0 <= j < entries.len() ==> #[trigger] entries[j].0 != name,
    ensures
        !entries_map(entries).contains_key(name),
    decreases entries.len(),
{
    if entries.len() > 0 {
        let shorter = entries.drop_last();
        assert(entries[entries.len() - 1].0 != name);
        assert forall|j: int| 0 <= j < shorter.len() implies #[trigger] shorter[j].0 != name by {
            assert(shorter[j] == entries[j]);
        }
        only_the_names_of_entries_count(shorter, name);
    }
}

/// A JSON object is opened into all of its fields: as many as it has keys, in order, each under its
/// key and none twice.
pub proof fn an_object_is_opened_into_its_fields(
    entries: Vec<(&str, &Value)>,
    order: Seq<Seq<char>>,
    fields: Map<Seq<char>, JsonModel>,
)
    requires
        Shape::Object(entries).opens(JsonModel::Object { order, fields }),
    ensures
        entries@.len() == order.len(),
        order.no_duplicates(),
        forall|key: Seq<char>| #[trigger] fields.contains_key(key) <==> order.contains(key),
        forall|i: int|
            0 <= i < order.len() ==> (#[trigger] entries@[i]).0@ == order[i] && json_model(
                *entries@[i].1,
            ) == fields[order[i]],
{
    assert forall|key: Seq<char>| #[trigger] fields.contains_key(key) <==> order.contains(key) by {
        assert(order.to_set().contains(key) <==> fields.dom().contains(key));
    }
}

/// A list of bindings is seen entry by entry: as many, in order, each under its name.
pub proof fn bindings_are_seen_one_by_one(list: Seq<(String, Term)>, pairs: Seq<(&str, Term)>)
    ensures
        bindings_view(list).len() == list.len(),
        forall|i: int|
            0 <= i < list.len() ==> #[trigger] bindings_view(list)[i] == (
                list[i].0@,
                list[i].1@,
            ),
        pairs_view(pairs).len() == pairs.len(),
        forall|i: int|
            0 <= i < pairs.len() ==> #[trigger] pairs_view(pairs)[i] == (
                pairs[i].0@,
                pairs[i].1@,
            ),
{
}

/// A blank node that is written into a `bindings` argument is never bound when it is read back:
/// it names nothing outside the document that minted it.
pub proof fn a_written_blank_node_is_refused(
    json: JsonModel,
    terms: Map<Seq<char>, TermModel>,
    name: Seq<char>,
)
    requires
        binds(json, terms),
        terms.contains_key(name),
        terms[name] is BlankNode,
    ensures
        bound_by(Ok(json)) is Err,
{
    let order = json->order;
    let fields = json->fields;
    a_bindings_object_binds_every_key(order, fields);
    assert(order.to_set().contains(name));
    let i = choose|i: int| 0 <= i < order.len() && order[i] == name;
    if let Ok(list) = bound_by(Ok(json)) {
        assert(list[i].0 == order[i]);
        assert(means(fields[name], list[i].1));
        let inner = fields[name]->order;
        let held = fields[name]->fields;
        reveal_strlit("bnode");
        reveal_strlit("uri");
        reveal_strlit("iri");
        reveal_strlit("literal");
        reveal_strlit("typed-literal");
        reveal_strlit("type");
        reveal_strlit("value");
        assert("bnode"@.len() == 5 && "uri"@.len() == 3 && "iri"@.len() == 3);
        assert("literal"@.len() == 7 && "typed-literal"@.len() == 13);
        assert("type"@.len() == 4 && "value"@.len() == 5);
        assert(held["type"@] == JsonModel::Text("bnode"@));
        assert(text_field(inner, held, "type"@) == Some("bnode"@) || text_field(
            inner,
            held,
            "type"@,
        ) == None::<Seq<char>>);
    }
}

// ------------------------------------------------------------------- a value as a term

/// A literal keeps its text, and has the datatype it was given: `xsd:string` where it was given
/// none, and `rdf:langString` where it was given a language.
pub proof fn a_literal_is_what_it_was_made_of(
    value: Seq<char>,
    datatype: Seq<char>,
    tag: Seq<char>,
)
    ensures
        plain(value).value == value,
        plain(value).datatype() == "http://www.w3.org/2001/XMLSchema#string"@,
        typed(value, datatype).value == value,
        typed(value, datatype).datatype() == datatype,
        tagged(value, tag).value == value,
        tagged(value, tag).annotation == AnnotationModel::Language(lowered(tag)),
        tagged(value, tag).datatype()
            == "http://www.w3.org/1999/02/22-rdf-syntax-ns#langString"@,
        boolean_text(true) == "true"@,
        boolean_text(false) == "false"@,
{
}

/// A term is written as SPARQL reads it: an IRI between angle brackets, a blank node behind `_:`,
/// and a literal between quotes with its language behind `@` or its datatype behind `^^`.
pub proof fn a_term_is_written_as_sparql_reads_it(
    text: Seq<char>,
    datatype: Seq<char>,
    tag: Seq<char>,
)
    ensures
        TermModel::NamedNode(text).syntax() == seq!['<'] + text + seq!['>'],
        TermModel::BlankNode(text).syntax() == seq!['_', ':'] + text,
        TermModel::Literal(plain(text)).syntax() == quoted(text),
        TermModel::Literal(tagged(text, tag)).syntax() == quoted(text) + seq!['@'] + lowered(tag),
        TermModel::Literal(typed(text, datatype)).syntax() == if datatype
            == "http://www.w3.org/2001/XMLSchema#string"@ {
            quoted(text)
        } else {
            quoted(text) + seq!['^', '^', '<'] + datatype + seq!['>']
        },
{
}

/// The number that a hexadecimal digit stands for.
pub open spec fn hex_value(c: char) -> int {
    if '0' <= c <= '9' {
        c as int - '0' as int
    } else if 'A' <= c <= 'F' {
        c as int - 'A' as int + 10
    } else {
        c as int - 'a' as int + 10
    }
}

/// The character that a SPARQL reader takes a letter behind a backslash for.
pub open spec fn escape_of(c: char) -> char {
    if c == 't' {
        '\t'
    } else if c == 'b' {
        '\u{8}'
    } else if c == 'n' {
        '\n'
    } else if c == 'r' {
        '\r'
    } else if c == 'f' {
        '\u{C}'
    } else {
        c
    }
}

/// What a SPARQL reader makes of a literal from `from` on, up to its closing quote.
pub open spec fn read_literal(text: Seq<char>, from: int) -> Seq<char>
    decreases text.len() - from,
{
    if from < 0 || from >= text.len() || text[from] == '"' {
        Seq::empty()
    } else if text[from] != '\\' {
        seq![text[from]] + read_literal(text, from + 1)
    } else if from + 1 >= text.len() {
        Seq::empty()
    } else if text[from + 1] != 'u' {
        seq![escape_of(text[from + 1])] + read_literal(text, from + 2)
    } else if from + 5 >= text.len() {
        Seq::empty()
    } else {
        seq![
            (hex_value(text[from + 2]) * 4096 + hex_value(text[from + 3]) * 256 + hex_value(
                text[from + 4],
            ) * 16 + hex_value(text[from + 5])) as char,
        ] + read_literal(text, from + 6)
    }
}

/// A literal is written character by character, each as it is but for the quote, the backslash and
/// the control characters, which stand behind a backslash.
pub proof fn a_literal_is_written_character_by_character(text: Seq<char>, c: char)
    ensures
        quoted(Seq::empty()) == seq!['"', '"'],
        quoted(text.push(c)) == quoted(text).drop_last() + escaped_char(c) + seq!['"'],
        c > '\u{1F}' && c != '"' && c != '\\' && c != '\u{7F}' && c != '\u{FFFE}' && c
            != '\u{FFFF}' ==> escaped_char(c) == seq![c],
        c <= '\u{1F}' || c == '"' || c == '\\' ==> escaped_char(c)[0] == '\\' && escaped_char(
            c,
        ).len() > 1,
{
    assert(escaped(Seq::<char>::empty()) =~= Seq::empty());
    assert(quoted(Seq::empty()) =~= seq!['"', '"']);
    assert(text.push(c).drop_last() =~= text);
    assert(quoted(text.push(c)) =~= quoted(text).drop_last() + escaped_char(c) + seq!['"']);
}

/// A text that is written as a literal is read back as it was, whatever it holds and whatever
/// follows.
pub proof fn a_literal_is_read_back(text: Seq<char>, rest: Seq<char>)
    ensures
        read_literal(quoted(text) + rest, 1) == text,
{
    let open = seq!['"'];
    let after = seq!['"'] + rest;
    let whole = open + escaped(text) + after;
    assert(quoted(text) + rest =~= whole);
    lemma_read_back(open, text, after);
    assert(whole[(1 + escaped(text).len()) as int] == '"');
    assert(read_literal(whole, (1 + escaped(text).len()) as int) =~= Seq::empty());
    assert(text + Seq::<char>::empty() =~= text);
}

proof fn lemma_read_back(before: Seq<char>, text: Seq<char>, after: Seq<char>)
    ensures
        read_literal(before + escaped(text) + after, before.len() as int) == text + read_literal(
            before + escaped(text) + after,
            (before.len() + escaped(text).len()) as int,
        ),
    decreases text.len(),
{
    let whole = before + escaped(text) + after;
    if text.len() == 0 {
        assert(escaped(text) =~= Seq::empty());
        assert(text + read_literal(whole, before.len() as int) =~= read_literal(
            whole,
            before.len() as int,
        ));
    } else {
        lemma_escaped_first(text);
        let first = escaped_char(text[0]);
        let rest = text.drop_first();
        let at = before.len() as int;
        assert(whole =~= (before + first) + escaped(rest) + after);
        assert(forall|i: int| 0 <= i < first.len() ==> whole[at + i] == first[i]);
        lemma_read_one(whole, at, text[0]);
        lemma_read_back(before + first, rest, after);
        let tail = read_literal(whole, (before.len() + escaped(text).len()) as int);
        assert(seq![text[0]] + (rest + tail) =~= text + tail);
    }
}

/// A reader takes one written character for what it was.
proof fn lemma_read_one(whole: Seq<char>, at: int, c: char)
    requires
        0 <= at,
        at + escaped_char(c).len() <= whole.len(),
        forall|i: int|
            0 <= i < escaped_char(c).len() ==> #[trigger] whole[at + i] == escaped_char(c)[i],
    ensures
        read_literal(whole, at) == seq![c] + read_literal(whole, at + escaped_char(c).len()),
{
    let written = escaped_char(c);
    assert(whole[at + 0] == written[0]);
    if written.len() >= 2 {
        assert(whole[at + 1] == written[1]);
    }
    if written.len() == 6 {
        assert(whole[at + 2] == written[2]);
        assert(whole[at + 3] == written[3]);
        assert(whole[at + 4] == written[4]);
        assert(whole[at + 5] == written[5]);
        let n = c as int;
        assert(0 <= n / 4096 < 16);
        lemma_hex(n / 4096);
        lemma_hex(n / 256 % 16);
        lemma_hex(n / 16 % 16);
        lemma_hex(n % 16);
        assert(n / 4096 * 4096 + (n / 256 % 16) * 256 + (n / 16 % 16) * 16 + n % 16 == n);
    }
}

/// A hexadecimal digit stands for the number it is the digit of.
proof fn lemma_hex(n: int)
    requires
        0 <= n < 16,
    ensures
        hex_value(hex_digit(n)) == n,
{
}

/// A refusal of a value names the argument that it came in, and repeats the value and the reason.
pub proof fn a_refused_value_is_named(
    value: Seq<char>,
    arg: Seq<char>,
    reason: Seq<char>,
    e: ErrorModel,
)
    requires
        e == not_an_iri(value, arg, reason) || e == not_a_datatype(value, arg, reason) || e
            == not_a_language(value, arg, reason),
    ensures
        e matches ErrorModel::InvalidArgument { name, detail } && name == arg && occurs_in(
            value,
            detail,
        ) && occurs_in(reason, detail),
{
    let detail = e->detail;
    let first = "`"@.len() as int;
    assert(detail.subrange(first, first + value.len()) =~= value);
    let iri = first + value.len() + "` is not an IRI ("@.len();
    let datatype = first + value.len() + "` is not a datatype IRI: "@.len();
    let language = first + value.len() + "` is not a language tag: "@.len();
    if e == not_an_iri(value, arg, reason) {
        assert(detail.subrange(iri, iri + reason.len()) =~= reason);
    } else if e == not_a_datatype(value, arg, reason) {
        assert(detail.subrange(datatype, datatype + reason.len()) =~= reason);
    } else {
        assert(detail.subrange(language, language + reason.len()) =~= reason);
    }
}

} // verus!
