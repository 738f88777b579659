//! Getting a value into a query without it becoming syntax.
//!
//! A query and an update are texts, so a value that is spliced into one stands on a security
//! boundary: a comment body of `" } ; DROP ALL ; INSERT DATA { <urn:x> <urn:y> "` is not a
//! rendering bug. Nothing here escapes anything. Every function builds an RDF term, which has
//! no syntax left in it, and has the RDF library write it.
//!
//! | you are writing | use |
//! | --- | --- |
//! | a query | `bindings=`, see [`bindings_json`]: the value never reaches the parser |
//! | an update | the term constructors below |

use crate::error::{Error, ErrorModel};
use crate::json::{
    entries_map, is_object, json_model, json_of_text, json_text, lists_keys, object_value,
    open_value, parse_json, text_value, texts_only, value_entries, value_text, JsonModel, Shape,
};
use crate::term::{
    boolean_text, display, escaped, iri_refusal, iri_shaped, language_refusal, plain, quoted,
    tagged, typed, AnnotationModel, TermModel, XSD_BOOLEAN, XSD_DOUBLE, XSD_INTEGER, XSD_STRING,
};
use crate::text::{int_text, is_letter_or_digit, lowered, same_text};
use serde_json::Value;
use vstd::prelude::*;

pub use crate::term::{Literal, NamedNode, Term};

verus! {

/// A plain (`xsd:string`) literal.
pub fn literal(text: &str) -> (r: String)
    ensures
        r@ == quoted(text@),
{
    display(&Term::Literal(Literal::new_simple_literal(text)))
}

/// The refusal of a text that is not a datatype.
pub open spec fn not_a_datatype(datatype: Seq<char>, arg: Seq<char>, reason: Seq<char>) -> ErrorModel {
    ErrorModel::InvalidArgument {
        name: arg,
        detail: "`"@ + datatype + "` is not a datatype IRI: "@ + reason,
    }
}

/// A literal with a datatype. The datatype must be an IRI; `arg` names the argument a
/// refusal is about.
pub fn typed_literal(text: &str, datatype: &str, arg: &str) -> (r: Result<String, Error>)
    ensures
        match iri_refusal(datatype@) {
            None => r matches Ok(written) && written@ == typed(text@, datatype@).syntax(),
            Some(reason) => r matches Err(e) && e@ == not_a_datatype(datatype@, arg@, reason),
        },
{
    match NamedNode::new(datatype) {
        Ok(node) => Ok(display(&Term::Literal(Literal::new_typed_literal(text, node)))),
        Err(reason) => {
            let mut detail = "`".to_owned();
            detail.append(datatype);
            detail.append("` is not a datatype IRI: ");
            detail.append(reason.as_str());
            Err(Error::InvalidArgument { name: arg.to_owned(), detail })
        },
    }
}

/// The refusal of a text that is not a language tag.
pub open spec fn not_a_language(tag: Seq<char>, arg: Seq<char>, reason: Seq<char>) -> ErrorModel {
    ErrorModel::InvalidArgument {
        name: arg,
        detail: "`"@ + tag + "` is not a language tag: "@ + reason,
    }
}

/// A literal in a language. An ill-formed tag is refused, not dropped: the same text under no
/// language is a different statement.
pub fn lang_literal(text: &str, tag: &str, arg: &str) -> (r: Result<String, Error>)
    ensures
        match language_refusal(lowered(tag@)) {
            None => r matches Ok(written) && written@ == tagged(text@, tag@).syntax(),
            Some(reason) => r matches Err(e) && e@ == not_a_language(tag@, arg@, reason),
        },
{
    match Literal::new_language_tagged_literal(text, tag) {
        Ok(literal) => Ok(display(&Term::Literal(literal))),
        Err(reason) => {
            let mut detail = "`".to_owned();
            detail.append(tag);
            detail.append("` is not a language tag: ");
            detail.append(reason.as_str());
            Err(Error::InvalidArgument { name: arg.to_owned(), detail })
        },
    }
}

/// The refusal of a text that is not an IRI.
pub open spec fn not_an_iri(value: Seq<char>, arg: Seq<char>, reason: Seq<char>) -> ErrorModel {
    ErrorModel::InvalidArgument {
        name: arg,
        detail: "`"@ + value + "` is not an IRI ("@ + reason
            + "). It is refused rather than escaped because an IRI has no escape for `<`, `>`, `\"`, `{`, `}`, `|`, `^`, `` ` ``, `\\` or a space — percent-encode it, since quietly storing a different IRI is worse than a refusal"@,
    }
}

/// The node for an IRI, or the refusal of a text that is not one.
pub fn named_node(value: &str, arg: &str) -> (r: Result<NamedNode, Error>)
    ensures
        match iri_refusal(value@) {
            None => r matches Ok(node) && node@ == value@ && iri_shaped(value@),
            Some(reason) => r matches Err(e) && e@ == not_an_iri(value@, arg@, reason),
        },
{
    match NamedNode::new(value) {
        Ok(node) => Ok(node),
        Err(reason) => {
            let mut detail = "`".to_owned();
            detail.append(value);
            detail.append("` is not an IRI (");
            detail.append(reason.as_str());
            detail.append(
                "). It is refused rather than escaped because an IRI has no escape for `<`, `>`, `\"`, `{`, `}`, `|`, `^`, `` ` ``, `\\` or a space — percent-encode it, since quietly storing a different IRI is worse than a refusal",
            );
            Err(Error::InvalidArgument { name: arg.to_owned(), detail })
        },
    }
}

/// An IRI term, `<…>`, after checking that it is an IRI.
///
/// This is validation and not escaping: an IRI has no escape for `>`, so a text that holds
/// one cannot be written at all.
pub fn iri(value: &str, arg: &str) -> (r: Result<String, Error>)
    ensures
        match iri_refusal(value@) {
            None => r matches Ok(written) && written@ == TermModel::NamedNode(value@).syntax()
                && iri_shaped(value@),
            Some(reason) => r matches Err(e) && e@ == not_an_iri(value@, arg@, reason),
        },
{
    match named_node(value, arg) {
        Ok(node) => Ok(display(&Term::NamedNode(node))),
        Err(e) => Err(e),
    }
}

/// An `xsd:integer` term.
pub fn integer(value: i64) -> (r: String)
    ensures
        r@ == typed(int_text(value as int), XSD_INTEGER@).syntax(),
{
    display(&Term::Literal(Literal::from_integer(value)))
}

/// An `xsd:boolean` term.
pub fn boolean(value: bool) -> (r: String)
    ensures
        r@ == typed(boolean_text(value), XSD_BOOLEAN@).syntax(),
{
    display(&Term::Literal(Literal::from_boolean(value)))
}

/// Any term that is already built.
pub fn term(value: &Term) -> (r: String)
    ensures
        r@ == value@.syntax(),
{
    display(value)
}

/// A value offered for a variable: what the outermost levels of a JSON value say. A field of an
/// object is a text, or it is not.
pub enum Given {
    Null,
    Boolean(bool),
    /// A number as it is written, and whether it is kept as a floating-point number.
    Number { text: String, float: bool },
    Text(String),
    Array,
    Object(Vec<(String, Option<String>)>),
}

/// [`Given`] over character sequences.
pub enum GivenModel {
    Null,
    Boolean(bool),
    Number { text: Seq<char>, float: bool },
    Text(Seq<char>),
    Array,
    Object(Seq<(Seq<char>, Option<Seq<char>>)>),
}

/// The fields of an object over character sequences.
pub open spec fn fields_view(fields: Seq<(String, Option<String>)>) -> Seq<
    (Seq<char>, Option<Seq<char>>),
> {
    fields.map_values(
        |field: (String, Option<String>)|
            (
                field.0@,
                match field.1 {
                    Some(text) => Some(text@),
                    None => None::<Seq<char>>,
                },
            ),
    )
}

impl View for Given {
    type V = GivenModel;

    open spec fn view(&self) -> GivenModel {
        match self {
            Given::Null => GivenModel::Null,
            Given::Boolean(value) => GivenModel::Boolean(*value),
            Given::Number { text, float } => GivenModel::Number { text: text@, float: *float },
            Given::Text(text) => GivenModel::Text(text@),
            Given::Array => GivenModel::Array,
            Given::Object(fields) => GivenModel::Object(fields_view(fields@)),
        }
    }
}

/// What a JSON value offers for a variable.
pub open spec fn given_of(json: JsonModel) -> GivenModel {
    match json {
        JsonModel::Null => GivenModel::Null,
        JsonModel::Boolean(value) => GivenModel::Boolean(value),
        JsonModel::Number { text, float } => GivenModel::Number { text, float },
        JsonModel::Text(text) => GivenModel::Text(text),
        JsonModel::Array(_) => GivenModel::Array,
        JsonModel::Object { order, fields } => GivenModel::Object(
            order.map_values(
                |key: Seq<char>|
                    (
                        key,
                        match fields[key] {
                            JsonModel::Text(text) => Some(text),
                            _ => None::<Seq<char>>,
                        },
                    ),
            ),
        ),
    }
}

/// What the entries of a JSON object offer, in their order.
pub open spec fn given_entries(order: Seq<Seq<char>>, fields: Map<Seq<char>, JsonModel>) -> Seq<
    (Seq<char>, GivenModel),
> {
    order.map_values(|key: Seq<char>| (key, given_of(fields[key])))
}

/// A `bindings` argument that is unusable.
pub open spec fn bad_bindings(detail: Seq<char>) -> ErrorModel {
    ErrorModel::InvalidArgument { name: "bindings"@, detail }
}

/// A field of an object, where there is one: its text, or that it is not a text.
pub open spec fn found_field(fields: Seq<(Seq<char>, Option<Seq<char>>)>, key: Seq<char>) -> Option<
    Option<Seq<char>>,
>
    decreases fields.len(),
{
    if fields.len() == 0 {
        None
    } else if fields[0].0 == key {
        Some(fields[0].1)
    } else {
        found_field(fields.drop_first(), key)
    }
}

/// The text of a field of an object, where it has one.
pub open spec fn field(fields: Seq<(Seq<char>, Option<Seq<char>>)>, key: Seq<char>) -> Option<
    Seq<char>,
> {
    match found_field(fields, key) {
        Some(text) => text,
        None => None,
    }
}

/// Whether an object has a field that is not a text.
pub open spec fn not_text(fields: Seq<(Seq<char>, Option<Seq<char>>)>, key: Seq<char>) -> bool {
    found_field(fields, key) == Some(None::<Seq<char>>)
}

/// The refusal of a field that is not a text.
pub open spec fn not_text_error(name: Seq<char>, key: Seq<char>) -> ErrorModel {
    bad_bindings("`"@ + name + "`'s `"@ + key + "` is not a JSON string"@)
}

/// The literal an object stands for. A language or a datatype that is not a text is refused:
/// the same text without it is a different literal.
pub open spec fn object_literal(
    name: Seq<char>,
    lexical: Seq<char>,
    fields: Seq<(Seq<char>, Option<Seq<char>>)>,
) -> Result<TermModel, ErrorModel> {
    if not_text(fields, "xml:lang"@) {
        Err(not_text_error(name, "xml:lang"@))
    } else if not_text(fields, "lang"@) {
        Err(not_text_error(name, "lang"@))
    } else if not_text(fields, "datatype"@) {
        Err(not_text_error(name, "datatype"@))
    } else {
        literal_term(name, lexical, language_field(fields), field(fields, "datatype"@))
    }
}

/// The term an object stands for: the term object of the SPARQL 1.1 Query Results JSON
/// Format.
pub open spec fn object_term(name: Seq<char>, fields: Seq<(Seq<char>, Option<Seq<char>>)>) -> Result<
    TermModel,
    ErrorModel,
> {
    match (field(fields, "type"@), field(fields, "value"@)) {
        (None, _) => Err(
            bad_bindings(
                "`"@ + name
                    + "` is an object with no `type`: use the SPARQL results term shape, {\"type\":\"uri\"|\"literal\",\"value\":…}, or just a bare JSON string for a plain literal"@,
            ),
        ),
        (Some(kind), None) => Err(
            bad_bindings("`"@ + name + "` is a `"@ + kind + "` term with no `value`"@),
        ),
        (Some(kind), Some(lexical)) => if kind == "uri"@ || kind == "iri"@ {
            match iri_refusal(lexical) {
                None => Ok(TermModel::NamedNode(lexical)),
                Some(reason) => Err(
                    bad_bindings(
                        "`"@ + name + "`: "@ + not_an_iri(lexical, "bindings"@, reason).message(),
                    ),
                ),
            }
        } else if kind == "literal"@ || kind == "typed-literal"@ {
            object_literal(name, lexical, fields)
        } else if kind == "bnode"@ {
            Err(
                bad_bindings(
                    "`"@ + name
                        + "` is a blank node, which is scoped to the document that minted it and so names nothing this store can match. Skolemize it — as everything in this ecosystem does — and bind the IRI"@,
                ),
            )
        } else {
            Err(
                bad_bindings("`"@ + name + "` has type `"@ + kind + "`; one of `uri`, `literal`"@),
            )
        },
    }
}

/// The language an object gives, under either of its two names.
pub open spec fn language_field(fields: Seq<(Seq<char>, Option<Seq<char>>)>) -> Option<Seq<char>> {
    match field(fields, "xml:lang"@) {
        Some(tag) => Some(tag),
        None => field(fields, "lang"@),
    }
}

/// The literal with this text, language and datatype.
pub open spec fn literal_term(
    name: Seq<char>,
    lexical: Seq<char>,
    language: Option<Seq<char>>,
    datatype: Option<Seq<char>>,
) -> Result<TermModel, ErrorModel> {
    match (language, datatype) {
        (Some(_), Some(_)) => Err(
            bad_bindings(
                "`"@ + name
                    + "` carries both `xml:lang` and `datatype`; a literal has one or the other"@,
            ),
        ),
        (Some(tag), None) => match language_refusal(lowered(tag)) {
            None => Ok(TermModel::Literal(tagged(lexical, tag))),
            Some(reason) => Err(
                bad_bindings(
                    "`"@ + name + "`: `"@ + tag + "` is not a language tag: "@ + reason,
                ),
            ),
        },
        (None, Some(datatype)) => match iri_refusal(datatype) {
            None => Ok(TermModel::Literal(typed(lexical, datatype))),
            Some(reason) => Err(
                bad_bindings(
                    "`"@ + name + "`'s datatype: "@ + not_an_iri(
                        datatype,
                        "bindings"@,
                        reason,
                    ).message(),
                ),
            ),
        },
        (None, None) => Ok(TermModel::Literal(plain(lexical))),
    }
}

/// The term a JSON value stands for, or why there is none. Nothing is coerced.
pub open spec fn given_term(name: Seq<char>, given: GivenModel) -> Result<TermModel, ErrorModel> {
    match given {
        GivenModel::Text(text) => Ok(TermModel::Literal(plain(text))),
        GivenModel::Boolean(value) => Ok(
            TermModel::Literal(typed(boolean_text(value), XSD_BOOLEAN@)),
        ),
        GivenModel::Number { text, float } => Ok(
            TermModel::Literal(
                typed(
                    text,
                    if float {
                        XSD_DOUBLE@
                    } else {
                        XSD_INTEGER@
                    },
                ),
            ),
        ),
        GivenModel::Null => Err(
            bad_bindings(
                "`"@ + name
                    + "` is null, and an unbound variable is not a binding: a query that should match anything must simply not bind that variable"@,
            ),
        ),
        GivenModel::Array => Err(
            bad_bindings(
                "`"@ + name
                    + "` is an array, and there is no RDF term that could mean. Bind one value, or write the alternatives into the query as a VALUES block"@,
            ),
        ),
        GivenModel::Object(fields) => object_term(name, fields),
    }
}

/// Whether a text is taken for the name of a variable: letters, digits and `_`.
pub open spec fn variable_name(name: Seq<char>) -> bool {
    name.len() > 0 && forall|i: int|
        0 <= i < name.len() ==> is_letter_or_digit(#[trigger] name[i]) || name[i] == '_'
}

/// The term bound to one variable.
pub open spec fn bound_term(name: Seq<char>, given: GivenModel) -> Result<TermModel, ErrorModel> {
    if variable_name(name) {
        given_term(name, given)
    } else {
        Err(
            bad_bindings(
                "`"@ + name
                    + "` is not a SPARQL variable name (letters, digits and `_`); write it without the leading `?`"@,
            ),
        )
    }
}

/// The terms bound to the variables of a list, or the first refusal.
pub open spec fn bound_terms(entries: Seq<(Seq<char>, GivenModel)>) -> Result<
    Seq<(Seq<char>, TermModel)>,
    ErrorModel,
>
    decreases entries.len(),
{
    if entries.len() == 0 {
        Ok(Seq::empty())
    } else {
        match bound_terms(entries.drop_last()) {
            Err(e) => Err(e),
            Ok(list) => match bound_term(entries.last().0, entries.last().1) {
                Err(e) => Err(e),
                Ok(term) => Ok(list.push((entries.last().0, term))),
            },
        }
    }
}

/// What a `bindings` argument binds, given what its text was read as.
pub open spec fn bound_by(read: Result<JsonModel, Seq<char>>) -> Result<
    Seq<(Seq<char>, TermModel)>,
    ErrorModel,
> {
    match read {
        Err(reason) => Err(
            bad_bindings(
                "not JSON: "@ + reason
                    + ". `bindings` is a JSON object of variable name → value, e.g. {\"title\": \"some text\"}"@,
            ),
        ),
        Ok(JsonModel::Object { order, fields }) => bound_terms(given_entries(order, fields)),
        Ok(_) => Err(
            bad_bindings(
                "must be a JSON OBJECT of variable name → value, e.g. {\"title\": \"some text\"}"@,
            ),
        ),
    }
}

/// The names of a list of entries.
pub open spec fn names_of<T>(entries: Seq<(Seq<char>, T)>) -> Seq<Seq<char>> {
    entries.map_values(|entry: (Seq<char>, T)| entry.0)
}

/// The terms of a list are bound to the names of the list, in its order.
proof fn lemma_bound_names(entries: Seq<(Seq<char>, GivenModel)>)
    ensures
        bound_terms(entries) matches Ok(list) ==> names_of(list) == names_of(entries),
    decreases entries.len(),
{
    if entries.len() > 0 {
        lemma_bound_names(entries.drop_last());
        assert(names_of(entries) =~= names_of(entries.drop_last()).push(entries.last().0));
        if let Ok(list) = bound_terms(entries) {
            assert(list.drop_last().push(list.last()) =~= list);
            assert(names_of(list) =~= names_of(list.drop_last()).push(list.last().0));
        }
    } else {
        assert(names_of(entries) =~= Seq::empty());
        if let Ok(list) = bound_terms(entries) {
            assert(names_of(list) =~= Seq::empty());
        }
    }
}

/// A list of bindings over character sequences.
pub open spec fn bindings_view(list: Seq<(String, Term)>) -> Seq<(Seq<char>, TermModel)> {
    list.map_values(|entry: (String, Term)| (entry.0@, entry.1@))
}

/// The entries of a list of offers over character sequences.
pub open spec fn offers_view(list: Seq<(String, Given)>) -> Seq<(Seq<char>, GivenModel)> {
    list.map_values(|entry: (String, Given)| (entry.0@, entry.1@))
}

fn bad(detail: String) -> (r: Error)
    ensures
        r@ == bad_bindings(detail@),
{
    Error::InvalidArgument { name: "bindings".to_owned(), detail }
}

/// A field of an object, where there is one: its text, or that it is not a text.
fn find_field<'a>(fields: &'a Vec<(String, Option<String>)>, key: &str) -> (r: Option<
    Option<&'a str>,
>)
    ensures
        match r {
            Some(text) => found_field(fields_view(fields@), key@) == Some(optional(text)),
            None => found_field(fields_view(fields@), key@) == None::<Option<Seq<char>>>,
        },
{
    let ghost view = fields_view(fields@);
    let mut i: usize = 0;
    assert(view.skip(0) == view);
    while i < fields.len()
        invariant
            i <= fields@.len(),
            view == fields_view(fields@),
            found_field(view, key@) == found_field(view.skip(i as int), key@),
        decreases fields@.len() - i,
    {
        assert(view.skip(i as int)[0] == view[i as int]);
        assert(view.skip(i as int).drop_first() == view.skip(i + 1));
        if same_text(fields[i].0.as_str(), key) {
            return Some(
                match &fields[i].1 {
                    Some(text) => Some(text.as_str()),
                    None => None,
                },
            );
        }
        i += 1;
    }
    None
}

/// The text of a field of an object, where it has one.
fn field_text<'a>(fields: &'a Vec<(String, Option<String>)>, key: &str) -> (r: Option<&'a str>)
    ensures
        field(fields_view(fields@), key@) == optional(r),
{
    match find_field(fields, key) {
        Some(text) => text,
        None => None,
    }
}

/// The text of a field of an object, where it has the field. One that is not a text is refused.
fn text_only<'a>(name: &str, fields: &'a Vec<(String, Option<String>)>, key: &str) -> (r: Result<
    Option<&'a str>,
    Error,
>)
    ensures
        match r {
            Ok(text) => !not_text(fields_view(fields@), key@) && field(fields_view(fields@), key@)
                == optional(text),
            Err(e) => not_text(fields_view(fields@), key@) && e@ == not_text_error(name@, key@),
        },
{
    match find_field(fields, key) {
        None => Ok(None),
        Some(Some(text)) => Ok(Some(text)),
        Some(None) => {
            let mut detail = "`".to_owned();
            detail.append(name);
            detail.append("`'s `");
            detail.append(key);
            detail.append("` is not a JSON string");
            Err(bad(detail))
        },
    }
}

/// The literal with this text, language and datatype.
fn literal_of(name: &str, lexical: &str, language: Option<&str>, datatype: Option<&str>) -> (r:
    Result<Term, Error>)
    ensures
        crate::error::outcome(r) == literal_term(
            name@,
            lexical@,
            optional(language),
            optional(datatype),
        ),
{
    match (language, datatype) {
        (Some(_), Some(_)) => {
            let mut detail = "`".to_owned();
            detail.append(name);
            detail.append(
                "` carries both `xml:lang` and `datatype`; a literal has one or the other",
            );
            Err(bad(detail))
        },
        (Some(tag), None) => match Literal::new_language_tagged_literal(lexical, tag) {
            Ok(literal) => Ok(Term::Literal(literal)),
            Err(reason) => {
                let mut detail = "`".to_owned();
                detail.append(name);
                detail.append("`: `");
                detail.append(tag);
                detail.append("` is not a language tag: ");
                detail.append(reason.as_str());
                Err(bad(detail))
            },
        },
        (None, Some(datatype)) => match named_node(datatype, "bindings") {
            Ok(node) => Ok(Term::Literal(Literal::new_typed_literal(lexical, node))),
            Err(e) => {
                let mut detail = "`".to_owned();
                detail.append(name);
                detail.append("`'s datatype: ");
                detail.append(e.message().as_str());
                Err(bad(detail))
            },
        },
        (None, None) => Ok(Term::Literal(Literal::new_simple_literal(lexical))),
    }
}

/// The view of an optional text.
pub open spec fn optional(text: Option<&str>) -> Option<Seq<char>> {
    match text {
        Some(text) => Some(text@),
        None => None,
    }
}

/// The term an object stands for, or why there is none.
pub fn object_to_term(name: &str, fields: &Vec<(String, Option<String>)>) -> (r: Result<Term, Error>)
    ensures
        crate::error::outcome(r) == object_term(name@, fields_view(fields@)),
{
    let kind = match field_text(fields, "type") {
        Some(kind) => kind,
        None => {
            let mut detail = "`".to_owned();
            detail.append(name);
            detail.append(
                "` is an object with no `type`: use the SPARQL results term shape, {\"type\":\"uri\"|\"literal\",\"value\":…}, or just a bare JSON string for a plain literal",
            );
            return Err(bad(detail));
        },
    };
    let lexical = match field_text(fields, "value") {
        Some(lexical) => lexical,
        None => {
            let mut detail = "`".to_owned();
            detail.append(name);
            detail.append("` is a `");
            detail.append(kind);
            detail.append("` term with no `value`");
            return Err(bad(detail));
        },
    };
    if same_text(kind, "uri") || same_text(kind, "iri") {
        match named_node(lexical, "bindings") {
            Ok(node) => Ok(Term::NamedNode(node)),
            Err(e) => {
                let mut detail = "`".to_owned();
                detail.append(name);
                detail.append("`: ");
                detail.append(e.message().as_str());
                Err(bad(detail))
            },
        }
    } else if same_text(kind, "literal") || same_text(kind, "typed-literal") {
        let tag = match text_only(name, fields, "xml:lang") {
            Ok(tag) => tag,
            Err(e) => {
                return Err(e);
            },
        };
        let other_tag = match text_only(name, fields, "lang") {
            Ok(tag) => tag,
            Err(e) => {
                return Err(e);
            },
        };
        let datatype = match text_only(name, fields, "datatype") {
            Ok(datatype) => datatype,
            Err(e) => {
                return Err(e);
            },
        };
        let language = match tag {
            Some(tag) => Some(tag),
            None => other_tag,
        };
        literal_of(name, lexical, language, datatype)
    } else if same_text(kind, "bnode") {
        let mut detail = "`".to_owned();
        detail.append(name);
        detail.append(
            "` is a blank node, which is scoped to the document that minted it and so names nothing this store can match. Skolemize it — as everything in this ecosystem does — and bind the IRI",
        );
        Err(bad(detail))
    } else {
        let mut detail = "`".to_owned();
        detail.append(name);
        detail.append("` has type `");
        detail.append(kind);
        detail.append("`; one of `uri`, `literal`");
        Err(bad(detail))
    }
}

/// The term a JSON value stands for, or why there is none.
pub fn json_to_term(name: &str, value: &Given) -> (r: Result<Term, Error>)
    ensures
        crate::error::outcome(r) == given_term(name@, value@),
{
    match value {
        Given::Text(text) => Ok(Term::Literal(Literal::new_simple_literal(text.as_str()))),
        Given::Boolean(value) => Ok(Term::Literal(Literal::from_boolean(*value))),
        Given::Number { text, float } => {
            let datatype = if *float {
                XSD_DOUBLE
            } else {
                XSD_INTEGER
            };
            Ok(
                Term::Literal(
                    Literal::new_typed_literal(text.as_str(), NamedNode::known(datatype)),
                ),
            )
        },
        Given::Null => {
            let mut detail = "`".to_owned();
            detail.append(name);
            detail.append(
                "` is null, and an unbound variable is not a binding: a query that should match anything must simply not bind that variable",
            );
            Err(bad(detail))
        },
        Given::Array => {
            let mut detail = "`".to_owned();
            detail.append(name);
            detail.append(
                "` is an array, and there is no RDF term that could mean. Bind one value, or write the alternatives into the query as a VALUES block",
            );
            Err(bad(detail))
        },
        Given::Object(fields) => object_to_term(name, fields),
    }
}

/// Whether a text is taken for the name of a variable.
fn is_variable_name(name: &str) -> (r: bool)
    ensures
        r == variable_name(name@),
{
    let chars = crate::text::chars_of(name);
    if chars.len() == 0 {
        return false;
    }
    let mut i: usize = 0;
    while i < chars.len()
        invariant
            i <= chars@.len(),
            chars@ == name@,
            forall|k: int|
                0 <= k < i ==> is_letter_or_digit(#[trigger] name@[k]) || name@[k] == '_',
        decreases chars@.len() - i,
    {
        if !(chars[i].is_alphanumeric() || chars[i] == '_') {
            assert(!(is_letter_or_digit(name@[i as int]) || name@[i as int] == '_'));
            return false;
        }
        i += 1;
    }
    true
}

/// The terms bound to the variables of a list, or the first refusal.
pub fn bind(entries: &Vec<(String, Given)>) -> (r: Result<Vec<(String, Term)>, Error>)
    ensures
        match r {
            Ok(list) => bound_terms(offers_view(entries@)) == Ok::<
                Seq<(Seq<char>, TermModel)>,
                ErrorModel,
            >(bindings_view(list@)),
            Err(e) => bound_terms(offers_view(entries@)) == Err::<
                Seq<(Seq<char>, TermModel)>,
                ErrorModel,
            >(e@),
        },
{
    let ghost offers = offers_view(entries@);
    let mut list: Vec<(String, Term)> = Vec::new();
    let mut i: usize = 0;
    assert(bindings_view(list@) == Seq::<(Seq<char>, TermModel)>::empty());
    while i < entries.len()
        invariant
            i <= entries@.len(),
            offers == offers_view(entries@),
            bound_terms(offers.take(i as int)) == Ok::<Seq<(Seq<char>, TermModel)>, ErrorModel>(
                bindings_view(list@),
            ),
        decreases entries@.len() - i,
    {
        let name = entries[i].0.as_str();
        let ghost so_far = offers.take(i + 1);
        proof {
            assert(so_far.drop_last() == offers.take(i as int));
            assert(so_far.last() == offers[i as int]);
        }
        if !is_variable_name(name) {
            let mut detail = "`".to_owned();
            detail.append(name);
            detail.append(
                "` is not a SPARQL variable name (letters, digits and `_`); write it without the leading `?`",
            );
            let refusal = bad(detail);
            proof {
                lemma_first_refusal(offers, i + 1, refusal@);
            }
            return Err(refusal);
        }
        match json_to_term(name, &entries[i].1) {
            Ok(term) => {
                let ghost before = list@;
                list.push((name.to_owned(), term));
                assert(bindings_view(list@) == bindings_view(before).push((name@, term@)));
            },
            Err(e) => {
                proof {
                    lemma_first_refusal(offers, i + 1, e@);
                }
                return Err(e);
            },
        }
        i += 1;
    }
    assert(offers.take(entries@.len() as int) == offers);
    Ok(list)
}

/// The refusal of a first part of a list is the refusal of the whole.
proof fn lemma_first_refusal(entries: Seq<(Seq<char>, GivenModel)>, n: int, e: ErrorModel)
    requires
        0 <= n <= entries.len(),
        bound_terms(entries.take(n)) == Err::<Seq<(Seq<char>, TermModel)>, ErrorModel>(e),
    ensures
        bound_terms(entries) == Err::<Seq<(Seq<char>, TermModel)>, ErrorModel>(e),
    decreases entries.len(),
{
    if n == entries.len() {
        assert(entries.take(n) == entries);
    } else {
        assert(entries.drop_last().take(n) == entries.take(n));
        lemma_first_refusal(entries.drop_last(), n, e);
    }
}

/// What a JSON value offers for a variable.
fn given(value: &Value) -> (r: Given)
    ensures
        r@ == given_of(json_model(*value)),
{
    match open_value(value) {
        Shape::Null => Given::Null,
        Shape::Boolean(value) => Given::Boolean(value),
        Shape::Number { text, float } => Given::Number { text, float },
        Shape::Text(text) => Given::Text(text.to_owned()),
        Shape::Array => Given::Array,
        Shape::Object(entries) => {
            let ghost expected = given_of(json_model(*value))->Object_0;
            let mut fields: Vec<(String, Option<String>)> = Vec::new();
            let mut i: usize = 0;
            while i < entries.len()
                invariant
                    i <= entries@.len(),
                    Shape::Object(entries).opens(json_model(*value)),
                    expected == given_of(json_model(*value))->Object_0,
                    fields_view(fields@) == expected.take(i as int),
                decreases entries@.len() - i,
            {
                let text = match open_value(entries[i].1) {
                    Shape::Text(text) => Some(text.to_owned()),
                    _ => None,
                };
                let ghost before = fields@;
                fields.push((entries[i].0.to_owned(), text));
                proof {
                    assert(fields_view(fields@) == fields_view(before).push(expected[i as int]));
                    assert(expected.take(i + 1) == expected.take(i as int).push(
                        expected[i as int],
                    ));
                }
                i += 1;
            }
            assert(expected.take(expected.len() as int) == expected);
            Given::Object(fields)
        },
    }
}

/// Parse a `bindings` argument into variable and term pairs.
///
/// | JSON | term |
/// | --- | --- |
/// | `"text"` | a plain literal |
/// | `12` | an `xsd:integer` |
/// | `1.5` | an `xsd:double` |
/// | `true` | an `xsd:boolean` |
/// | `{"type":"uri","value":"urn:…"}` | an IRI |
/// | `{"type":"literal","value":"…","datatype":"…"}` | a typed literal |
/// | `{"type":"literal","value":"…","xml:lang":"en"}` | a literal in a language |
///
/// Everything else is refused with the reason: `null`, an array, a nested object, a language or a
/// datatype that is not a text, and a blank node, which names nothing outside the document that
/// minted it. No variable is bound twice.
pub fn parse_bindings(json: &str) -> (r: Result<Vec<(String, Term)>, Error>)
    ensures
        match r {
            Ok(list) => bound_by(json_of_text(json@)) == Ok::<
                Seq<(Seq<char>, TermModel)>,
                ErrorModel,
            >(bindings_view(list@)),
            Err(e) => bound_by(json_of_text(json@)) == Err::<
                Seq<(Seq<char>, TermModel)>,
                ErrorModel,
            >(e@),
        },
        r matches Ok(list) ==> names_of(bindings_view(list@)).no_duplicates(),
{
    let value = match parse_json(json) {
        Ok(value) => value,
        Err(reason) => {
            let mut detail = "not JSON: ".to_owned();
            detail.append(reason.as_str());
            detail.append(
                ". `bindings` is a JSON object of variable name → value, e.g. {\"title\": \"some text\"}",
            );
            return Err(bad(detail));
        },
    };
    match open_value(&value) {
        Shape::Object(entries) => {
            let ghost order = json_model(value)->order;
            let ghost fields = json_model(value)->fields;
            let ghost expected = given_entries(order, fields);
            let mut offers: Vec<(String, Given)> = Vec::new();
            let mut i: usize = 0;
            while i < entries.len()
                invariant
                    i <= entries@.len(),
                    Shape::Object(entries).opens(json_model(value)),
                    order == json_model(value)->order,
                    fields == json_model(value)->fields,
                    expected == given_entries(order, fields),
                    offers_view(offers@) == expected.take(i as int),
                decreases entries@.len() - i,
            {
                let offer = given(entries[i].1);
                let ghost before = offers@;
                offers.push((entries[i].0.to_owned(), offer));
                proof {
                    assert(offers_view(offers@) == offers_view(before).push(expected[i as int]));
                    assert(expected.take(i + 1) == expected.take(i as int).push(
                        expected[i as int],
                    ));
                }
                i += 1;
            }
            proof {
                assert(expected.take(expected.len() as int) == expected);
                assert(names_of(expected) =~= order);
                lemma_bound_names(expected);
            }
            bind(&offers)
        },
        _ => Err(
            bad(
                "must be a JSON OBJECT of variable name → value, e.g. {\"title\": \"some text\"}".to_owned(),
            ),
        ),
    }
}

/// The fields of the term object for a term.
pub open spec fn term_fields(term: TermModel) -> Map<Seq<char>, JsonModel> {
    match term {
        TermModel::NamedNode(iri) => map![
            "type"@ => JsonModel::Text("uri"@),
            "value"@ => JsonModel::Text(iri),
        ],
        TermModel::BlankNode(label) => map![
            "type"@ => JsonModel::Text("bnode"@),
            "value"@ => JsonModel::Text(label),
        ],
        TermModel::Literal(literal) => {
            let bare = map![
                "type"@ => JsonModel::Text("literal"@),
                "value"@ => JsonModel::Text(literal.value),
            ];
            match literal.annotation {
                AnnotationModel::Language(tag) => bare.insert("xml:lang"@, JsonModel::Text(tag)),
                _ => if literal.datatype() == XSD_STRING@ {
                    bare
                } else {
                    bare.insert("datatype"@, JsonModel::Text(literal.datatype()))
                },
            }
        },
    }
}

/// The pairs of a list over character sequences.
pub open spec fn pairs_view(pairs: Seq<(&str, Term)>) -> Seq<(Seq<char>, TermModel)> {
    pairs.map_values(|pair: (&str, Term)| (pair.0@, pair.1@))
}

/// Whether a JSON value is an object with one term object for each variable.
pub open spec fn binds(json: JsonModel, terms: Map<Seq<char>, TermModel>) -> bool {
    json matches JsonModel::Object { order, fields } && {
        &&& lists_keys(order, fields)
        &&& fields.dom() == terms.dom()
        &&& forall|name: Seq<char>| #[trigger]
            terms.contains_key(name) ==> is_object(fields[name], term_fields(terms[name]))
    }
}

/// Whether a text is a `bindings` argument for these variables.
pub open spec fn writes_bindings(text: Seq<char>, terms: Map<Seq<char>, TermModel>) -> bool {
    exists|json: JsonModel| #[trigger]
        binds(json, terms) && text == json_text(json) && json_of_text(text) == Ok::<
            JsonModel,
            Seq<char>,
        >(json)
}

/// The JSON object for a list of texts.
fn text_object(fields: &Vec<(&'static str, &str)>) -> (r: Value)
    ensures
        is_object(
            json_model(r),
            entries_map(
                fields@.map_values(
                    |field: (&'static str, &str)| (field.0@, JsonModel::Text(field.1@)),
                ),
            ),
        ),
{
    let ghost expected = fields@.map_values(
        |field: (&'static str, &str)| (field.0@, JsonModel::Text(field.1@)),
    );
    let mut entries: Vec<(String, Value)> = Vec::new();
    let mut i: usize = 0;
    while i < fields.len()
        invariant
            i <= fields@.len(),
            expected == fields@.map_values(
                |field: (&'static str, &str)| (field.0@, JsonModel::Text(field.1@)),
            ),
            value_entries(entries@) == expected.take(i as int),
        decreases fields@.len() - i,
    {
        let ghost before = entries@;
        entries.push((fields[i].0.to_owned(), text_value(fields[i].1)));
        proof {
            assert(value_entries(entries@) == value_entries(before).push(expected[i as int]));
            assert(expected.take(i + 1) == expected.take(i as int).push(expected[i as int]));
        }
        i += 1;
    }
    assert(expected.take(expected.len() as int) == expected);
    object_value(entries)
}

/// The term object for a term.
fn term_to_json(term: &Term) -> (r: Value)
    ensures
        is_object(json_model(r), term_fields(term@)),
{
    let mut fields: Vec<(&'static str, &str)> = Vec::new();
    match term {
        Term::NamedNode(node) => {
            fields.push(("type", "uri"));
            fields.push(("value", node.as_str()));
        },
        Term::BlankNode(label) => {
            fields.push(("type", "bnode"));
            fields.push(("value", label.as_str()));
        },
        Term::Literal(literal) => {
            fields.push(("type", "literal"));
            fields.push(("value", literal.value()));
            match literal.language() {
                Some(tag) => {
                    fields.push(("xml:lang", tag));
                },
                None => {
                    if !same_text(literal.datatype(), XSD_STRING) {
                        fields.push(("datatype", literal.datatype()));
                    }
                },
            }
        },
    }
    proof {
        let list = fields@.map_values(
            |field: (&'static str, &str)| (field.0@, JsonModel::Text(field.1@)),
        );
        reveal_with_fuel(entries_map, 4);
        assert(entries_map(list) =~= term_fields(term@));
    }
    text_object(&fields)
}

/// A `bindings` argument for the query endpoints, from name and term pairs. Where a name
/// stands twice, the later term is bound.
///
/// The bytes of a bound value never pass through the SPARQL parser: the endpoint reads this
/// JSON into terms and has them substituted into a query whose syntax is fixed by then.
///
/// Every bound variable must appear in the query's projection. That is the evaluator's rule,
/// and a binding the query does not mention is refused rather than ignored.
pub fn bindings_json(pairs: Vec<(&str, Term)>) -> (r: String)
    ensures
        writes_bindings(r@, entries_map(pairs_view(pairs@))),
{
    let ghost view = pairs_view(pairs@);
    let mut entries: Vec<(String, Value)> = Vec::new();
    let mut i: usize = 0;
    while i < pairs.len()
        invariant
            i <= pairs@.len(),
            view == pairs_view(pairs@),
            entries@.len() == i,
            forall|k: int|
                0 <= k < i ==> (#[trigger] value_entries(entries@)[k]).0 == view[k].0 && is_object(
                    value_entries(entries@)[k].1,
                    term_fields(view[k].1),
                ),
        decreases pairs@.len() - i,
    {
        let ghost before = entries@;
        let value = term_to_json(&pairs[i].1);
        entries.push((pairs[i].0.to_owned(), value));
        proof {
            assert(value_entries(entries@) == value_entries(before).push(
                (view[i as int].0, json_model(value)),
            ));
        }
        i += 1;
    }
    let ghost values = value_entries(entries@);
    let object = object_value(entries);
    proof {
        lemma_objects(values, view);
        assert(binds(json_model(object), entries_map(view)));
        assert(texts_only(json_model(object))) by {
            let fields = json_model(object)->fields;
            assert forall|k: Seq<char>| #[trigger] fields.contains_key(k) implies (fields[k] matches JsonModel::Object { fields: inner, .. }
                && forall|n: Seq<char>| #[trigger] inner.contains_key(n) ==> inner[n] is Text) by {
                assert(entries_map(view).contains_key(k));
            }
        }
    }
    value_text(&object)
}

/// Turning the terms of a list into term objects keeps the keys, and each key its term.
proof fn lemma_objects(values: Seq<(Seq<char>, JsonModel)>, view: Seq<(Seq<char>, TermModel)>)
    requires
        values.len() == view.len(),
        forall|k: int|
            0 <= k < view.len() ==> (#[trigger] values[k]).0 == view[k].0 && is_object(
                values[k].1,
                term_fields(view[k].1),
            ),
    ensures
        entries_map(values).dom() == entries_map(view).dom(),
        forall|name: Seq<char>| #[trigger]
            entries_map(view).contains_key(name) ==> is_object(
                entries_map(values)[name],
                term_fields(entries_map(view)[name]),
            ),
    decreases view.len(),
{
    if view.len() > 0 {
        lemma_objects(values.drop_last(), view.drop_last());
        assert(values.last() == values[view.len() - 1]);
        assert(entries_map(values).dom() =~= entries_map(view).dom());
    } else {
        assert(entries_map(values).dom() =~= entries_map(view).dom());
    }
}

} // verus!
