//! RDF terms, and the two questions only the RDF library can answer about them: whether a
//! text is an IRI, and whether a text is a language tag.

use crate::text::{ascii_lowercase, decimal, int_text, lowered, same_text};
use vstd::prelude::*;
use vstd::std_specs::convert::FromSpecImpl;

verus! {

pub const XSD_STRING: &'static str = "http://www.w3.org/2001/XMLSchema#string";

pub const XSD_INTEGER: &'static str = "http://www.w3.org/2001/XMLSchema#integer";

pub const XSD_DOUBLE: &'static str = "http://www.w3.org/2001/XMLSchema#double";

pub const XSD_BOOLEAN: &'static str = "http://www.w3.org/2001/XMLSchema#boolean";

pub const RDF_LANG_STRING: &'static str = "http://www.w3.org/1999/02/22-rdf-syntax-ns#langString";

/// What tells a literal apart from another with the same text.
#[derive(Debug, PartialEq, Eq)]
pub enum Annotation {
    /// Nothing: an `xsd:string`.
    Plain,
    /// A language tag, in small letters.
    Language(String),
    /// A datatype other than `xsd:string`.
    Datatype(NamedNode),
}

/// An IRI.
#[derive(Debug, PartialEq, Eq)]
pub struct NamedNode {
    iri: String,
}

/// A literal: a text, and its language or its datatype.
#[derive(Debug, PartialEq, Eq)]
pub struct Literal {
    value: String,
    annotation: Annotation,
}

/// An RDF term.
#[derive(Debug, PartialEq, Eq)]
pub enum Term {
    NamedNode(NamedNode),
    /// A blank node, by its label.
    BlankNode(String),
    Literal(Literal),
}

/// [`Annotation`] over character sequences.
pub enum AnnotationModel {
    Plain,
    Language(Seq<char>),
    Datatype(Seq<char>),
}

/// [`Literal`] over character sequences.
pub struct LiteralModel {
    pub value: Seq<char>,
    pub annotation: AnnotationModel,
}

/// [`Term`] over character sequences.
pub enum TermModel {
    NamedNode(Seq<char>),
    BlankNode(Seq<char>),
    Literal(LiteralModel),
}

impl View for NamedNode {
    type V = Seq<char>;

    closed spec fn view(&self) -> Seq<char> {
        self.iri@
    }
}

impl View for Annotation {
    type V = AnnotationModel;

    open spec fn view(&self) -> AnnotationModel {
        match self {
            Annotation::Plain => AnnotationModel::Plain,
            Annotation::Language(tag) => AnnotationModel::Language(tag@),
            Annotation::Datatype(datatype) => AnnotationModel::Datatype(datatype@),
        }
    }
}

impl View for Literal {
    type V = LiteralModel;

    closed spec fn view(&self) -> LiteralModel {
        LiteralModel { value: self.value@, annotation: self.annotation@ }
    }
}

impl View for Term {
    type V = TermModel;

    open spec fn view(&self) -> TermModel {
        match self {
            Term::NamedNode(node) => TermModel::NamedNode(node@),
            Term::BlankNode(label) => TermModel::BlankNode(label@),
            Term::Literal(literal) => TermModel::Literal(literal@),
        }
    }
}

/// A literal with nothing but its text.
pub open spec fn plain(value: Seq<char>) -> LiteralModel {
    LiteralModel { value, annotation: AnnotationModel::Plain }
}

/// A literal with a datatype. `xsd:string` is the datatype of a plain literal, so it adds
/// nothing.
pub open spec fn typed(value: Seq<char>, datatype: Seq<char>) -> LiteralModel {
    LiteralModel {
        value,
        annotation: if datatype == XSD_STRING@ {
            AnnotationModel::Plain
        } else {
            AnnotationModel::Datatype(datatype)
        },
    }
}

/// A literal in a language. The tag is kept in small letters.
pub open spec fn tagged(value: Seq<char>, tag: Seq<char>) -> LiteralModel {
    LiteralModel { value, annotation: AnnotationModel::Language(lowered(tag)) }
}

/// A character that no IRI holds.
pub open spec fn never_in_iri(c: char) -> bool {
    c <= ' ' || c == '<' || c == '>' || c == '"' || c == '{' || c == '}' || c == '|' || c == '^'
        || c == '`' || c == '\\'
}

/// What every IRI looks like: it names a scheme, and it holds no character that would need
/// an escape between `<` and `>`.
pub open spec fn iri_shaped(text: Seq<char>) -> bool {
    &&& text.contains(':')
    &&& forall|i: int| 0 <= i < text.len() ==> !never_in_iri(#[trigger] text[i])
}

/// Why the RDF library does not take a text for an IRI; `None` where it does.
pub uninterp spec fn iri_refusal(text: Seq<char>) -> Option<Seq<char>>;

/// `oxigraph::model::NamedNode::new`, which checks a text against the grammar of IRIs. It
/// gives the reason where it refuses. What it accepts names a scheme and holds no space, no
/// control character and none of the delimiters of the SPARQL grammar.
#[verifier::external_body]
fn check_iri(text: &str) -> (r: Option<String>)
    ensures
        match r {
            None => iri_refusal(text@) == None::<Seq<char>> && iri_shaped(text@),
            Some(reason) => iri_refusal(text@) == Some(reason@),
        },
{
    oxigraph::model::NamedNode::new(text).err().map(|e| e.to_string())
}

/// Why the RDF library does not take a text in small letters for a language tag; `None`
/// where it does.
pub uninterp spec fn language_refusal(tag: Seq<char>) -> Option<Seq<char>>;

/// `oxigraph::model::Literal::new_language_tagged_literal`, which puts the tag into small
/// letters and checks it against BCP 47. It gives the reason where it refuses.
#[verifier::external_body]
fn check_language(tag: &str) -> (r: Option<String>)
    ensures
        match r {
            None => language_refusal(lowered(tag@)) == None::<Seq<char>>,
            Some(reason) => language_refusal(lowered(tag@)) == Some(reason@),
        },
{
    oxigraph::model::Literal::new_language_tagged_literal("", tag).err().map(|e| e.to_string())
}

impl NamedNode {
    /// The IRI with this text, or why there is none.
    pub fn new(iri: &str) -> (r: Result<NamedNode, String>)
        ensures
            match r {
                Ok(node) => node@ == iri@ && iri_refusal(iri@) == None::<Seq<char>> && iri_shaped(
                    iri@,
                ),
                Err(reason) => iri_refusal(iri@) == Some(reason@),
            },
    {
        match check_iri(iri) {
            None => Ok(NamedNode { iri: iri.to_owned() }),
            Some(reason) => Err(reason),
        }
    }

    /// The node for an IRI that is known to be one.
    pub(crate) fn known(iri: &str) -> (r: NamedNode)
        ensures
            r@ == iri@,
    {
        NamedNode { iri: iri.to_owned() }
    }

    /// The text of the IRI.
    pub fn as_str(&self) -> (r: &str)
        ensures
            r@ == self@,
    {
        self.iri.as_str()
    }
}

impl Literal {
    /// A literal with nothing but its text.
    pub fn new_simple_literal(value: &str) -> (r: Literal)
        ensures
            r@ == plain(value@),
    {
        Literal { value: value.to_owned(), annotation: Annotation::Plain }
    }

    /// A literal with a datatype.
    pub fn new_typed_literal(value: &str, datatype: NamedNode) -> (r: Literal)
        ensures
            r@ == typed(value@, datatype@),
    {
        let annotation = if same_text(datatype.as_str(), XSD_STRING) {
            Annotation::Plain
        } else {
            Annotation::Datatype(datatype)
        };
        Literal { value: value.to_owned(), annotation }
    }

    /// A literal in a language, or why the tag is not one.
    pub fn new_language_tagged_literal(value: &str, tag: &str) -> (r: Result<Literal, String>)
        ensures
            match r {
                Ok(literal) => literal@ == tagged(value@, tag@) && language_refusal(lowered(tag@))
                    == None::<Seq<char>>,
                Err(reason) => language_refusal(lowered(tag@)) == Some(reason@),
            },
    {
        match check_language(tag) {
            None => Ok(
                Literal {
                    value: value.to_owned(),
                    annotation: Annotation::Language(ascii_lowercase(tag)),
                },
            ),
            Some(reason) => Err(reason),
        }
    }

    /// An `xsd:integer`.
    pub fn from_integer(value: i64) -> (r: Literal)
        ensures
            r@ == typed(int_text(value as int), XSD_INTEGER@),
    {
        let mut text = String::new();
        if value < 0 {
            text.append("-");
            text.append(decimal((-(value + 1)) as u64 + 1).as_str());
        } else {
            text.append(decimal(value as u64).as_str());
        }
        assert(text@ == int_text(value as int));
        Literal::new_typed_literal(text.as_str(), NamedNode::known(XSD_INTEGER))
    }

    /// An `xsd:boolean`.
    pub fn from_boolean(value: bool) -> (r: Literal)
        ensures
            r@ == typed(boolean_text(value), XSD_BOOLEAN@),
    {
        let text = if value {
            "true"
        } else {
            "false"
        };
        Literal::new_typed_literal(text, NamedNode::known(XSD_BOOLEAN))
    }

    /// The text of the literal.
    pub fn value(&self) -> (r: &str)
        ensures
            r@ == self@.value,
    {
        self.value.as_str()
    }

    /// The language of the literal, where it has one.
    pub fn language(&self) -> (r: Option<&str>)
        ensures
            match r {
                Some(tag) => self@.annotation == AnnotationModel::Language(tag@),
                None => !(self@.annotation is Language),
            },
    {
        match &self.annotation {
            Annotation::Language(tag) => Some(tag.as_str()),
            _ => None,
        }
    }

    /// What tells the literal apart from another with the same text.
    pub fn annotation(&self) -> (r: &Annotation)
        ensures
            r@ == self@.annotation,
    {
        &self.annotation
    }

    /// The datatype of the literal. A plain literal is an `xsd:string`, one in a language an
    /// `rdf:langString`.
    pub fn datatype(&self) -> (r: &str)
        ensures
            r@ == self@.datatype(),
    {
        match &self.annotation {
            Annotation::Plain => XSD_STRING,
            Annotation::Language(_) => RDF_LANG_STRING,
            Annotation::Datatype(datatype) => datatype.as_str(),
        }
    }
}

impl LiteralModel {
    /// The datatype of the literal.
    pub open spec fn datatype(self) -> Seq<char> {
        match self.annotation {
            AnnotationModel::Plain => XSD_STRING@,
            AnnotationModel::Language(_) => RDF_LANG_STRING@,
            AnnotationModel::Datatype(datatype) => datatype,
        }
    }
}

/// `true` or `false`.
pub open spec fn boolean_text(value: bool) -> Seq<char> {
    if value {
        "true"@
    } else {
        "false"@
    }
}

impl From<NamedNode> for Term {
    fn from(node: NamedNode) -> (r: Term) {
        Term::NamedNode(node)
    }
}

impl FromSpecImpl<NamedNode> for Term {
    open spec fn obeys_from_spec() -> bool {
        true
    }

    open spec fn from_spec(node: NamedNode) -> Term {
        Term::NamedNode(node)
    }
}

impl From<Literal> for Term {
    fn from(literal: Literal) -> (r: Term) {
        Term::Literal(literal)
    }
}

impl FromSpecImpl<Literal> for Term {
    open spec fn obeys_from_spec() -> bool {
        true
    }

    open spec fn from_spec(literal: Literal) -> Term {
        Term::Literal(literal)
    }
}

/// The hexadecimal digit for a number below sixteen, in capitals.
pub open spec fn hex_digit(n: int) -> char {
    if n < 10 {
        ('0' as u32 + n) as char
    } else {
        ('A' as u32 + n - 10) as char
    }
}

/// How one character is written between the quotes of a literal.
pub open spec fn escaped_char(c: char) -> Seq<char> {
    if c == '\u{8}' {
        seq!['\\', 'b']
    } else if c == '\t' {
        seq!['\\', 't']
    } else if c == '\n' {
        seq!['\\', 'n']
    } else if c == '\u{C}' {
        seq!['\\', 'f']
    } else if c == '\r' {
        seq!['\\', 'r']
    } else if c == '"' {
        seq!['\\', '"']
    } else if c == '\\' {
        seq!['\\', '\\']
    } else if c <= '\u{1F}' || c == '\u{7F}' || c == '\u{FFFE}' || c == '\u{FFFF}' {
        let n = c as int;
        seq![
            '\\',
            'u',
            hex_digit(n / 4096),
            hex_digit(n / 256 % 16),
            hex_digit(n / 16 % 16),
            hex_digit(n % 16),
        ]
    } else {
        seq![c]
    }
}

/// How a text is written between the quotes of a literal.
pub open spec fn escaped(text: Seq<char>) -> Seq<char>
    decreases text.len(),
{
    if text.len() == 0 {
        Seq::empty()
    } else {
        escaped(text.drop_last()) + escaped_char(text.last())
    }
}

/// A text as a plain literal.
pub open spec fn quoted(text: Seq<char>) -> Seq<char> {
    seq!['"'] + escaped(text) + seq!['"']
}

impl LiteralModel {
    /// How a literal is written in SPARQL.
    pub open spec fn syntax(self) -> Seq<char> {
        match self.annotation {
            AnnotationModel::Plain => quoted(self.value),
            AnnotationModel::Language(tag) => quoted(self.value) + seq!['@'] + tag,
            AnnotationModel::Datatype(datatype) => if datatype == XSD_STRING@ {
                quoted(self.value)
            } else {
                quoted(self.value) + seq!['^', '^', '<'] + datatype + seq!['>']
            },
        }
    }
}

impl TermModel {
    /// How a term is written in SPARQL.
    pub open spec fn syntax(self) -> Seq<char> {
        match self {
            TermModel::NamedNode(iri) => seq!['<'] + iri + seq!['>'],
            TermModel::BlankNode(label) => seq!['_', ':'] + label,
            TermModel::Literal(literal) => literal.syntax(),
        }
    }
}

/// The `Display` of `oxigraph::model`'s `NamedNode`, `BlankNode` and `Literal`, which writes
/// a term as SPARQL reads it. An IRI stands between angle brackets and a blank node behind
/// `_:`, each as it is. A literal stands between quotes with its quotes, backslashes and
/// control characters escaped, and then its language or its datatype.
#[verifier::external_body]
pub(crate) fn display(term: &Term) -> (r: String)
    ensures
        r@ == term@.syntax(),
{
    match term {
        Term::NamedNode(node) => oxigraph::model::NamedNode::new_unchecked(node.as_str()).to_string(),
        Term::BlankNode(label) => oxigraph::model::BlankNode::new_unchecked(label.as_str()).to_string(),
        Term::Literal(literal) => match &literal.annotation {
            Annotation::Plain => oxigraph::model::Literal::new_simple_literal(literal.value()).to_string(),
            Annotation::Language(tag) => oxigraph::model::Literal::new_language_tagged_literal_unchecked(literal.value(), tag.as_str()).to_string(),
            Annotation::Datatype(datatype) => oxigraph::model::Literal::new_typed_literal(literal.value(), oxigraph::model::NamedNode::new_unchecked(datatype.as_str())).to_string(),
        },
    }
}

} // verus!
