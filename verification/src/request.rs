//! What an endpoint is asked, what it answers with, and how it describes itself.

use crate::caps::is_graph_scope;
use crate::error::{Error, ErrorModel};
use crate::text::{same_text, strings, utf8_text};
use ikigai_core::Capability;
use vstd::prelude::*;
use vstd::utf8::{decode_utf8, valid_utf8};

verus! {

#[verifier::external_type_specification]
#[verifier::external_body]
pub struct ExCapability(Capability);

/// The scopes a capability holds; `None` where it holds full authority.
pub uninterp spec fn held_scopes(capability: Capability) -> Option<Set<Seq<char>>>;

/// Whether a capability grants a scope: it holds full authority, or exactly that scope.
pub open spec fn grants(capability: Capability, scope: Seq<char>) -> bool {
    match held_scopes(capability) {
        None => true,
        Some(held) => held.contains(scope),
    }
}

/// `Capability::allows`: whether a capability grants a scope. For a scope over a graph, which
/// is neither the form of an exclusion nor the name of a principal, that is exact membership.
#[verifier::external_body]
pub(crate) fn allows(capability: &Capability, scope: &str) -> (r: bool)
    requires
        is_graph_scope(scope@),
    ensures
        r == match held_scopes(*capability) {
            None => true,
            Some(held) => held.contains(scope@),
        },
{
    capability.allows(scope)
}

/// What a request asks to be done.
#[derive(Debug, Clone, Copy, PartialEq, Eq, Structural)]
pub enum Verb {
    /// Read a resource's representation.
    Source,
    /// Write or replace a resource's representation.
    Sink,
    /// Test for a resource's existence.
    Exists,
    /// Remove a resource.
    Delete,
    /// Read a resource's self-description.
    Meta,
}

impl Verb {
    /// The verb's name.
    pub open spec fn spec_name(self) -> Seq<char> {
        match self {
            Verb::Source => "Source"@,
            Verb::Sink => "Sink"@,
            Verb::Exists => "Exists"@,
            Verb::Delete => "Delete"@,
            Verb::Meta => "Meta"@,
        }
    }

    /// The verb's name.
    pub fn name(self) -> (r: &'static str)
        ensures
            r@ == self.spec_name(),
    {
        match self {
            Verb::Source => "Source",
            Verb::Sink => "Sink",
            Verb::Exists => "Exists",
            Verb::Delete => "Delete",
            Verb::Meta => "Meta",
        }
    }
}

/// An argument of a request.
#[derive(Debug, PartialEq, Eq)]
pub enum Arg {
    /// Given by value.
    Inline(Vec<u8>),
    /// Given in some other way.
    Other,
}

/// [`Arg`] over byte sequences.
pub enum ArgModel {
    Inline(Seq<u8>),
    Other,
}

impl View for Arg {
    type V = ArgModel;

    open spec fn view(&self) -> ArgModel {
        match self {
            Arg::Inline(bytes) => ArgModel::Inline(bytes@),
            Arg::Other => ArgModel::Other,
        }
    }
}

/// A request as an endpoint sees it.
pub struct Invocation<'a> {
    pub verb: Verb,
    /// The arguments by name. Where a name stands twice, the first counts.
    pub args: Vec<(String, Arg)>,
    pub capability: &'a Capability,
}

/// [`Invocation`] over mathematical sequences.
pub struct InvocationModel {
    pub verb: Verb,
    pub args: Seq<(Seq<char>, ArgModel)>,
    pub capability: Capability,
}

/// The arguments of a request over mathematical sequences.
pub open spec fn args_view(args: Seq<(String, Arg)>) -> Seq<(Seq<char>, ArgModel)> {
    args.map_values(|arg: (String, Arg)| (arg.0@, arg.1@))
}

impl<'a> View for Invocation<'a> {
    type V = InvocationModel;

    open spec fn view(&self) -> InvocationModel {
        InvocationModel {
            verb: self.verb,
            args: args_view(self.args@),
            capability: *self.capability,
        }
    }
}

/// The first argument with a name.
pub open spec fn find_arg(args: Seq<(Seq<char>, ArgModel)>, name: Seq<char>) -> Option<ArgModel>
    decreases args.len(),
{
    if args.len() == 0 {
        None
    } else if args[0].0 == name {
        Some(args[0].1)
    } else {
        find_arg(args.drop_first(), name)
    }
}

impl InvocationModel {
    /// The bytes of an argument given by value.
    pub open spec fn bytes(self, name: Seq<char>) -> Result<Seq<u8>, ErrorModel> {
        match find_arg(self.args, name) {
            Some(ArgModel::Inline(bytes)) => Ok(bytes),
            Some(ArgModel::Other) => Err(
                ErrorModel::InvalidArgument { name, detail: "expected an inline value"@ },
            ),
            None => Err(ErrorModel::MissingArgument(name)),
        }
    }

    /// The text of an argument given by value.
    pub open spec fn text(self, name: Seq<char>) -> Result<Seq<char>, ErrorModel> {
        match self.bytes(name) {
            Ok(bytes) => if valid_utf8(bytes) {
                Ok(decode_utf8(bytes))
            } else {
                Err(ErrorModel::InvalidArgument { name, detail: "not valid UTF-8"@ })
            },
            Err(e) => Err(e),
        }
    }

    /// Whether there is an argument with a name, whatever it is.
    pub open spec fn has(self, name: Seq<char>) -> bool {
        find_arg(self.args, name) is Some
    }

    /// The text of an argument that may be left out. One that is there and is no text is
    /// refused, not taken for absent.
    pub open spec fn optional_text(self, name: Seq<char>) -> Result<Option<Seq<char>>, ErrorModel> {
        if !self.has(name) {
            Ok(None)
        } else {
            match self.text(name) {
                Ok(text) => Ok(Some(text)),
                Err(e) => Err(e),
            }
        }
    }
}

impl<'a> Invocation<'a> {
    /// The bytes of an argument given by value.
    pub fn inline_arg(&self, name: &str) -> (r: Result<&[u8], Error>)
        ensures
            match r {
                Ok(bytes) => self@.bytes(name@) == Ok::<Seq<u8>, ErrorModel>(bytes@),
                Err(e) => self@.bytes(name@) == Err::<Seq<u8>, ErrorModel>(e@),
            },
    {
        let ghost view = args_view(self.args@);
        let mut i: usize = 0;
        assert(view.skip(0) == view);
        while i < self.args.len()
            invariant
                i <= self.args@.len(),
                view == args_view(self.args@),
                find_arg(view, name@) == find_arg(view.skip(i as int), name@),
            decreases self.args@.len() - i,
        {
            assert(view.skip(i as int)[0] == view[i as int]);
            assert(view.skip(i as int).drop_first() == view.skip(i + 1));
            if same_text(self.args[i].0.as_str(), name) {
                return match &self.args[i].1 {
                    Arg::Inline(bytes) => Ok(bytes.as_slice()),
                    Arg::Other => Err(
                        Error::InvalidArgument {
                            name: name.to_owned(),
                            detail: "expected an inline value".to_owned(),
                        },
                    ),
                };
            }
            i += 1;
        }
        Err(Error::MissingArgument(name.to_owned()))
    }

    /// The text of an argument given by value.
    pub fn inline_str(&self, name: &str) -> (r: Result<&str, Error>)
        ensures
            match r {
                Ok(text) => self@.text(name@) == Ok::<Seq<char>, ErrorModel>(text@),
                Err(e) => self@.text(name@) == Err::<Seq<char>, ErrorModel>(e@),
            },
    {
        match self.inline_arg(name) {
            Ok(bytes) => match utf8_text(bytes) {
                Some(text) => Ok(text),
                None => Err(
                    Error::InvalidArgument {
                        name: name.to_owned(),
                        detail: "not valid UTF-8".to_owned(),
                    },
                ),
            },
            Err(e) => Err(e),
        }
    }

    /// Whether there is an argument with a name, whatever it is.
    pub fn has_arg(&self, name: &str) -> (r: bool)
        ensures
            r == self@.has(name@),
    {
        match self.inline_arg(name) {
            Err(Error::MissingArgument(_)) => false,
            _ => true,
        }
    }

    /// The text of an argument that may be left out.
    pub fn optional_str(&self, name: &str) -> (r: Result<Option<&str>, Error>)
        ensures
            match r {
                Ok(text) => self@.optional_text(name@) == Ok::<Option<Seq<char>>, ErrorModel>(
                    match text {
                        Some(text) => Some(text@),
                        None => None,
                    },
                ),
                Err(e) => self@.optional_text(name@) == Err::<Option<Seq<char>>, ErrorModel>(e@),
            },
    {
        if !self.has_arg(name) {
            return Ok(None);
        }
        match self.inline_str(name) {
            Ok(text) => Ok(Some(text)),
            Err(e) => Err(e),
        }
    }
}

/// What an endpoint answers with.
#[derive(Debug, PartialEq, Eq)]
pub struct Representation {
    /// The media type, without parameters.
    pub media_type: String,
    /// The `charset` parameter.
    pub charset: String,
    pub bytes: Vec<u8>,
    /// Whether the answer may be kept until one of its threads is cut.
    pub cacheable: bool,
    /// The threads whose cutting makes the answer stale.
    pub threads: Vec<String>,
}

/// [`Representation`] over mathematical sequences.
pub struct ReprModel {
    pub media_type: Seq<char>,
    pub charset: Seq<char>,
    pub bytes: Seq<u8>,
    pub cacheable: bool,
    pub threads: Seq<Seq<char>>,
}

impl View for Representation {
    type V = ReprModel;

    open spec fn view(&self) -> ReprModel {
        ReprModel {
            media_type: self.media_type@,
            charset: self.charset@,
            bytes: self.bytes@,
            cacheable: self.cacheable,
            threads: strings(self.threads@),
        }
    }
}

/// How an endpoint describes one of its arguments.
#[derive(Debug, PartialEq, Eq)]
pub struct ArgSpec {
    pub name: String,
    pub summary: String,
    /// The class of the value, an IRI.
    pub class: String,
    /// The values that are taken; empty where any is.
    pub one_of: Vec<String>,
    pub default_value: Option<String>,
    pub required: bool,
}

/// [`ArgSpec`] over mathematical sequences.
pub struct ArgSpecModel {
    pub name: Seq<char>,
    pub summary: Seq<char>,
    pub class: Seq<char>,
    pub one_of: Seq<Seq<char>>,
    pub default_value: Option<Seq<char>>,
    pub required: bool,
}

impl View for ArgSpec {
    type V = ArgSpecModel;

    open spec fn view(&self) -> ArgSpecModel {
        ArgSpecModel {
            name: self.name@,
            summary: self.summary@,
            class: self.class@,
            one_of: strings(self.one_of@),
            default_value: match self.default_value {
                Some(text) => Some(text@),
                None => None,
            },
            required: self.required,
        }
    }
}

/// How an endpoint describes itself.
#[derive(Debug, PartialEq, Eq)]
pub struct Description {
    pub id: String,
    pub title: String,
    pub summary: String,
    pub verbs: Vec<Verb>,
    /// The scope a caller must hold.
    pub capability: String,
    pub inputs: Vec<ArgSpec>,
    /// The media types it answers in, the default first.
    pub outputs: Vec<String>,
}

/// [`Description`] over mathematical sequences.
pub struct DescriptionModel {
    pub id: Seq<char>,
    pub title: Seq<char>,
    pub summary: Seq<char>,
    pub verbs: Seq<Verb>,
    pub capability: Seq<char>,
    pub inputs: Seq<ArgSpecModel>,
    pub outputs: Seq<Seq<char>>,
}

impl View for Description {
    type V = DescriptionModel;

    open spec fn view(&self) -> DescriptionModel {
        DescriptionModel {
            id: self.id@,
            title: self.title@,
            summary: self.summary@,
            verbs: self.verbs@,
            capability: self.capability@,
            inputs: self.inputs@.map_values(|input: ArgSpec| input@),
            outputs: strings(self.outputs@),
        }
    }
}

} // verus!
