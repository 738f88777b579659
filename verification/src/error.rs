//! Why a request was refused or failed.

use vstd::prelude::*;

verus! {

/// A refusal or a failure, by kind.
#[derive(Debug, PartialEq, Eq)]
pub enum Error {
    /// A required argument was absent.
    MissingArgument(String),
    /// An argument was present but unusable.
    InvalidArgument {
        /// The argument's name.
        name: String,
        /// What was wrong with it.
        detail: String,
    },
    /// The work itself failed.
    Endpoint(String),
    /// The capability does not hold the authority asked for.
    Denied(String),
    /// Somebody else holds the resource for now; asking again later may succeed.
    Unavailable(String),
}

/// An [`Error`] with its texts as character sequences.
pub enum ErrorModel {
    MissingArgument(Seq<char>),
    InvalidArgument { name: Seq<char>, detail: Seq<char> },
    Endpoint(Seq<char>),
    Denied(Seq<char>),
    Unavailable(Seq<char>),
}

impl View for Error {
    type V = ErrorModel;

    open spec fn view(&self) -> ErrorModel {
        match self {
            Error::MissingArgument(name) => ErrorModel::MissingArgument(name@),
            Error::InvalidArgument { name, detail } => ErrorModel::InvalidArgument {
                name: name@,
                detail: detail@,
            },
            Error::Endpoint(text) => ErrorModel::Endpoint(text@),
            Error::Denied(text) => ErrorModel::Denied(text@),
            Error::Unavailable(text) => ErrorModel::Unavailable(text@),
        }
    }
}

impl ErrorModel {
    /// The sentence this error is reported with.
    pub open spec fn message(self) -> Seq<char> {
        match self {
            ErrorModel::MissingArgument(name) => "missing required argument `"@ + name + "`"@,
            ErrorModel::InvalidArgument { name, detail } => "invalid argument `"@ + name + "`: "@
                + detail,
            ErrorModel::Endpoint(text) => "endpoint error: "@ + text,
            ErrorModel::Denied(text) => "denied: "@ + text,
            ErrorModel::Unavailable(text) => "unavailable: "@ + text,
        }
    }
}

impl Error {
    /// The sentence this error is reported with.
    pub fn message(&self) -> (r: String)
        ensures
            r@ == self@.message(),
    {
        match self {
            Error::MissingArgument(name) => {
                let mut text = "missing required argument `".to_owned();
                text.append(name);
                text.append("`");
                text
            },
            Error::InvalidArgument { name, detail } => {
                let mut text = "invalid argument `".to_owned();
                text.append(name);
                text.append("`: ");
                text.append(detail);
                text
            },
            Error::Endpoint(detail) => {
                let mut text = "endpoint error: ".to_owned();
                text.append(detail);
                text
            },
            Error::Denied(detail) => {
                let mut text = "denied: ".to_owned();
                text.append(detail);
                text
            },
            Error::Unavailable(detail) => {
                let mut text = "unavailable: ".to_owned();
                text.append(detail);
                text
            },
        }
    }
}

/// A result with its value and its error taken by their views.
pub open spec fn outcome<T: View>(r: Result<T, Error>) -> Result<T::V, ErrorModel> {
    match r {
        Ok(value) => Ok(value@),
        Err(error) => Err(error@),
    }
}

} // verus!
