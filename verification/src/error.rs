//! The reasons for which a request is turned down or fails.

use vstd::prelude::*;
use vstd::string::StringExecFns;

verus! {

/// Why a request could not be answered.
#[derive(Debug, Clone, Copy, PartialEq, Eq, Structural)]
pub enum Error {
    /// `Normal` mode without a query string or per-field queries.
    NormalWithoutQuery,
    /// `Fuzzy` mode without a query string.
    FuzzyWithoutQuery,
    /// `MoreLikeThis` mode without a reference document.
    MissingReferenceDocument,
    /// The stop words could not be loaded.
    StopWordsUnavailable,
    /// The index's parser has turned down a text of the query.
    MalformedQuery,
    /// The schema lacks the identifier field.
    MissingIdField,
    /// No document bears the identifier that was asked for.
    NoSuchDocument,
    /// The field to order by holds no values that can be ordered.
    NotFastField,
    /// A matched document has no identifier, or one of the wrong kind.
    MislabeledDocument,
    /// The reader is shutting down and admits no more requests.
    ShuttingDown,
    /// The worker went away without an answer.
    WorkerLost,
}

impl Error {
    /// The message that goes with the error.
    pub open spec fn message_text(self) -> Seq<char> {
        match self {
            Error::NormalWithoutQuery => "query mode was `Normal` but query string is `None`"@,
            Error::FuzzyWithoutQuery => "query mode was `Fuzzy` but query string is `None`"@,
            Error::MissingReferenceDocument =>
                "query mode was `MoreLikeThis` but reference document is `None`"@,
            Error::StopWordsUnavailable => "the stop words could not be loaded"@,
            Error::MalformedQuery => "the query text could not be parsed"@,
            Error::MissingIdField => "missing a required private field, this is a bug."@,
            Error::NoSuchDocument => "no document exists with this id"@,
            Error::NotFastField => "field is not a fast field"@,
            Error::MislabeledDocument =>
                "document has been missed labeled (missing identifier tag), the dataset is invalid"@,
            Error::ShuttingDown => "the reader is shutting down"@,
            Error::WorkerLost => "the worker stopped before it answered"@,
        }
    }

    /// The message that goes with the error.
    pub fn message(&self) -> (text: String)
        ensures
            text@ == self.message_text(),
    {
        match self {
            Error::NormalWithoutQuery => String::from_str(
                "query mode was `Normal` but query string is `None`",
            ),
            Error::FuzzyWithoutQuery => String::from_str(
                "query mode was `Fuzzy` but query string is `None`",
            ),
            Error::MissingReferenceDocument => String::from_str(
                "query mode was `MoreLikeThis` but reference document is `None`",
            ),
            Error::StopWordsUnavailable => String::from_str("the stop words could not be loaded"),
            Error::MalformedQuery => String::from_str("the query text could not be parsed"),
            Error::MissingIdField => String::from_str(
                "missing a required private field, this is a bug.",
            ),
            Error::NoSuchDocument => String::from_str("no document exists with this id"),
            Error::NotFastField => String::from_str("field is not a fast field"),
            Error::MislabeledDocument => String::from_str(
                "document has been missed labeled (missing identifier tag), the dataset is invalid",
            ),
            Error::ShuttingDown => String::from_str("the reader is shutting down"),
            Error::WorkerLost => String::from_str("the worker stopped before it answered"),
        }
    }
}

} // verus!
