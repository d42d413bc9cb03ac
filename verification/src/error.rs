//! The errors of the crate.

use vstd::prelude::*;

verus! {

/// The document store's own error. The crate hands it on and never looks
/// inside it.
#[verifier::external_type_specification]
#[verifier::external_body]
pub struct ExStoreError(mongodb::error::Error);

/// What can go wrong: the first six variants wrap a failure of the document
/// store, the seventh reports that the store does not know the application,
/// the others say why a permission path could not be resolved.
#[derive(Debug)]
pub enum AuthError {
    MongoFind(mongodb::error::Error),
    MongoFindOne(mongodb::error::Error),
    MongoParseUri(mongodb::error::Error),
    MongoCreateClient(mongodb::error::Error),
    MongoReadCursor(mongodb::error::Error),
    MongoWatchChangeStream(mongodb::error::Error),
    MissingAppInDatabase,
    InvalidUnicodeString,
    InvalidAuthPath(String),
    MissingValue,
    MissingParentPath,
    MissingValueName,
    MissingValueExtension,
    MissingLastItem,
    InvalidDataValueType,
}

/// The mathematical value of an `AuthError`.
pub enum ErrorView {
    MongoFind(mongodb::error::Error),
    MongoFindOne(mongodb::error::Error),
    MongoParseUri(mongodb::error::Error),
    MongoCreateClient(mongodb::error::Error),
    MongoReadCursor(mongodb::error::Error),
    MongoWatchChangeStream(mongodb::error::Error),
    MissingAppInDatabase,
    InvalidUnicodeString,
    InvalidAuthPath(Seq<char>),
    MissingValue,
    MissingParentPath,
    MissingValueName,
    MissingValueExtension,
    MissingLastItem,
    InvalidDataValueType,
}

impl View for AuthError {
    type V = ErrorView;

    open spec fn view(&self) -> ErrorView {
        match self {
            AuthError::MongoFind(e) => ErrorView::MongoFind(*e),
            AuthError::MongoFindOne(e) => ErrorView::MongoFindOne(*e),
            AuthError::MongoParseUri(e) => ErrorView::MongoParseUri(*e),
            AuthError::MongoCreateClient(e) => ErrorView::MongoCreateClient(*e),
            AuthError::MongoReadCursor(e) => ErrorView::MongoReadCursor(*e),
            AuthError::MongoWatchChangeStream(e) => ErrorView::MongoWatchChangeStream(*e),
            AuthError::MissingAppInDatabase => ErrorView::MissingAppInDatabase,
            AuthError::InvalidUnicodeString => ErrorView::InvalidUnicodeString,
            AuthError::InvalidAuthPath(segment) => ErrorView::InvalidAuthPath(segment@),
            AuthError::MissingValue => ErrorView::MissingValue,
            AuthError::MissingParentPath => ErrorView::MissingParentPath,
            AuthError::MissingValueName => ErrorView::MissingValueName,
            AuthError::MissingValueExtension => ErrorView::MissingValueExtension,
            AuthError::MissingLastItem => ErrorView::MissingLastItem,
            AuthError::InvalidDataValueType => ErrorView::InvalidDataValueType,
        }
    }
}

} // verus!
