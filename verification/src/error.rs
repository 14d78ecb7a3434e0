//! The errors that planners and sinks report.

use vstd::prelude::*;

verus! {

/// What can go wrong while planning or applying effects.
#[derive(Debug, PartialEq, Eq)]
pub enum DbError {
    NotFound,
    AlreadyExists,
    DomainNotInitialized,
    TableNotInitialized,
    IndexNotInitialized,
    CfNotFound,
    SerializationError(String),
    Other(String),
}

/// The mathematical value of a [`DbError`].
pub enum DbErrorView {
    NotFound,
    AlreadyExists,
    DomainNotInitialized,
    TableNotInitialized,
    IndexNotInitialized,
    CfNotFound,
    SerializationError(Seq<char>),
    Other(Seq<char>),
}

/// What an operation of the database returns.
pub type DbResult<T> = Result<T, DbError>;

impl DeepView for DbError {
    type V = DbErrorView;

    open spec fn deep_view(&self) -> DbErrorView {
        match self {
            DbError::NotFound => DbErrorView::NotFound,
            DbError::AlreadyExists => DbErrorView::AlreadyExists,
            DbError::DomainNotInitialized => DbErrorView::DomainNotInitialized,
            DbError::TableNotInitialized => DbErrorView::TableNotInitialized,
            DbError::IndexNotInitialized => DbErrorView::IndexNotInitialized,
            DbError::CfNotFound => DbErrorView::CfNotFound,
            DbError::SerializationError(detail) => DbErrorView::SerializationError(detail@),
            DbError::Other(detail) => DbErrorView::Other(detail@),
        }
    }
}

impl View for DbError {
    type V = DbErrorView;

    open spec fn view(&self) -> DbErrorView {
        self.deep_view()
    }
}

impl Clone for DbError {
    fn clone(&self) -> (r: Self)
        ensures
            r@ == self@,
    {
        match self {
            DbError::NotFound => DbError::NotFound,
            DbError::AlreadyExists => DbError::AlreadyExists,
            DbError::DomainNotInitialized => DbError::DomainNotInitialized,
            DbError::TableNotInitialized => DbError::TableNotInitialized,
            DbError::IndexNotInitialized => DbError::IndexNotInitialized,
            DbError::CfNotFound => DbError::CfNotFound,
            DbError::SerializationError(detail) => DbError::SerializationError(detail.clone()),
            DbError::Other(detail) => DbError::Other(detail.clone()),
        }
    }
}

impl DbError {
    /// The error as a line of text.
    pub fn message(&self) -> (r: String)
        ensures
            r@ == self@.message(),
    {
        match self {
            DbError::NotFound => String::from_str("not found"),
            DbError::AlreadyExists => String::from_str("already exists"),
            DbError::DomainNotInitialized => String::from_str("domain not initialized"),
            DbError::TableNotInitialized => String::from_str("table not initialized"),
            DbError::IndexNotInitialized => String::from_str("index not initialized"),
            DbError::CfNotFound => String::from_str("column family not found"),
            DbError::SerializationError(detail) => String::from_str("serialization error: ").concat(
                detail.as_str(),
            ),
            DbError::Other(detail) => String::from_str("error: ").concat(detail.as_str()),
        }
    }
}

impl DbErrorView {
    /// The error as a line of text.
    pub open spec fn message(self) -> Seq<char> {
        match self {
            DbErrorView::NotFound => "not found"@,
            DbErrorView::AlreadyExists => "already exists"@,
            DbErrorView::DomainNotInitialized => "domain not initialized"@,
            DbErrorView::TableNotInitialized => "table not initialized"@,
            DbErrorView::IndexNotInitialized => "index not initialized"@,
            DbErrorView::CfNotFound => "column family not found"@,
            DbErrorView::SerializationError(detail) => "serialization error: "@ + detail,
            DbErrorView::Other(detail) => "error: "@ + detail,
        }
    }
}

/// The lookup went well and found something.
pub open spec fn found<T>(response: DbResult<Option<T>>) -> bool {
    response matches Ok(Some(_))
}

/// The lookup went well and found nothing.
pub open spec fn missing<T>(response: DbResult<Option<T>>) -> bool {
    response matches Ok(None)
}

/// The value of a result whose two sides both have a deep view.
pub open spec fn result_view<T: DeepView, E: DeepView>(r: Result<T, E>) -> Result<T::V, E::V> {
    match r {
        Ok(t) => Ok(t.deep_view()),
        Err(e) => Err(e.deep_view()),
    }
}

} // verus!
