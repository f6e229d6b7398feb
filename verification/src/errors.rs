use vstd::prelude::*;

verus! {

/// The error kinds the serving core surfaces to its callers.
///
/// Resource failures (`PoolExhausted`, `ConnectionError`) and database
/// rejections (`QueryError`) are server-side failures; `SourceNotFound`
/// is a distinct not-found outcome carrying the identifier that was
/// asked for; `MalformedMetadata` aborts a whole metadata scan; and
/// `CatalogUnavailable` is returned when a read arrives before any
/// catalog has been published (this core reports it immediately rather
/// than blocking until the first scan completes).
#[derive(Clone, Debug, PartialEq, Eq)]
pub enum ServeError {
    PoolExhausted,
    ConnectionError,
    QueryError,
    SourceNotFound(String),
    MalformedMetadata,
    CatalogUnavailable,
}

impl ServeError {
    /// The HTTP-equivalent status class of this error: a not-found
    /// outcome maps to 404, everything else is a server-side failure
    /// mapped to 500 with no internal detail leaked.
    pub fn status_class(&self) -> (code: u16)
        ensures
            code == 404 <==> (self matches ServeError::SourceNotFound(_)
                || self matches ServeError::CatalogUnavailable),
            code == 404 || code == 500,
    {
        match self {
            ServeError::SourceNotFound(_) => 404,
            ServeError::CatalogUnavailable => 404,
            _ => 500,
        }
    }
}

} // verus!
