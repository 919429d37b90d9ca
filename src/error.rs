use vstd::prelude::*;

verus! {

/// What can go wrong while sampling the catalog, talking to the stores,
/// or maintaining the cache bundle.
#[derive(Debug, Clone, PartialEq, Eq)]
pub enum Error {
    /// A free-form failure.
    Custom(String),
    /// A retry budget or the rebuild guarantee was exhausted.
    CriticalError(String),
    /// A remote service answered with a non-success status.
    ResponseError { status_code: u16, message: String },
    /// Bookkeeping drift between a page and the index sampled into it.
    IndexError { index: usize, length: usize },
    /// The network request itself failed.
    TransportError(String),
    /// A payload did not have the expected shape.
    DecodeError(String),
    /// The key-value store or the system of record failed.
    StoreError(String),
}

pub type Result<T> = core::result::Result<T, Error>;

impl Error {
    /// A free-form error carrying `val` as its message.
    pub fn custom(val: &str) -> (r: Error)
        ensures
            r matches Error::Custom(m) && m@ == val@,
    {
        Error::Custom(val.to_string())
    }

    /// A critical error carrying `val` as its message.
    pub fn critical(val: &str) -> (r: Error)
        ensures
            r matches Error::CriticalError(m) && m@ == val@,
    {
        Error::CriticalError(val.to_string())
    }

    /// Whether this is a critical error.
    pub fn is_critical(&self) -> (r: bool)
        ensures
            r == (self matches Error::CriticalError(_)),
    {
        match self {
            Error::CriticalError(_) => true,
            _ => false,
        }
    }
}

} // verus!
