//! The failures of the store.

use vstd::prelude::*;
use crate::strings::labelled;

verus! {

/// Why an operation on a store failed. Each variant carries a message for
/// people; the kind is in the variant.
#[derive(Debug)]
pub enum VectorStoreError {
    /// The backend cannot be reached.
    ConnectionError(String),
    /// No collection has the name; holds the name.
    CollectionNotFound(String),
    /// The collection has no document with the identifier; holds the identifier.
    DocumentNotFound(String),
    /// An argument is not acceptable, such as an embedding of the wrong length.
    InvalidArgument(String),
    /// The operation was refused, such as the creation of a collection that exists.
    OperationFailed(String),
    /// Something that should not happen did.
    InternalError(String),
    /// The backend refused the credential.
    AuthenticationError(String),
    /// No connection could be had from the pool.
    PoolError(String),
    /// The backend did not answer in time.
    TimeoutError(String),
}

impl VectorStoreError {
    /// The message that the error carries.
    pub open spec fn message(self) -> Seq<char> {
        match self {
            VectorStoreError::ConnectionError(m) => m@,
            VectorStoreError::CollectionNotFound(m) => m@,
            VectorStoreError::DocumentNotFound(m) => m@,
            VectorStoreError::InvalidArgument(m) => m@,
            VectorStoreError::OperationFailed(m) => m@,
            VectorStoreError::InternalError(m) => m@,
            VectorStoreError::AuthenticationError(m) => m@,
            VectorStoreError::PoolError(m) => m@,
            VectorStoreError::TimeoutError(m) => m@,
        }
    }

    /// A short name of the kind of failure.
    pub fn kind_name(&self) -> (r: &'static str)
        ensures
            r@ == self.kind_text(),
    {
        match self {
            VectorStoreError::ConnectionError(_) => "Connection error",
            VectorStoreError::CollectionNotFound(_) => "Collection not found",
            VectorStoreError::DocumentNotFound(_) => "Document not found",
            VectorStoreError::InvalidArgument(_) => "Invalid argument",
            VectorStoreError::OperationFailed(_) => "Operation failed",
            VectorStoreError::InternalError(_) => "Internal error",
            VectorStoreError::AuthenticationError(_) => "Authentication error",
            VectorStoreError::PoolError(_) => "Pool error",
            VectorStoreError::TimeoutError(_) => "Timeout error",
        }
    }

    /// The name of the kind of failure.
    pub open spec fn kind_text(self) -> Seq<char> {
        match self {
            VectorStoreError::ConnectionError(_) => "Connection error"@,
            VectorStoreError::CollectionNotFound(_) => "Collection not found"@,
            VectorStoreError::DocumentNotFound(_) => "Document not found"@,
            VectorStoreError::InvalidArgument(_) => "Invalid argument"@,
            VectorStoreError::OperationFailed(_) => "Operation failed"@,
            VectorStoreError::InternalError(_) => "Internal error"@,
            VectorStoreError::AuthenticationError(_) => "Authentication error"@,
            VectorStoreError::PoolError(_) => "Pool error"@,
            VectorStoreError::TimeoutError(_) => "Timeout error"@,
        }
    }

    /// The error in words: the name of its kind, a colon and its message.
    pub fn describe(&self) -> (text: String)
        ensures
            text@ == self.kind_text() + ": "@ + self.message(),
    {
        let kind = labelled(self.kind_name(), ": ");
        labelled(kind.as_str(), self.detail().as_str())
    }

    /// The message that the error carries.
    pub fn detail(&self) -> (r: &String)
        ensures
            r@ == self.message(),
    {
        match self {
            VectorStoreError::ConnectionError(m) => m,
            VectorStoreError::CollectionNotFound(m) => m,
            VectorStoreError::DocumentNotFound(m) => m,
            VectorStoreError::InvalidArgument(m) => m,
            VectorStoreError::OperationFailed(m) => m,
            VectorStoreError::InternalError(m) => m,
            VectorStoreError::AuthenticationError(m) => m,
            VectorStoreError::PoolError(m) => m,
            VectorStoreError::TimeoutError(m) => m,
        }
    }
}

} // verus!
