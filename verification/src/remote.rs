//! What the adapter of a remote backend decides: which of the points that
//! a search returned are results, and what a failure of the backend is
//! reported as.

use vstd::prelude::*;
use crate::document::{result_models, Document, DocumentModel, SearchResult, SearchResultModel};
use crate::error::VectorStoreError;
use crate::json::{JsonModel, JsonValue};
use crate::strings::labelled;

verus! {

/// The identifier of a point of the backend.
#[derive(Debug)]
pub enum PointKey {
    /// A UUID, as text.
    Uuid(String),
    /// A number.
    Number(u64),
    /// None.
    Missing,
}

/// A point that a search of the backend returned.
#[derive(Debug)]
pub struct ScoredPoint {
    /// The identifier of the point.
    pub key: PointKey,
    /// The text in the payload of the point, if it has one.
    pub content: Option<String>,
    /// The vector of the point, if it came with one.
    pub embedding: Option<Vec<u32>>,
    /// The bit pattern of the score.
    pub score: u32,
}

/// The result that a point stands for: a point with a UUID is a result,
/// with an empty text and an empty embedding where it brings none; any
/// other point is none.
pub open spec fn result_of(point: ScoredPoint) -> Option<SearchResultModel> {
    match point.key {
        PointKey::Uuid(id) => Some(
            SearchResultModel {
                document: DocumentModel {
                    id: Some(id@),
                    content: match point.content {
                        Some(text) => text@,
                        None => Seq::empty(),
                    },
                    embedding: match point.embedding {
                        Some(vector) => vector@,
                        None => Seq::empty(),
                    },
                    metadata: JsonModel::Null,
                },
                score: point.score,
            },
        ),
        _ => None,
    }
}

/// The results that the first `n` points stand for, in their order.
pub open spec fn results_of(points: Seq<ScoredPoint>, n: nat) -> Seq<SearchResultModel>
    decreases n,
{
    if n == 0 {
        Seq::empty()
    } else {
        let before = results_of(points, (n - 1) as nat);
        match result_of(points[n - 1]) {
            Some(result) => before.push(result),
            None => before,
        }
    }
}

/// The results among the points that a search returned.
pub fn results_from_points(points: Vec<ScoredPoint>) -> (results: Vec<SearchResult>)
    ensures
        result_models(results@) == results_of(points@, points.len() as nat),
{
    let mut results: Vec<SearchResult> = Vec::new();
    let mut i: usize = 0;
    assert(result_models(results@) =~= results_of(points@, 0));
    while i < points.len()
        invariant
            i <= points.len(),
            result_models(results@) == results_of(points@, i as nat),
        decreases points.len() - i,
    {
        let point = &points[i];
        match &point.key {
            PointKey::Uuid(id) => {
                let content = match &point.content {
                    Some(text) => text.clone(),
                    None => String::new(),
                };
                let embedding = match &point.embedding {
                    Some(vector) => vector.clone(),
                    None => Vec::new(),
                };
                let result = SearchResult {
                    document: Document {
                        id: Some(id.clone()),
                        content,
                        embedding,
                        metadata: JsonValue::Null,
                    },
                    score: point.score,
                };
                let ghost before = result_models(results@);
                assert(result@ == result_of(*point).unwrap());
                results.push(result);
                assert(result_models(results@) =~= before.push(result_of(*point).unwrap()));
            },
            _ => {},
        }
        i += 1;
    }
    results
}

/// What the adapter asks of the backend.
#[derive(Debug, Clone, Copy, PartialEq, Eq, Structural)]
pub enum Operation {
    /// A client from the pool.
    AcquireClient,
    /// A sign of life.
    TestConnection,
    /// The creation of a collection.
    CreateCollection,
    /// The removal of a collection.
    DeleteCollection,
    /// The storing of a document.
    InsertDocument,
    /// A search.
    Search,
}

/// Whether an error reports a failure of the backend: a failure of the
/// pool is a `PoolError` and a missing sign of life a `ConnectionError`,
/// each with the backend's words; any other is an `OperationFailed`, with
/// the operation named before the backend's words.
pub open spec fn is_report_of(
    error: VectorStoreError,
    operation: Operation,
    detail: Seq<char>,
) -> bool {
    match operation {
        Operation::AcquireClient => error is PoolError && error.message() == detail,
        Operation::TestConnection => error is ConnectionError && error.message() == detail,
        Operation::CreateCollection => error is OperationFailed && error.message()
            == "Failed to create collection: "@ + detail,
        Operation::DeleteCollection => error is OperationFailed && error.message()
            == "Failed to delete collection: "@ + detail,
        Operation::InsertDocument => error is OperationFailed && error.message()
            == "Failed to insert document: "@ + detail,
        Operation::Search => error is OperationFailed && error.message() == "Failed to search: "@
            + detail,
    }
}

/// Reports a failure of the backend in the store's own terms.
pub fn translate(operation: Operation, detail: &str) -> (error: VectorStoreError)
    ensures
        is_report_of(error, operation, detail@),
{
    match operation {
        Operation::AcquireClient => VectorStoreError::PoolError(detail.to_owned()),
        Operation::TestConnection => VectorStoreError::ConnectionError(detail.to_owned()),
        Operation::CreateCollection => VectorStoreError::OperationFailed(
            labelled("Failed to create collection: ", detail),
        ),
        Operation::DeleteCollection => VectorStoreError::OperationFailed(
            labelled("Failed to delete collection: ", detail),
        ),
        Operation::InsertDocument => VectorStoreError::OperationFailed(
            labelled("Failed to insert document: ", detail),
        ),
        Operation::Search => VectorStoreError::OperationFailed(
            labelled("Failed to search: ", detail),
        ),
    }
}

} // verus!
