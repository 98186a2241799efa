//! A store that holds nothing and answers every search alike: a stand-in
//! for a backend where none is at hand.

use vstd::prelude::*;
use crate::document::{zero_embedding, Document, SearchQuery, SearchResult};
use crate::error::VectorStoreError;
use crate::json::{JsonModel, JsonValue};

verus! {

/// The number of components of the stand-in's embeddings.
pub const MOCK_DIMENSION: usize = 384;

/// The score of the stand-in's result: the single-precision number nearest
/// to 0.95.
pub const MOCK_SCORE: u32 = 0x3f73_3333;

/// A store that accepts every call and keeps nothing.
#[derive(Debug)]
pub struct MockQdrantConnector;

impl MockQdrantConnector {
    /// A stand-in.
    pub fn new() -> (connector: MockQdrantConnector) {
        MockQdrantConnector
    }

    /// Always succeeds.
    pub fn test_connection(&self) -> (r: Result<(), VectorStoreError>)
        ensures
            r is Ok,
    {
        Ok(())
    }

    /// Always succeeds; nothing is created.
    pub fn create_collection(&self, name: &str, vector_size: usize) -> (r: Result<
        (),
        VectorStoreError,
    >)
        ensures
            r is Ok,
    {
        Ok(())
    }

    /// Always succeeds; nothing is removed.
    pub fn delete_collection(&self, name: &str) -> (r: Result<(), VectorStoreError>)
        ensures
            r is Ok,
    {
        Ok(())
    }

    /// Always succeeds; the document is dropped.
    pub fn insert_document(&self, collection: &str, document: Document) -> (r: Result<
        (),
        VectorStoreError,
    >)
        ensures
            r is Ok,
    {
        Ok(())
    }

    /// One result, whatever is asked: the document `test-id` with the text
    /// `Test document`, an embedding of zeros and the score `MOCK_SCORE`.
    pub fn search(&self, collection: &str, query: SearchQuery) -> (r: Result<
        Vec<SearchResult>,
        VectorStoreError,
    >)
        ensures
            r is Ok,
            r->Ok_0.len() == 1,
            r->Ok_0[0].score == MOCK_SCORE,
            r->Ok_0[0].document@.id == Some("test-id"@),
            r->Ok_0[0].document@.content == "Test document"@,
            r->Ok_0[0].document@.embedding == Seq::new(MOCK_DIMENSION as nat, |i: int| 0u32),
            r->Ok_0[0].document@.metadata == JsonModel::Null,
    {
        let embedding = zero_embedding(MOCK_DIMENSION);
        let document = Document {
            id: Some("test-id".to_owned()),
            content: "Test document".to_owned(),
            embedding,
            metadata: JsonValue::Null,
        };
        let mut results: Vec<SearchResult> = Vec::new();
        results.push(SearchResult { document, score: MOCK_SCORE });
        Ok(results)
    }
}

} // verus!
