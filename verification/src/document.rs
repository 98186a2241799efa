//! Documents, search queries and search results.
//!
//! An embedding is held as the bit patterns of its single-precision
//! components, one `u32` for each, and a score as the bit pattern of one
//! single-precision number.

use vstd::prelude::*;
use crate::json::{JsonModel, JsonValue};

verus! {

/// Calls `uuid::Uuid::new_v4` and writes the identifier as text. The
/// identifier is random: nothing is stated of it.
#[verifier::external_body]
pub(crate) fn new_document_id() -> (id: String) {
    uuid::Uuid::new_v4().to_string()
}

/// An embedding of `n` components that are all zero.
pub fn zero_embedding(n: usize) -> (embedding: Vec<u32>)
    ensures
        embedding@ == Seq::new(n as nat, |i: int| 0u32),
{
    let mut embedding: Vec<u32> = Vec::new();
    let mut i: usize = 0;
    while i < n
        invariant
            i <= n,
            embedding@ == Seq::new(i as nat, |k: int| 0u32),
        decreases n - i,
    {
        embedding.push(0);
        i += 1;
        assert(embedding@ =~= Seq::new(i as nat, |k: int| 0u32));
    }
    embedding
}

/// A stored unit: text, its embedding and its metadata.
#[derive(Debug)]
pub struct Document {
    /// The identifier; assigned by the store where absent on insert.
    pub id: Option<String>,
    /// The text.
    pub content: String,
    /// The embedding, one bit pattern per component.
    pub embedding: Vec<u32>,
    /// The metadata, typically an object.
    pub metadata: JsonValue,
}

/// The mathematical value of a `Document`.
pub struct DocumentModel {
    pub id: Option<Seq<char>>,
    pub content: Seq<char>,
    pub embedding: Seq<u32>,
    pub metadata: JsonModel,
}

impl View for Document {
    type V = DocumentModel;

    open spec fn view(&self) -> DocumentModel {
        DocumentModel {
            id: match self.id {
                Some(s) => Some(s@),
                None => None,
            },
            content: self.content@,
            embedding: self.embedding@,
            metadata: self.metadata@,
        }
    }
}

impl Document {
    /// A document with this text, a new random identifier, an embedding of
    /// `embedding_dim` zeros and no metadata.
    pub fn with_placeholder_embedding(content: String, embedding_dim: usize) -> (document:
        Document)
        ensures
            document.id is Some,
            document.content == content,
            document.embedding@ == Seq::new(embedding_dim as nat, |i: int| 0u32),
            document.metadata@ == JsonModel::Null,
    {
        Document {
            id: Some(new_document_id()),
            content,
            embedding: zero_embedding(embedding_dim),
            metadata: JsonValue::Null,
        }
    }
}

impl SearchQuery {
    /// A query for the best `limit` results, with an embedding of
    /// `embedding_dim` zeros.
    pub fn with_placeholder_embedding(embedding_dim: usize, limit: usize) -> (query: SearchQuery)
        ensures
            query.embedding@ == Seq::new(embedding_dim as nat, |i: int| 0u32),
            query.limit == limit,
            query.offset == 0,
    {
        SearchQuery { embedding: zero_embedding(embedding_dim), limit, offset: 0 }
    }
}

impl Clone for Document {
    fn clone(&self) -> (res: Document)
        ensures
            res@ == self@,
    {
        let id = match &self.id {
            Some(s) => Some(s.clone()),
            None => None,
        };
        Document {
            id,
            content: self.content.clone(),
            embedding: self.embedding.clone(),
            metadata: self.metadata.clone(),
        }
    }
}

/// What to search for, and which window of the ranked results to return.
#[derive(Debug)]
pub struct SearchQuery {
    /// The embedding to compare with.
    pub embedding: Vec<u32>,
    /// The largest number of results to return.
    pub limit: usize,
    /// How many of the best results to skip.
    pub offset: usize,
}

impl Clone for SearchQuery {
    fn clone(&self) -> (res: SearchQuery)
        ensures
            res.embedding@ == self.embedding@,
            res.limit == self.limit,
            res.offset == self.offset,
    {
        SearchQuery { embedding: self.embedding.clone(), limit: self.limit, offset: self.offset }
    }
}

/// A document found by a search, with its similarity to the query.
#[derive(Debug)]
pub struct SearchResult {
    /// The matching document.
    pub document: Document,
    /// The bit pattern of the similarity; higher is more similar.
    pub score: u32,
}

/// The mathematical value of a `SearchResult`.
pub struct SearchResultModel {
    pub document: DocumentModel,
    pub score: u32,
}

impl View for SearchResult {
    type V = SearchResultModel;

    open spec fn view(&self) -> SearchResultModel {
        SearchResultModel { document: self.document@, score: self.score }
    }
}

/// The values of a list of documents.
pub open spec fn document_models(documents: Seq<Document>) -> Seq<DocumentModel> {
    Seq::new(documents.len(), |i: int| documents[i]@)
}

/// The values of a list of results.
pub open spec fn result_models(results: Seq<SearchResult>) -> Seq<SearchResultModel> {
    Seq::new(results.len(), |i: int| results[i]@)
}

/// The scores of a list of results.
pub open spec fn result_scores(results: Seq<SearchResultModel>) -> Seq<u32> {
    Seq::new(results.len(), |i: int| results[i].score)
}

impl Clone for SearchResult {
    fn clone(&self) -> (res: SearchResult)
        ensures
            res@ == self@,
    {
        SearchResult { document: self.document.clone(), score: self.score }
    }
}

} // verus!
