//! The embedded store: named collections of documents, held in memory.
//!
//! A store keeps its collections, and a collection its documents, in the
//! order in which they were added. Every stored document has an identifier
//! of its own and an embedding of the collection's length.

use vstd::prelude::*;
use crate::document::{
    document_models,
    new_document_id,
    result_models,
    Document,
    DocumentModel,
    SearchQuery,
    SearchResult,
    SearchResultModel,
};
use crate::error::VectorStoreError;
use crate::filter::{filter_matches, matches_filter, Filter};
use crate::rank::{page, rank_results, ranked_results};
use crate::strings::string_views;

verus! {

/// A named bucket of documents whose embeddings have one length.
pub struct Collection {
    name: String,
    vector_size: usize,
    documents: Vec<Document>,
}

/// The mathematical value of a `Collection`.
pub struct CollectionModel {
    pub name: Seq<char>,
    pub vector_size: nat,
    pub documents: Seq<DocumentModel>,
}

impl View for Collection {
    type V = CollectionModel;

    closed spec fn view(&self) -> CollectionModel {
        CollectionModel {
            name: self.name@,
            vector_size: self.vector_size as nat,
            documents: document_models(self.documents@),
        }
    }
}

/// A store of collections, held in memory.
pub struct EmbeddedStore {
    collections: Vec<Collection>,
}

impl View for EmbeddedStore {
    type V = Seq<CollectionModel>;

    closed spec fn view(&self) -> Seq<CollectionModel> {
        Seq::new(self.collections@.len(), |i: int| self.collections@[i]@)
    }
}

/// Whether a collection is valid: its length is positive, each document has
/// an identifier and an embedding of that length, and no identifier occurs
/// twice.
pub open spec fn collection_wf(c: CollectionModel) -> bool {
    &&& c.vector_size > 0
    &&& forall|k: int|
        0 <= k < c.documents.len() ==> (#[trigger] c.documents[k]).id is Some
            && c.documents[k].embedding.len() == c.vector_size
    &&& forall|k: int, l: int|
        0 <= k < l < c.documents.len() ==> (#[trigger] c.documents[k]).id
            != (#[trigger] c.documents[l]).id
}

/// Whether a store is valid: each collection is, and no name occurs twice.
pub open spec fn store_wf(s: Seq<CollectionModel>) -> bool {
    &&& forall|i: int| 0 <= i < s.len() ==> collection_wf(#[trigger] s[i])
    &&& forall|i: int, j: int|
        0 <= i < j < s.len() ==> (#[trigger] s[i]).name != (#[trigger] s[j]).name
}

/// Whether the store has a collection of this name.
pub open spec fn has_collection(s: Seq<CollectionModel>, name: Seq<char>) -> bool {
    exists|i: int| 0 <= i < s.len() && (#[trigger] s[i]).name == name
}

/// The place of the collection of this name, where the store has one.
pub open spec fn collection_position(s: Seq<CollectionModel>, name: Seq<char>) -> int {
    choose|i: int| 0 <= i < s.len() && (#[trigger] s[i]).name == name
}

/// The collection of this name, where the store has one.
pub open spec fn collection_of(s: Seq<CollectionModel>, name: Seq<char>) -> CollectionModel {
    s[collection_position(s, name)]
}

/// Whether the collection has a document with this identifier.
pub open spec fn has_document(c: CollectionModel, id: Seq<char>) -> bool {
    exists|k: int| 0 <= k < c.documents.len() && (#[trigger] c.documents[k]).id == Some(id)
}

/// The place of the document with this identifier, where the collection has one.
pub open spec fn document_position(c: CollectionModel, id: Seq<char>) -> int {
    choose|k: int| 0 <= k < c.documents.len() && (#[trigger] c.documents[k]).id == Some(id)
}

/// The store with the documents of the collection at `i` replaced.
pub open spec fn with_documents(
    s: Seq<CollectionModel>,
    i: int,
    documents: Seq<DocumentModel>,
) -> Seq<CollectionModel> {
    s.update(
        i,
        CollectionModel { name: s[i].name, vector_size: s[i].vector_size, documents },
    )
}

/// The names of the collections, in the order they are held.
pub open spec fn collection_names(s: Seq<CollectionModel>) -> Seq<Seq<char>> {
    Seq::new(s.len(), |i: int| s[i].name)
}

/// The documents of a collection after `document` is stored under `id`: in
/// the place of the document that had this identifier, or else at the end.
pub open spec fn stored(c: CollectionModel, document: DocumentModel, id: Seq<char>) -> Seq<
    DocumentModel,
> {
    let kept = kept_as(document, id);
    if has_document(c, id) {
        c.documents.update(document_position(c, id), kept)
    } else {
        c.documents.push(kept)
    }
}

/// The document as it is kept under an identifier.
pub open spec fn kept_as(document: DocumentModel, id: Seq<char>) -> DocumentModel {
    DocumentModel {
        id: Some(id),
        content: document.content,
        embedding: document.embedding,
        metadata: document.metadata,
    }
}

/// The store after `document` is stored under `id` in the collection of
/// this name.
pub open spec fn after_insert(
    s: Seq<CollectionModel>,
    collection: Seq<char>,
    document: DocumentModel,
    id: Seq<char>,
) -> Seq<CollectionModel> {
    let i = collection_position(s, collection);
    with_documents(s, i, stored(s[i], document, id))
}

/// Whether a document passes the filter of a search; without a filter every
/// document does.
pub open spec fn passes(document: DocumentModel, filter: Option<Filter>) -> bool {
    match filter {
        Some(f) => filter_matches(document.metadata, f),
        None => true,
    }
}

/// Those of the first `n` documents that pass the filter, in their order.
pub open spec fn matching_documents(
    documents: Seq<DocumentModel>,
    filter: Option<Filter>,
    n: nat,
) -> Seq<DocumentModel>
    decreases n,
{
    if n == 0 {
        Seq::empty()
    } else {
        let before = matching_documents(documents, filter, (n - 1) as nat);
        if passes(documents[n - 1], filter) {
            before.push(documents[n - 1])
        } else {
            before
        }
    }
}

/// Documents with their scores.
pub open spec fn scored_documents(documents: Seq<DocumentModel>, scores: Seq<u32>) -> Seq<
    SearchResultModel,
> {
    Seq::new(documents.len(), |k: int| SearchResultModel { document: documents[k], score: scores[k] })
}

/// Whether `similarity` may give `score` for a query and an embedding with
/// these components.
pub open spec fn score_given<F: Fn(&Vec<u32>, &Vec<u32>) -> u32>(
    similarity: F,
    query: Seq<u32>,
    embedding: Seq<u32>,
    score: u32,
) -> bool {
    exists|a: Vec<u32>, b: Vec<u32>|
        #![trigger call_ensures(similarity, (&a, &b), score)]
        a@ == query && b@ == embedding && call_ensures(similarity, (&a, &b), score)
}

/// Whether `scores` are what `similarity` gave for the query and each of
/// the documents in turn.
pub open spec fn scored_by<F: Fn(&Vec<u32>, &Vec<u32>) -> u32>(
    similarity: F,
    query: Seq<u32>,
    documents: Seq<DocumentModel>,
    scores: Seq<u32>,
) -> bool {
    &&& scores.len() == documents.len()
    &&& forall|k: int|
        0 <= k < documents.len() ==> score_given(
            similarity,
            query,
            (#[trigger] documents[k]).embedding,
            scores[k],
        )
}

/// Whether `results` answer a query on the documents `found`, given the
/// scores that `similarity` gave them: they are the query's window of the
/// ranking of the documents by these scores.
pub open spec fn answers<F: Fn(&Vec<u32>, &Vec<u32>) -> u32>(
    results: Seq<SearchResultModel>,
    similarity: F,
    query: Seq<u32>,
    offset: int,
    limit: int,
    found: Seq<DocumentModel>,
    scores: Seq<u32>,
) -> bool {
    &&& scored_by(similarity, query, found, scores)
    &&& results == page(ranked_results(scored_documents(found, scores)), offset, limit)
}

/// The filter behind a reference, if any.
pub open spec fn filter_of(filter: Option<&Filter>) -> Option<Filter> {
    match filter {
        Some(f) => Some(*f),
        None => None,
    }
}

/// How a search ends, but for the results.
pub open spec fn search_admission(
    s: Seq<CollectionModel>,
    collection: Seq<char>,
    query: Seq<u32>,
) -> Outcome {
    if !has_collection(s, collection) {
        Outcome::CollectionNotFound
    } else if query.len() != collection_of(s, collection).vector_size {
        Outcome::InvalidArgument
    } else {
        Outcome::Accepted
    }
}

/// The store after the first `n` of `documents` are stored one after the
/// other, the document at `k` under `ids[k]`.
pub open spec fn after_batch(
    s: Seq<CollectionModel>,
    collection: Seq<char>,
    documents: Seq<DocumentModel>,
    ids: Seq<Seq<char>>,
    n: nat,
) -> Seq<CollectionModel>
    decreases n,
{
    if n == 0 {
        s
    } else {
        after_insert(
            after_batch(s, collection, documents, ids, (n - 1) as nat),
            collection,
            documents[n - 1],
            ids[n - 1],
        )
    }
}

/// Whether a batch that stored `n` documents stopped at the next one with
/// this error: the collection, as it then was, did not admit the document,
/// or the document had no identifier and the one made for it was not new.
pub open spec fn batch_stopped(
    s: Seq<CollectionModel>,
    collection: Seq<char>,
    documents: Seq<DocumentModel>,
    ids: Seq<Seq<char>>,
    n: nat,
    error: VectorStoreError,
) -> bool {
    let then = after_batch(s, collection, documents, ids, n);
    &&& n < documents.len()
    &&& ids.len() == n
    &&& match admission(then, collection, documents[n as int]) {
        Outcome::Accepted => documents[n as int].id is None && error is InternalError,
        refused => reports(Err::<(), VectorStoreError>(error), refused),
    }
}

/// What a batch stored depends on the identifiers of the stored documents
/// alone.
pub proof fn lemma_after_batch_prefix(
    s: Seq<CollectionModel>,
    collection: Seq<char>,
    documents: Seq<DocumentModel>,
    ids: Seq<Seq<char>>,
    more: Seq<Seq<char>>,
    n: nat,
)
    requires
        n <= ids.len(),
        ids.len() <= more.len(),
        forall|k: int| 0 <= k < ids.len() ==> ids[k] == more[k],
    ensures
        after_batch(s, collection, documents, ids, n) == after_batch(
            s,
            collection,
            documents,
            more,
            n,
        ),
    decreases n,
{
    if n > 0 {
        lemma_after_batch_prefix(s, collection, documents, ids, more, (n - 1) as nat);
    }
}

/// How an attempt to store a document or to search ends.
pub enum Outcome {
    /// No collection has the name.
    CollectionNotFound,
    /// The embedding has not the collection's length.
    InvalidArgument,
    /// The identifier was meant to be new and is not.
    InternalError,
    /// The attempt is accepted.
    Accepted,
}

/// Whether the collection of this name admits the document: the outcome
/// of storing it, but for the identifier.
pub open spec fn admission(
    s: Seq<CollectionModel>,
    collection: Seq<char>,
    document: DocumentModel,
) -> Outcome {
    if !has_collection(s, collection) {
        Outcome::CollectionNotFound
    } else if document.embedding.len() != collection_of(s, collection).vector_size {
        Outcome::InvalidArgument
    } else {
        Outcome::Accepted
    }
}

/// How storing `document` under `id` in the collection of this name ends.
/// `fresh` says that the identifier is meant to be new.
pub open spec fn insert_outcome(
    s: Seq<CollectionModel>,
    collection: Seq<char>,
    document: DocumentModel,
    id: Seq<char>,
    fresh: bool,
) -> Outcome {
    if admission(s, collection, document) is Accepted && fresh && has_document(
        collection_of(s, collection),
        id,
    ) {
        Outcome::InternalError
    } else {
        admission(s, collection, document)
    }
}

/// The message of the failure of an embedding that has not the length of
/// the collection.
pub open spec fn mismatch_message(collection: Seq<char>) -> Seq<char> {
    "Embedding length does not match the vector size of collection "@ + collection
}

/// Whether a failure says what it is about: a collection that is missing is
/// named, and so are a document that is missing and the collection whose
/// length an embedding has not.
pub open spec fn explains<T>(
    r: Result<T, VectorStoreError>,
    collection: Seq<char>,
    id: Seq<char>,
) -> bool {
    match r {
        Err(VectorStoreError::CollectionNotFound(m)) => m@ == collection,
        Err(VectorStoreError::DocumentNotFound(m)) => m@ == id,
        Err(VectorStoreError::InvalidArgument(m)) => m@ == mismatch_message(collection),
        Err(VectorStoreError::InternalError(m)) => m@ == "Identifier is in use: "@ + id,
        Err(VectorStoreError::OperationFailed(m)) => m@ == "Collection exists: "@ + collection,
        _ => true,
    }
}

/// Whether a result reports the outcome.
pub open spec fn reports<T>(r: Result<T, VectorStoreError>, outcome: Outcome) -> bool {
    match outcome {
        Outcome::CollectionNotFound => r is Err && r->Err_0 is CollectionNotFound,
        Outcome::InvalidArgument => r is Err && r->Err_0 is InvalidArgument,
        Outcome::InternalError => r is Err && r->Err_0 is InternalError,
        Outcome::Accepted => r is Ok,
    }
}

impl Collection {
    /// The place of the document with this identifier, if there is one.
    fn find_document(&self, id: &String) -> (r: Option<usize>)
        requires
            collection_wf(self@),
        ensures
            r is Some <==> has_document(self@, id@),
            r matches Some(k) ==> k < self.documents.len() && k == document_position(self@, id@)
                && self@.documents[k as int].id == Some(id@),
    {
        let mut k: usize = 0;
        while k < self.documents.len()
            invariant
                k <= self.documents.len(),
                self@.documents.len() == self.documents.len(),
                collection_wf(self@),
                forall|j: int| 0 <= j < k ==> (#[trigger] self@.documents[j]).id != Some(id@),
            decreases self.documents.len() - k,
        {
            assert(self@.documents[k as int] == self.documents@[k as int]@);
            let found = match &self.documents[k].id {
                Some(held) => *held == *id,
                None => false,
            };
            if found {
                proof {
                    let p = document_position(self@, id@);
                    assert(self@.documents[k as int].id == Some(id@));
                    assert(0 <= p < self@.documents.len() && self@.documents[p].id == Some(id@));
                    if p < k {
                    } else if p > k {
                    }
                }
                return Some(k);
            }
            k += 1;
        }
        None
    }

    /// Stores a document under an identifier: in the place of the document
    /// that had it, or else at the end.
    fn put(&mut self, document: Document, id: String)
        requires
            collection_wf(old(self)@),
            document.embedding.len() == old(self).vector_size,
        ensures
            collection_wf(final(self)@),
            final(self)@.name == old(self)@.name,
            final(self)@.vector_size == old(self)@.vector_size,
            final(self)@.documents == stored(old(self)@, document@, id@),
    {
        let place = self.find_document(&id);
        let kept = Document {
            id: Some(id),
            content: document.content,
            embedding: document.embedding,
            metadata: document.metadata,
        };
        match place {
            Some(k) => {
                self.documents.set(k, kept);
                assert(self@.documents =~= stored(old(self)@, document@, id@));
            },
            None => {
                self.documents.push(kept);
                assert(self@.documents =~= stored(old(self)@, document@, id@));
            },
        }
    }
}

impl Collection {
    /// The name of the collection.
    pub fn name(&self) -> (name: &String)
        ensures
            name@ == self@.name,
    {
        &self.name
    }

    /// The length of the embeddings of the collection.
    pub fn vector_size(&self) -> (size: usize)
        ensures
            size == self@.vector_size,
    {
        self.vector_size
    }

    /// The number of documents in the collection.
    pub fn len(&self) -> (n: usize)
        ensures
            n == self@.documents.len(),
    {
        self.documents.len()
    }

    /// Removes the document at a place.
    fn take_out(&mut self, k: usize)
        requires
            collection_wf(old(self)@),
            k < old(self)@.documents.len(),
        ensures
            collection_wf(final(self)@),
            final(self)@.name == old(self)@.name,
            final(self)@.vector_size == old(self)@.vector_size,
            final(self)@.documents == old(self)@.documents.remove(k as int),
    {
        let _ = self.documents.remove(k);
        assert(self@.documents =~= old(self)@.documents.remove(k as int));
    }
}

/// The failure of an embedding that has not the length of the collection.
fn mismatch(collection: String) -> (error: VectorStoreError)
    ensures
        error is InvalidArgument,
        error.message() == mismatch_message(collection@),
{
    let mut message: String =
        "Embedding length does not match the vector size of collection ".to_owned();
    message.append(collection.as_str());
    VectorStoreError::InvalidArgument(message)
}

impl EmbeddedStore {
    /// Whether the store is valid.
    pub open spec fn wf(&self) -> bool {
        store_wf(self@)
    }

    /// A store without collections.
    pub fn new() -> (store: EmbeddedStore)
        ensures
            store.wf(),
            store@ == Seq::<CollectionModel>::empty(),
    {
        let store = EmbeddedStore { collections: Vec::new() };
        assert(store@ =~= Seq::<CollectionModel>::empty());
        store
    }

    /// The place of the collection of this name, if there is one.
    fn find_collection(&self, name: &String) -> (r: Option<usize>)
        requires
            self.wf(),
        ensures
            r is Some <==> has_collection(self@, name@),
            r matches Some(i) ==> i < self@.len() && i == collection_position(self@, name@)
                && self@[i as int].name == name@ && i < self.collections.len(),
    {
        let mut i: usize = 0;
        while i < self.collections.len()
            invariant
                i <= self.collections.len(),
                self@.len() == self.collections.len(),
                self.wf(),
                forall|k: int| 0 <= k < i ==> (#[trigger] self@[k]).name != name@,
            decreases self.collections.len() - i,
        {
            assert(self@[i as int] == self.collections@[i as int]@);
            if self.collections[i].name == *name {
                proof {
                    let p = collection_position(self@, name@);
                    assert(self@[i as int].name == name@);
                    assert(0 <= p < self@.len() && self@[p].name == name@);
                    if p < i {
                    } else if p > i {
                    }
                }
                return Some(i);
            }
            i += 1;
        }
        None
    }

    /// The collection of this name, if there is one.
    pub fn collection(&self, name: &str) -> (r: Option<&Collection>)
        requires
            self.wf(),
        ensures
            r is Some <==> has_collection(self@, name@),
            r matches Some(found) ==> found@ == collection_of(self@, name@),
    {
        let owned: String = name.to_owned();
        match self.find_collection(&owned) {
            Some(i) => {
                assert(self@[i as int] == self.collections@[i as int]@);
                Some(&self.collections[i])
            },
            None => None,
        }
    }

    /// Creates an empty collection. Fails with `OperationFailed` where a
    /// collection of this name exists.
    pub fn create_collection(&mut self, name: &str, vector_size: usize) -> (r: Result<
        (),
        VectorStoreError,
    >)
        requires
            old(self).wf(),
            vector_size > 0,
        ensures
            explains(r, name@, Seq::empty()),
            final(self).wf(),
            has_collection(old(self)@, name@) ==> r is Err && r->Err_0 is OperationFailed
                && final(self)@ == old(self)@,
            !has_collection(old(self)@, name@) ==> r is Ok && final(self)@ == old(self)@.push(
                CollectionModel {
                    name: name@,
                    vector_size: vector_size as nat,
                    documents: Seq::empty(),
                },
            ),
    {
        let owned: String = name.to_owned();
        match self.find_collection(&owned) {
            Some(_) => {
                let mut message: String = "Collection exists: ".to_owned();
                message.append(name);
                Err(VectorStoreError::OperationFailed(message))
            },
            None => {
                let collection = Collection { name: owned, vector_size, documents: Vec::new() };
                assert(collection@.documents =~= Seq::<DocumentModel>::empty());
                self.collections.push(collection);
                assert(self@ =~= old(self)@.push(
                    CollectionModel {
                        name: name@,
                        vector_size: vector_size as nat,
                        documents: Seq::empty(),
                    },
                ));
                Ok(())
            },
        }
    }

    /// Removes a collection with all its documents. Fails with
    /// `CollectionNotFound` where no collection has this name.
    pub fn delete_collection(&mut self, name: &str) -> (r: Result<(), VectorStoreError>)
        requires
            old(self).wf(),
        ensures
            explains(r, name@, Seq::empty()),
            final(self).wf(),
            !has_collection(old(self)@, name@) ==> r is Err && r->Err_0 is CollectionNotFound
                && final(self)@ == old(self)@,
            has_collection(old(self)@, name@) ==> r is Ok && final(self)@ == old(self)@.remove(
                collection_position(old(self)@, name@),
            ),
    {
        let owned: String = name.to_owned();
        match self.find_collection(&owned) {
            None => Err(VectorStoreError::CollectionNotFound(owned)),
            Some(i) => {
                let _ = self.collections.remove(i);
                assert(self@ =~= old(self)@.remove(i as int));
                Ok(())
            },
        }
    }

    /// The names of the collections, in the order in which they were created.
    pub fn list_collections(&self) -> (names: Vec<String>)
        ensures
            string_views(names@) == collection_names(self@),
    {
        let mut names: Vec<String> = Vec::new();
        let mut i: usize = 0;
        while i < self.collections.len()
            invariant
                i <= self.collections.len(),
                names.len() == i,
                forall|k: int| 0 <= k < i ==> (#[trigger] names[k])@ == self.collections[k].name@,
            decreases self.collections.len() - i,
        {
            names.push(self.collections[i].name.clone());
            i += 1;
        }
        assert(string_views(names@) =~= collection_names(self@));
        names
    }

    /// Stores a document under an identifier that is given.
    ///
    /// Fails with `CollectionNotFound` where no collection has the name, and
    /// with `InvalidArgument` where the embedding has not the collection's
    /// length. Where `fresh` is set, the identifier is meant to be new, and
    /// the call fails with `InternalError` where the collection has a
    /// document with it. A failed call changes nothing. Otherwise the
    /// document is stored in place of the document that had the identifier,
    /// or else at the end, and the identifier is returned.
    pub fn store_document(
        &mut self,
        collection: &str,
        document: Document,
        id: String,
        fresh: bool,
    ) -> (r: Result<String, VectorStoreError>)
        requires
            old(self).wf(),
        ensures
            explains(r, collection@, id@),
            final(self).wf(),
            reports(r, insert_outcome(old(self)@, collection@, document@, id@, fresh)),
            r is Ok ==> r->Ok_0@ == id@,
            r is Err ==> final(self)@ == old(self)@,
            r is Ok ==> final(self)@ == after_insert(old(self)@, collection@, document@, id@),
    {
        let owned: String = collection.to_owned();
        let i = match self.find_collection(&owned) {
            None => {
                return Err(VectorStoreError::CollectionNotFound(owned));
            },
            Some(i) => i,
        };
        assert(self@[i as int] == self.collections@[i as int]@);
        if document.embedding.len() != self.collections[i].vector_size {
            return Err(mismatch(owned));
        }
        if fresh {
            if self.collections[i].find_document(&id).is_some() {
                let mut message: String = "Identifier is in use: ".to_owned();
                message.append(id.as_str());
                return Err(VectorStoreError::InternalError(message));
            }
        }
        let returned = id.clone();
        self.collections[i].put(document, id);
        assert(self@ =~= with_documents(
            old(self)@,
            i as int,
            stored(old(self)@[i as int], document@, returned@),
        ));
        Ok(returned)
    }

    /// Stores a document and returns its identifier: the document's own, or
    /// a new one where it has none.
    ///
    /// Fails with `CollectionNotFound` where no collection has the name, and
    /// with `InvalidArgument` where the embedding has not the collection's
    /// length; a failed call changes nothing. A document that brings its
    /// identifier takes the place of the stored document that has it, or
    /// else the last place. A document without one is given a random
    /// identifier and the last place; should the collection hold that
    /// identifier already, the call fails with `InternalError`.
    pub fn insert_document(&mut self, collection: &str, document: Document) -> (r: Result<
        String,
        VectorStoreError,
    >)
        requires
            old(self).wf(),
        ensures
            document.id matches Some(id) ==> explains(r, collection@, id@),
            r is Err && !(r->Err_0 is InternalError) ==> explains(r, collection@, Seq::empty()),
            final(self).wf(),
            document.id matches Some(id) ==> reports(
                r,
                insert_outcome(old(self)@, collection@, document@, id@, false),
            ) && (r is Ok ==> r->Ok_0@ == id@),
            document.id is None ==> match admission(old(self)@, collection@, document@) {
                Outcome::Accepted => r is Ok || (r is Err && r->Err_0 is InternalError),
                refused => reports(r, refused),
            },
            document.id is None && r is Ok ==> !has_document(
                collection_of(old(self)@, collection@),
                r->Ok_0@,
            ),
            r is Err ==> final(self)@ == old(self)@,
            r is Ok ==> final(self)@ == after_insert(
                old(self)@,
                collection@,
                document@,
                r->Ok_0@,
            ),
    {
        let given = match &document.id {
            Some(id) => Some(id.clone()),
            None => None,
        };
        match given {
            Some(id) => self.store_document(collection, document, id, false),
            None => {
                let id = new_document_id();
                self.store_document(collection, document, id, true)
            },
        }
    }

    /// Stores documents one after the other, each as `insert_document`
    /// does, and returns their identifiers. The first failure ends the
    /// batch and is returned; the documents stored before it stay stored.
    pub fn batch_insert(&mut self, collection: &str, documents: Vec<Document>) -> (r: Result<
        Vec<String>,
        VectorStoreError,
    >)
        requires
            old(self).wf(),
        ensures
            final(self).wf(),
            r matches Ok(ids) ==> {
                &&& ids.len() == documents.len()
                &&& final(self)@ == after_batch(
                    old(self)@,
                    collection@,
                    document_models(documents@),
                    string_views(ids@),
                    documents.len() as nat,
                )
                &&& forall|k: int|
                    0 <= k < documents.len() ==> ((#[trigger] documents[k]).id matches Some(id)
                        ==> ids[k]@ == id@)
            },
            r matches Err(error) ==> exists|n: nat, ids: Seq<Seq<char>>|
                {
                    &&& #[trigger] batch_stopped(
                        old(self)@,
                        collection@,
                        document_models(documents@),
                        ids,
                        n,
                        error,
                    )
                    &&& final(self)@ == after_batch(
                        old(self)@,
                        collection@,
                        document_models(documents@),
                        ids,
                        n,
                    )
                },
            documents.len() == 0 ==> r is Ok,
            documents.len() > 0 && !has_collection(old(self)@, collection@) ==> r is Err
                && r->Err_0 is CollectionNotFound && final(self)@ == old(self)@,
            has_collection(old(self)@, collection@) && (forall|k: int|
                0 <= k < documents.len() ==> (#[trigger] documents[k]).id is Some
                    && documents[k].embedding.len() == collection_of(old(self)@, collection@).vector_size) ==> r is Ok,
    {
        let ghost start = self@;
        let ghost models = document_models(documents@);
        let mut ids: Vec<String> = Vec::new();
        let mut k: usize = 0;
        while k < documents.len()
            invariant
                k <= documents.len(),
                self.wf(),
                start == old(self)@,
                models == document_models(documents@),
                ids.len() == k,
                k > 0 ==> has_collection(start, collection@),
                has_collection(start, collection@) ==> has_collection(self@, collection@)
                    && collection_of(self@, collection@).vector_size
                    == start[collection_position(start, collection@)].vector_size,
                self@ == after_batch(start, collection@, models, string_views(ids@), k as nat),
                forall|j: int|
                    0 <= j < k ==> ((#[trigger] documents[j]).id matches Some(id) ==> ids[j]@
                        == id@),
            decreases documents.len() - k,
        {
            let document = documents[k].clone();
            let ghost before = self@;
            let ghost held = string_views(ids@);
            assert(models[k as int] == document@);
            match self.insert_document(collection, document) {
                Ok(id) => {
                    proof {
                        lemma_insert_then_get(before, collection@, document@, id@);
                    }
                    ids.push(id);
                    proof {
                        let now = string_views(ids@);
                        lemma_after_batch_prefix(start, collection@, models, held, now, k as nat);
                        assert(now[k as int] == id@);
                    }
                },
                Err(error) => {
                    assert(batch_stopped(start, collection@, models, held, k as nat, error));
                    return Err(error);
                },
            }
            k += 1;
        }
        Ok(ids)
    }

    /// A copy of the document with this identifier.
    ///
    /// Fails with `CollectionNotFound` where no collection has the name, and
    /// with `DocumentNotFound` where the collection has no such document.
    pub fn get_document(&self, collection: &str, id: &str) -> (r: Result<
        Document,
        VectorStoreError,
    >)
        requires
            self.wf(),
        ensures
            explains(r, collection@, id@),
            !has_collection(self@, collection@) ==> r is Err && r->Err_0 is CollectionNotFound,
            has_collection(self@, collection@) && !has_document(
                collection_of(self@, collection@),
                id@,
            ) ==> r is Err && r->Err_0 is DocumentNotFound,
            has_collection(self@, collection@) && has_document(
                collection_of(self@, collection@),
                id@,
            ) ==> r is Ok && r->Ok_0@ == collection_of(self@, collection@).documents[document_position(collection_of(self@, collection@), id@)],
    {
        let owned: String = collection.to_owned();
        let i = match self.find_collection(&owned) {
            None => {
                return Err(VectorStoreError::CollectionNotFound(owned));
            },
            Some(i) => i,
        };
        assert(self@[i as int] == self.collections@[i as int]@);
        let wanted: String = id.to_owned();
        match self.collections[i].find_document(&wanted) {
            None => Err(VectorStoreError::DocumentNotFound(wanted)),
            Some(k) => {
                let found = self.collections[i].documents[k].clone();
                assert(self.collections@[i as int]@.documents[k as int]
                    == self.collections@[i as int].documents@[k as int]@);
                Ok(found)
            },
        }
    }

    /// Replaces the document with this identifier by `document`, which is
    /// kept under the same identifier and in the same place.
    ///
    /// Fails with `CollectionNotFound` where no collection has the name, with
    /// `DocumentNotFound` where the collection has no such document, and with
    /// `InvalidArgument` where the embedding has not the collection's length.
    /// A failed call changes nothing.
    pub fn update_document(&mut self, collection: &str, id: &str, document: Document) -> (r:
        Result<(), VectorStoreError>)
        requires
            old(self).wf(),
        ensures
            explains(r, collection@, id@),
            final(self).wf(),
            !has_collection(old(self)@, collection@) ==> r is Err && r->Err_0
                is CollectionNotFound,
            has_collection(old(self)@, collection@) && !has_document(
                collection_of(old(self)@, collection@),
                id@,
            ) ==> r is Err && r->Err_0 is DocumentNotFound,
            has_collection(old(self)@, collection@) && has_document(
                collection_of(old(self)@, collection@),
                id@,
            ) && document.embedding.len() != collection_of(old(self)@, collection@).vector_size ==> r is Err && r->Err_0 is InvalidArgument,
            has_collection(old(self)@, collection@) && has_document(
                collection_of(old(self)@, collection@),
                id@,
            ) && document.embedding.len() == collection_of(old(self)@, collection@).vector_size ==> r is Ok,
            r is Err ==> final(self)@ == old(self)@,
            r is Ok ==> final(self)@ == with_documents(
                old(self)@,
                collection_position(old(self)@, collection@),
                collection_of(old(self)@, collection@).documents.update(
                    document_position(
                        collection_of(old(self)@, collection@),
                        id@,
                    ),
                    kept_as(document@, id@),
                ),
            ),
    {
        let owned: String = collection.to_owned();
        let i = match self.find_collection(&owned) {
            None => {
                return Err(VectorStoreError::CollectionNotFound(owned));
            },
            Some(i) => i,
        };
        assert(self@[i as int] == self.collections@[i as int]@);
        let wanted: String = id.to_owned();
        if self.collections[i].find_document(&wanted).is_none() {
            return Err(VectorStoreError::DocumentNotFound(wanted));
        }
        if document.embedding.len() != self.collections[i].vector_size {
            return Err(mismatch(owned));
        }
        self.collections[i].put(document, wanted);
        assert(self@ =~= with_documents(
            old(self)@,
            i as int,
            stored(old(self)@[i as int], document@, id@),
        ));
        Ok(())
    }

    /// Removes the document with this identifier.
    ///
    /// Fails with `CollectionNotFound` where no collection has the name, and
    /// with `DocumentNotFound` where the collection has no such document. A
    /// failed call changes nothing.
    pub fn delete_document(&mut self, collection: &str, id: &str) -> (r: Result<
        (),
        VectorStoreError,
    >)
        requires
            old(self).wf(),
        ensures
            explains(r, collection@, id@),
            final(self).wf(),
            !has_collection(old(self)@, collection@) ==> r is Err && r->Err_0
                is CollectionNotFound,
            has_collection(old(self)@, collection@) && !has_document(
                collection_of(old(self)@, collection@),
                id@,
            ) ==> r is Err && r->Err_0 is DocumentNotFound,
            has_collection(old(self)@, collection@) && has_document(
                collection_of(old(self)@, collection@),
                id@,
            ) ==> r is Ok,
            r is Err ==> final(self)@ == old(self)@,
            r is Ok ==> final(self)@ == with_documents(
                old(self)@,
                collection_position(old(self)@, collection@),
                collection_of(old(self)@, collection@).documents.remove(
                    document_position(
                        collection_of(old(self)@, collection@),
                        id@,
                    ),
                ),
            ),
    {
        let owned: String = collection.to_owned();
        let i = match self.find_collection(&owned) {
            None => {
                return Err(VectorStoreError::CollectionNotFound(owned));
            },
            Some(i) => i,
        };
        assert(self@[i as int] == self.collections@[i as int]@);
        let wanted: String = id.to_owned();
        match self.collections[i].find_document(&wanted) {
            None => Err(VectorStoreError::DocumentNotFound(wanted)),
            Some(k) => {
                self.collections[i].take_out(k);
                assert(self@ =~= with_documents(
                    old(self)@,
                    i as int,
                    old(self)@[i as int].documents.remove(k as int),
                ));
                Ok(())
            },
        }
    }

    /// Scores the documents that pass the filter, ranks them and returns
    /// the window that the query asks for.
    fn search_with<F: Fn(&Vec<u32>, &Vec<u32>) -> u32>(
        &self,
        collection: &str,
        query: &SearchQuery,
        filter: Option<&Filter>,
        similarity: F,
    ) -> (r: Result<Vec<SearchResult>, VectorStoreError>)
        requires
            self.wf(),
            forall|a: &Vec<u32>, b: &Vec<u32>| call_requires(similarity, (a, b)),
        ensures
            explains(r, collection@, Seq::empty()),
            reports(r, search_admission(self@, collection@, query.embedding@)),
            r is Ok ==> exists|scores: Seq<u32>|
                answers(
                    result_models(r->Ok_0@),
                    similarity,
                    query.embedding@,
                    query.offset as int,
                    query.limit as int,
                    matching_documents(
                        collection_of(self@, collection@).documents,
                        filter_of(filter),
                        collection_of(self@, collection@).documents.len(),
                    ),
                    scores,
                ),
    {
        let owned: String = collection.to_owned();
        let i = match self.find_collection(&owned) {
            None => {
                return Err(VectorStoreError::CollectionNotFound(owned));
            },
            Some(i) => i,
        };
        assert(self@[i as int] == self.collections@[i as int]@);
        let held = &self.collections[i];
        if query.embedding.len() != held.vector_size {
            return Err(mismatch(owned));
        }
        let ghost all = held@.documents;
        let ghost wanted: Option<Filter> = filter_of(filter);
        let ghost mut scores: Seq<u32> = Seq::empty();
        let mut scored: Vec<SearchResult> = Vec::new();
        let mut k: usize = 0;
        while k < held.documents.len()
            invariant
                k <= held.documents.len(),
                all == held@.documents,
                all.len() == held.documents.len(),
                wanted == filter_of(filter),
                forall|a: &Vec<u32>, b: &Vec<u32>| call_requires(similarity, (a, b)),
                scored_by(
                    similarity,
                    query.embedding@,
                    matching_documents(all, wanted, k as nat),
                    scores,
                ),
                result_models(scored@) == scored_documents(
                    matching_documents(all, wanted, k as nat),
                    scores,
                ),
            decreases held.documents.len() - k,
        {
            let document = &held.documents[k];
            assert(all[k as int] == document@);
            let pass = match filter {
                Some(f) => matches_filter(document, f),
                None => true,
            };
            if pass {
                let score = similarity(&query.embedding, &document.embedding);
                let ghost before = matching_documents(all, wanted, k as nat);
                let ghost old_scores = scores;
                proof {
                    scores = scores.push(score);
                    let after = matching_documents(all, wanted, (k + 1) as nat);
                    assert(after == before.push(document@));
                    assert(score_given(
                        similarity,
                        query.embedding@,
                        document@.embedding,
                        score,
                    )) by {
                        assert(call_ensures(
                            similarity,
                            (&query.embedding, &document.embedding),
                            score,
                        ));
                    }
                    assert forall|j: int| 0 <= j < after.len() implies score_given(
                        similarity,
                        query.embedding@,
                        (#[trigger] after[j]).embedding,
                        scores[j],
                    ) by {
                        if j < before.len() {
                            assert(scores[j] == old_scores[j]);
                            assert(after[j] == before[j]);
                        }
                    }
                }
                let ghost held_before = scored@;
                scored.push(SearchResult { document: document.clone(), score });
                proof {
                    let after = matching_documents(all, wanted, (k + 1) as nat);
                    assert(scores.len() == after.len());
                    assert(scored_by(similarity, query.embedding@, after, scores));
                    assert(result_models(held_before).len() == before.len());
                    assert(scored@.len() == after.len());
                    assert forall|j: int| 0 <= j < after.len() implies result_models(scored@)[j]
                        == scored_documents(after, scores)[j] by {
                        if j < before.len() {
                            assert(scored@[j] == held_before[j]);
                            assert(result_models(held_before)[j] == scored_documents(
                                before,
                                old_scores,
                            )[j]);
                        }
                    }
                    assert(result_models(scored@) =~= scored_documents(after, scores));
                }
            } else {
                assert(!passes(all[k as int], wanted));
                assert(matching_documents(all, wanted, (k + 1) as nat) == matching_documents(
                    all,
                    wanted,
                    k as nat,
                ));
            }
            k += 1;
        }
        let ranked = rank_results(&scored, query.offset, query.limit);
        let r: Result<Vec<SearchResult>, VectorStoreError> = Ok(ranked);
        assert(answers(
            result_models(r->Ok_0@),
            similarity,
            query.embedding@,
            query.offset as int,
            query.limit as int,
            matching_documents(
                collection_of(self@, collection@).documents,
                filter_of(filter),
                collection_of(self@, collection@).documents.len(),
            ),
            scores,
        ));
        r
    }

    /// The documents of a collection that are most similar to the query.
    ///
    /// `similarity` gives the score of the query's embedding and a
    /// document's. Every document is scored; the documents are ranked by
    /// descending score, documents with equal scores in the order in which
    /// they are held; and the window of the query is returned: at most
    /// `limit` results from `offset` on, none where the offset lies beyond
    /// the end.
    ///
    /// Fails with `CollectionNotFound` where no collection has the name, and
    /// with `InvalidArgument` where the query's embedding has not the
    /// collection's length.
    pub fn search<F: Fn(&Vec<u32>, &Vec<u32>) -> u32>(
        &self,
        collection: &str,
        query: &SearchQuery,
        similarity: F,
    ) -> (r: Result<Vec<SearchResult>, VectorStoreError>)
        requires
            self.wf(),
            forall|a: &Vec<u32>, b: &Vec<u32>| call_requires(similarity, (a, b)),
        ensures
            explains(r, collection@, Seq::empty()),
            reports(r, search_admission(self@, collection@, query.embedding@)),
            r is Ok ==> exists|scores: Seq<u32>|
                answers(
                    result_models(r->Ok_0@),
                    similarity,
                    query.embedding@,
                    query.offset as int,
                    query.limit as int,
                    collection_of(self@, collection@).documents,
                    scores,
                ),
    {
        let r = self.search_with(collection, query, None, similarity);
        proof {
            let all = collection_of(self@, collection@).documents;
            lemma_matching_without_filter(all, all.len());
            assert(all.take(all.len() as int) =~= all);
        }
        r
    }

    /// The documents of a collection that meet the filter and are most
    /// similar to the query: as `search`, on the documents that meet the
    /// filter alone.
    pub fn filtered_search<F: Fn(&Vec<u32>, &Vec<u32>) -> u32>(
        &self,
        collection: &str,
        query: &SearchQuery,
        filter: &Filter,
        similarity: F,
    ) -> (r: Result<Vec<SearchResult>, VectorStoreError>)
        requires
            self.wf(),
            forall|a: &Vec<u32>, b: &Vec<u32>| call_requires(similarity, (a, b)),
        ensures
            explains(r, collection@, Seq::empty()),
            reports(r, search_admission(self@, collection@, query.embedding@)),
            r is Ok ==> exists|scores: Seq<u32>|
                answers(
                    result_models(r->Ok_0@),
                    similarity,
                    query.embedding@,
                    query.offset as int,
                    query.limit as int,
                    matching_documents(
                        collection_of(self@, collection@).documents,
                        Some(*filter),
                        collection_of(self@, collection@).documents.len(),
                    ),
                    scores,
                ),
    {
        self.search_with(collection, query, Some(filter), similarity)
    }
}

/// A document that is stored is found again: after it is stored under an
/// identifier, the store is valid, the collection has the length it had,
/// and it holds under this identifier the document as it was given.
pub proof fn lemma_insert_then_get(
    s: Seq<CollectionModel>,
    collection: Seq<char>,
    document: DocumentModel,
    id: Seq<char>,
)
    requires
        store_wf(s),
        admission(s, collection, document) is Accepted,
    ensures
        store_wf(after_insert(s, collection, document, id)),
        has_collection(after_insert(s, collection, document, id), collection),
        ({
            let held = after_insert(s, collection, document, id)[collection_position(
                after_insert(s, collection, document, id),
                collection,
            )];
            &&& held.vector_size == collection_of(s, collection).vector_size
            &&& has_document(held, id)
            &&& held.documents[document_position(held, id)] == kept_as(document, id)
        }),
{
    let i = collection_position(s, collection);
    let t = after_insert(s, collection, document, id);
    let before = s[i];
    let after = t[i];
    assert(after.name == collection);
    if has_document(before, id) {
        let p = document_position(before, id);
        assert(after.documents[p] == kept_as(document, id));
        assert forall|k: int, l: int| 0 <= k < l < after.documents.len() implies (
        #[trigger] after.documents[k]).id != (#[trigger] after.documents[l]).id by {
            assert(before.documents[k].id != before.documents[l].id);
        }
    } else {
        let p = before.documents.len() as int;
        assert(after.documents[p] == kept_as(document, id));
        assert forall|k: int, l: int| 0 <= k < l < after.documents.len() implies (
        #[trigger] after.documents[k]).id != (#[trigger] after.documents[l]).id by {
            if l < p {
                assert(before.documents[k].id != before.documents[l].id);
            } else {
                assert(before.documents[k].id != Some(id));
            }
        }
    }
    assert(collection_wf(after));
    assert forall|j: int| 0 <= j < t.len() implies collection_wf(#[trigger] t[j]) by {
        if j != i {
            assert(t[j] == s[j]);
        }
    }
    assert forall|j: int, l: int| 0 <= j < l < t.len() implies (#[trigger] t[j]).name != (
    #[trigger] t[l]).name by {
        assert(s[j].name != s[l].name);
    }
    assert(has_collection(t, collection));
    let j = collection_position(t, collection);
    assert(j == i) by {
        if j < i {
            assert(t[j].name != t[i].name);
        } else if j > i {
            assert(t[i].name != t[j].name);
        }
    }
    let q = if has_document(before, id) {
        document_position(before, id)
    } else {
        before.documents.len() as int
    };
    assert(after.documents[q].id == Some(id));
    assert(has_document(after, id));
    let r = document_position(after, id);
    assert(r == q) by {
        if r < q {
            assert(after.documents[r].id != after.documents[q].id);
        } else if r > q {
            assert(after.documents[q].id != after.documents[r].id);
        }
    }
}

/// Whether each of the first `n` documents of a batch is stored under a
/// new identifier: the collection, as it then is, admits the document and
/// has no document with the identifier.
pub open spec fn stored_fresh(
    s: Seq<CollectionModel>,
    collection: Seq<char>,
    documents: Seq<DocumentModel>,
    ids: Seq<Seq<char>>,
    n: nat,
) -> bool {
    forall|k: int|
        0 <= k < n ==> insert_outcome(
            #[trigger] after_batch(s, collection, documents, ids, k as nat),
            collection,
            documents[k],
            ids[k],
            true,
        ) is Accepted
}

/// Documents that are stored one after the other, each under a new
/// identifier, all stay in the collection, each under its own identifier
/// and as it was given: no two of the identifiers are the same, and none
/// of the documents takes the place of another.
pub proof fn lemma_fresh_inserts_keep_apart(
    s: Seq<CollectionModel>,
    collection: Seq<char>,
    documents: Seq<DocumentModel>,
    ids: Seq<Seq<char>>,
    n: nat,
)
    requires
        store_wf(s),
        n <= documents.len(),
        n <= ids.len(),
        stored_fresh(s, collection, documents, ids, n),
    ensures
        store_wf(after_batch(s, collection, documents, ids, n)),
        n > 0 ==> has_collection(after_batch(s, collection, documents, ids, n), collection),
        forall|j: int, k: int| 0 <= j < k < n ==> ids[j] != ids[k],
        forall|j: int|
            0 <= j < n ==> {
                let held = collection_of(
                    after_batch(s, collection, documents, ids, n),
                    collection,
                );
                &&& has_document(held, #[trigger] ids[j])
                &&& held.documents[document_position(held, ids[j])] == kept_as(
                    documents[j],
                    ids[j],
                )
            },
    decreases n,
{
    if n > 0 {
        let m = (n - 1) as nat;
        let before = after_batch(s, collection, documents, ids, m);
        let after = after_batch(s, collection, documents, ids, n);
        assert(stored_fresh(s, collection, documents, ids, m)) by {
            assert forall|k: int| 0 <= k < m implies insert_outcome(
                #[trigger] after_batch(s, collection, documents, ids, k as nat),
                collection,
                documents[k],
                ids[k],
                true,
            ) is Accepted by {}
        }
        lemma_fresh_inserts_keep_apart(s, collection, documents, ids, m);
        assert(insert_outcome(before, collection, documents[m as int], ids[m as int], true)
            is Accepted) by {
            assert(before == after_batch(s, collection, documents, ids, m as int as nat));
        }
        let held_before = collection_of(before, collection);
        assert(!has_document(held_before, ids[m as int]));
        lemma_insert_then_get(before, collection, documents[m as int], ids[m as int]);
        let held = collection_of(after, collection);
        let i = collection_position(before, collection);
        assert(collection_position(after, collection) == i) by {
            let j = collection_position(after, collection);
            assert(after[i].name == collection);
            if j < i {
                assert(after[j].name != after[i].name);
            } else if j > i {
                assert(after[i].name != after[j].name);
            }
        }
        assert(held.documents == held_before.documents.push(
            kept_as(documents[m as int], ids[m as int]),
        ));
        assert forall|j: int| 0 <= j < m implies ids[j] != ids[m as int] by {
            assert(has_document(held_before, ids[j]));
        }
        assert forall|j: int| 0 <= j < n implies {
            &&& has_document(held, #[trigger] ids[j])
            &&& held.documents[document_position(held, ids[j])] == kept_as(documents[j], ids[j])
        } by {
            if j < m {
                assert(has_document(held_before, ids[j]));
                let p = document_position(held_before, ids[j]);
                assert(held.documents[p] == held_before.documents[p]);
                assert(held.documents[p].id == Some(ids[j]));
                assert(has_document(held, ids[j]));
                let q = document_position(held, ids[j]);
                if q < p {
                    assert(held.documents[q].id != held.documents[p].id);
                } else if q > p {
                    assert(held.documents[p].id != held.documents[q].id);
                }
            }
        }
    }
}

/// Without a filter every document is found.
pub proof fn lemma_matching_without_filter(documents: Seq<DocumentModel>, n: nat)
    requires
        n <= documents.len(),
    ensures
        matching_documents(documents, None, n) == documents.take(n as int),
    decreases n,
{
    if n > 0 {
        lemma_matching_without_filter(documents, (n - 1) as nat);
        assert(documents.take(n as int) =~= documents.take(n - 1).push(documents[n - 1]));
    } else {
        assert(documents.take(0) =~= Seq::<DocumentModel>::empty());
    }
}

} // verus!
