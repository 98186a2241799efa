use p_mo::document::{Document, SearchQuery, SearchResult};
use p_mo::embedding::{EmbeddingConfig, EmbeddingModelType, MockEmbeddingGenerator};
use p_mo::error::VectorStoreError;
use p_mo::json::JsonValue;
use p_mo::mock::{MockQdrantConnector, MOCK_SCORE};
use p_mo::rank::{rank_indices, rank_results};
use p_mo::retry::{decide, delay_after, RetryDecision, RetryPolicy, RetryState, MAX_ATTEMPTS};
use p_mo::strings::{chars_of, decimal_chars};

fn scores(values: &[f32]) -> Vec<u32> {
    values.iter().map(|x| x.to_bits()).collect()
}

fn scored(id: &str, score: f32) -> SearchResult {
    SearchResult {
        document: Document {
            id: Some(id.to_string()),
            content: String::new(),
            embedding: vec![],
            metadata: JsonValue::Null,
        },
        score: score.to_bits(),
    }
}

fn ids(results: &Vec<SearchResult>) -> Vec<String> {
    results.iter().map(|r| r.document.id.clone().unwrap()).collect()
}

fn names(list: &[&str]) -> Vec<String> {
    list.iter().map(|s| s.to_string()).collect()
}

#[test]
fn rank_indices_orders_by_descending_score() {
    assert_eq!(rank_indices(&scores(&[])), Vec::<usize>::new());
    assert_eq!(rank_indices(&scores(&[0.5])), vec![0]);
    assert_eq!(rank_indices(&scores(&[0.1, 0.9, 0.5])), vec![1, 2, 0]);
    assert_eq!(rank_indices(&scores(&[1.0, 0.0, 0.994])), vec![0, 2, 1]);
    assert_eq!(rank_indices(&scores(&[-1.0, -0.5, 0.0, -0.0, 0.25])), vec![4, 2, 3, 1, 0]);
}

#[test]
fn rank_indices_is_stable() {
    assert_eq!(rank_indices(&scores(&[0.5, 0.5, 0.5])), vec![0, 1, 2]);
    assert_eq!(rank_indices(&scores(&[0.1, 0.5, 0.1, 0.5])), vec![1, 3, 0, 2]);
}

#[test]
fn rank_results_windows() {
    let results =
        vec![scored("a", 0.1), scored("b", 0.9), scored("c", 0.5), scored("d", 0.9), scored("e", -1.0)];
    assert_eq!(ids(&rank_results(&results, 0, 10)), names(&["b", "d", "c", "a", "e"]));
    assert_eq!(ids(&rank_results(&results, 0, 2)), names(&["b", "d"]));
    assert_eq!(ids(&rank_results(&results, 2, 2)), names(&["c", "a"]));
    assert_eq!(ids(&rank_results(&results, 4, 2)), names(&["e"]));
    assert_eq!(ids(&rank_results(&results, 5, 2)), names(&[]));
    assert_eq!(ids(&rank_results(&results, 9, 2)), names(&[]));
    assert_eq!(ids(&rank_results(&results, 1, 0)), names(&[]));
    assert_eq!(ids(&rank_results(&results, 3, usize::MAX)), names(&["a", "e"]));
    assert_eq!(ids(&rank_results(&results, usize::MAX, usize::MAX)), names(&[]));
    let ranked = rank_results(&results, 0, 1);
    assert_eq!(f32::from_bits(ranked[0].score), 0.9);
}

#[test]
fn delay_grows_by_the_multiplier() {
    let policy = RetryPolicy { initial_interval_ms: 100, multiplier: 2 };
    assert_eq!(delay_after(&policy, 1), 100);
    assert_eq!(delay_after(&policy, 2), 200);
    assert_eq!(delay_after(&policy, 3), 400);
    assert_eq!(delay_after(&policy, 11), 102_400);
    let flat = RetryPolicy { initial_interval_ms: 7, multiplier: 1 };
    assert_eq!(delay_after(&flat, 50), 7);
    let none = RetryPolicy { initial_interval_ms: 7, multiplier: 0 };
    assert_eq!(delay_after(&none, 1), 7);
    assert_eq!(delay_after(&none, 2), 0);
}

#[test]
fn delay_is_held_at_the_largest_values() {
    let policy = RetryPolicy { initial_interval_ms: 3, multiplier: 65_536 };
    assert_eq!(delay_after(&policy, 2), 196_608);
    assert_eq!(delay_after(&policy, 3), 3 * 4_294_967_295);
    assert_eq!(delay_after(&policy, 9), 3 * 4_294_967_295);
    let huge = RetryPolicy { initial_interval_ms: u64::MAX, multiplier: 2 };
    assert_eq!(delay_after(&huge, 1), u64::MAX);
    assert_eq!(delay_after(&huge, 2), u64::MAX);
}

#[test]
fn decide_retries_twice_and_then_gives_the_last_error() {
    let policy = RetryPolicy { initial_interval_ms: 100, multiplier: 2 };
    let mut state = RetryState::new();
    assert_eq!(MAX_ATTEMPTS, 3);
    let failure = |m: &str| -> Result<u8, VectorStoreError> {
        Err(VectorStoreError::ConnectionError(m.to_string()))
    };
    assert!(matches!(decide(&policy, &mut state, failure("1")), RetryDecision::RetryAfter(100)));
    assert_eq!(state.failed_attempts, 1);
    assert!(matches!(decide(&policy, &mut state, failure("2")), RetryDecision::RetryAfter(200)));
    assert_eq!(state.failed_attempts, 2);
    match decide(&policy, &mut state, failure("3")) {
        RetryDecision::Return(Err(VectorStoreError::ConnectionError(m))) => assert_eq!(m, "3"),
        other => panic!("unexpected: {:?}", other),
    }
    assert_eq!(state.failed_attempts, 3);
    assert!(matches!(decide(&policy, &mut state, failure("4")), RetryDecision::Return(Err(_))));
    assert_eq!(state.failed_attempts, 3);
}

#[test]
fn decide_returns_a_value_at_once() {
    let policy = RetryPolicy { initial_interval_ms: 100, multiplier: 2 };
    let mut state = RetryState::new();
    let ok: Result<u8, VectorStoreError> = Ok(9);
    assert!(matches!(decide(&policy, &mut state, ok), RetryDecision::Return(Ok(9))));
    assert_eq!(state.failed_attempts, 0);
    let failed: Result<u8, VectorStoreError> = Err(VectorStoreError::TimeoutError(String::new()));
    assert!(matches!(decide(&policy, &mut state, failed), RetryDecision::RetryAfter(100)));
    let ok: Result<u8, VectorStoreError> = Ok(1);
    assert!(matches!(decide(&policy, &mut state, ok), RetryDecision::Return(Ok(1))));
    assert_eq!(state.failed_attempts, 1);
}

#[test]
fn error_kinds_and_details() {
    let errors = vec![
        (VectorStoreError::ConnectionError("a".to_string()), "Connection error"),
        (VectorStoreError::CollectionNotFound("b".to_string()), "Collection not found"),
        (VectorStoreError::DocumentNotFound("c".to_string()), "Document not found"),
        (VectorStoreError::InvalidArgument("d".to_string()), "Invalid argument"),
        (VectorStoreError::OperationFailed("e".to_string()), "Operation failed"),
        (VectorStoreError::InternalError("f".to_string()), "Internal error"),
        (VectorStoreError::AuthenticationError("g".to_string()), "Authentication error"),
        (VectorStoreError::PoolError("h".to_string()), "Pool error"),
        (VectorStoreError::TimeoutError("i".to_string()), "Timeout error"),
    ];
    let details = ["a", "b", "c", "d", "e", "f", "g", "h", "i"];
    for (k, (error, kind)) in errors.iter().enumerate() {
        assert_eq!(error.kind_name(), *kind);
        assert_eq!(error.detail(), details[k]);
    }
}

#[test]
fn test_document_with_placeholder_embedding() {
    let content = "This is a test document with a placeholder embedding.";
    let embedding_dim = 384;

    let document = Document::with_placeholder_embedding(content.to_string(), embedding_dim);

    assert!(!document.id.clone().unwrap().is_empty());
    assert_eq!(document.content, content);
    assert_eq!(document.embedding.len(), embedding_dim);
    assert!(document.embedding.iter().all(|&x| f32::from_bits(x) == 0.0));
}

#[test]
fn placeholder_documents_get_identifiers_of_their_own() {
    let a = Document::with_placeholder_embedding("a".to_string(), 0);
    let b = Document::with_placeholder_embedding("a".to_string(), 0);
    assert_ne!(a.id, b.id);
    assert_eq!(a.id.unwrap().len(), 36);
    assert!(a.embedding.is_empty());
}

#[test]
fn test_search_query_with_placeholder_embedding() {
    let embedding_dim = 384;
    let limit = 10;

    let query = SearchQuery::with_placeholder_embedding(embedding_dim, limit);

    assert_eq!(query.embedding.len(), embedding_dim);
    assert_eq!(query.limit, limit);
    assert_eq!(query.offset, 0);
    assert!(query.embedding.iter().all(|&x| f32::from_bits(x) == 0.0));
}

#[test]
fn clones_keep_the_values() {
    let d = Document {
        id: Some("i".to_string()),
        content: "c".to_string(),
        embedding: vec![1, 2],
        metadata: JsonValue::Array(vec![JsonValue::Bool(true)]),
    };
    let e = d.clone();
    assert_eq!(e.id, d.id);
    assert_eq!(e.content, d.content);
    assert_eq!(e.embedding, d.embedding);
    assert!(e.metadata.equals(&d.metadata));
    let q = SearchQuery { embedding: vec![3], limit: 4, offset: 5 };
    let p = q.clone();
    assert_eq!((p.embedding, p.limit, p.offset), (vec![3], 4, 5));
    let r = SearchResult { document: d, score: 6 }.clone();
    assert_eq!(r.score, 6);
    assert_eq!(r.document.content, "c");
}

#[test]
fn mock_connector_answers_alike() {
    let mock = MockQdrantConnector::new();
    assert!(mock.test_connection().is_ok());
    assert!(mock.create_collection("c", 3).is_ok());
    assert!(mock.delete_collection("c").is_ok());
    assert!(mock.insert_document("c", Document::with_placeholder_embedding(String::new(), 1)).is_ok());
    let results = mock.search("c", SearchQuery::with_placeholder_embedding(384, 1)).unwrap();
    assert_eq!(results.len(), 1);
    assert_eq!(results[0].document.id, Some("test-id".to_string()));
    assert_eq!(results[0].document.content, "Test document");
    assert_eq!(results[0].document.embedding, vec![0u32; 384]);
    assert_eq!(results[0].score, MOCK_SCORE);
    assert_eq!(f32::from_bits(results[0].score), 0.95);
}

#[test]
fn embedding_configuration_defaults() {
    let config = EmbeddingConfig::default();
    assert_eq!(config.model_type, EmbeddingModelType::MiniLM);
    assert!(config.model_path.is_none());
    assert!(!config.use_gpu);
    assert_eq!(config.embedding_dim, 384);
    assert_eq!(MockEmbeddingGenerator::new(384).embedding_dim(), 384);
}

#[test]
fn chars_and_decimals() {
    assert_eq!(chars_of(""), Vec::<char>::new());
    assert_eq!(chars_of("aé\u{1F600}"), vec!['a', 'é', '\u{1F600}']);
    let text = |n: u64| decimal_chars(n).into_iter().collect::<String>();
    assert_eq!(text(0), "0");
    assert_eq!(text(9), "9");
    assert_eq!(text(10), "10");
    assert_eq!(text(8080), "8080");
    assert_eq!(text(u64::MAX), "18446744073709551615");
}
