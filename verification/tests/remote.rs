use p_mo::error::VectorStoreError;
use p_mo::json::JsonValue;
use p_mo::remote::{results_from_points, translate, Operation, PointKey, ScoredPoint};

#[test]
fn points_with_a_uuid_are_results() {
    let points = vec![
        ScoredPoint {
            key: PointKey::Uuid("a".to_string()),
            content: Some("text".to_string()),
            embedding: Some(vec![1, 2]),
            score: 7,
        },
        ScoredPoint { key: PointKey::Number(3), content: None, embedding: None, score: 6 },
        ScoredPoint { key: PointKey::Missing, content: None, embedding: None, score: 5 },
        ScoredPoint { key: PointKey::Uuid("b".to_string()), content: None, embedding: None, score: 4 },
    ];
    let results = results_from_points(points);
    assert_eq!(results.len(), 2);
    assert_eq!(results[0].document.id, Some("a".to_string()));
    assert_eq!(results[0].document.content, "text");
    assert_eq!(results[0].document.embedding, vec![1, 2]);
    assert_eq!(results[0].score, 7);
    assert!(matches!(results[0].document.metadata, JsonValue::Null));
    assert_eq!(results[1].document.id, Some("b".to_string()));
    assert_eq!(results[1].document.content, "");
    assert!(results[1].document.embedding.is_empty());
    assert_eq!(results[1].score, 4);
    assert!(results_from_points(vec![]).is_empty());
}

#[test]
fn backend_failures_in_the_stores_terms() {
    assert!(matches!(
        translate(Operation::AcquireClient, "timed out"),
        VectorStoreError::PoolError(m) if m == "timed out"
    ));
    assert!(matches!(
        translate(Operation::TestConnection, "refused"),
        VectorStoreError::ConnectionError(m) if m == "refused"
    ));
    let failed = |operation: Operation| match translate(operation, "x") {
        VectorStoreError::OperationFailed(m) => m,
        other => panic!("unexpected: {:?}", other),
    };
    assert_eq!(failed(Operation::CreateCollection), "Failed to create collection: x");
    assert_eq!(failed(Operation::DeleteCollection), "Failed to delete collection: x");
    assert_eq!(failed(Operation::InsertDocument), "Failed to insert document: x");
    assert_eq!(failed(Operation::Search), "Failed to search: x");
}
