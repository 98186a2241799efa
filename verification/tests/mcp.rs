use p_mo::json::{JsonNumber, JsonValue};
use p_mo::mcp::{
    has_prefix, plan_call, plan_read, plan_request, plan_tool, value_count, value_text, Plan,
    ToolCall, DEFAULT_LIMIT, DEFAULT_VECTOR_SIZE, INVALID_PARAMS, INVALID_REQUEST, NOT_FOUND,
};

fn text(s: &str) -> JsonValue {
    JsonValue::String(s.to_string())
}

fn whole(n: u64) -> JsonValue {
    JsonValue::Number(JsonNumber::PosInt(n))
}

fn object(entries: Vec<(&str, JsonValue)>) -> JsonValue {
    JsonValue::Object(entries.into_iter().map(|(k, v)| (k.to_string(), v)).collect())
}

fn call(name: &str, arguments: JsonValue) -> JsonValue {
    object(vec![
        ("id", text("1")),
        ("jsonrpc", text("2.0")),
        ("method", text("CallTool")),
        ("params", object(vec![("arguments", arguments), ("name", text(name))])),
    ])
}

fn read(uri: JsonValue) -> JsonValue {
    object(vec![("method", text("ReadResource")), ("params", object(vec![("uri", uri)]))])
}

fn failure(plan: Plan) -> (i64, String) {
    match plan {
        Plan::Fail { code, message } => (code, message),
        other => panic!("unexpected: {:?}", other),
    }
}

#[test]
fn request_without_method_or_with_unknown_method_fails() {
    assert_eq!(
        failure(plan_request(&object(vec![("id", whole(1))]))),
        (INVALID_REQUEST, "Invalid request: missing method".to_string())
    );
    assert_eq!(failure(plan_request(&JsonValue::Null)).0, -32600);
    assert_eq!(
        failure(plan_request(&object(vec![("method", text("Ping"))]))),
        (NOT_FOUND, "Method not found: Ping".to_string())
    );
    assert_eq!(
        failure(plan_request(&object(vec![("method", whole(3))]))),
        (-32601, "Method not found: ".to_string())
    );
}

#[test]
fn call_tool_needs_params_name_and_arguments() {
    let request = object(vec![("method", text("CallTool"))]);
    assert_eq!(
        failure(plan_request(&request)),
        (INVALID_PARAMS, "Invalid params: missing params".to_string())
    );
    let request = object(vec![("method", text("CallTool")), ("params", object(vec![]))]);
    assert_eq!(failure(plan_call(&request)).1, "Invalid params: missing tool name");
    let request = object(vec![
        ("method", text("CallTool")),
        ("params", object(vec![("name", text("list_collections"))])),
    ]);
    assert_eq!(failure(plan_request(&request)), (-32602, "Invalid params: missing arguments".to_string()));
    assert_eq!(
        failure(plan_request(&call("fly", object(vec![])))),
        (-32601, "Tool not found: fly".to_string())
    );
    assert_eq!(failure(plan_request(&call("", object(vec![])))).1, "Tool not found: ");
}

#[test]
fn add_knowledge_entry_plan() {
    let arguments = object(vec![
        ("collection_id", text("docs")),
        ("content", text("body")),
        ("tags", JsonValue::Array(vec![text("a")])),
        ("title", text("t")),
    ]);
    match plan_request(&call("add_knowledge_entry", arguments)) {
        Plan::Call(ToolCall::AddKnowledgeEntry { collection_id, content }) => {
            assert_eq!(collection_id, "docs");
            assert_eq!(content, "body");
        }
        other => panic!("unexpected: {:?}", other),
    }
    let missing = |arguments: JsonValue| failure(plan_tool("add_knowledge_entry", &arguments)).1;
    assert_eq!(missing(object(vec![])), "Invalid params: missing collection_id");
    assert_eq!(
        missing(object(vec![("collection_id", text("c")), ("content", text("x"))])),
        "Invalid params: missing title"
    );
    assert_eq!(
        missing(object(vec![("collection_id", text("c")), ("title", text("x"))])),
        "Invalid params: missing content"
    );
    let odd = object(vec![("collection_id", whole(1)), ("content", JsonValue::Null), ("title", whole(2))]);
    match plan_tool("add_knowledge_entry", &odd) {
        Plan::Call(ToolCall::AddKnowledgeEntry { collection_id, content }) => {
            assert_eq!(collection_id, "");
            assert_eq!(content, "");
        }
        other => panic!("unexpected: {:?}", other),
    }
}

#[test]
fn search_knowledge_plan() {
    let arguments = object(vec![
        ("collection_id", text("test_collection")),
        ("limit", whole(5)),
        ("query", text("test")),
    ]);
    match plan_request(&call("search_knowledge", arguments)) {
        Plan::Call(ToolCall::SearchKnowledge { collection_id, limit }) => {
            assert_eq!(collection_id, "test_collection");
            assert_eq!(limit, 5);
        }
        other => panic!("unexpected: {:?}", other),
    }
    let arguments = object(vec![("collection_id", text("c")), ("limit", text("5")), ("query", text("q"))]);
    match plan_tool("search_knowledge", &arguments) {
        Plan::Call(ToolCall::SearchKnowledge { limit, .. }) => assert_eq!(limit, DEFAULT_LIMIT),
        other => panic!("unexpected: {:?}", other),
    }
    let arguments = object(vec![("collection_id", text("c")), ("query", text("q"))]);
    match plan_tool("search_knowledge", &arguments) {
        Plan::Call(ToolCall::SearchKnowledge { limit, .. }) => assert_eq!(limit, 10),
        other => panic!("unexpected: {:?}", other),
    }
    assert_eq!(
        failure(plan_tool("search_knowledge", &object(vec![("collection_id", text("c"))]))).1,
        "Invalid params: missing query"
    );
    assert_eq!(
        failure(plan_tool("search_knowledge", &object(vec![("query", text("c"))]))).1,
        "Invalid params: missing collection_id"
    );
}

#[test]
fn delete_update_list_create_plans() {
    let both = object(vec![("collection_id", text("c")), ("content", text("x")), ("entry_id", text("e"))]);
    assert!(matches!(
        plan_tool("delete_knowledge_entry", &both),
        Plan::Call(ToolCall::DeleteKnowledgeEntry { entry_id }) if entry_id == "e"
    ));
    assert!(matches!(
        plan_tool("update_knowledge_entry", &both),
        Plan::Call(ToolCall::UpdateKnowledgeEntry { entry_id }) if entry_id == "e"
    ));
    let no_entry = object(vec![("collection_id", text("c"))]);
    assert_eq!(failure(plan_tool("delete_knowledge_entry", &no_entry)).1, "Invalid params: missing entry_id");
    assert_eq!(failure(plan_tool("update_knowledge_entry", &no_entry)).1, "Invalid params: missing entry_id");
    let no_content = object(vec![("collection_id", text("c")), ("entry_id", text("e"))]);
    assert_eq!(failure(plan_tool("update_knowledge_entry", &no_content)).1, "Invalid params: missing content");
    assert_eq!(
        failure(plan_tool("delete_knowledge_entry", &object(vec![]))).1,
        "Invalid params: missing collection_id"
    );
    assert!(matches!(plan_tool("list_collections", &JsonValue::Null), Plan::Call(ToolCall::ListCollections)));
    let create = object(vec![("collection_id", text("new")), ("vector_size", whole(3))]);
    assert!(matches!(
        plan_tool("create_collection", &create),
        Plan::Call(ToolCall::CreateCollection { collection_id, vector_size: 3 }) if collection_id == "new"
    ));
    let create = object(vec![("collection_id", text("new"))]);
    assert!(matches!(
        plan_tool("create_collection", &create),
        Plan::Call(ToolCall::CreateCollection { vector_size: DEFAULT_VECTOR_SIZE, .. })
    ));
    assert_eq!(
        failure(plan_tool("create_collection", &object(vec![]))).1,
        "Invalid params: missing collection_id"
    );
}

#[test]
fn read_resource_plans() {
    match plan_request(&read(text("knowledge://collections/general"))) {
        Plan::ReadCollection { uri, collection_id } => {
            assert_eq!(uri, "knowledge://collections/general");
            assert_eq!(collection_id, "general");
        }
        other => panic!("unexpected: {:?}", other),
    }
    assert!(matches!(
        plan_read(&read(text("knowledge://collections/"))),
        Plan::ReadCollection { collection_id, .. } if collection_id.is_empty()
    ));
    assert_eq!(
        failure(plan_read(&read(text("http://x")))),
        (-32602, "Invalid URI: http://x".to_string())
    );
    assert_eq!(
        failure(plan_read(&read(text("knowledge://collections")))),
        (-32602, "Unknown resource: knowledge://collections".to_string())
    );
    assert_eq!(failure(plan_read(&read(whole(1)))).1, "Invalid URI: ");
    assert_eq!(
        failure(plan_read(&object(vec![("params", object(vec![]))]))).1,
        "Invalid params: missing uri"
    );
    assert_eq!(failure(plan_read(&object(vec![]))).1, "Invalid params: missing params");
}

#[test]
fn values_as_text_and_counts() {
    assert_eq!(value_text(&text("a")), "a");
    assert_eq!(value_text(&whole(1)), "");
    assert_eq!(value_text(&JsonValue::Null), "");
    assert_eq!(value_count(&whole(0)), Some(0));
    assert_eq!(value_count(&whole(7)), Some(7));
    assert_eq!(value_count(&whole(u64::MAX)), Some(usize::MAX));
    assert_eq!(value_count(&JsonValue::Number(JsonNumber::NegInt(-1))), None);
    assert_eq!(value_count(&JsonValue::Number(JsonNumber::Float(2.0f64.to_bits()))), None);
    assert_eq!(value_count(&text("7")), None);
    let c = |s: &str| s.chars().collect::<Vec<char>>();
    assert!(has_prefix(&c("abc"), &c("ab")));
    assert!(has_prefix(&c("abc"), &c("")));
    assert!(has_prefix(&c("abc"), &c("abc")));
    assert!(!has_prefix(&c("abc"), &c("abcd")));
    assert!(!has_prefix(&c("abc"), &c("b")));
}
