//! Requests to the knowledge service: what a request asks for, or why it
//! cannot be served.
//!
//! A request is a JSON object with a `method`, and `params` that depend on
//! the method. The library reads the request and plans the answer; the
//! caller reads and writes the JSON text and calls the store.

use vstd::prelude::*;
use crate::json::{json_get, JsonModel, JsonNumber, JsonValue};
use crate::strings::{chars_of, copy_range, string_from_chars};

verus! {

/// The request is not a valid request.
pub const INVALID_REQUEST: i64 = -32600;

/// The method or the tool does not exist.
pub const NOT_FOUND: i64 = -32601;

/// The parameters are not valid.
pub const INVALID_PARAMS: i64 = -32602;

/// The number of results of a search that names no limit.
pub const DEFAULT_LIMIT: usize = 10;

/// The length of the embeddings of a collection that names none.
pub const DEFAULT_VECTOR_SIZE: usize = 384;

/// What a request asks of the store.
#[derive(Debug)]
pub enum ToolCall {
    /// Store a text in a collection.
    AddKnowledgeEntry { collection_id: String, content: String },
    /// Search a collection.
    SearchKnowledge { collection_id: String, limit: usize },
    /// Remove an entry.
    DeleteKnowledgeEntry { entry_id: String },
    /// Replace an entry.
    UpdateKnowledgeEntry { entry_id: String },
    /// Name the collections.
    ListCollections,
    /// Create a collection.
    CreateCollection { collection_id: String, vector_size: usize },
}

/// What to do with a request.
#[derive(Debug)]
pub enum Plan {
    /// Answer with an error.
    Fail { code: i64, message: String },
    /// Call the store and answer with what it gives.
    Call(ToolCall),
    /// Answer with the collection that a resource names.
    ReadCollection { uri: String, collection_id: String },
}

/// The mathematical value of a `ToolCall`.
pub enum ToolCallModel {
    AddKnowledgeEntry { collection_id: Seq<char>, content: Seq<char> },
    SearchKnowledge { collection_id: Seq<char>, limit: nat },
    DeleteKnowledgeEntry { entry_id: Seq<char> },
    UpdateKnowledgeEntry { entry_id: Seq<char> },
    ListCollections,
    CreateCollection { collection_id: Seq<char>, vector_size: nat },
}

/// The mathematical value of a `Plan`.
pub enum PlanModel {
    Fail { code: int, message: Seq<char> },
    Call(ToolCallModel),
    ReadCollection { uri: Seq<char>, collection_id: Seq<char> },
}

impl View for ToolCall {
    type V = ToolCallModel;

    open spec fn view(&self) -> ToolCallModel {
        match self {
            ToolCall::AddKnowledgeEntry { collection_id, content } => {
                ToolCallModel::AddKnowledgeEntry {
                    collection_id: collection_id@,
                    content: content@,
                }
            },
            ToolCall::SearchKnowledge { collection_id, limit } => ToolCallModel::SearchKnowledge {
                collection_id: collection_id@,
                limit: *limit as nat,
            },
            ToolCall::DeleteKnowledgeEntry { entry_id } => ToolCallModel::DeleteKnowledgeEntry {
                entry_id: entry_id@,
            },
            ToolCall::UpdateKnowledgeEntry { entry_id } => ToolCallModel::UpdateKnowledgeEntry {
                entry_id: entry_id@,
            },
            ToolCall::ListCollections => ToolCallModel::ListCollections,
            ToolCall::CreateCollection { collection_id, vector_size } => {
                ToolCallModel::CreateCollection {
                    collection_id: collection_id@,
                    vector_size: *vector_size as nat,
                }
            },
        }
    }
}

impl View for Plan {
    type V = PlanModel;

    open spec fn view(&self) -> PlanModel {
        match self {
            Plan::Fail { code, message } => PlanModel::Fail {
                code: *code as int,
                message: message@,
            },
            Plan::Call(call) => PlanModel::Call(call@),
            Plan::ReadCollection { uri, collection_id } => PlanModel::ReadCollection {
                uri: uri@,
                collection_id: collection_id@,
            },
        }
    }
}

/// The text of a value: its characters where it is a string, and nothing
/// where it is not.
pub open spec fn text_of(value: JsonModel) -> Seq<char> {
    match value {
        JsonModel::String(s) => s,
        _ => Seq::empty(),
    }
}

/// The number of a value, where it is a whole number that is not negative
/// and fits `usize`; the largest `usize` where it is too large.
pub open spec fn count_of(value: JsonModel) -> Option<nat> {
    match value {
        JsonModel::Number(JsonNumber::PosInt(n)) => Some(
            if n > usize::MAX {
                usize::MAX as nat
            } else {
                n as nat
            },
        ),
        _ => None,
    }
}

/// The failure for a parameter that is missing.
pub open spec fn missing(what: Seq<char>) -> PlanModel {
    PlanModel::Fail { code: INVALID_PARAMS as int, message: "Invalid params: missing "@ + what }
}

/// The number under a name, or a default where the value is no count or is
/// missing.
pub open spec fn count_or(arguments: JsonModel, name: Seq<char>, default: nat) -> nat {
    match json_get(arguments, name) {
        Some(value) => match count_of(value) {
            Some(n) => n,
            None => default,
        },
        None => default,
    }
}

/// The plan for a call of the tool of this name.
pub open spec fn planned_tool(name: Seq<char>, arguments: JsonModel) -> PlanModel {
    if name == "add_knowledge_entry"@ {
        match json_get(arguments, "collection_id"@) {
            None => missing("collection_id"@),
            Some(collection) => match json_get(arguments, "title"@) {
                None => missing("title"@),
                Some(_) => match json_get(arguments, "content"@) {
                    None => missing("content"@),
                    Some(content) => PlanModel::Call(
                        ToolCallModel::AddKnowledgeEntry {
                            collection_id: text_of(collection),
                            content: text_of(content),
                        },
                    ),
                },
            },
        }
    } else if name == "search_knowledge"@ {
        match json_get(arguments, "query"@) {
            None => missing("query"@),
            Some(_) => match json_get(arguments, "collection_id"@) {
                None => missing("collection_id"@),
                Some(collection) => PlanModel::Call(
                    ToolCallModel::SearchKnowledge {
                        collection_id: text_of(collection),
                        limit: count_or(arguments, "limit"@, DEFAULT_LIMIT as nat),
                    },
                ),
            },
        }
    } else if name == "delete_knowledge_entry"@ {
        match json_get(arguments, "collection_id"@) {
            None => missing("collection_id"@),
            Some(_) => match json_get(arguments, "entry_id"@) {
                None => missing("entry_id"@),
                Some(entry) => PlanModel::Call(
                    ToolCallModel::DeleteKnowledgeEntry { entry_id: text_of(entry) },
                ),
            },
        }
    } else if name == "update_knowledge_entry"@ {
        match json_get(arguments, "collection_id"@) {
            None => missing("collection_id"@),
            Some(_) => match json_get(arguments, "entry_id"@) {
                None => missing("entry_id"@),
                Some(entry) => match json_get(arguments, "content"@) {
                    None => missing("content"@),
                    Some(_) => PlanModel::Call(
                        ToolCallModel::UpdateKnowledgeEntry { entry_id: text_of(entry) },
                    ),
                },
            },
        }
    } else if name == "list_collections"@ {
        PlanModel::Call(ToolCallModel::ListCollections)
    } else if name == "create_collection"@ {
        match json_get(arguments, "collection_id"@) {
            None => missing("collection_id"@),
            Some(collection) => PlanModel::Call(
                ToolCallModel::CreateCollection {
                    collection_id: text_of(collection),
                    vector_size: count_or(arguments, "vector_size"@, DEFAULT_VECTOR_SIZE as nat),
                },
            ),
        }
    } else {
        PlanModel::Fail { code: NOT_FOUND as int, message: "Tool not found: "@ + name }
    }
}

/// The plan for a `CallTool` request.
pub open spec fn planned_call(request: JsonModel) -> PlanModel {
    match json_get(request, "params"@) {
        None => missing("params"@),
        Some(params) => match json_get(params, "name"@) {
            None => missing("tool name"@),
            Some(name) => match json_get(params, "arguments"@) {
                None => missing("arguments"@),
                Some(arguments) => planned_tool(text_of(name), arguments),
            },
        },
    }
}

/// Whether a text begins with a prefix.
pub open spec fn begins_with(text: Seq<char>, prefix: Seq<char>) -> bool {
    text.len() >= prefix.len() && text.take(prefix.len() as int) == prefix
}

/// The plan for a `ReadResource` request.
pub open spec fn planned_read(request: JsonModel) -> PlanModel {
    match json_get(request, "params"@) {
        None => missing("params"@),
        Some(params) => match json_get(params, "uri"@) {
            None => missing("uri"@),
            Some(value) => {
                let uri = text_of(value);
                if !begins_with(uri, "knowledge://"@) {
                    PlanModel::Fail {
                        code: INVALID_PARAMS as int,
                        message: "Invalid URI: "@ + uri,
                    }
                } else if begins_with(uri, "knowledge://collections/"@) {
                    PlanModel::ReadCollection {
                        uri,
                        collection_id: uri.skip("knowledge://collections/"@.len() as int),
                    }
                } else {
                    PlanModel::Fail {
                        code: INVALID_PARAMS as int,
                        message: "Unknown resource: "@ + uri,
                    }
                }
            },
        },
    }
}

/// The plan for a request.
pub open spec fn planned(request: JsonModel) -> PlanModel {
    match json_get(request, "method"@) {
        None => PlanModel::Fail {
            code: INVALID_REQUEST as int,
            message: "Invalid request: missing method"@,
        },
        Some(method) => if text_of(method) == "CallTool"@ {
            planned_call(request)
        } else if text_of(method) == "ReadResource"@ {
            planned_read(request)
        } else {
            PlanModel::Fail {
                code: NOT_FOUND as int,
                message: "Method not found: "@ + text_of(method),
            }
        },
    }
}

/// The value under a name.
fn field<'a>(value: &'a JsonValue, name: &str) -> (r: Option<&'a JsonValue>)
    ensures
        r is Some <==> json_get(value@, name@) is Some,
        r is Some ==> r.unwrap()@ == json_get(value@, name@).unwrap(),
{
    let key: String = name.to_owned();
    value.get(&key)
}

/// The text of a value.
pub fn value_text(value: &JsonValue) -> (text: String)
    ensures
        text@ == text_of(value@),
{
    match value {
        JsonValue::String(s) => s.clone(),
        _ => String::new(),
    }
}

/// The count that a value holds.
pub fn value_count(value: &JsonValue) -> (r: Option<usize>)
    ensures
        match count_of(value@) {
            Some(n) => r == Some(n as usize),
            None => r is None,
        },
{
    match value {
        JsonValue::Number(JsonNumber::PosInt(n)) => {
            if *n > usize::MAX as u64 {
                Some(usize::MAX)
            } else {
                Some(*n as usize)
            }
        },
        _ => None,
    }
}

/// The count under a name, or a default.
fn count_field(arguments: &JsonValue, name: &str, default: usize) -> (n: usize)
    ensures
        n == count_or(arguments@, name@, default as nat),
{
    match field(arguments, name) {
        Some(value) => match value_count(value) {
            Some(n) => n,
            None => default,
        },
        None => default,
    }
}

/// A failure with a message made of a heading and a detail.
fn fail_with(code: i64, heading: &str, detail: &str) -> (plan: Plan)
    ensures
        plan@ == (PlanModel::Fail { code: code as int, message: heading@ + detail@ }),
{
    let mut message: String = heading.to_owned();
    message.append(detail);
    Plan::Fail { code, message }
}

/// The failure for a parameter that is missing.
fn fail_missing(what: &str) -> (plan: Plan)
    ensures
        plan@ == missing(what@),
{
    fail_with(INVALID_PARAMS, "Invalid params: missing ", what)
}

/// Plans a call of the tool of this name.
pub fn plan_tool(name: &str, arguments: &JsonValue) -> (plan: Plan)
    ensures
        plan@ == planned_tool(name@, arguments@),
{
    let tool: String = name.to_owned();
    if tool == "add_knowledge_entry".to_owned() {
        let collection = match field(arguments, "collection_id") {
            None => {
                return fail_missing("collection_id");
            },
            Some(value) => value,
        };
        if field(arguments, "title").is_none() {
            return fail_missing("title");
        }
        let content = match field(arguments, "content") {
            None => {
                return fail_missing("content");
            },
            Some(value) => value,
        };
        Plan::Call(
            ToolCall::AddKnowledgeEntry {
                collection_id: value_text(collection),
                content: value_text(content),
            },
        )
    } else if tool == "search_knowledge".to_owned() {
        if field(arguments, "query").is_none() {
            return fail_missing("query");
        }
        let collection = match field(arguments, "collection_id") {
            None => {
                return fail_missing("collection_id");
            },
            Some(value) => value,
        };
        Plan::Call(
            ToolCall::SearchKnowledge {
                collection_id: value_text(collection),
                limit: count_field(arguments, "limit", DEFAULT_LIMIT),
            },
        )
    } else if tool == "delete_knowledge_entry".to_owned() {
        if field(arguments, "collection_id").is_none() {
            return fail_missing("collection_id");
        }
        let entry = match field(arguments, "entry_id") {
            None => {
                return fail_missing("entry_id");
            },
            Some(value) => value,
        };
        Plan::Call(ToolCall::DeleteKnowledgeEntry { entry_id: value_text(entry) })
    } else if tool == "update_knowledge_entry".to_owned() {
        if field(arguments, "collection_id").is_none() {
            return fail_missing("collection_id");
        }
        let entry = match field(arguments, "entry_id") {
            None => {
                return fail_missing("entry_id");
            },
            Some(value) => value,
        };
        if field(arguments, "content").is_none() {
            return fail_missing("content");
        }
        Plan::Call(ToolCall::UpdateKnowledgeEntry { entry_id: value_text(entry) })
    } else if tool == "list_collections".to_owned() {
        Plan::Call(ToolCall::ListCollections)
    } else if tool == "create_collection".to_owned() {
        let collection = match field(arguments, "collection_id") {
            None => {
                return fail_missing("collection_id");
            },
            Some(value) => value,
        };
        Plan::Call(
            ToolCall::CreateCollection {
                collection_id: value_text(collection),
                vector_size: count_field(arguments, "vector_size", DEFAULT_VECTOR_SIZE),
            },
        )
    } else {
        fail_with(NOT_FOUND, "Tool not found: ", name)
    }
}

/// Plans a `CallTool` request.
pub fn plan_call(request: &JsonValue) -> (plan: Plan)
    ensures
        plan@ == planned_call(request@),
{
    let params = match field(request, "params") {
        None => {
            return fail_missing("params");
        },
        Some(value) => value,
    };
    let name = match field(params, "name") {
        None => {
            return fail_missing("tool name");
        },
        Some(value) => value,
    };
    let arguments = match field(params, "arguments") {
        None => {
            return fail_missing("arguments");
        },
        Some(value) => value,
    };
    let tool = value_text(name);
    plan_tool(tool.as_str(), arguments)
}

/// Tests whether a text begins with a prefix.
pub fn has_prefix(text: &Vec<char>, prefix: &Vec<char>) -> (r: bool)
    ensures
        r == begins_with(text@, prefix@),
{
    if text.len() < prefix.len() {
        return false;
    }
    let mut i: usize = 0;
    while i < prefix.len()
        invariant
            i <= prefix.len() <= text.len(),
            forall|k: int| 0 <= k < i ==> text[k] == prefix[k],
        decreases prefix.len() - i,
    {
        if text[i] != prefix[i] {
            assert(text@.take(prefix.len() as int)[i as int] != prefix@[i as int]);
            return false;
        }
        i += 1;
    }
    assert(text@.take(prefix.len() as int) =~= prefix@);
    true
}

/// Plans a `ReadResource` request.
pub fn plan_read(request: &JsonValue) -> (plan: Plan)
    ensures
        plan@ == planned_read(request@),
{
    let params = match field(request, "params") {
        None => {
            return fail_missing("params");
        },
        Some(value) => value,
    };
    let value = match field(params, "uri") {
        None => {
            return fail_missing("uri");
        },
        Some(value) => value,
    };
    let uri = value_text(value);
    let text = chars_of(uri.as_str());
    if !has_prefix(&text, &chars_of("knowledge://")) {
        return fail_with(INVALID_PARAMS, "Invalid URI: ", uri.as_str());
    }
    let collections = chars_of("knowledge://collections/");
    if has_prefix(&text, &collections) {
        let rest = copy_range(&text, collections.len(), text.len());
        assert(rest@ =~= text@.skip(collections.len() as int));
        Plan::ReadCollection { uri, collection_id: string_from_chars(&rest) }
    } else {
        fail_with(INVALID_PARAMS, "Unknown resource: ", uri.as_str())
    }
}

/// Plans the answer to a request.
///
/// A request without a method and a request for a method that does not
/// exist fail. A `CallTool` request names a tool and its arguments; it
/// fails where one of them, or an argument that the tool needs, is
/// missing, or the tool does not exist. A `ReadResource` request names a
/// resource; it fails unless that is a collection.
pub fn plan_request(request: &JsonValue) -> (plan: Plan)
    ensures
        plan@ == planned(request@),
{
    let method = match field(request, "method") {
        None => {
            return Plan::Fail {
                code: INVALID_REQUEST,
                message: "Invalid request: missing method".to_owned(),
            };
        },
        Some(value) => value_text(value),
    };
    if method == "CallTool".to_owned() {
        plan_call(request)
    } else if method == "ReadResource".to_owned() {
        plan_read(request)
    } else {
        fail_with(NOT_FOUND, "Method not found: ", method.as_str())
    }
}

} // verus!
