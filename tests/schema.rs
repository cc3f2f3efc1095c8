use agentai::schema::{response_schema, strip_schema_metadata, AnswerShape};
use serde_json::Value;

fn derived_schema() -> serde_json::Map<String, Value> {
    let mut m = serde_json::Map::new();
    m.insert("$schema".to_string(), Value::String("https://json-schema.org/draft/2020-12/schema".to_string()));
    m.insert("title".to_string(), Value::String("Answer".to_string()));
    m.insert("type".to_string(), Value::String("object".to_string()));
    m.insert("properties".to_string(), Value::Object(serde_json::Map::new()));
    m
}

#[test]
fn strip_removes_metadata_only() {
    let mut m = derived_schema();
    strip_schema_metadata(&mut m);
    let mut keys: Vec<&String> = m.keys().collect();
    keys.sort();
    assert_eq!(keys, vec!["properties", "type"]);
    assert_eq!(m["type"], Value::String("object".to_string()));
}

#[test]
fn structured_shape_gets_stripped_schema() {
    let out = response_schema(AnswerShape::Structured(derived_schema())).unwrap();
    assert!(!out.contains_key("$schema"));
    assert!(!out.contains_key("title"));
    assert!(out.contains_key("type"));
    assert!(response_schema(AnswerShape::Text).is_none());
}
