use transformrs::models::Model;
use transformrs::models::Models;
use transformrs::models::ModelsResponse;
use transformrs::ApiError;
use transformrs::Json;

fn listing(ids: &[&str]) -> Json {
    let items = ids
        .iter()
        .map(|id| Json::Object(vec![("id".to_string(), Json::Str(id.to_string()))]))
        .collect();
    Json::Object(vec![("data".to_string(), Json::Array(items))])
}

#[test]
fn listing_is_read_and_searched() {
    let models = ModelsResponse::new(listing(&["gpt-4o", "gpt-4o-mini"])).structured().unwrap();
    assert_eq!(models.models.len(), 2);
    assert!(models.contains("gpt-4o"));
    assert!(!models.contains("gpt-4"));
}

#[test]
fn listing_without_data_is_malformed() {
    let r = ModelsResponse::new(Json::Object(vec![])).structured();
    assert!(matches!(r, Err(ApiError::MalformedResponse { .. })));
}

#[test]
fn empty_models_contain_nothing() {
    let models = Models { models: vec![] };
    assert!(!models.contains(""));
    let one = Models { models: vec![Model { id: "llama3-8b-8192".to_string() }] };
    assert!(one.contains("llama3-8b-8192"));
}
