use transformrs::chat::chat_body;
use transformrs::chat::chat_request;
use transformrs::credentials::matches_credential;
use transformrs::provider::chat_address;
use transformrs::provider::models_address;
use transformrs::provider::openai_base_url;
use transformrs::request::is_header_value;
use transformrs::request::request_headers;
use transformrs::ApiError;
use transformrs::Json;
use transformrs::Key;
use transformrs::Keys;
use transformrs::Message;
use transformrs::Provider;

fn key(provider: Provider, secret: &str) -> Key {
    Key { provider, key: secret.to_string() }
}

#[test]
fn domains_and_key_names() {
    assert_eq!(Provider::DeepInfra.domain(), "https://api.deepinfra.com");
    assert_eq!(Provider::Google.domain(), "https://generativelanguage.googleapis.com");
    assert_eq!(Provider::Other("https://x.example".to_string()).domain(), "https://x.example");
    assert_eq!(Provider::DeepInfra.key_name(), "DEEPINFRA_KEY");
    assert_eq!(Provider::FriendliAI.key_name(), "FRIENDLIAI_KEY");
    assert_eq!(Provider::Other("https://x.example".to_string()).key_name(), "OTHER_KEY");
}

#[test]
fn openai_base_paths() {
    assert_eq!(openai_base_url(&Provider::Groq), "https://api.groq.com/openai/v1");
    assert_eq!(openai_base_url(&Provider::OpenAI), "https://api.openai.com/v1");
    assert_eq!(openai_base_url(&Provider::Hyperbolic), "https://api.hyperbolic.xyz/v1");
    assert_eq!(openai_base_url(&Provider::Google), "https://generativelanguage.googleapis.com/v1beta/openai");
    assert_eq!(openai_base_url(&Provider::DeepInfra), "https://api.deepinfra.com/v1/openai");
    let other = Provider::Other("https://api.deepinfra.com/v1/openai".to_string());
    assert_eq!(openai_base_url(&other), "https://api.deepinfra.com/v1/openai");
    assert_eq!(chat_address(&Provider::Groq), "https://api.groq.com/openai/v1/chat/completions");
    assert_eq!(models_address(&Provider::OpenAI), "https://api.openai.com/v1/models");
}

#[test]
fn deepinfra_chat_request_end_to_end() {
    let k = key(Provider::DeepInfra, "sk-1");
    let messages = vec![Message::from_str("user", "hi")];
    let req = chat_request(&Provider::DeepInfra, &k, "m", &messages, false).unwrap();
    assert!(req.url.starts_with(&Provider::DeepInfra.domain()));
    assert!(req.url.ends_with("/v1/openai/chat/completions"));
    assert_eq!(
        req.headers,
        vec![
            ("Authorization".to_string(), "Bearer sk-1".to_string()),
            ("Content-Type".to_string(), "application/json".to_string()),
        ]
    );
    assert!(!req.use_rustls);
    match &req.body {
        Json::Object(fields) => {
            let keys: Vec<&str> = fields.iter().map(|(k, _)| k.as_str()).collect();
            assert_eq!(keys, vec!["model", "messages", "stream"]);
        }
        _ => panic!("body is not an object"),
    }
    match req.body.get("model") {
        Some(Json::Str(m)) => assert_eq!(m, "m"),
        _ => panic!("no model"),
    }
    match req.body.get("stream") {
        Some(Json::Bool(b)) => assert!(!*b),
        _ => panic!("no stream flag"),
    }
    match req.body.get("messages") {
        Some(Json::Array(items)) => {
            assert_eq!(items.len(), 1);
            match (items[0].get("role"), items[0].get("content")) {
                (Some(Json::Str(r)), Some(Json::Str(c))) => {
                    assert_eq!(r, "user");
                    assert_eq!(c, "hi");
                }
                _ => panic!("message shape"),
            }
        }
        _ => panic!("no messages"),
    }
}

#[test]
fn google_chat_uses_rustls_and_streams() {
    let k = key(Provider::Google, "g");
    let req = chat_request(&Provider::Google, &k, "gemini", &[], true).unwrap();
    assert!(req.use_rustls);
    match req.body.get("stream") {
        Some(Json::Bool(b)) => assert!(*b),
        _ => panic!("no stream flag"),
    }
    match chat_body("gemini", &[], true).get("messages") {
        Some(Json::Array(items)) => assert!(items.is_empty()),
        _ => panic!("no messages"),
    }
}

#[test]
fn secret_with_a_newline_cannot_be_a_header() {
    let k = key(Provider::OpenAI, "bad\nsecret");
    match request_headers(&k) {
        Err(ApiError::HeaderConstruction { name }) => assert_eq!(name, "Authorization"),
        other => panic!("unexpected: {:?}", other),
    }
    assert!(chat_request(&Provider::OpenAI, &k, "m", &[], false).is_err());
    assert!(is_header_value("tab\tand space and \u{e9}"));
    assert!(!is_header_value("del\u{7f}"));
}

#[test]
fn custom_provider_uses_any_custom_key() {
    let keys = Keys::new(vec![
        key(Provider::OpenAI, "openai-secret"),
        key(Provider::Other(String::new()), "other-secret"),
    ]);
    let custom = Provider::Other("https://x.example".to_string());
    assert_eq!(keys.for_provider(&custom).unwrap().key, "other-secret");
    assert_eq!(keys.for_provider(&Provider::OpenAI).unwrap().key, "openai-secret");
    assert!(keys.for_provider(&Provider::Groq).is_none());
    assert!(matches_credential(&custom, &Provider::Other("https://y.example".to_string())));
    assert!(!matches_credential(&custom, &Provider::OpenAI));
    assert!(!matches_credential(&Provider::OpenAI, &custom));
}

#[test]
fn custom_provider_ignores_named_vendor_keys() {
    let keys = Keys::new(vec![key(Provider::DeepInfra, "d"), key(Provider::OpenAI, "o")]);
    assert!(keys.for_provider(&Provider::Other("https://x.example".to_string())).is_none());
}

#[test]
fn first_matching_key_wins() {
    let keys = Keys::new(vec![key(Provider::Groq, "first"), key(Provider::Groq, "second")]);
    assert_eq!(keys.for_provider(&Provider::Groq).unwrap().key, "first");
}

#[test]
fn provider_equality() {
    assert_eq!(Provider::Groq, Provider::Groq);
    assert_ne!(Provider::Groq, Provider::OpenAI);
    assert_eq!(Provider::Other("a".to_string()), Provider::Other("a".to_string()));
    assert_ne!(Provider::Other("a".to_string()), Provider::Other("b".to_string()));
    assert!(Provider::Google.needs_rustls());
    assert!(!Provider::Groq.needs_rustls());
}

