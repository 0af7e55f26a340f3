use transformrs::chat::extract_error;
use transformrs::chat::normalize;
use transformrs::chat::ChatCompletionResponse;
use transformrs::ApiError;
use transformrs::Json;

fn s(x: &str) -> Json {
    Json::Str(x.to_string())
}

fn n(x: &str) -> Json {
    Json::Number(x.to_string())
}

fn obj(pairs: Vec<(&str, Json)>) -> Json {
    Json::Object(pairs.into_iter().map(|(k, v)| (k.to_string(), v)).collect())
}

fn completion_json() -> Json {
    obj(vec![
        ("id", s("cmpl-1")),
        ("object", s("chat.completion")),
        ("created", n("1700000001")),
        ("model", s("m")),
        (
            "choices",
            Json::Array(vec![obj(vec![
                ("index", n("0")),
                ("message", obj(vec![("role", s("assistant")), ("content", s("hello world"))])),
                ("logprobs", Json::Null),
                ("finish_reason", s("stop")),
            ])]),
        ),
        ("usage", obj(vec![("prompt_tokens", n("5")), ("completion_tokens", n("2")), ("total_tokens", n("7"))])),
    ])
}

#[test]
fn nested_error_message_wins() {
    let body = obj(vec![("error", obj(vec![("message", s("m1"))])), ("message", s("m2"))]);
    let raw = "{\"error\":{\"message\":\"m1\"},\"message\":\"m2\"}";
    assert_eq!(extract_error(&body, raw), "m1");
    let r = normalize::<u8>(400, raw.as_bytes(), None, Some(body), "");
    match r {
        Err(ApiError::ProviderError { message }) => assert_eq!(message, "m1"),
        other => panic!("unexpected: {:?}", other),
    }
}

#[test]
fn top_level_message_is_second() {
    let body = obj(vec![("message", s("m2"))]);
    let raw = "{\"message\":\"m2\"}";
    match normalize::<u8>(404, raw.as_bytes(), None, Some(body), "") {
        Err(ApiError::ProviderError { message }) => assert_eq!(message, "m2"),
        other => panic!("unexpected: {:?}", other),
    }
}

#[test]
fn unknown_error_quotes_the_body() {
    let body = obj(vec![("detail", s("nope"))]);
    let raw = "{\"detail\":\"nope\"}";
    match normalize::<u8>(500, raw.as_bytes(), None, Some(body), "") {
        Err(ApiError::ProviderError { message }) => {
            assert!(message.starts_with("Unknown error: "));
            assert!(message.contains(raw));
        }
        other => panic!("unexpected: {:?}", other),
    }
}

#[test]
fn message_that_is_not_a_string_gives_the_body() {
    let body = obj(vec![("error", obj(vec![("message", n("3"))]))]);
    let raw = "{\"error\":{\"message\":3}}";
    assert_eq!(extract_error(&body, raw), raw);
}

#[test]
fn empty_body_is_empty_response_for_any_status() {
    for status in [200u16, 204, 400, 500] {
        match normalize::<u8>(status, &[], Some(1), None, "") {
            Err(ApiError::EmptyResponse { status: s }) => assert_eq!(s, status),
            other => panic!("unexpected: {:?}", other),
        }
    }
    match normalize::<u8>(200, b" \r\n\t", None, None, "eof") {
        Err(ApiError::EmptyResponse { status }) => assert_eq!(status, 200),
        other => panic!("unexpected: {:?}", other),
    }
}

#[test]
fn expected_result_wins_over_envelope() {
    let r = normalize::<u8>(200, b"{}", Some(9), Some(obj(vec![])), "");
    assert_eq!(r.unwrap(), 9);
}

#[test]
fn unparseable_body_is_malformed() {
    match normalize::<u8>(502, b"<html>bad gateway</html>", None, None, "expected value at line 1 column 1") {
        Err(ApiError::MalformedResponse { parse_error, raw_text }) => {
            assert_eq!(parse_error, "expected value at line 1 column 1");
            assert_eq!(raw_text, "<html>bad gateway</html>");
        }
        other => panic!("unexpected: {:?}", other),
    }
}

#[test]
fn completion_response_is_read() {
    let resp = ChatCompletionResponse::new(200, b"{...}".to_vec());
    assert_eq!(resp.status(), 200);
    let c = resp.structured(Some(completion_json()), "").unwrap();
    assert_eq!(c.object, "chat.completion");
    assert_eq!(c.choices.len(), 1);
    assert_eq!(c.usage.total_tokens, 7);
    assert_eq!(c.choices[0].finish_reason.as_deref(), Some("stop"));
    match &c.choices[0].message.content {
        transformrs::Content::Text(t) => assert_eq!(t, "hello world"),
        _ => panic!("content"),
    }
}

#[test]
fn completion_response_with_error_envelope() {
    let body = obj(vec![("error", obj(vec![("message", s("The model `foo` does not exist"))]))]);
    let resp = ChatCompletionResponse::new(404, b"{\"error\":{}}".to_vec());
    match resp.structured(Some(body), "") {
        Err(e) => assert!(e.describe().contains("does not exist")),
        Ok(_) => panic!("expected an error"),
    }
}

#[test]
fn error_descriptions() {
    let e = ApiError::EmptyResponse { status: 503 };
    assert_eq!(e.describe(), "Received empty response with status code: 503");
    let e = ApiError::Transport { message: "connection reset".to_string() };
    assert_eq!(e.describe(), "transport error: connection reset");
    let e = ApiError::HeaderConstruction { name: "xi-api-key".to_string() };
    assert_eq!(e.describe(), "invalid value for header xi-api-key");
    let e = ApiError::MalformedResponse { parse_error: "eof".to_string(), raw_text: "{".to_string() };
    assert_eq!(e.describe(), "Error parsing response: eof in text: '{'");
}

#[test]
fn json_text_is_compact_and_escaped() {
    let v = obj(vec![
        ("a", Json::Array(vec![n("1"), Json::Null, Json::Bool(true), Json::Bool(false)])),
        ("b", s("q\"\\\n\t\u{1}\u{e9}/")),
        ("c", obj(vec![])),
        ("d", Json::Array(vec![])),
    ]);
    assert_eq!(v.to_text(), "{\"a\":[1,null,true,false],\"b\":\"q\\\"\\\\\\n\\t\\u0001\u{e9}/\",\"c\":{},\"d\":[]}");
}
