use transformrs::text_to_image::tti_address;
use transformrs::text_to_image::tti_body;
use transformrs::text_to_image::tti_request;
use transformrs::text_to_image::Base64Image;
use transformrs::text_to_image::ImageResponse;
use transformrs::text_to_image::TTIConfig;
use transformrs::ApiError;
use transformrs::Json;
use transformrs::Key;
use transformrs::Provider;

fn image(text: &str) -> Base64Image {
    Base64Image { index: 0, random_seed: None, image: text.to_string() }
}

fn obj(pairs: Vec<(&str, Json)>) -> Json {
    Json::Object(pairs.into_iter().map(|(k, v)| (k.to_string(), v)).collect())
}

#[test]
fn data_url_types() {
    let png = image("data:image/png;base64,SGVsbG8=").base64_decode().unwrap();
    assert_eq!(png.filetype, "png");
    assert_eq!(png.image, b"Hello".to_vec());
    let jpeg = image("data:image/jpeg;base64,SGVsbG8=").base64_decode().unwrap();
    assert_eq!(jpeg.filetype, "jpg");
    let webp = image("data:image/webp;base64,SGVsbG8=").base64_decode().unwrap();
    assert_eq!(webp.filetype, "unknown");
    let bare = image("SGVsbG8=").base64_decode().unwrap();
    assert_eq!(bare.filetype, "unknown");
    assert_eq!(bare.image, b"Hello".to_vec());
}

#[test]
fn image_that_is_not_base64() {
    assert!(matches!(image("data:image/png;base64,***").base64_decode(), Err(ApiError::MalformedResponse { .. })));
}

#[test]
fn image_request() {
    let deepinfra = Key { provider: Provider::DeepInfra, key: "k".to_string() };
    assert_eq!(
        tti_address(&deepinfra, "black-forest-labs/FLUX-1-schnell"),
        "https://api.deepinfra.com/v1/inference/black-forest-labs/FLUX-1-schnell"
    );
    let hyperbolic = Key { provider: Provider::Hyperbolic, key: "k".to_string() };
    assert_eq!(tti_address(&hyperbolic, "FLUX.1-dev"), "https://api.hyperbolic.xyz/v1/image/generation");
    let cfg = TTIConfig::default();
    let body = tti_body(&cfg, "A beautiful sunset over a calm ocean.");
    match &body {
        Json::Object(fields) => {
            let keys: Vec<&str> = fields.iter().map(|(k, _)| k.as_str()).collect();
            assert_eq!(keys, vec!["model_name", "prompt", "steps", "cfg_scale", "height", "width"]);
        }
        _ => panic!("not an object"),
    }
    match body.get("height") {
        Some(Json::Number(n)) => assert_eq!(n, "128"),
        other => panic!("height is {:?}", other),
    }
    let partial = TTIConfig { model: "m".to_string(), steps: None, cfg_scale: Some(7), height: None, width: None };
    let req = tti_request(&hyperbolic, &partial, "p").unwrap();
    match &req.body {
        Json::Object(fields) => assert_eq!(fields.len(), 3),
        _ => panic!("not an object"),
    }
}

#[test]
fn deepinfra_image_envelope() {
    let body = obj(vec![("images", Json::Array(vec![Json::Str("data:image/png;base64,SGVsbG8=".to_string())]))]);
    let resp = ImageResponse::new(Provider::DeepInfra, 200, b"{}".to_vec());
    let images = resp.structured(Some(body), "").unwrap();
    assert_eq!(images.images.len(), 1);
    assert_eq!(images.images[0].index, 0);
    assert_eq!(images.images[0].base64_decode().unwrap().filetype, "png");
}

#[test]
fn deepinfra_image_error() {
    let raw = b"{\"detail\":{\"error\":\"Model is not available\"}}".to_vec();
    let body = obj(vec![("detail", obj(vec![("error", Json::Str("Model is not available".to_string()))]))]);
    let resp = ImageResponse::new(Provider::DeepInfra, 200, raw);
    match resp.structured(Some(body), "") {
        Err(e) => assert!(e.describe().contains("Model is not available")),
        Ok(_) => panic!("expected an error"),
    }
}

#[test]
fn generic_image_result() {
    let record = obj(vec![
        ("index", Json::Number("0".to_string())),
        ("random_seed", Json::Number("12".to_string())),
        ("image", Json::Str("SGVsbG8=".to_string())),
    ]);
    let body = obj(vec![("images", Json::Array(vec![record]))]);
    let resp = ImageResponse::new(Provider::Hyperbolic, 200, b"{}".to_vec());
    let images = resp.structured(Some(body), "").unwrap();
    assert_eq!(images.images[0].random_seed, Some(12));
    let resp = ImageResponse::new(Provider::Hyperbolic, 200, b"{}".to_vec());
    match resp.structured(Some(obj(vec![])), "") {
        Err(ApiError::ProviderError { message }) => assert_eq!(message, "Unknown error: {}"),
        other => panic!("unexpected: {:?}", other),
    }
}

#[test]
fn image_error_envelopes() {
    let body = obj(vec![("error", obj(vec![("message", Json::Str("quota exceeded".to_string()))]))]);
    let resp = ImageResponse::new(Provider::Hyperbolic, 429, b"{...}".to_vec());
    match resp.structured(Some(body), "") {
        Err(ApiError::ProviderError { message }) => assert_eq!(message, "quota exceeded"),
        other => panic!("unexpected: {:?}", other),
    }
    let resp = ImageResponse::new(Provider::DeepInfra, 422, b"{\"detail\":\"x\"}".to_vec());
    match resp.structured(Some(obj(vec![("detail", Json::Str("x".to_string()))])), "") {
        Err(ApiError::ProviderError { message }) => assert_eq!(message, "DeepInfra returned an error: \"x\""),
        other => panic!("unexpected: {:?}", other),
    }
    let resp = ImageResponse::new(Provider::DeepInfra, 502, b"  ".to_vec());
    match resp.structured(None, "EOF") {
        Err(ApiError::EmptyResponse { status }) => assert_eq!(status, 502),
        other => panic!("unexpected: {:?}", other),
    }
}
