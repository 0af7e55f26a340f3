use transformrs::text_to_speech::tts_address;
use transformrs::text_to_speech::tts_body;
use transformrs::text_to_speech::tts_headers;
use transformrs::text_to_speech::tts_request;
use transformrs::text_to_speech::tts_supported;
use transformrs::text_to_speech::Speech;
use transformrs::text_to_speech::SpeechResponse;
use transformrs::text_to_speech::TTSConfig;
use transformrs::ApiError;
use transformrs::Json;
use transformrs::Key;
use transformrs::Provider;

fn s(x: &str) -> Json {
    Json::Str(x.to_string())
}

fn obj(pairs: Vec<(&str, Json)>) -> Json {
    Json::Object(pairs.into_iter().map(|(k, v)| (k.to_string(), v)).collect())
}

fn key(provider: Provider) -> Key {
    Key { provider, key: "secret".to_string() }
}

fn field_names(j: &Json) -> Vec<String> {
    match j {
        Json::Object(fields) => fields.iter().map(|(k, _)| k.clone()).collect(),
        _ => panic!("not an object"),
    }
}

fn str_at<'a>(j: &'a Json, k: &str) -> &'a str {
    match j.get(k) {
        Some(Json::Str(x)) => x.as_str(),
        other => panic!("{} is {:?}", k, other),
    }
}

#[test]
fn deepinfra_mp3_prefix_is_stripped() {
    let audio = "data:audio/mp3;base64,SGVsbG8=";
    let bytes = Speech::decode_speech(audio, &Provider::DeepInfra, Some("mp3")).unwrap();
    assert_eq!(bytes, b"Hello".to_vec());
}

#[test]
fn deepinfra_opus_prefix_is_stripped() {
    let audio = "data:audio/ogg; codec=\"opus\";base64,SGVsbG8=";
    let bytes = Speech::decode_speech(audio, &Provider::DeepInfra, Some("opus")).unwrap();
    assert_eq!(bytes, b"Hello".to_vec());
}

#[test]
fn prefix_of_another_format_is_rejected() {
    let audio = "data:audio/mp3;base64,SGVsbG8=";
    let r = Speech::decode_speech(audio, &Provider::DeepInfra, Some("opus"));
    assert!(matches!(r, Err(ApiError::MalformedResponse { .. })));
    let r = Speech::decode_speech(audio, &Provider::DeepInfra, Some("wav"));
    assert!(matches!(r, Err(ApiError::MalformedResponse { .. })));
}

#[test]
fn other_vendors_decode_bare_base64() {
    let bytes = Speech::decode_speech("SGVsbG8=", &Provider::Google, None).unwrap();
    assert_eq!(bytes, b"Hello".to_vec());
    let r = Speech::decode_speech("not base64!", &Provider::Hyperbolic, None);
    assert!(matches!(r, Err(ApiError::MalformedResponse { .. })));
}

#[test]
fn speech_addresses() {
    let cfg = TTSConfig::default();
    assert_eq!(
        tts_address(&Provider::DeepInfra, &key(Provider::DeepInfra), None, &cfg),
        "https://api.deepinfra.com/v1/inference/hexgrad/Kokoro-82M"
    );
    assert_eq!(
        tts_address(&Provider::DeepInfra, &key(Provider::DeepInfra), Some("foobar"), &cfg),
        "https://api.deepinfra.com/v1/inference/foobar"
    );
    assert_eq!(
        tts_address(&Provider::OpenAI, &key(Provider::OpenAI), None, &cfg),
        "https://api.openai.com/v1/audio/speech"
    );
    let other = Provider::Other("https://kokoros.transformrs.org".to_string());
    assert_eq!(tts_address(&other, &key(other.clone()), None, &cfg), "https://kokoros.transformrs.org/v1/audio/speech");
    assert_eq!(
        tts_address(&Provider::Google, &key(Provider::Google), None, &cfg),
        "https://texttospeech.googleapis.com/v1beta1/text:synthesize?key=secret"
    );
    let eleven = TTSConfig { voice: Some("nPczCjzI2devNBz1zQrb".to_string()), ..Default::default() };
    assert!(tts_address(&Provider::ElevenLabs, &key(Provider::ElevenLabs), None, &eleven)
        .ends_with("/v1/text-to-speech/nPczCjzI2devNBz1zQrb"));
    assert!(tts_supported(&Provider::Hyperbolic));
    assert!(!tts_supported(&Provider::Groq));
}

#[test]
fn speech_headers_per_vendor() {
    let google = tts_headers(&Provider::Google, &key(Provider::Google)).unwrap();
    assert_eq!(google, vec![("Content-Type".to_string(), "application/json".to_string())]);
    let eleven = tts_headers(&Provider::ElevenLabs, &key(Provider::ElevenLabs)).unwrap();
    assert_eq!(
        eleven,
        vec![
            ("Content-Type".to_string(), "application/json".to_string()),
            ("xi-api-key".to_string(), "secret".to_string()),
        ]
    );
    let openai = tts_headers(&Provider::OpenAI, &key(Provider::OpenAI)).unwrap();
    assert_eq!(openai[0], ("Authorization".to_string(), "Bearer secret".to_string()));
}

#[test]
fn openai_body_uses_input_and_voice() {
    let cfg = TTSConfig { voice: Some("alloy".to_string()), ..Default::default() };
    let body = tts_body(cfg, &Provider::OpenAI, Some("tts-1"), "Hello, world!");
    assert_eq!(field_names(&body), vec!["input", "model", "voice"]);
    assert_eq!(str_at(&body, "input"), "Hello, world!");
    assert_eq!(str_at(&body, "voice"), "alloy");
}

#[test]
fn deepinfra_body_uses_text_and_preset_voice() {
    let cfg = TTSConfig {
        voice: Some("am_echo".to_string()),
        output_format: Some("mp3".to_string()),
        speed: Some("1.5".to_string()),
        ..Default::default()
    };
    let body = tts_body(cfg, &Provider::DeepInfra, Some("hexgrad/Kokoro-82M"), "Hi");
    assert_eq!(field_names(&body), vec!["text", "model", "preset_voice", "speed", "output_format"]);
    assert_eq!(str_at(&body, "preset_voice"), "am_echo");
    match body.get("speed") {
        Some(Json::Number(n)) => assert_eq!(n, "1.5"),
        other => panic!("speed is {:?}", other),
    }
}

#[test]
fn google_body_nests_input_and_voice() {
    let cfg = TTSConfig {
        voice: Some("en-US-Studio-Q".to_string()),
        language_code: Some("en-US".to_string()),
        ..Default::default()
    };
    let body = tts_body(cfg, &Provider::Google, None, "Hi");
    assert_eq!(field_names(&body), vec!["input", "voice", "audioConfig"]);
    assert_eq!(str_at(body.get("input").unwrap(), "text"), "Hi");
    let voice = body.get("voice").unwrap();
    assert_eq!(str_at(voice, "name"), "en-US-Studio-Q");
    assert_eq!(str_at(voice, "languageCode"), "en-US");
    assert_eq!(str_at(body.get("audioConfig").unwrap(), "audioEncoding"), "LINEAR16");
}

#[test]
fn elevenlabs_body() {
    let cfg = TTSConfig {
        voice: Some("v".to_string()),
        seed: Some(42),
        language_code: Some("en".to_string()),
        ..Default::default()
    };
    let body = tts_body(cfg, &Provider::ElevenLabs, Some("eleven_turbo_v2_5"), "Hi");
    assert_eq!(field_names(&body), vec!["text", "model_id", "language_code", "seed"]);
    assert_eq!(str_at(&body, "seed"), "42");
}

#[test]
fn other_fields_override_modeled_ones() {
    let cfg = TTSConfig {
        output_format: Some("mp3".to_string()),
        other: Some(vec![
            ("seed".to_string(), Json::Number("42".to_string())),
            ("output_format".to_string(), s("wav")),
            ("seed".to_string(), Json::Number("7".to_string())),
        ]),
        ..Default::default()
    };
    let body = tts_body(cfg, &Provider::DeepInfra, None, "Hi");
    assert_eq!(field_names(&body), vec!["text", "output_format", "seed"]);
    assert_eq!(str_at(&body, "output_format"), "wav");
    match body.get("seed") {
        Some(Json::Number(n)) => assert_eq!(n, "7"),
        other => panic!("seed is {:?}", other),
    }
}

#[test]
fn speech_request_is_assembled() {
    let cfg = TTSConfig { voice: Some("alloy".to_string()), ..Default::default() };
    let req = tts_request(&Provider::OpenAI, &key(Provider::OpenAI), cfg, Some("tts-1"), "Hi").unwrap();
    assert_eq!(req.url, "https://api.openai.com/v1/audio/speech");
    assert!(!req.use_rustls);
    assert_eq!(str_at(&req.body, "model"), "tts-1");
}

#[test]
fn deepinfra_speech_response() {
    let body = obj(vec![
        ("request_id", s("r-1")),
        ("output_format", s("mp3")),
        ("audio", s("data:audio/mp3;base64,SGVsbG8=")),
    ]);
    let resp = SpeechResponse::new(Provider::DeepInfra, 200, b"{}".to_vec());
    let speech = resp.structured(Some(body), "").unwrap();
    assert_eq!(speech.request_id.as_deref(), Some("r-1"));
    assert_eq!(speech.file_format, "mp3");
    assert_eq!(speech.audio, b"Hello".to_vec());
}

#[test]
fn deepinfra_speech_detail_is_an_error() {
    let raw = b"{\"detail\":{\"error\":\"Model is not available\"}}".to_vec();
    let body = obj(vec![("detail", obj(vec![("error", s("Model is not available"))]))]);
    let resp = SpeechResponse::new(Provider::DeepInfra, 200, raw);
    match resp.structured(Some(body), "") {
        Err(ApiError::ProviderError { message }) => {
            assert!(message.starts_with("DeepInfra returned an error: "));
            assert!(message.contains("Model is not available"));
        }
        other => panic!("unexpected: {:?}", other),
    }
}

#[test]
fn openai_speech_is_the_raw_body_unless_an_error() {
    let resp = SpeechResponse::new(Provider::OpenAI, 200, vec![0xff, 0xfb, 0x90]);
    let speech = resp.structured(None, "not json").unwrap();
    assert_eq!(speech.audio, vec![0xff, 0xfb, 0x90]);
    assert_eq!(speech.file_format, "mp3");
    let raw = b"{\"error\":{\"code\":\"model_not_found\"}}".to_vec();
    let body = obj(vec![("error", obj(vec![("code", s("model_not_found"))]))]);
    let resp = SpeechResponse::new(Provider::OpenAI, 200, raw);
    match resp.structured(Some(body), "") {
        Err(e) => assert!(e.describe().contains("model_not_found")),
        Ok(_) => panic!("expected an error"),
    }
}

#[test]
fn elevenlabs_and_google_speech() {
    let resp = SpeechResponse::new(Provider::ElevenLabs, 200, vec![1, 2]);
    assert_eq!(resp.structured(None, "").unwrap().audio, vec![1, 2]);
    let resp = SpeechResponse::new(Provider::Google, 200, b"{}".to_vec());
    let speech = resp.structured(Some(obj(vec![("audioContent", s("SGVsbG8="))])), "").unwrap();
    assert_eq!(speech.audio, b"Hello".to_vec());
    let resp = SpeechResponse::new(Provider::Google, 200, b"x".to_vec());
    assert!(matches!(resp.structured(None, "eof"), Err(ApiError::MalformedResponse { .. })));
}

#[test]
fn deepinfra_detail_message_is_its_json_text() {
    let resp = SpeechResponse::new(Provider::DeepInfra, 422, b"{\"detail\":\"x\"}".to_vec());
    match resp.structured(Some(obj(vec![("detail", s("x"))])), "") {
        Err(ApiError::ProviderError { message }) => assert_eq!(message, "DeepInfra returned an error: \"x\""),
        other => panic!("unexpected: {:?}", other),
    }
}

#[test]
fn error_field_message_is_its_json_text() {
    let error = obj(vec![("code", s("model_not_found")), ("message", s("no \"foobar\""))]);
    let resp = SpeechResponse::new(Provider::OpenAI, 404, b"{...}".to_vec());
    match resp.structured(Some(obj(vec![("error", error)])), "") {
        Err(ApiError::ProviderError { message }) => {
            assert_eq!(message, "{\"code\":\"model_not_found\",\"message\":\"no \\\"foobar\\\"\"}")
        }
        other => panic!("unexpected: {:?}", other),
    }
    let resp = SpeechResponse::new(Provider::Google, 400, b"{...}".to_vec());
    match resp.structured(Some(obj(vec![("error", obj(vec![("status", s("INVALID_ARGUMENT"))]))])), "") {
        Err(ApiError::ProviderError { message }) => assert_eq!(message, "{\"status\":\"INVALID_ARGUMENT\"}"),
        other => panic!("unexpected: {:?}", other),
    }
}

#[test]
fn empty_speech_body_is_empty_response() {
    for provider in [Provider::OpenAI, Provider::DeepInfra, Provider::ElevenLabs, Provider::Google] {
        let resp = SpeechResponse::new(provider, 503, Vec::new());
        match resp.structured(None, "EOF") {
            Err(ApiError::EmptyResponse { status }) => assert_eq!(status, 503),
            other => panic!("unexpected: {:?}", other),
        }
    }
}

#[test]
fn speech_body_without_audio_falls_back_to_error_message() {
    let resp = SpeechResponse::new(Provider::Hyperbolic, 401, b"{\"message\":\"bad key\"}".to_vec());
    match resp.structured(Some(obj(vec![("message", s("bad key"))])), "") {
        Err(ApiError::ProviderError { message }) => assert_eq!(message, "bad key"),
        other => panic!("unexpected: {:?}", other),
    }
}

#[test]
fn deepinfra_audio_without_format_is_malformed() {
    let r = Speech::decode_speech("data:audio/mp3;base64,SGVsbG8=", &Provider::DeepInfra, None);
    assert!(matches!(r, Err(ApiError::MalformedResponse { .. })));
}

#[test]
fn elevenlabs_body_takes_other_fields_last() {
    let cfg = TTSConfig {
        seed: Some(1),
        other: Some(vec![
            ("previous_text".to_string(), s("Some previous text.")),
            ("seed".to_string(), Json::Number("42".to_string())),
        ]),
        ..Default::default()
    };
    let body = tts_body(cfg, &Provider::ElevenLabs, Some("eleven_turbo_v2_5"), "Hi");
    assert_eq!(field_names(&body), vec!["text", "model_id", "seed", "previous_text"]);
    assert_eq!(str_at(&body, "previous_text"), "Some previous text.");
    match body.get("seed") {
        Some(Json::Number(n)) => assert_eq!(n, "42"),
        other => panic!("seed is {:?}", other),
    }
}
