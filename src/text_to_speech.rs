//! Text-to-speech: requests per vendor and reading the audio they return.
use vstd::prelude::*;
use crate::credentials::Key;
use crate::encoding::base64_bytes;
use crate::encoding::base64_decode;
use crate::error::ApiError;
use crate::json::fields_view;
use crate::json::field;
use crate::json::lemma_object_view;
use crate::json::opt_view;
use crate::json::set_member;
use crate::json::set_field;
use crate::json::str_of;
use crate::json::Json;
use crate::json::json_text;
use crate::chat::blank;
use crate::chat::error_message;
use crate::chat::extract_error;
use crate::chat::is_blank;
use crate::json::same_text;
use crate::json::JsonValue;
use crate::provider::domain_of;
use crate::provider::Provider;
use crate::request::header_value_ok;
use crate::request::is_header_value;
use crate::request::pairs_view;
use crate::request::request_headers;
use crate::request::standard_headers;
use crate::request::HttpRequest;
use crate::text::concat;
use crate::text::decimal;
use crate::text::has_prefix;
use crate::text::skip_chars;
use crate::text::starts_with;
use crate::text::u64_decimal;
use crate::text::utf8_lossy;
use crate::text::utf8_text;

verus! {

/// Settings of a text-to-speech request.
#[derive(Debug)]
pub struct TTSConfig {
    pub output_format: Option<String>,
    pub voice: Option<String>,
    /// The speaking rate, as a JSON number literal such as `1.25`.
    pub speed: Option<String>,
    pub language_code: Option<String>,
    pub seed: Option<u64>,
    /// Extra body fields, set last and in order, so that they override the
    /// fields above.
    pub other: Option<Vec<(String, Json)>>,
}

impl Default for TTSConfig {
    fn default() -> (r: Self)
        ensures
            r.output_format is None && r.voice is None && r.speed is None,
            r.language_code is None && r.seed is None && r.other is None,
    {
        TTSConfig { output_format: None, voice: None, speed: None, language_code: None, seed: None, other: None }
    }
}

pub open spec fn opt_text(o: Option<&str>) -> Option<Seq<char>> {
    match o {
        Some(s) => Some(s@),
        None => None,
    }
}

/// The vendors that text-to-speech requests can be built for.
pub open spec fn supports_tts(p: Provider) -> bool {
    p is ElevenLabs || p is DeepInfra || p is Hyperbolic || p is OpenAI || p is Other || p is Google
}

/// Vendors that speak OpenAI's text-to-speech dialect.
pub open spec fn openai_speech(p: Provider) -> bool {
    p is OpenAI || p is Other
}

/// Whether `provider` supports text-to-speech.
pub fn tts_supported(provider: &Provider) -> (r: bool)
    ensures
        r == supports_tts(*provider),
{
    match provider {
        Provider::ElevenLabs | Provider::DeepInfra | Provider::Hyperbolic | Provider::OpenAI | Provider::Other(_)
        | Provider::Google => true,
        _ => false,
    }
}

/// The bodies that `tts_body` can build: a supported vendor, no speed for
/// ElevenLabs (it keeps speed with the voice), and no voice for Hyperbolic
/// (it has no voice field).
pub open spec fn tts_body_ok(provider: Provider, config: TTSConfig) -> bool {
    &&& supports_tts(provider)
    &&& provider is ElevenLabs ==> config.speed is None
    &&& provider is Hyperbolic ==> config.voice is None
}

/// The requests that `tts_request` can build: a body it can build, and for
/// ElevenLabs a voice, which is part of the URL.
pub open spec fn tts_request_ok(provider: Provider, config: TTSConfig) -> bool {
    &&& tts_body_ok(provider, config)
    &&& provider is ElevenLabs ==> config.voice is Some
}

/// The URL of a text-to-speech request.
pub open spec fn tts_address_of(provider: Provider, key: Seq<char>, model: Option<Seq<char>>, config: TTSConfig) -> Seq<char> {
    match provider {
        Provider::ElevenLabs => {
            let base = domain_of(provider) + "/v1/text-to-speech/"@ + opt_view(config.voice)->0;
            match config.output_format {
                Some(f) => base + "?"@ + f@,
                None => base,
            }
        },
        Provider::DeepInfra => domain_of(provider) + "/v1/inference/"@ + match model {
            Some(m) => m,
            None => "hexgrad/Kokoro-82M"@,
        },
        Provider::Hyperbolic => domain_of(provider) + "/v1/audio/generation"@,
        Provider::OpenAI => domain_of(provider) + "/v1/audio/speech"@,
        Provider::Other(domain) => domain@ + "/v1/audio/speech"@,
        Provider::Google => "https://texttospeech.googleapis.com/v1beta1/text:synthesize?key="@ + key,
        _ => Seq::empty(),
    }
}

/// The URL of a text-to-speech request.
pub fn tts_address(provider: &Provider, key: &Key, model: Option<&str>, config: &TTSConfig) -> (r: String)
    requires
        tts_request_ok(*provider, *config),
    ensures
        r@ == tts_address_of(*provider, key.key@, opt_text(model), *config),
{
    match provider {
        Provider::ElevenLabs => {
            let voice = match &config.voice {
                Some(v) => v,
                None => {
                    assert(false);
                    return String::new();
                },
            };
            let base = concat(provider.domain().as_str(), "/v1/text-to-speech/");
            let base = concat(base.as_str(), voice.as_str());
            match &config.output_format {
                Some(f) => {
                    let q = concat(base.as_str(), "?");
                    concat(q.as_str(), f.as_str())
                },
                None => base,
            }
        },
        Provider::DeepInfra => {
            let base = concat(provider.domain().as_str(), "/v1/inference/");
            match model {
                Some(m) => concat(base.as_str(), m),
                None => concat(base.as_str(), "hexgrad/Kokoro-82M"),
            }
        },
        Provider::Hyperbolic => concat(provider.domain().as_str(), "/v1/audio/generation"),
        Provider::OpenAI => concat(provider.domain().as_str(), "/v1/audio/speech"),
        Provider::Other(domain) => concat(domain.as_str(), "/v1/audio/speech"),
        _ => concat("https://texttospeech.googleapis.com/v1beta1/text:synthesize?key=", key.key.as_str()),
    }
}

/// The headers of a text-to-speech request: Google takes the secret in the
/// URL instead, ElevenLabs in a header of its own.
pub open spec fn tts_headers_of(provider: Provider, key: Seq<char>) -> Seq<(Seq<char>, Seq<char>)> {
    if provider is Google {
        seq![("Content-Type"@, "application/json"@)]
    } else if provider is ElevenLabs {
        seq![("Content-Type"@, "application/json"@), ("xi-api-key"@, key)]
    } else {
        standard_headers(key)
    }
}

/// The headers of a text-to-speech request; an error where the secret cannot
/// stand in a header.
pub fn tts_headers(provider: &Provider, key: &Key) -> (r: Result<Vec<(String, String)>, ApiError>)
    ensures
        header_value_ok("Bearer "@ + key.key@) && (*provider is ElevenLabs ==> header_value_ok(key.key@))
            ==> (r matches Ok(h) && pairs_view(h@) == tts_headers_of(*provider, key.key@)),
        !header_value_ok("Bearer "@ + key.key@) ==> (r matches Err(e) && e is HeaderConstruction),
        *provider is ElevenLabs && !header_value_ok(key.key@) ==> (r matches Err(e) && e is HeaderConstruction),
{
    let standard = match request_headers(key) {
        Ok(h) => h,
        Err(e) => {
            return Err(e);
        },
    };
    match provider {
        Provider::Google => {
            let headers = vec![("Content-Type".to_string(), "application/json".to_string())];
            assert(pairs_view(headers@) =~= tts_headers_of(*provider, key.key@));
            Ok(headers)
        },
        Provider::ElevenLabs => {
            if !is_header_value(key.key.as_str()) {
                return Err(ApiError::HeaderConstruction { name: "xi-api-key".to_string() });
            }
            let headers = vec![
                ("Content-Type".to_string(), "application/json".to_string()),
                ("xi-api-key".to_string(), key.key.clone()),
            ];
            assert(pairs_view(headers@) =~= tts_headers_of(*provider, key.key@));
            Ok(headers)
        },
        _ => Ok(standard),
    }
}

pub open spec fn set_opt(fields: Seq<(Seq<char>, JsonValue)>, key: Seq<char>, v: Option<Seq<char>>) -> Seq<(Seq<char>, JsonValue)> {
    match v {
        Some(s) => set_field(fields, key, JsonValue::Str(s)),
        None => fields,
    }
}

/// Sets the fields `others` one after another.
pub open spec fn set_all(fields: Seq<(Seq<char>, JsonValue)>, others: Seq<(Seq<char>, JsonValue)>) -> Seq<(Seq<char>, JsonValue)>
    decreases others.len(),
{
    if others.len() == 0 {
        fields
    } else {
        let before = set_all(fields, others.drop_last());
        set_field(before, others.last().0, others.last().1)
    }
}

/// Google's fixed audio settings.
pub open spec fn google_audio_config() -> JsonValue {
    JsonValue::Object(
        seq![
            ("audioEncoding"@, JsonValue::Str("LINEAR16"@)),
            ("pitch"@, JsonValue::Number("0"@)),
            ("speakingRate"@, JsonValue::Number("1"@)),
        ],
    )
}

pub open spec fn google_voice(voice: Seq<char>, language_code: Option<Seq<char>>) -> JsonValue {
    match language_code {
        Some(l) => JsonValue::Object(seq![("name"@, JsonValue::Str(voice)), ("languageCode"@, JsonValue::Str(l))]),
        None => JsonValue::Object(seq![("name"@, JsonValue::Str(voice))]),
    }
}

/// Where each vendor takes the voice.
pub open spec fn set_voice(fields: Seq<(Seq<char>, JsonValue)>, provider: Provider, voice: Seq<char>, language_code: Option<Seq<char>>) -> Seq<(Seq<char>, JsonValue)> {
    if openai_speech(provider) {
        set_field(fields, "voice"@, JsonValue::Str(voice))
    } else if provider is Google {
        set_field(set_field(fields, "voice"@, google_voice(voice, language_code)), "audioConfig"@, google_audio_config())
    } else if provider is DeepInfra {
        set_field(fields, "preset_voice"@, JsonValue::Str(voice))
    } else {
        fields
    }
}

/// Where each vendor takes the text.
pub open spec fn input_fields(provider: Provider, text: Seq<char>) -> Seq<(Seq<char>, JsonValue)> {
    if openai_speech(provider) {
        seq![("input"@, JsonValue::Str(text))]
    } else if provider is Google {
        seq![("input"@, JsonValue::Object(seq![("text"@, JsonValue::Str(text))]))]
    } else {
        seq![("text"@, JsonValue::Str(text))]
    }
}

/// The body of a text-to-speech request.
pub open spec fn tts_body_value(config: TTSConfig, provider: Provider, model: Option<Seq<char>>, text: Seq<char>) -> JsonValue {
    if provider is ElevenLabs {
        let fs = seq![("text"@, JsonValue::Str(text))];
        let fs = set_opt(fs, "model_id"@, model);
        let fs = set_opt(fs, "language_code"@, opt_view(config.language_code));
        let fs = match config.seed {
            Some(s) => set_field(fs, "seed"@, JsonValue::Str(decimal(s as nat))),
            None => fs,
        };
        let fs = match config.other {
            Some(o) => set_all(fs, fields_view(o@)),
            None => fs,
        };
        JsonValue::Object(fs)
    } else {
        let fs = input_fields(provider, text);
        let fs = set_opt(fs, "model"@, model);
        let fs = match config.voice {
            Some(v) => set_voice(fs, provider, v@, opt_view(config.language_code)),
            None => fs,
        };
        let fs = match config.speed {
            Some(s) => set_field(fs, "speed"@, JsonValue::Number(s@)),
            None => fs,
        };
        let fs = set_opt(fs, "output_format"@, opt_view(config.output_format));
        let fs = match config.other {
            Some(o) => set_all(fs, fields_view(o@)),
            None => fs,
        };
        JsonValue::Object(fs)
    }
}

fn set_str(fields: &mut Vec<(String, Json)>, key: &str, value: &str)
    ensures
        fields_view(final(fields)@) == set_field(fields_view(old(fields)@), key@, JsonValue::Str(value@)),
{
    set_member(fields, key.to_string(), Json::string(value));
}

/// Sets `others` on `fields` one after another, the later winning.
fn set_each(fields: &mut Vec<(String, Json)>, others: Vec<(String, Json)>)
    ensures
        fields_view(final(fields)@) == set_all(fields_view(old(fields)@), fields_view(others@)),
{
    let ghost start = fields_view(fields@);
    let ghost all = fields_view(others@);
    let total = others.len();
    assert(all.len() == total);
    let mut rest = others;
    let mut i: usize = 0;
    while rest.len() > 0
        invariant
            i + rest@.len() == all.len(),
            all.len() <= usize::MAX,
            fields_view(rest@) == all.skip(i as int),
            fields_view(fields@) == set_all(start, all.take(i as int)),
        decreases rest@.len(),
    {
        let ghost before = rest@;
        let (k, v) = rest.remove(0);
        assert(fields_view(rest@) =~= fields_view(before).skip(1));
        assert(all.take(i + 1).drop_last() =~= all.take(i as int));
        assert(all.skip(i as int)[0] == (k@, v@));
        set_member(fields, k, v);
        i = i + 1;
        assert(all.skip(i - 1).skip(1) =~= all.skip(i as int));
    }
    assert(all.take(all.len() as int) =~= all);
}

/// The body of a text-to-speech request (see `tts_body_value`).
pub fn tts_body(config: TTSConfig, provider: &Provider, model: Option<&str>, text: &str) -> (r: Json)
    requires
        tts_body_ok(*provider, config),
    ensures
        r@ == tts_body_value(config, *provider, opt_text(model), text@),
{
    let ghost cfg = config;
    if matches!(provider, Provider::ElevenLabs) {
        let mut fields = vec![("text".to_string(), Json::string(text))];
        assert(fields_view(fields@) =~= seq![("text"@, JsonValue::Str(text@))]);
        if let Some(m) = model {
            set_str(&mut fields, "model_id", m);
        }
        if let Some(l) = &config.language_code {
            set_str(&mut fields, "language_code", l.as_str());
        }
        if let Some(s) = config.seed {
            set_member(&mut fields, "seed".to_string(), Json::Str(u64_decimal(s)));
        }
        match config.other {
            Some(o) => {
                set_each(&mut fields, o);
            },
            None => {},
        }
        proof {
            lemma_object_view(fields);
        }
        return Json::Object(fields);
    }
    let openai_like = matches!(provider, Provider::OpenAI | Provider::Other(_));
    let google = matches!(provider, Provider::Google);
    let mut fields = if openai_like {
        vec![("input".to_string(), Json::string(text))]
    } else if google {
        let inner = vec![("text".to_string(), Json::string(text))];
        proof {
            lemma_object_view(inner);
        }
        assert(fields_view(inner@) =~= seq![("text"@, JsonValue::Str(text@))]);
        vec![("input".to_string(), Json::Object(inner))]
    } else {
        vec![("text".to_string(), Json::string(text))]
    };
    assert(fields_view(fields@) =~= input_fields(*provider, text@));
    if let Some(m) = model {
        set_str(&mut fields, "model", m);
    }
    if let Some(v) = &config.voice {
        if openai_like {
            set_str(&mut fields, "voice", v.as_str());
        } else if google {
            let mut voice = vec![("name".to_string(), Json::string(v.as_str()))];
            assert(fields_view(voice@) =~= seq![("name"@, JsonValue::Str(v@))]);
            if let Some(l) = &config.language_code {
                let ghost one = fields_view(voice@);
                set_str(&mut voice, "languageCode", l.as_str());
                assert(one.drop_first() =~= Seq::<(Seq<char>, JsonValue)>::empty());
                assert(fields_view(voice@) =~= seq![("name"@, JsonValue::Str(v@)), ("languageCode"@, JsonValue::Str(l@))]) by {
                    reveal_strlit("name");
                    reveal_strlit("languageCode");
                    assert("name"@.len() != "languageCode"@.len());
                    assert(set_field(one.drop_first(), "languageCode"@, JsonValue::Str(l@)) == seq![("languageCode"@, JsonValue::Str(l@))]);
                }
            }
            proof {
                lemma_object_view(voice);
            }
            set_member(&mut fields, "voice".to_string(), Json::Object(voice));
            let audio = vec![
                ("audioEncoding".to_string(), Json::string("LINEAR16")),
                ("pitch".to_string(), Json::Number("0".to_string())),
                ("speakingRate".to_string(), Json::Number("1".to_string())),
            ];
            proof {
                lemma_object_view(audio);
            }
            assert(fields_view(audio@) =~= google_audio_config()->Object_0);
            set_member(&mut fields, "audioConfig".to_string(), Json::Object(audio));
        } else {
            set_str(&mut fields, "preset_voice", v.as_str());
        }
    }
    if let Some(s) = &config.speed {
        set_member(&mut fields, "speed".to_string(), Json::Number(s.clone()));
    }
    if let Some(f) = &config.output_format {
        set_str(&mut fields, "output_format", f.as_str());
    }
    match config.other {
        Some(o) => {
            set_each(&mut fields, o);
        },
        None => {},
    }
    proof {
        lemma_object_view(fields);
    }
    Json::Object(fields)
}

/// The request for speech of `text`.
pub fn tts_request(provider: &Provider, key: &Key, config: TTSConfig, model: Option<&str>, text: &str) -> (r: Result<HttpRequest, ApiError>)
    requires
        tts_request_ok(*provider, config),
    ensures
        header_value_ok("Bearer "@ + key.key@) && (*provider is ElevenLabs ==> header_value_ok(key.key@)) ==> (r matches Ok(req)
            && req.url@ == tts_address_of(*provider, key.key@, opt_text(model), config)
            && pairs_view(req.headers@) == tts_headers_of(*provider, key.key@)
            && req.body@ == tts_body_value(config, *provider, opt_text(model), text@)
            && !req.use_rustls),
        !header_value_ok("Bearer "@ + key.key@) ==> (r matches Err(e) && e is HeaderConstruction),
        *provider is ElevenLabs && !header_value_ok(key.key@) ==> (r matches Err(e) && e is HeaderConstruction),
{
    let url = tts_address(provider, key, model, &config);
    let headers = match tts_headers(provider, key) {
        Ok(h) => h,
        Err(e) => {
            return Err(e);
        },
    };
    let body = tts_body(config, provider, model, text);
    Ok(HttpRequest { url, headers, body, use_rustls: false })
}


/// Decoded speech.
#[derive(Debug)]
pub struct Speech {
    pub request_id: Option<String>,
    pub file_format: String,
    pub audio: Vec<u8>,
}

/// The data-URI prefix that DeepInfra puts before audio of each format.
pub open spec fn speech_prefix(format: Seq<char>) -> Option<Seq<char>> {
    if format == "mp3"@ {
        Some("data:audio/mp3;base64,"@)
    } else if format == "opus"@ {
        Some("data:audio/ogg; codec=\"opus\";base64,"@)
    } else {
        None
    }
}

/// The base64 text of the audio: for DeepInfra, what follows the prefix of
/// the declared format (none without a format); for the others the audio
/// text as it is.
pub open spec fn speech_base64(audio: Seq<char>, provider: Provider, format: Option<Seq<char>>) -> Option<Seq<char>> {
    if provider is DeepInfra {
        match format {
            Some(f) => match speech_prefix(f) {
                Some(p) => if starts_with(audio, p) {
                    Some(audio.subrange(p.len() as int, audio.len() as int))
                } else {
                    None
                },
                None => None,
            },
            None => None,
        }
    } else {
        Some(audio)
    }
}

/// The audio bytes that an audio text stands for.
pub open spec fn speech_audio(audio: Seq<char>, provider: Provider, format: Option<Seq<char>>) -> Option<Seq<u8>> {
    match speech_base64(audio, provider, format) {
        Some(b) => base64_bytes(b),
        None => None,
    }
}

/// DeepInfra audio of a declared format loses exactly that format's prefix;
/// mp3 and opus have distinct prefixes.
pub proof fn lemma_speech_prefixes(b64: Seq<char>)
    ensures
        speech_base64("data:audio/mp3;base64,"@ + b64, Provider::DeepInfra, Some("mp3"@)) == Some(b64),
        speech_base64("data:audio/ogg; codec=\"opus\";base64,"@ + b64, Provider::DeepInfra, Some("opus"@)) == Some(b64),
        speech_prefix("mp3"@) != speech_prefix("opus"@),
{
    reveal_strlit("mp3");
    reveal_strlit("opus");
    reveal_strlit("data:audio/mp3;base64,");
    reveal_strlit("data:audio/ogg; codec=\"opus\";base64,");
    assert("mp3"@.len() != "opus"@.len());
    let mp3_prefix = "data:audio/mp3;base64,"@;
    let opus_prefix = "data:audio/ogg; codec=\"opus\";base64,"@;
    assert((mp3_prefix + b64).subrange(0, mp3_prefix.len() as int) =~= mp3_prefix);
    assert((mp3_prefix + b64).subrange(mp3_prefix.len() as int, (mp3_prefix + b64).len() as int) =~= b64);
    assert((opus_prefix + b64).subrange(0, opus_prefix.len() as int) =~= opus_prefix);
    assert((opus_prefix + b64).subrange(opus_prefix.len() as int, (opus_prefix + b64).len() as int) =~= b64);
    assert(mp3_prefix.len() != opus_prefix.len());
}

fn malformed(reason: &str, raw: &str) -> (r: ApiError)
    ensures
        r is MalformedResponse,
{
    ApiError::MalformedResponse { parse_error: reason.to_string(), raw_text: raw.to_string() }
}

impl Speech {
    /// The audio bytes that base64 audio text stands for. DeepInfra's audio
    /// starts with a data-URI prefix that depends on the declared format;
    /// it is stripped first.
    pub fn decode_speech(audio: &str, provider: &Provider, output_format: Option<&str>) -> (r: Result<Vec<u8>, ApiError>)
        ensures
            speech_audio(audio@, *provider, opt_text(output_format)) matches Some(bytes) ==> (r matches Ok(v) && v@ == bytes),
            speech_audio(audio@, *provider, opt_text(output_format)) is None ==> (r matches Err(e) && e is MalformedResponse),
    {
        proof {
            reveal_strlit("mp3");
            reveal_strlit("opus");
            assert("mp3"@.len() != "opus"@.len());
        }
        let stripped = if matches!(provider, Provider::DeepInfra) {
            let format = match output_format {
                Some(f) => f,
                None => {
                    return Err(malformed("no output format", audio));
                },
            };
            let prefix: &str = if same_text(format, "mp3") {
                "data:audio/mp3;base64,"
            } else if same_text(format, "opus") {
                "data:audio/ogg; codec=\"opus\";base64,"
            } else {
                return Err(malformed("unsupported output format", audio));
            };
            if !has_prefix(audio, prefix) {
                return Err(malformed("audio lacks the data-URI prefix of its format", audio));
            }
            let n = prefix.unicode_len();
            skip_chars(audio, n)
        } else {
            audio.to_string()
        };
        match base64_decode(stripped.as_str()) {
            Some(bytes) => Ok(bytes),
            None => Err(malformed("audio is not valid base64", audio)),
        }
    }
}

/// What reading a speech response comes to.
pub enum SpeechOutcome {
    Audio { request_id: Option<Seq<char>>, format: Seq<char>, audio: Seq<u8> },
    Empty(u16),
    ProviderError(Seq<char>),
    Malformed,
}

pub open spec fn outcome_of(r: Result<Speech, ApiError>) -> SpeechOutcome {
    match r {
        Ok(s) => SpeechOutcome::Audio { request_id: opt_view(s.request_id), format: s.file_format@, audio: s.audio@ },
        Err(ApiError::EmptyResponse { status }) => SpeechOutcome::Empty(status),
        Err(ApiError::ProviderError { message }) => SpeechOutcome::ProviderError(message@),
        Err(_) => SpeechOutcome::Malformed,
    }
}

pub open spec fn mp3_of(audio: Option<Seq<u8>>) -> SpeechOutcome {
    match audio {
        Some(bytes) => SpeechOutcome::Audio { request_id: None, format: "mp3"@, audio: bytes },
        None => SpeechOutcome::Malformed,
    }
}

/// How each vendor's speech response reads. `body` is the body as it came
/// and `parsed` the body read as JSON. An empty body is `Empty`. An error
/// field of the vendor's own gives its JSON text (DeepInfra's `detail` after
/// a prefix); a JSON body without the vendor's audio falls back to the
/// generic error message.
pub open spec fn speech_outcome(provider: Provider, status: u16, body: Seq<u8>, parsed: Option<JsonValue>) -> SpeechOutcome {
    let raw = utf8_text(body);
    if is_blank(body) {
        SpeechOutcome::Empty(status)
    } else {
        match provider {
            Provider::ElevenLabs => SpeechOutcome::Audio { request_id: None, format: "mp3"@, audio: body },
            Provider::OpenAI | Provider::Other(_) => match parsed {
                Some(j) if field(j, "error"@) is Some => SpeechOutcome::ProviderError(json_text(field(j, "error"@)->0)),
                _ => SpeechOutcome::Audio { request_id: None, format: "mp3"@, audio: body },
            },
            Provider::DeepInfra => match parsed {
                None => SpeechOutcome::Malformed,
                Some(j) => match field(j, "detail"@) {
                    Some(d) => SpeechOutcome::ProviderError("DeepInfra returned an error: "@ + json_text(d)),
                    None => match (str_of(field(j, "audio"@)), str_of(field(j, "output_format"@)), str_of(field(j, "request_id"@))) {
                        (Some(a), Some(f), Some(id)) => match speech_audio(a, provider, Some(f)) {
                            Some(bytes) => SpeechOutcome::Audio { request_id: Some(id), format: f, audio: bytes },
                            None => SpeechOutcome::Malformed,
                        },
                        _ => SpeechOutcome::ProviderError(error_message(j, raw)),
                    },
                },
            },
            Provider::Hyperbolic => match parsed {
                None => SpeechOutcome::Malformed,
                Some(j) => match str_of(field(j, "audio"@)) {
                    Some(a) => mp3_of(speech_audio(a, provider, None)),
                    None => SpeechOutcome::ProviderError(error_message(j, raw)),
                },
            },
            Provider::Google => match parsed {
                None => SpeechOutcome::Malformed,
                Some(j) => match field(j, "error"@) {
                    Some(e) => SpeechOutcome::ProviderError(json_text(e)),
                    None => match str_of(field(j, "audioContent"@)) {
                        Some(a) => mp3_of(speech_audio(a, provider, None)),
                        None => SpeechOutcome::ProviderError(error_message(j, raw)),
                    },
                },
            },
            _ => SpeechOutcome::Malformed,
        }
    }
}

pub open spec fn opt_json(o: Option<Json>) -> Option<JsonValue> {
    match o {
        Some(j) => Some(j@),
        None => None,
    }
}

/// A complete text-to-speech response.
#[derive(Debug)]
pub struct SpeechResponse {
    provider: Provider,
    status: u16,
    resp: Vec<u8>,
}

impl SpeechResponse {
    pub closed spec fn spec_provider(&self) -> Provider {
        self.provider
    }

    pub closed spec fn spec_status(&self) -> u16 {
        self.status
    }

    pub closed spec fn body(&self) -> Seq<u8> {
        self.resp@
    }

    pub fn new(provider: Provider, status: u16, resp: Vec<u8>) -> (r: Self)
        ensures
            r.spec_provider() == provider,
            r.spec_status() == status,
            r.body() == resp@,
    {
        SpeechResponse { provider, status, resp }
    }

    pub fn status(&self) -> (r: u16)
        ensures
            r == self.spec_status(),
    {
        self.status
    }

    /// The body as it came.
    pub fn bytes(&self) -> (r: &Vec<u8>)
        ensures
            r@ == self.body(),
    {
        &self.resp
    }

    /// The vendor that answered.
    pub fn provider(&self) -> (r: &Provider)
        ensures
            *r == self.spec_provider(),
    {
        &self.provider
    }

    /// The speech that the body holds, or the error it stands for (see
    /// `speech_outcome`). `parsed` is the body read as JSON, where it is
    /// JSON, and `parse_error` what the JSON reader said where it is not.
    pub fn structured(&self, parsed: Option<Json>, parse_error: &str) -> (r: Result<Speech, ApiError>)
        requires
            supports_tts(self.spec_provider()),
        ensures
            outcome_of(r) == speech_outcome(self.spec_provider(), self.spec_status(), self.body(), opt_json(parsed)),
    {
        if blank(self.resp.as_slice()) {
            return Err(ApiError::EmptyResponse { status: self.status });
        }
        let raw = utf8_lossy(self.resp.as_slice());
        match &self.provider {
            Provider::ElevenLabs => Ok(Speech { request_id: None, file_format: "mp3".to_string(), audio: self.resp.clone() }),
            Provider::OpenAI | Provider::Other(_) => {
                if let Some(j) = &parsed {
                    if let Some(e) = j.get("error") {
                        return Err(ApiError::ProviderError { message: e.to_text() });
                    }
                }
                Ok(Speech { request_id: None, file_format: "mp3".to_string(), audio: self.resp.clone() })
            },
            Provider::DeepInfra => {
                let j = match &parsed {
                    Some(j) => j,
                    None => {
                        return Err(malformed(parse_error, raw.as_str()));
                    },
                };
                if let Some(d) = j.get("detail") {
                    return Err(ApiError::ProviderError {
                        message: concat("DeepInfra returned an error: ", d.to_text().as_str()),
                    });
                }
                match (j.get("audio"), j.get("output_format"), j.get("request_id")) {
                    (Some(Json::Str(audio)), Some(Json::Str(format)), Some(Json::Str(id))) => {
                        match Speech::decode_speech(audio.as_str(), &self.provider, Some(format.as_str())) {
                            Ok(bytes) => Ok(Speech { request_id: Some(id.clone()), file_format: format.clone(), audio: bytes }),
                            Err(e) => Err(e),
                        }
                    },
                    _ => Err(ApiError::ProviderError { message: extract_error(j, raw.as_str()) }),
                }
            },
            Provider::Hyperbolic => {
                let j = match &parsed {
                    Some(j) => j,
                    None => {
                        return Err(malformed(parse_error, raw.as_str()));
                    },
                };
                match j.get("audio") {
                    Some(Json::Str(audio)) => match Speech::decode_speech(audio.as_str(), &self.provider, None) {
                        Ok(bytes) => Ok(Speech { request_id: None, file_format: "mp3".to_string(), audio: bytes }),
                        Err(e) => Err(e),
                    },
                    _ => Err(ApiError::ProviderError { message: extract_error(j, raw.as_str()) }),
                }
            },
            _ => {
                let j = match &parsed {
                    Some(j) => j,
                    None => {
                        return Err(malformed(parse_error, raw.as_str()));
                    },
                };
                if let Some(e) = j.get("error") {
                    return Err(ApiError::ProviderError { message: e.to_text() });
                }
                match j.get("audioContent") {
                    Some(Json::Str(audio)) => match Speech::decode_speech(audio.as_str(), &self.provider, None) {
                        Ok(bytes) => Ok(Speech { request_id: None, file_format: "mp3".to_string(), audio: bytes }),
                        Err(e) => Err(e),
                    },
                    _ => Err(ApiError::ProviderError { message: extract_error(j, raw.as_str()) }),
                }
            },
        }
    }
}

} // verus!
