//! Text-to-image: the request, and reading the images that come back.
use vstd::prelude::*;
use crate::credentials::Key;
use crate::encoding::base64_bytes;
use crate::encoding::base64_decode;
use crate::encoding::data_image_type;
use crate::encoding::image_type_of;
use crate::error::ApiError;
use crate::json::field;
use crate::json::lemma_array_view;
use crate::json::opt_u64_field;
use crate::json::string_field;
use crate::json::u64_field;
use crate::json::fields_view;
use crate::json::lemma_object_view;
use crate::json::same_text;
use crate::json::set_field;
use crate::json::set_member;
use crate::json::Json;
use crate::json::json_text;
use crate::chat::blank;
use crate::chat::error_message;
use crate::chat::extract_error;
use crate::chat::is_blank;
use crate::json::JsonValue;
use crate::provider::domain_of;
use crate::provider::Provider;
use crate::request::header_value_ok;
use crate::request::pairs_view;
use crate::request::request_headers;
use crate::request::standard_headers;
use crate::request::HttpRequest;
use crate::text::concat;
use crate::text::decimal;
use crate::text::skip_chars;
use crate::text::u64_decimal;
use crate::text::utf8_lossy;
use crate::text::utf8_text;

verus! {

/// Settings of a text-to-image request.
#[derive(Debug)]
pub struct TTIConfig {
    pub model: String,
    pub steps: Option<u32>,
    pub cfg_scale: Option<u32>,
    pub height: Option<u32>,
    pub width: Option<u32>,
}

impl Default for TTIConfig {
    fn default() -> (r: Self)
        ensures
            r.model@ == "FLUX.1-dev"@,
            r.steps == Some(10u32) && r.cfg_scale == Some(3u32),
            r.height == Some(128u32) && r.width == Some(128u32),
    {
        TTIConfig {
            model: "FLUX.1-dev".to_string(),
            steps: Some(10),
            cfg_scale: Some(3),
            height: Some(128),
            width: Some(128),
        }
    }
}

/// The URL of a text-to-image request.
pub open spec fn tti_address_of(provider: Provider, model: Seq<char>) -> Seq<char> {
    if provider is DeepInfra {
        domain_of(provider) + "/v1/inference/"@ + model
    } else {
        domain_of(provider) + "/v1/image/generation"@
    }
}

/// The URL of a text-to-image request.
pub fn tti_address(key: &Key, model: &str) -> (r: String)
    ensures
        r@ == tti_address_of(key.provider, model@),
{
    match key.provider {
        Provider::DeepInfra => {
            let base = concat(key.provider.domain().as_str(), "/v1/inference/");
            concat(base.as_str(), model)
        },
        _ => concat(key.provider.domain().as_str(), "/v1/image/generation"),
    }
}

pub open spec fn set_number(fields: Seq<(Seq<char>, JsonValue)>, key: Seq<char>, n: Option<u32>) -> Seq<(Seq<char>, JsonValue)> {
    match n {
        Some(v) => set_field(fields, key, JsonValue::Number(decimal(v as nat))),
        None => fields,
    }
}

/// The body of a text-to-image request: model and prompt, then the
/// settings that are given.
pub open spec fn tti_body_value(config: TTIConfig, prompt: Seq<char>) -> JsonValue {
    let fs = seq![("model_name"@, JsonValue::Str(config.model@)), ("prompt"@, JsonValue::Str(prompt))];
    let fs = set_number(fs, "steps"@, config.steps);
    let fs = set_number(fs, "cfg_scale"@, config.cfg_scale);
    let fs = set_number(fs, "height"@, config.height);
    let fs = set_number(fs, "width"@, config.width);
    JsonValue::Object(fs)
}

fn put_number(fields: &mut Vec<(String, Json)>, key: &str, n: Option<u32>)
    ensures
        fields_view(final(fields)@) == set_number(fields_view(old(fields)@), key@, n),
{
    if let Some(v) = n {
        set_member(fields, key.to_string(), Json::Number(u64_decimal(v as u64)));
    }
}

/// The body of a text-to-image request (see `tti_body_value`).
pub fn tti_body(config: &TTIConfig, prompt: &str) -> (r: Json)
    ensures
        r@ == tti_body_value(*config, prompt@),
{
    let mut fields = vec![
        ("model_name".to_string(), Json::Str(config.model.clone())),
        ("prompt".to_string(), Json::string(prompt)),
    ];
    assert(fields_view(fields@) =~= seq![("model_name"@, JsonValue::Str(config.model@)), ("prompt"@, JsonValue::Str(prompt@))]);
    put_number(&mut fields, "steps", config.steps);
    put_number(&mut fields, "cfg_scale", config.cfg_scale);
    put_number(&mut fields, "height", config.height);
    put_number(&mut fields, "width", config.width);
    proof {
        lemma_object_view(fields);
    }
    Json::Object(fields)
}

/// The request for images of `prompt`.
pub fn tti_request(key: &Key, config: &TTIConfig, prompt: &str) -> (r: Result<HttpRequest, ApiError>)
    ensures
        header_value_ok("Bearer "@ + key.key@) ==> (r matches Ok(req)
            && req.url@ == tti_address_of(key.provider, config.model@)
            && pairs_view(req.headers@) == standard_headers(key.key@)
            && req.body@ == tti_body_value(*config, prompt@)
            && !req.use_rustls),
        !header_value_ok("Bearer "@ + key.key@) ==> (r matches Err(e) && e is HeaderConstruction),
{
    let headers = match request_headers(key) {
        Ok(h) => h,
        Err(e) => {
            return Err(e);
        },
    };
    Ok(HttpRequest {
        url: tti_address(key, config.model.as_str()),
        headers,
        body: tti_body(config, prompt),
        use_rustls: false,
    })
}

/// One image as base64 text, possibly in a data URL.
#[derive(Debug)]
pub struct Base64Image {
    pub index: u64,
    pub random_seed: Option<u64>,
    pub image: String,
}

/// A decoded image and its file type ("png", "jpg" or "unknown").
#[derive(Debug)]
pub struct Image {
    pub filetype: String,
    pub image: Vec<u8>,
}

#[derive(Debug)]
pub struct Images {
    pub images: Vec<Base64Image>,
}

/// The fields of an image record: index, seed and base64 text.
pub open spec fn base64_image_of(v: JsonValue) -> Option<(u64, Option<u64>, Seq<char>)> {
    if v is Object {
        match (u64_field(v, "index"@), opt_u64_field(v, "random_seed"@), string_field(v, "image"@)) {
            (Some(i), Some(seed), Some(image)) => Some((i, seed, image)),
            _ => None,
        }
    } else {
        None
    }
}

pub open spec fn image_list_of(items: Seq<JsonValue>) -> Option<Seq<(u64, Option<u64>, Seq<char>)>>
    decreases items.len(),
{
    if items.len() == 0 {
        Some(Seq::empty())
    } else {
        match (image_list_of(items.drop_last()), base64_image_of(items.last())) {
            (Some(l), Some(x)) => Some(l.push(x)),
            _ => None,
        }
    }
}

/// The generic image result: an object whose `images` is an array of image
/// records.
pub open spec fn images_of(v: JsonValue) -> Option<Seq<(u64, Option<u64>, Seq<char>)>> {
    if v is Object {
        match field(v, "images"@) {
            Some(JsonValue::Array(items)) => image_list_of(items),
            _ => None,
        }
    } else {
        None
    }
}

pub open spec fn image_record(b: Base64Image) -> (u64, Option<u64>, Seq<char>) {
    (b.index, b.random_seed, b.image@)
}

proof fn lemma_image_list_fail(items: Seq<JsonValue>, k: int, m: int)
    requires
        0 <= k <= m <= items.len(),
        image_list_of(items.take(k)) is None,
    ensures
        image_list_of(items.take(m)) is None,
    decreases m - k,
{
    if m > k {
        lemma_image_list_fail(items, k, m - 1);
        assert(items.take(m).drop_last() =~= items.take(m - 1));
    }
}

impl Images {
    /// The generic image result that a JSON value stands for.
    pub fn from_json(v: &Json) -> (r: Option<Images>)
        ensures
            r matches Some(imgs) ==> images_of(v@) == Some(imgs.images@.map_values(|b: Base64Image| image_record(b))),
            r is None ==> images_of(v@) is None,
    {
        if !v.is_object() {
            return None;
        }
        let items = match v.get("images") {
            Some(Json::Array(items)) => items,
            _ => {
                return None;
            },
        };
        proof {
            lemma_array_view(*items);
        }
        let ghost vs = items@.map_values(|j: Json| j@);
        let mut images: Vec<Base64Image> = Vec::new();
        let mut i: usize = 0;
        while i < items.len()
            invariant
                i <= items@.len(),
                vs == items@.map_values(|j: Json| j@),
                field(v@, "images"@) == Some(JsonValue::Array(vs)),
                image_list_of(vs.take(i as int)) == Some(images@.map_values(|b: Base64Image| image_record(b))),
            decreases items@.len() - i,
        {
            assert(vs.take(i + 1).drop_last() =~= vs.take(i as int));
            let item = &items[i];
            let parts = if item.is_object() {
                match (item.u64_field("index"), item.opt_u64_field("random_seed"), item.string_field("image")) {
                    (Some(index), Some(random_seed), Some(image)) => Some(Base64Image { index, random_seed, image }),
                    _ => None,
                }
            } else {
                None
            };
            match parts {
                Some(b) => {
                    let ghost before = images@;
                    images.push(b);
                    assert(images@.map_values(|b: Base64Image| image_record(b)) =~= before.map_values(
                        |b: Base64Image| image_record(b),
                    ).push(image_record(b)));
                },
                None => {
                    proof {
                        assert(vs.take(i + 1).last() == items@[i as int]@);
                        lemma_image_list_fail(vs, i + 1, vs.len() as int);
                        assert(vs.take(vs.len() as int) =~= vs);
                    }
                    return None;
                },
            }
            i = i + 1;
        }
        assert(vs.take(vs.len() as int) =~= vs);
        Some(Images { images })
    }
}

/// The file type that a data URL declares.
pub open spec fn filetype_of(image: Seq<char>) -> Seq<char> {
    match data_image_type(image) {
        Some(t) => if t == "png"@ {
            "png"@
        } else if t == "jpg"@ || t == "jpeg"@ {
            "jpg"@
        } else {
            "unknown"@
        },
        None => "unknown"@,
    }
}

/// The base64 text of an image: what follows `data:image/<type>;base64,`,
/// or the whole text where it is no such data URL.
pub open spec fn image_base64(image: Seq<char>) -> Seq<char> {
    match data_image_type(image) {
        Some(t) => image.subrange(("data:image/"@ + t + ";base64,"@).len() as int, image.len() as int),
        None => image,
    }
}

impl Base64Image {
    /// The image's bytes and file type; an error where its text is not
    /// base64.
    pub fn base64_decode(&self) -> (r: Result<Image, ApiError>)
        ensures
            base64_bytes(image_base64(self.image@)) matches Some(bytes) ==> (r matches Ok(img)
                && img.image@ == bytes && img.filetype@ == filetype_of(self.image@)),
            base64_bytes(image_base64(self.image@)) is None ==> (r matches Err(e) && e is MalformedResponse),
    {
        let kind = image_type_of(self.image.as_str());
        let (filetype, data) = match kind {
            Some(t) => {
                let filetype = if same_text(t.as_str(), "png") {
                    "png"
                } else if same_text(t.as_str(), "jpg") || same_text(t.as_str(), "jpeg") {
                    "jpg"
                } else {
                    "unknown"
                };
                let prefix = concat("data:image/", t.as_str());
                let prefix = concat(prefix.as_str(), ";base64,");
                let n = prefix.as_str().unicode_len();
                (filetype, skip_chars(self.image.as_str(), n))
            },
            None => ("unknown", self.image.clone()),
        };
        match base64_decode(data.as_str()) {
            Some(bytes) => Ok(Image { filetype: filetype.to_string(), image: bytes }),
            None => Err(ApiError::MalformedResponse {
                parse_error: "image is not valid base64".to_string(),
                raw_text: self.image.clone(),
            }),
        }
    }
}

/// What reading an image response comes to.
pub enum ImagesOutcome {
    /// DeepInfra's single image, as base64 text.
    Single(Seq<char>),
    /// The generic result's image records.
    Decoded(Seq<(u64, Option<u64>, Seq<char>)>),
    Empty(u16),
    ProviderError(Seq<char>),
    Malformed,
}

/// A complete text-to-image response.
#[derive(Debug)]
pub struct ImageResponse {
    provider: Provider,
    status: u16,
    resp: Vec<u8>,
}

/// How an image response reads: an empty body is `Empty`; DeepInfra's
/// envelope is its own (its `detail` is an error, given as JSON text after
/// a prefix); the others hold the generic result; a JSON body that is none
/// of these falls back to the generic error message.
pub open spec fn images_outcome(provider: Provider, status: u16, body: Seq<u8>, parsed: Option<JsonValue>) -> ImagesOutcome {
    if is_blank(body) {
        ImagesOutcome::Empty(status)
    } else {
        match parsed {
            None => ImagesOutcome::Malformed,
            Some(j) => if provider is DeepInfra {
                match field(j, "detail"@) {
                    Some(d) => ImagesOutcome::ProviderError("DeepInfra returned an error: "@ + json_text(d)),
                    None => match field(j, "images"@) {
                        Some(JsonValue::Array(items)) if items.len() > 0 && items[0] is Str => ImagesOutcome::Single(
                            items[0]->Str_0,
                        ),
                        _ => ImagesOutcome::ProviderError(error_message(j, utf8_text(body))),
                    },
                }
            } else {
                match images_of(j) {
                    Some(records) => ImagesOutcome::Decoded(records),
                    None => ImagesOutcome::ProviderError(error_message(j, utf8_text(body))),
                }
            },
        }
    }
}

impl ImageResponse {
    pub closed spec fn spec_provider(&self) -> Provider {
        self.provider
    }

    pub closed spec fn spec_status(&self) -> u16 {
        self.status
    }

    pub closed spec fn body(&self) -> Seq<u8> {
        self.resp@
    }

    pub fn new(provider: Provider, status: u16, resp: Vec<u8>) -> (r: Self)
        ensures
            r.spec_provider() == provider,
            r.spec_status() == status,
            r.body() == resp@,
    {
        ImageResponse { provider, status, resp }
    }

    pub fn status(&self) -> (r: u16)
        ensures
            r == self.spec_status(),
    {
        self.status
    }

    /// The body as it came.
    pub fn bytes(&self) -> (r: &Vec<u8>)
        ensures
            r@ == self.body(),
    {
        &self.resp
    }

    /// The images that the body holds, or the error it stands for (see
    /// `images_outcome`). `parsed` is the body read as JSON, where it is
    /// JSON, and `parse_error` what the JSON reader said where it is not.
    pub fn structured(&self, parsed: Option<Json>, parse_error: &str) -> (r: Result<Images, ApiError>)
        ensures
            ({
                let parsed_value = match parsed {
                    Some(j) => Some(j@),
                    None => None,
                };
                match images_outcome(self.spec_provider(), self.spec_status(), self.body(), parsed_value) {
                    ImagesOutcome::Single(image) => r matches Ok(imgs) && imgs.images@.len() == 1
                        && imgs.images@[0].index == 0 && imgs.images@[0].random_seed is None
                        && imgs.images@[0].image@ == image,
                    ImagesOutcome::Decoded(records) => r matches Ok(imgs)
                        && imgs.images@.map_values(|b: Base64Image| image_record(b)) == records,
                    ImagesOutcome::Empty(status) => r matches Err(ApiError::EmptyResponse { status: s }) && s == status,
                    ImagesOutcome::ProviderError(m) => r matches Err(ApiError::ProviderError { message }) && message@ == m,
                    ImagesOutcome::Malformed => r matches Err(e) && e is MalformedResponse,
                }
            }),
    {
        if blank(self.resp.as_slice()) {
            return Err(ApiError::EmptyResponse { status: self.status });
        }
        let raw = utf8_lossy(self.resp.as_slice());
        let j = match &parsed {
            Some(j) => j,
            None => {
                return Err(ApiError::MalformedResponse { parse_error: parse_error.to_string(), raw_text: raw });
            },
        };
        if matches!(self.provider, Provider::DeepInfra) {
            if let Some(d) = j.get("detail") {
                return Err(ApiError::ProviderError {
                    message: concat("DeepInfra returned an error: ", d.to_text().as_str()),
                });
            }
            match j.get("images") {
                Some(Json::Array(items)) => {
                    proof {
                        lemma_array_view(*items);
                    }
                    if items.len() > 0 {
                        match &items[0] {
                            Json::Str(image) => {
                                let images = vec![Base64Image { index: 0, random_seed: None, image: image.clone() }];
                                return Ok(Images { images });
                            },
                            _ => {},
                        }
                    }
                    Err(ApiError::ProviderError { message: extract_error(j, raw.as_str()) })
                },
                _ => Err(ApiError::ProviderError { message: extract_error(j, raw.as_str()) }),
            }
        } else {
            match Images::from_json(j) {
                Some(images) => Ok(images),
                None => Err(ApiError::ProviderError { message: extract_error(j, raw.as_str()) }),
            }
        }
    }
}

} // verus!
