//! Chat completion: the request, the result types, and reading a response.
use vstd::prelude::*;
use crate::credentials::Key;
use crate::error::ApiError;
use crate::json::field;
use crate::json::find_field;
use crate::json::opt_string_field;
use crate::json::opt_view;
use crate::json::string_field;
use crate::json::u64_field;
use crate::message::message_of;
use crate::json::fields_view;
use crate::json::lemma_array_view;
use crate::json::lemma_object_view;
use crate::json::Json;
use crate::json::JsonValue;
use crate::message::message_value;
use crate::message::Message;
use crate::message::MessageView;
use crate::provider::chat_address;
use crate::provider::openai_base_of;
use crate::provider::Provider;
use crate::request::header_value_ok;
use crate::request::pairs_view;
use crate::request::request_headers;
use crate::request::standard_headers;
use crate::request::HttpRequest;
use crate::text::concat;
use crate::text::utf8_lossy;
use crate::text::utf8_text;

verus! {

#[derive(Debug)]
pub struct Choice {
    pub index: u64,
    pub message: Message,
    pub logprobs: Option<String>,
    pub finish_reason: Option<String>,
}

#[derive(Debug)]
pub struct Usage {
    pub prompt_tokens: u64,
    pub completion_tokens: u64,
    pub total_tokens: u64,
}

/// The result of a chat completion that was not streamed.
#[derive(Debug)]
pub struct ChatCompletion {
    pub id: Option<String>,
    pub object: String,
    pub created: u64,
    pub model: String,
    pub system_fingerprint: Option<String>,
    pub choices: Vec<Choice>,
    pub service_tier: Option<String>,
    pub usage: Usage,
}

#[derive(Debug)]
pub struct ChatCompletionError {
    pub object: Option<String>,
    pub message: String,
}

/// The part of a message that one streamed chunk carries.
#[derive(Debug)]
pub struct Delta {
    pub role: Option<String>,
    pub content: Option<String>,
}

#[derive(Debug)]
pub struct ChunkChoice {
    pub index: u64,
    pub delta: Delta,
    pub finish_reason: Option<String>,
}

/// One record of a streamed chat completion.
#[derive(Debug)]
pub struct ChatCompletionChunk {
    pub id: Option<String>,
    pub object: String,
    pub created: u64,
    pub model: String,
    pub system_fingerprint: Option<String>,
    pub choices: Vec<ChunkChoice>,
}

pub struct DeltaView {
    pub role: Option<Seq<char>>,
    pub content: Option<Seq<char>>,
}

pub struct ChunkChoiceView {
    pub index: u64,
    pub delta: DeltaView,
    pub finish_reason: Option<Seq<char>>,
}

pub struct ChunkView {
    pub id: Option<Seq<char>>,
    pub object: Seq<char>,
    pub created: u64,
    pub model: Seq<char>,
    pub system_fingerprint: Option<Seq<char>>,
    pub choices: Seq<ChunkChoiceView>,
}

impl View for Delta {
    type V = DeltaView;

    open spec fn view(&self) -> DeltaView {
        DeltaView { role: opt_view(self.role), content: opt_view(self.content) }
    }
}

impl View for ChunkChoice {
    type V = ChunkChoiceView;

    open spec fn view(&self) -> ChunkChoiceView {
        ChunkChoiceView { index: self.index, delta: self.delta@, finish_reason: opt_view(self.finish_reason) }
    }
}

impl View for ChatCompletionChunk {
    type V = ChunkView;

    open spec fn view(&self) -> ChunkView {
        ChunkView {
            id: opt_view(self.id),
            object: self.object@,
            created: self.created,
            model: self.model@,
            system_fingerprint: opt_view(self.system_fingerprint),
            choices: self.choices@.map_values(|c: ChunkChoice| c@),
        }
    }
}

/// The delta that a JSON value stands for: an object whose `role` and
/// `content` are each absent, null or a string.
pub open spec fn delta_of(v: JsonValue) -> Option<DeltaView> {
    if v is Object {
        match (opt_string_field(v, "role"@), opt_string_field(v, "content"@)) {
            (Some(role), Some(content)) => Some(DeltaView { role, content }),
            _ => None,
        }
    } else {
        None
    }
}

pub open spec fn chunk_choice_of(v: JsonValue) -> Option<ChunkChoiceView> {
    if v is Object {
        match (u64_field(v, "index"@), field(v, "delta"@), opt_string_field(v, "finish_reason"@)) {
            (Some(index), Some(d), Some(finish_reason)) => match delta_of(d) {
                Some(delta) => Some(ChunkChoiceView { index, delta, finish_reason }),
                None => None,
            },
            _ => None,
        }
    } else {
        None
    }
}

pub open spec fn chunk_choices_of(items: Seq<JsonValue>) -> Option<Seq<ChunkChoiceView>>
    decreases items.len(),
{
    if items.len() == 0 {
        Some(Seq::empty())
    } else {
        match (chunk_choices_of(items.drop_last()), chunk_choice_of(items.last())) {
            (Some(cs), Some(c)) => Some(cs.push(c)),
            _ => None,
        }
    }
}

/// The chunk record that a JSON value stands for: an object with an
/// optional `id`, string `object`, integer `created`, string `model`,
/// optional `system_fingerprint` and an array of `choices`.
pub open spec fn chunk_of(v: JsonValue) -> Option<ChunkView> {
    if v is Object {
        match (
            opt_string_field(v, "id"@),
            string_field(v, "object"@),
            u64_field(v, "created"@),
            string_field(v, "model"@),
            opt_string_field(v, "system_fingerprint"@),
            field(v, "choices"@),
        ) {
            (Some(id), Some(object), Some(created), Some(model), Some(system_fingerprint), Some(JsonValue::Array(items))) => {
                match chunk_choices_of(items) {
                    Some(choices) => Some(ChunkView { id, object, created, model, system_fingerprint, choices }),
                    None => None,
                }
            },
            _ => None,
        }
    } else {
        None
    }
}

/// The records that a stream's decoded payloads give: each payload that was
/// JSON and is a chunk record, in order; the others are dropped.
pub open spec fn kept_chunks(parsed: Seq<Option<JsonValue>>) -> Seq<ChunkView>
    decreases parsed.len(),
{
    if parsed.len() == 0 {
        Seq::empty()
    } else {
        let before = kept_chunks(parsed.drop_last());
        match parsed.last() {
            Some(v) => match chunk_of(v) {
                Some(c) => before.push(c),
                None => before,
            },
            None => before,
        }
    }
}

/// A malformed record between two good ones is dropped and the stream goes
/// on: exactly the two good records come out, in order.
pub proof fn lemma_malformed_record_dropped(first: JsonValue, bad: Option<JsonValue>, last: JsonValue)
    requires
        chunk_of(first) is Some,
        chunk_of(last) is Some,
        bad matches Some(b) ==> chunk_of(b) is None,
    ensures
        kept_chunks(seq![Some(first), bad, Some(last)]) == seq![chunk_of(first)->0, chunk_of(last)->0],
{
    let s = seq![Some(first), bad, Some(last)];
    assert(s.drop_last() =~= seq![Some(first), bad]);
    assert(s.drop_last().drop_last() =~= seq![Some(first)]);
    assert(s.drop_last().drop_last().drop_last() =~= Seq::<Option<JsonValue>>::empty());
    assert(seq![Some(first)].drop_last() =~= Seq::<Option<JsonValue>>::empty());
    assert(kept_chunks(Seq::<Option<JsonValue>>::empty()) == Seq::<ChunkView>::empty());
    assert(seq![Some(first), bad].drop_last() =~= seq![Some(first)]);
    assert(kept_chunks(seq![Some(first)]) =~= seq![chunk_of(first)->0]);
    assert(kept_chunks(seq![Some(first), bad]) =~= seq![chunk_of(first)->0]);
}

/// When every payload is a chunk record, every one is kept, in order: a
/// stream of N good records gives exactly N chunks.
pub proof fn lemma_all_records_kept(values: Seq<JsonValue>)
    requires
        forall|i: int| 0 <= i < values.len() ==> chunk_of(#[trigger] values[i]) is Some,
    ensures
        kept_chunks(values.map_values(|v: JsonValue| Some(v)))
            == values.map_values(|v: JsonValue| chunk_of(v)->0),
    decreases values.len(),
{
    let wrapped = values.map_values(|v: JsonValue| Some(v));
    if values.len() > 0 {
        let init = values.drop_last();
        assert(forall|i: int| 0 <= i < init.len() ==> init[i] == values[i]);
        lemma_all_records_kept(init);
        assert(wrapped.drop_last() =~= init.map_values(|v: JsonValue| Some(v)));
        assert(chunk_of(values[values.len() - 1]) is Some);
        assert(init.map_values(|v: JsonValue| chunk_of(v)->0).push(chunk_of(values.last())->0)
            =~= values.map_values(|v: JsonValue| chunk_of(v)->0));
    } else {
        assert(values.map_values(|v: JsonValue| chunk_of(v)->0) =~= Seq::<ChunkView>::empty());
    }
}

proof fn lemma_chunk_choices_fail(items: Seq<JsonValue>, k: int, m: int)
    requires
        0 <= k <= m <= items.len(),
        chunk_choices_of(items.take(k)) is None,
    ensures
        chunk_choices_of(items.take(m)) is None,
    decreases m - k,
{
    if m > k {
        lemma_chunk_choices_fail(items, k, m - 1);
        assert(items.take(m).drop_last() =~= items.take(m - 1));
    }
}

impl Delta {
    pub fn from_json(v: &Json) -> (r: Option<Delta>)
        ensures
            r matches Some(d) ==> delta_of(v@) == Some(d@),
            r is None ==> delta_of(v@) is None,
    {
        if !v.is_object() {
            return None;
        }
        match (v.opt_string_field("role"), v.opt_string_field("content")) {
            (Some(role), Some(content)) => Some(Delta { role, content }),
            _ => None,
        }
    }
}

impl ChunkChoice {
    pub fn from_json(v: &Json) -> (r: Option<ChunkChoice>)
        ensures
            r matches Some(c) ==> chunk_choice_of(v@) == Some(c@),
            r is None ==> chunk_choice_of(v@) is None,
    {
        if !v.is_object() {
            return None;
        }
        match (v.u64_field("index"), v.get("delta"), v.opt_string_field("finish_reason")) {
            (Some(index), Some(d), Some(finish_reason)) => match Delta::from_json(d) {
                Some(delta) => Some(ChunkChoice { index, delta, finish_reason }),
                None => None,
            },
            _ => None,
        }
    }
}

impl ChatCompletionChunk {
    /// The chunk record that a JSON value stands for (see `chunk_of`).
    pub fn from_json(v: &Json) -> (r: Option<ChatCompletionChunk>)
        ensures
            r matches Some(c) ==> chunk_of(v@) == Some(c@),
            r is None ==> chunk_of(v@) is None,
    {
        if !v.is_object() {
            return None;
        }
        let id = match v.opt_string_field("id") {
            Some(x) => x,
            None => {
                return None;
            },
        };
        let object = match v.string_field("object") {
            Some(x) => x,
            None => {
                return None;
            },
        };
        let created = match v.u64_field("created") {
            Some(x) => x,
            None => {
                return None;
            },
        };
        let model = match v.string_field("model") {
            Some(x) => x,
            None => {
                return None;
            },
        };
        let system_fingerprint = match v.opt_string_field("system_fingerprint") {
            Some(x) => x,
            None => {
                return None;
            },
        };
        let items = match v.get("choices") {
            Some(Json::Array(items)) => items,
            _ => {
                return None;
            },
        };
        proof {
            lemma_array_view(*items);
        }
        let ghost vs = items@.map_values(|j: Json| j@);
        let mut choices: Vec<ChunkChoice> = Vec::new();
        let mut i: usize = 0;
        while i < items.len()
            invariant
                i <= items@.len(),
                vs == items@.map_values(|j: Json| j@),
                field(v@, "choices"@) == Some(JsonValue::Array(vs)),
                chunk_choices_of(vs.take(i as int)) == Some(choices@.map_values(|c: ChunkChoice| c@)),
            decreases items@.len() - i,
        {
            assert(vs.take(i + 1).drop_last() =~= vs.take(i as int));
            match ChunkChoice::from_json(&items[i]) {
                Some(c) => {
                    let ghost before = choices@;
                    choices.push(c);
                    assert(choices@.map_values(|c: ChunkChoice| c@) =~= before.map_values(|c: ChunkChoice| c@).push(c@));
                },
                None => {
                    proof {
                        assert(vs.take(i + 1).last() == items@[i as int]@);
                        lemma_chunk_choices_fail(vs, i + 1, vs.len() as int);
                        assert(vs.take(vs.len() as int) =~= vs);
                    }
                    return None;
                },
            }
            i = i + 1;
        }
        assert(vs.take(vs.len() as int) =~= vs);
        Some(ChatCompletionChunk { id, object, created, model, system_fingerprint, choices })
    }
}

/// The records of a stream from its payloads, each read as JSON where it
/// was JSON: the payloads that are chunk records, in order.
pub fn decode_chunks(parsed: Vec<Option<Json>>) -> (r: Vec<ChatCompletionChunk>)
    ensures
        r@.map_values(|c: ChatCompletionChunk| c@) == kept_chunks(
            parsed@.map_values(|o: Option<Json>| match o { Some(j) => Some(j@), None => None }),
        ),
{
    let ghost all = parsed@.map_values(|o: Option<Json>| match o { Some(j) => Some(j@), None => None });
    let mut out: Vec<ChatCompletionChunk> = Vec::new();
    let mut i: usize = 0;
    while i < parsed.len()
        invariant
            i <= parsed@.len(),
            all == parsed@.map_values(|o: Option<Json>| match o { Some(j) => Some(j@), None => None }),
            out@.map_values(|c: ChatCompletionChunk| c@) == kept_chunks(all.take(i as int)),
        decreases parsed@.len() - i,
    {
        assert(all.take(i + 1).drop_last() =~= all.take(i as int));
        let ghost before = out@;
        match &parsed[i] {
            Some(j) => match ChatCompletionChunk::from_json(j) {
                Some(c) => {
                    out.push(c);
                    assert(out@.map_values(|c: ChatCompletionChunk| c@) =~= before.map_values(|c: ChatCompletionChunk| c@).push(c@));
                },
                None => {},
            },
            None => {},
        }
        i = i + 1;
    }
    assert(all.take(all.len() as int) =~= all);
    out
}

/// The message of an error body: `error.message`, else the top-level
/// `message`, else `Unknown error: ` and the body. A message that is not a
/// string is replaced by the body.
pub open spec fn error_message(body: JsonValue, raw: Seq<char>) -> Seq<char> {
    match field(body, "error"@) {
        Some(e) if field(e, "message"@) is Some => match field(e, "message"@) {
            Some(JsonValue::Str(m)) => m,
            _ => raw,
        },
        _ => match field(body, "message"@) {
            Some(JsonValue::Str(m)) => m,
            Some(_) => raw,
            None => "Unknown error: "@ + raw,
        },
    }
}

pub struct ChoiceView {
    pub index: u64,
    pub message: MessageView,
    pub logprobs: Option<Seq<char>>,
    pub finish_reason: Option<Seq<char>>,
}

pub struct CompletionView {
    pub id: Option<Seq<char>>,
    pub object: Seq<char>,
    pub created: u64,
    pub model: Seq<char>,
    pub system_fingerprint: Option<Seq<char>>,
    pub choices: Seq<ChoiceView>,
    pub service_tier: Option<Seq<char>>,
    /// Prompt, completion and total tokens.
    pub usage: (u64, u64, u64),
}

impl View for Choice {
    type V = ChoiceView;

    open spec fn view(&self) -> ChoiceView {
        ChoiceView {
            index: self.index,
            message: self.message@,
            logprobs: opt_view(self.logprobs),
            finish_reason: opt_view(self.finish_reason),
        }
    }
}

impl View for ChatCompletion {
    type V = CompletionView;

    open spec fn view(&self) -> CompletionView {
        CompletionView {
            id: opt_view(self.id),
            object: self.object@,
            created: self.created,
            model: self.model@,
            system_fingerprint: opt_view(self.system_fingerprint),
            choices: self.choices@.map_values(|c: Choice| c@),
            service_tier: opt_view(self.service_tier),
            usage: (self.usage.prompt_tokens, self.usage.completion_tokens, self.usage.total_tokens),
        }
    }
}

pub open spec fn usage_of(v: JsonValue) -> Option<(u64, u64, u64)> {
    if v is Object {
        match (u64_field(v, "prompt_tokens"@), u64_field(v, "completion_tokens"@), u64_field(v, "total_tokens"@)) {
            (Some(p), Some(c), Some(t)) => Some((p, c, t)),
            _ => None,
        }
    } else {
        None
    }
}

pub open spec fn choice_of(v: JsonValue) -> Option<ChoiceView> {
    if v is Object {
        match (u64_field(v, "index"@), field(v, "message"@), opt_string_field(v, "logprobs"@), opt_string_field(v, "finish_reason"@)) {
            (Some(index), Some(m), Some(logprobs), Some(finish_reason)) => match message_of(m) {
                Some(message) => Some(ChoiceView { index, message, logprobs, finish_reason }),
                None => None,
            },
            _ => None,
        }
    } else {
        None
    }
}

pub open spec fn choices_of(items: Seq<JsonValue>) -> Option<Seq<ChoiceView>>
    decreases items.len(),
{
    if items.len() == 0 {
        Some(Seq::empty())
    } else {
        match (choices_of(items.drop_last()), choice_of(items.last())) {
            (Some(cs), Some(c)) => Some(cs.push(c)),
            _ => None,
        }
    }
}

/// The completion that a JSON value stands for: an object with an optional
/// `id`, string `object`, integer `created`, string `model`, optional
/// `system_fingerprint`, an array of `choices`, optional `service_tier` and
/// a `usage` object of three token counts.
pub open spec fn completion_of(v: JsonValue) -> Option<CompletionView> {
    if v is Object {
        match (
            opt_string_field(v, "id"@),
            string_field(v, "object"@),
            u64_field(v, "created"@),
            string_field(v, "model"@),
            opt_string_field(v, "system_fingerprint"@),
            field(v, "choices"@),
            opt_string_field(v, "service_tier"@),
            field(v, "usage"@),
        ) {
            (
                Some(id),
                Some(object),
                Some(created),
                Some(model),
                Some(system_fingerprint),
                Some(JsonValue::Array(items)),
                Some(service_tier),
                Some(u),
            ) => match (choices_of(items), usage_of(u)) {
                (Some(choices), Some(usage)) => Some(
                    CompletionView { id, object, created, model, system_fingerprint, choices, service_tier, usage },
                ),
                _ => None,
            },
            _ => None,
        }
    } else {
        None
    }
}

proof fn lemma_choices_fail(items: Seq<JsonValue>, k: int, m: int)
    requires
        0 <= k <= m <= items.len(),
        choices_of(items.take(k)) is None,
    ensures
        choices_of(items.take(m)) is None,
    decreases m - k,
{
    if m > k {
        lemma_choices_fail(items, k, m - 1);
        assert(items.take(m).drop_last() =~= items.take(m - 1));
    }
}

impl Choice {
    pub fn from_json(v: &Json) -> (r: Option<Choice>)
        ensures
            r matches Some(c) ==> choice_of(v@) == Some(c@),
            r is None ==> choice_of(v@) is None,
    {
        if !v.is_object() {
            return None;
        }
        match (v.u64_field("index"), v.get("message"), v.opt_string_field("logprobs"), v.opt_string_field("finish_reason")) {
            (Some(index), Some(m), Some(logprobs), Some(finish_reason)) => match Message::from_json(m) {
                Some(message) => Some(Choice { index, message, logprobs, finish_reason }),
                None => None,
            },
            _ => None,
        }
    }
}

impl Usage {
    pub fn from_json(v: &Json) -> (r: Option<Usage>)
        ensures
            r matches Some(u) ==> usage_of(v@) == Some((u.prompt_tokens, u.completion_tokens, u.total_tokens)),
            r is None ==> usage_of(v@) is None,
    {
        if !v.is_object() {
            return None;
        }
        match (v.u64_field("prompt_tokens"), v.u64_field("completion_tokens"), v.u64_field("total_tokens")) {
            (Some(prompt_tokens), Some(completion_tokens), Some(total_tokens)) => Some(
                Usage { prompt_tokens, completion_tokens, total_tokens },
            ),
            _ => None,
        }
    }
}

impl ChatCompletion {
    /// The completion that a JSON value stands for (see `completion_of`).
    pub fn from_json(v: &Json) -> (r: Option<ChatCompletion>)
        ensures
            r matches Some(c) ==> completion_of(v@) == Some(c@),
            r is None ==> completion_of(v@) is None,
    {
        if !v.is_object() {
            return None;
        }
        let id = match v.opt_string_field("id") {
            Some(x) => x,
            None => {
                return None;
            },
        };
        let object = match v.string_field("object") {
            Some(x) => x,
            None => {
                return None;
            },
        };
        let created = match v.u64_field("created") {
            Some(x) => x,
            None => {
                return None;
            },
        };
        let model = match v.string_field("model") {
            Some(x) => x,
            None => {
                return None;
            },
        };
        let system_fingerprint = match v.opt_string_field("system_fingerprint") {
            Some(x) => x,
            None => {
                return None;
            },
        };
        let items = match v.get("choices") {
            Some(Json::Array(items)) => items,
            _ => {
                return None;
            },
        };
        let service_tier = match v.opt_string_field("service_tier") {
            Some(x) => x,
            None => {
                return None;
            },
        };
        let usage = match v.get("usage") {
            Some(u) => match Usage::from_json(u) {
                Some(x) => x,
                None => {
                    return None;
                },
            },
            None => {
                return None;
            },
        };
        proof {
            lemma_array_view(*items);
        }
        let ghost vs = items@.map_values(|j: Json| j@);
        let mut choices: Vec<Choice> = Vec::new();
        let mut i: usize = 0;
        while i < items.len()
            invariant
                i <= items@.len(),
                vs == items@.map_values(|j: Json| j@),
                field(v@, "choices"@) == Some(JsonValue::Array(vs)),
                choices_of(vs.take(i as int)) == Some(choices@.map_values(|c: Choice| c@)),
            decreases items@.len() - i,
        {
            assert(vs.take(i + 1).drop_last() =~= vs.take(i as int));
            match Choice::from_json(&items[i]) {
                Some(c) => {
                    let ghost before = choices@;
                    choices.push(c);
                    assert(choices@.map_values(|c: Choice| c@) =~= before.map_values(|c: Choice| c@).push(c@));
                },
                None => {
                    proof {
                        assert(vs.take(i + 1).last() == items@[i as int]@);
                        lemma_choices_fail(vs, i + 1, vs.len() as int);
                        assert(vs.take(vs.len() as int) =~= vs);
                    }
                    return None;
                },
            }
            i = i + 1;
        }
        assert(vs.take(vs.len() as int) =~= vs);
        Some(ChatCompletion { id, object, created, model, system_fingerprint, choices, service_tier, usage })
    }
}

/// The message of an error body (see `error_message`); `raw` is the body's
/// text.
pub fn extract_error(body: &Json, raw: &str) -> (r: String)
    ensures
        r@ == error_message(body@, raw@),
{
    match body.get("error") {
        Some(e) => {
            match e.get("message") {
                Some(Json::Str(m)) => {
                    return m.clone();
                },
                Some(_) => {
                    return raw.to_string();
                },
                None => {},
            }
        },
        None => {},
    }
    match body.get("message") {
        Some(Json::Str(m)) => m.clone(),
        Some(_) => raw.to_string(),
        None => concat("Unknown error: ", raw),
    }
}

/// Where an error body has both, `error.message` wins over the top-level
/// `message`; with only the top-level one, that one is taken; with neither,
/// the message is `Unknown error: ` followed by the body.
pub proof fn lemma_error_priority(m1: Seq<char>, m2: Seq<char>, raw: Seq<char>, neither: JsonValue)
    requires
        field(neither, "error"@) is None,
        field(neither, "message"@) is None,
    ensures
        error_message(
            JsonValue::Object(seq![
                ("error"@, JsonValue::Object(seq![("message"@, JsonValue::Str(m1))])),
                ("message"@, JsonValue::Str(m2)),
            ]),
            raw,
        ) == m1,
        error_message(JsonValue::Object(seq![("message"@, JsonValue::Str(m2))]), raw) == m2,
        error_message(neither, raw) == "Unknown error: "@ + raw,
{
    reveal_strlit("error");
    reveal_strlit("message");
    assert("error"@.len() != "message"@.len());
    let only = seq![("message"@, JsonValue::Str(m2))];
    assert(only.drop_first() =~= Seq::<(Seq<char>, JsonValue)>::empty());
    assert(find_field(only.drop_first(), "error"@) is None);
}

/// A body of no bytes at all counts as empty, whatever the status.
pub proof fn lemma_no_bytes_blank()
    ensures
        is_blank(Seq::<u8>::empty()),
{
}

/// Whether bytes are all whitespace (or there are none).
pub open spec fn is_blank(b: Seq<u8>) -> bool {
    forall|i: int| 0 <= i < b.len() ==> (#[trigger] b[i] == 32 || b[i] == 9 || b[i] == 10 || b[i] == 13)
}

pub(crate) fn blank(b: &[u8]) -> (r: bool)
    ensures
        r == is_blank(b@),
{
    let mut i: usize = 0;
    while i < b.len()
        invariant
            i <= b@.len(),
            forall|j: int| 0 <= j < i ==> (#[trigger] b@[j] == 32 || b@[j] == 9 || b@[j] == 10 || b@[j] == 13),
        decreases b@.len() - i,
    {
        let c = b[i];
        if !(c == 32 || c == 9 || c == 10 || c == 13) {
            return false;
        }
        i = i + 1;
    }
    true
}

/// Reads a complete response body.
///
/// `decoded` is the body read as the expected result, `parsed` the body read
/// as any JSON value, and `parse_error` what the JSON reader said where it
/// failed. An empty body is `EmptyResponse`; then the expected result wins;
/// then an error envelope gives `ProviderError`; else the body is
/// `MalformedResponse`.
pub fn normalize<T>(status: u16, raw: &[u8], decoded: Option<T>, parsed: Option<Json>, parse_error: &str) -> (r: Result<T, ApiError>)
    ensures
        is_blank(raw@) ==> r == Err::<T, ApiError>(ApiError::EmptyResponse { status }),
        !is_blank(raw@) && decoded is Some ==> r == Ok::<T, ApiError>(decoded->0),
        !is_blank(raw@) && decoded is None && parsed is Some ==> (r matches Err(ApiError::ProviderError { message })
            && message@ == error_message(parsed->0@, utf8_text(raw@))),
        !is_blank(raw@) && decoded is None && parsed is None ==> (r matches Err(ApiError::MalformedResponse { parse_error: e, raw_text: t })
            && e@ == parse_error@ && t@ == utf8_text(raw@)),
{
    if blank(raw) {
        return Err(ApiError::EmptyResponse { status });
    }
    match decoded {
        Some(t) => Ok(t),
        None => {
            let text = utf8_lossy(raw);
            match parsed {
                Some(body) => Err(ApiError::ProviderError { message: extract_error(&body, text.as_str()) }),
                None => Err(ApiError::MalformedResponse { parse_error: parse_error.to_string(), raw_text: text }),
            }
        },
    }
}

/// A complete chat-completion response: status and body.
#[derive(Debug)]
pub struct ChatCompletionResponse {
    status: u16,
    resp: Vec<u8>,
}

impl ChatCompletionResponse {
    pub closed spec fn spec_status(&self) -> u16 {
        self.status
    }

    pub closed spec fn body(&self) -> Seq<u8> {
        self.resp@
    }

    pub fn new(status: u16, resp: Vec<u8>) -> (r: Self)
        ensures
            r.spec_status() == status,
            r.body() == resp@,
    {
        ChatCompletionResponse { status, resp }
    }

    pub fn status(&self) -> (r: u16)
        ensures
            r == self.spec_status(),
    {
        self.status
    }

    /// The body as it came.
    pub fn bytes(&self) -> (r: &Vec<u8>)
        ensures
            r@ == self.body(),
    {
        &self.resp
    }

    /// The completion that the body holds, or the error it stands for.
    /// `parsed` is the body read as JSON, where it is JSON, and
    /// `parse_error` what the JSON reader said where it is not.
    pub fn structured(&self, parsed: Option<Json>, parse_error: &str) -> (r: Result<ChatCompletion, ApiError>)
        ensures
            is_blank(self.body()) ==> r == Err::<ChatCompletion, ApiError>(ApiError::EmptyResponse { status: self.spec_status() }),
            !is_blank(self.body()) && parsed is Some && completion_of(parsed->0@) is Some ==> (r matches Ok(c)
                && Some(c@) == completion_of(parsed->0@)),
            !is_blank(self.body()) && parsed is Some && completion_of(parsed->0@) is None ==> (r matches Err(ApiError::ProviderError { message })
                && message@ == error_message(parsed->0@, utf8_text(self.body()))),
            !is_blank(self.body()) && parsed is None ==> (r matches Err(ApiError::MalformedResponse { parse_error: e, raw_text: t })
                && e@ == parse_error@ && t@ == utf8_text(self.body())),
    {
        let decoded = match &parsed {
            Some(j) => ChatCompletion::from_json(j),
            None => None,
        };
        normalize(self.status, self.resp.as_slice(), decoded, parsed, parse_error)
    }
}

pub open spec fn messages_value(messages: Seq<MessageView>) -> JsonValue {
    JsonValue::Array(messages.map_values(|m: MessageView| message_value(m)))
}

/// The body of a chat-completion request.
pub open spec fn chat_body_value(model: Seq<char>, messages: Seq<MessageView>, stream: bool) -> JsonValue {
    JsonValue::Object(
        seq![
            ("model"@, JsonValue::Str(model)),
            ("messages"@, messages_value(messages)),
            ("stream"@, JsonValue::Bool(stream)),
        ],
    )
}

/// The body of a chat-completion request:
/// `{"model": ..., "messages": [...], "stream": ...}`.
pub fn chat_body(model: &str, messages: &[Message], stream: bool) -> (r: Json)
    ensures
        r@ == chat_body_value(model@, messages@.map_values(|m: Message| m@), stream),
{
    let mut items: Vec<Json> = Vec::new();
    let mut i: usize = 0;
    while i < messages.len()
        invariant
            i <= messages@.len(),
            items@.len() == i,
            forall|j: int| 0 <= j < i ==> #[trigger] items@[j]@ == message_value(messages@[j]@),
        decreases messages@.len() - i,
    {
        items.push(messages[i].to_json());
        i = i + 1;
    }
    proof {
        lemma_array_view(items);
    }
    assert(items@.map_values(|j: Json| j@) =~= messages@.map_values(|m: Message| m@).map_values(
        |m: MessageView| message_value(m),
    ));
    let array = Json::Array(items);
    let fields = vec![
        ("model".to_string(), Json::string(model)),
        ("messages".to_string(), array),
        ("stream".to_string(), Json::Bool(stream)),
    ];
    proof {
        lemma_object_view(fields);
    }
    assert(fields_view(fields@) =~= chat_body_value(model@, messages@.map_values(|m: Message| m@), stream)->Object_0);
    Json::Object(fields)
}

/// The request for a chat completion of `messages` by `model` at `provider`.
pub fn chat_request(provider: &Provider, key: &Key, model: &str, messages: &[Message], stream: bool) -> (r: Result<HttpRequest, ApiError>)
    ensures
        header_value_ok("Bearer "@ + key.key@) ==> (r matches Ok(req)
            && req.url@ == openai_base_of(*provider) + "/chat/completions"@
            && pairs_view(req.headers@) == standard_headers(key.key@)
            && req.body@ == chat_body_value(model@, messages@.map_values(|m: Message| m@), stream)
            && req.use_rustls == (*provider is Google)),
        !header_value_ok("Bearer "@ + key.key@) ==> (r matches Err(e) && e is HeaderConstruction),
{
    let headers = match request_headers(key) {
        Ok(h) => h,
        Err(e) => {
            return Err(e);
        },
    };
    Ok(HttpRequest {
        url: chat_address(provider),
        headers,
        body: chat_body(model, messages, stream),
        use_rustls: provider.needs_rustls(),
    })
}

} // verus!
