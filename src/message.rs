//! Chat messages and their JSON form.
use vstd::prelude::*;
use crate::json::field;
use crate::json::find_field;
use crate::json::str_of;
use crate::json::JsonValue;
use crate::json::Json;
use crate::json::lemma_array_view;
use crate::json::lemma_object_view;
use crate::json::fields_view;
use crate::json::same_text;
use crate::encoding::base64_encode;
use crate::encoding::base64_of;
use crate::text::concat;

verus! {

/// One part of a multi-part message.
#[derive(Clone, Debug)]
pub enum SubContent {
    TextContent { text: String },
    ImageUrlContent { image_url: String },
}

/// What a message says: plain text, or parts in order.
#[derive(Clone, Debug)]
pub enum Content {
    Text(String),
    Collection(Vec<SubContent>),
}

/// A chat message: a role ("system", "user", "assistant", ...) and content.
#[derive(Clone, Debug)]
pub struct Message {
    pub role: String,
    pub content: Content,
}

pub enum SubContentView {
    Text(Seq<char>),
    ImageUrl(Seq<char>),
}

pub enum ContentView {
    Text(Seq<char>),
    Collection(Seq<SubContentView>),
}

pub struct MessageView {
    pub role: Seq<char>,
    pub content: ContentView,
}

impl View for SubContent {
    type V = SubContentView;

    open spec fn view(&self) -> SubContentView {
        match self {
            SubContent::TextContent { text } => SubContentView::Text(text@),
            SubContent::ImageUrlContent { image_url } => SubContentView::ImageUrl(image_url@),
        }
    }
}

impl View for Content {
    type V = ContentView;

    open spec fn view(&self) -> ContentView {
        match self {
            Content::Text(text) => ContentView::Text(text@),
            Content::Collection(parts) => ContentView::Collection(parts@.map_values(|p: SubContent| p@)),
        }
    }
}

impl View for Message {
    type V = MessageView;

    open spec fn view(&self) -> MessageView {
        MessageView { role: self.role@, content: self.content@ }
    }
}

/// The JSON form of a part: an object tagged by its `type`.
pub open spec fn sub_content_value(p: SubContentView) -> JsonValue {
    match p {
        SubContentView::Text(t) => JsonValue::Object(
            seq![("type"@, JsonValue::Str("text"@)), ("text"@, JsonValue::Str(t))],
        ),
        SubContentView::ImageUrl(u) => JsonValue::Object(
            seq![
                ("type"@, JsonValue::Str("image_url"@)),
                ("image_url"@, JsonValue::Object(seq![("url"@, JsonValue::Str(u))])),
            ],
        ),
    }
}

/// The JSON form of content: plain text is a bare string, never an array.
pub open spec fn content_value(c: ContentView) -> JsonValue {
    match c {
        ContentView::Text(t) => JsonValue::Str(t),
        ContentView::Collection(parts) => JsonValue::Array(parts.map_values(|p: SubContentView| sub_content_value(p))),
    }
}

pub open spec fn message_value(m: MessageView) -> JsonValue {
    JsonValue::Object(seq![("role"@, JsonValue::Str(m.role)), ("content"@, content_value(m.content))])
}

/// The part that a JSON value stands for, if any.
pub open spec fn sub_content_of(v: JsonValue) -> Option<SubContentView> {
    match str_of(field(v, "type"@)) {
        Some(t) => if t == "text"@ {
            match str_of(field(v, "text"@)) {
                Some(x) => Some(SubContentView::Text(x)),
                None => None,
            }
        } else if t == "image_url"@ {
            match field(v, "image_url"@) {
                Some(inner) => match str_of(field(inner, "url"@)) {
                    Some(u) => Some(SubContentView::ImageUrl(u)),
                    None => None,
                },
                None => None,
            }
        } else {
            None
        },
        None => None,
    }
}

/// The parts that JSON values stand for, where every one stands for a part.
pub open spec fn parts_of(items: Seq<JsonValue>) -> Option<Seq<SubContentView>>
    decreases items.len(),
{
    if items.len() == 0 {
        Some(Seq::empty())
    } else {
        match (parts_of(items.drop_last()), sub_content_of(items.last())) {
            (Some(ps), Some(p)) => Some(ps.push(p)),
            _ => None,
        }
    }
}

/// The content that a JSON value stands for: a string, or an array of parts.
pub open spec fn content_of(v: JsonValue) -> Option<ContentView> {
    match v {
        JsonValue::Str(t) => Some(ContentView::Text(t)),
        JsonValue::Array(items) => match parts_of(items) {
            Some(ps) => Some(ContentView::Collection(ps)),
            None => None,
        },
        _ => None,
    }
}

pub open spec fn message_of(v: JsonValue) -> Option<MessageView> {
    match (str_of(field(v, "role"@)), field(v, "content"@)) {
        (Some(role), Some(c)) => match content_of(c) {
            Some(content) => Some(MessageView { role, content }),
            None => None,
        },
        _ => None,
    }
}

proof fn lemma_keys_distinct()
    ensures
        "type"@ != "text"@,
        "type"@ != "image_url"@,
        "text"@ != "image_url"@,
        "role"@ != "content"@,
{
    reveal_strlit("type");
    reveal_strlit("text");
    reveal_strlit("image_url");
    reveal_strlit("role");
    reveal_strlit("content");
    assert("type"@[1] != "text"@[1]);
    assert("type"@.len() != "image_url"@.len());
    assert("text"@.len() != "image_url"@.len());
    assert("role"@.len() != "content"@.len());
}

proof fn lemma_part_round_trip(p: SubContentView)
    ensures
        sub_content_of(sub_content_value(p)) == Some(p),
{
    lemma_keys_distinct();
    let v = sub_content_value(p);
    let fs = v->Object_0;
    assert(fs.drop_first().drop_first().len() == 0);
    match p {
        SubContentView::Text(t) => {
            assert(find_field(fs.drop_first(), "text"@) == Some(JsonValue::Str(t)));
        },
        SubContentView::ImageUrl(u) => {
            assert(find_field(fs.drop_first(), "image_url"@) == Some(
                JsonValue::Object(seq![("url"@, JsonValue::Str(u))]),
            ));
        },
    }
}

proof fn lemma_parts_round_trip(ps: Seq<SubContentView>)
    ensures
        parts_of(ps.map_values(|p: SubContentView| sub_content_value(p))) == Some(ps),
    decreases ps.len(),
{
    let vs = ps.map_values(|p: SubContentView| sub_content_value(p));
    if ps.len() > 0 {
        lemma_parts_round_trip(ps.drop_last());
        assert(vs.drop_last() =~= ps.drop_last().map_values(|p: SubContentView| sub_content_value(p)));
        lemma_part_round_trip(ps.last());
        assert(ps.drop_last().push(ps.last()) =~= ps);
    } else {
        assert(ps =~= Seq::<SubContentView>::empty());
    }
}

/// Reading back the JSON form of any message gives the message itself.
pub proof fn lemma_message_round_trip(m: MessageView)
    ensures
        message_of(message_value(m)) == Some(m),
        content_of(content_value(m.content)) == Some(m.content),
{
    lemma_keys_distinct();
    let fs = message_value(m)->Object_0;
    assert(fs.drop_first().drop_first().len() == 0);
    assert(find_field(fs.drop_first(), "content"@) == Some(content_value(m.content)));
    match m.content {
        ContentView::Text(_) => {},
        ContentView::Collection(ps) => {
            lemma_parts_round_trip(ps);
        },
    }
}

/// A text-only message is written with its content as a bare string, and
/// reading it back gives the same text.
pub proof fn lemma_text_round_trip(role: Seq<char>, text: Seq<char>)
    ensures
        field(message_value(MessageView { role, content: ContentView::Text(text) }), "content"@)
            == Some(JsonValue::Str(text)),
        message_of(message_value(MessageView { role, content: ContentView::Text(text) }))
            == Some(MessageView { role, content: ContentView::Text(text) }),
{
    lemma_message_round_trip(MessageView { role, content: ContentView::Text(text) });
    lemma_keys_distinct();
    let fs = message_value(MessageView { role, content: ContentView::Text(text) })->Object_0;
    assert(find_field(fs.drop_first(), "content"@) == Some(JsonValue::Str(text)));
}

/// A message of one text part and one image part is written as an array of
/// two tagged objects, and reading it back gives the same parts.
pub proof fn lemma_two_part_round_trip(role: Seq<char>, text: Seq<char>, url: Seq<char>)
    ensures
        ({
            let parts = seq![SubContentView::Text(text), SubContentView::ImageUrl(url)];
            let m = MessageView { role, content: ContentView::Collection(parts) };
            &&& content_value(m.content) == JsonValue::Array(
                seq![sub_content_value(parts[0]), sub_content_value(parts[1])],
            )
            &&& message_of(message_value(m)) == Some(m)
        }),
{
    let parts = seq![SubContentView::Text(text), SubContentView::ImageUrl(url)];
    let m = MessageView { role, content: ContentView::Collection(parts) };
    lemma_message_round_trip(m);
    assert(parts.map_values(|p: SubContentView| sub_content_value(p)) =~= seq![
        sub_content_value(parts[0]),
        sub_content_value(parts[1]),
    ]);
}


/// The URL of an image given inline: `data:image/<type>;base64,<base64>`.
pub open spec fn image_data_url(image_type: Seq<char>, image: Seq<u8>) -> Seq<char> {
    "data:image/"@ + image_type + ";base64,"@ + base64_of(image)
}

fn object2(k1: &str, v1: Json, k2: &str, v2: Json) -> (r: Json)
    ensures
        r@ == JsonValue::Object(seq![(k1@, v1@), (k2@, v2@)]),
{
    let fields = vec![(k1.to_string(), v1), (k2.to_string(), v2)];
    proof {
        lemma_object_view(fields);
    }
    assert(fields_view(fields@) =~= seq![(k1@, v1@), (k2@, v2@)]);
    Json::Object(fields)
}

impl SubContent {
    /// A part of kind `kind` ("text" or "image_url") holding `text`.
    pub fn new(kind: &str, text: &str) -> (r: Self)
        requires
            kind@ == "text"@ || kind@ == "image_url"@,
        ensures
            kind@ == "text"@ ==> r@ == SubContentView::Text(text@),
            kind@ == "image_url"@ ==> r@ == SubContentView::ImageUrl(text@),
    {
        proof {
            lemma_keys_distinct();
        }
        if same_text(kind, "text") {
            SubContent::TextContent { text: text.to_string() }
        } else {
            SubContent::ImageUrlContent { image_url: text.to_string() }
        }
    }

    /// The JSON form of this part.
    pub fn to_json(&self) -> (r: Json)
        ensures
            r@ == sub_content_value(self@),
    {
        match self {
            SubContent::TextContent { text } => {
                object2("type", Json::string("text"), "text", Json::Str(text.clone()))
            },
            SubContent::ImageUrlContent { image_url } => {
                let inner = vec![("url".to_string(), Json::Str(image_url.clone()))];
                proof {
                    lemma_object_view(inner);
                }
                assert(fields_view(inner@) =~= seq![("url"@, JsonValue::Str(image_url@))]);
                object2("type", Json::string("image_url"), "image_url", Json::Object(inner))
            },
        }
    }

    /// The part that a JSON value stands for, if any.
    pub fn from_json(v: &Json) -> (r: Option<SubContent>)
        ensures
            r matches Some(p) ==> sub_content_of(v@) == Some(p@),
            r is None ==> sub_content_of(v@) is None,
    {
        match v.get("type") {
            Some(Json::Str(t)) => {
                if same_text(t.as_str(), "text") {
                    match v.get("text") {
                        Some(Json::Str(x)) => Some(SubContent::TextContent { text: x.clone() }),
                        _ => None,
                    }
                } else if same_text(t.as_str(), "image_url") {
                    match v.get("image_url") {
                        Some(inner) => match inner.get("url") {
                            Some(Json::Str(u)) => Some(SubContent::ImageUrlContent { image_url: u.clone() }),
                            _ => None,
                        },
                        None => None,
                    }
                } else {
                    None
                }
            },
            _ => None,
        }
    }
}

proof fn lemma_parts_fail(items: Seq<JsonValue>, k: int, m: int)
    requires
        0 <= k <= m <= items.len(),
        parts_of(items.take(k)) is None,
    ensures
        parts_of(items.take(m)) is None,
    decreases m - k,
{
    if m > k {
        lemma_parts_fail(items, k, m - 1);
        assert(items.take(m).drop_last() =~= items.take(m - 1));
    }
}

impl Content {
    /// The JSON form of this content: plain text as a bare string, parts as
    /// an array of tagged objects.
    pub fn to_json(&self) -> (r: Json)
        ensures
            r@ == content_value(self@),
    {
        match self {
            Content::Text(text) => Json::Str(text.clone()),
            Content::Collection(parts) => {
                let mut items: Vec<Json> = Vec::new();
                let mut i: usize = 0;
                while i < parts.len()
                    invariant
                        i <= parts@.len(),
                        items@.len() == i,
                        forall|j: int| 0 <= j < i ==> #[trigger] items@[j]@ == sub_content_value(parts@[j]@),
                    decreases parts@.len() - i,
                {
                    items.push(parts[i].to_json());
                    i = i + 1;
                }
                proof {
                    lemma_array_view(items);
                }
                assert(items@.map_values(|j: Json| j@) =~= parts@.map_values(|p: SubContent| p@).map_values(
                    |p: SubContentView| sub_content_value(p),
                ));
                Json::Array(items)
            },
        }
    }

    /// The content that a JSON value stands for: a string, or an array whose
    /// every item is a part.
    pub fn from_json(v: &Json) -> (r: Option<Content>)
        ensures
            r matches Some(c) ==> content_of(v@) == Some(c@),
            r is None ==> content_of(v@) is None,
    {
        match v {
            Json::Str(t) => Some(Content::Text(t.clone())),
            Json::Array(items) => {
                proof {
                    lemma_array_view(*items);
                }
                let ghost vs = items@.map_values(|j: Json| j@);
                let mut parts: Vec<SubContent> = Vec::new();
                let mut i: usize = 0;
                while i < items.len()
                    invariant
                        i <= items@.len(),
                        vs == items@.map_values(|j: Json| j@),
                        v@ == JsonValue::Array(vs),
                        parts_of(vs.take(i as int)) == Some(parts@.map_values(|p: SubContent| p@)),
                    decreases items@.len() - i,
                {
                    assert(vs.take(i + 1).drop_last() =~= vs.take(i as int));
                    match SubContent::from_json(&items[i]) {
                        Some(p) => {
                            let ghost before = parts@;
                            parts.push(p);
                            assert(parts@.map_values(|p: SubContent| p@) =~= before.map_values(|p: SubContent| p@).push(p@));
                        },
                        None => {
                            proof {
                                assert(vs.take(i + 1).last() == items@[i as int]@);
                                assert(parts_of(vs.take(i + 1)) is None);
                                lemma_parts_fail(vs, i + 1, vs.len() as int);
                                assert(vs.take(vs.len() as int) =~= vs);
                                assert(parts_of(vs) is None);
                                assert(v@ == JsonValue::Array(vs));
                            }
                            return None;
                        },
                    }
                    i = i + 1;
                }
                assert(vs.take(vs.len() as int) =~= vs);
                Some(Content::Collection(parts))
            },
            _ => None,
        }
    }
}

impl Message {
    /// A message with plain-text content.
    pub fn from_str(role: &str, text: &str) -> (r: Self)
        ensures
            r@ == (MessageView { role: role@, content: ContentView::Text(text@) }),
    {
        Message { role: role.to_string(), content: Content::Text(text.to_string()) }
    }

    /// A message whose content is one image, given by URL.
    pub fn from_image_url(role: &str, image_url: &str) -> (r: Self)
        ensures
            r@ == (MessageView {
                role: role@,
                content: ContentView::Collection(seq![SubContentView::ImageUrl(image_url@)]),
            }),
    {
        let parts = vec![SubContent::ImageUrlContent { image_url: image_url.to_string() }];
        assert(parts@.map_values(|p: SubContent| p@) =~= seq![SubContentView::ImageUrl(image_url@)]);
        Message { role: role.to_string(), content: Content::Collection(parts) }
    }

    /// A message whose content is one image, given inline as base64 in a
    /// data URL of type `image/<image_type>`.
    pub fn from_image_bytes(role: &str, image_type: &str, image: &[u8]) -> (r: Self)
        requires
            image@.len() <= usize::MAX / 2,
        ensures
            r@ == (MessageView {
                role: role@,
                content: ContentView::Collection(seq![SubContentView::ImageUrl(image_data_url(image_type@, image@))]),
            }),
    {
        let encoded = base64_encode(image);
        let head = concat("data:image/", image_type);
        let head = concat(head.as_str(), ";base64,");
        let url = concat(head.as_str(), encoded.as_str());
        Self::from_image_url(role, url.as_str())
    }

    /// The JSON form of this message: `{"role": ..., "content": ...}`.
    pub fn to_json(&self) -> (r: Json)
        ensures
            r@ == message_value(self@),
    {
        object2("role", Json::Str(self.role.clone()), "content", self.content.to_json())
    }

    /// The message that a JSON value stands for, if any.
    pub fn from_json(v: &Json) -> (r: Option<Message>)
        ensures
            r matches Some(m) ==> message_of(v@) == Some(m@),
            r is None ==> message_of(v@) is None,
    {
        match (v.get("role"), v.get("content")) {
            (Some(Json::Str(role)), Some(c)) => match Content::from_json(c) {
                Some(content) => Some(Message { role: role.clone(), content }),
                None => None,
            },
            _ => None,
        }
    }
}

} // verus!
