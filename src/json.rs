//! A JSON value as the library builds and reads it.
use vstd::prelude::*;

verus! {

/// The mathematical content of a JSON value.
pub enum JsonValue {
    Null,
    Bool(bool),
    Number(Seq<char>),
    Str(Seq<char>),
    Array(Seq<JsonValue>),
    Object(Seq<(Seq<char>, JsonValue)>),
}

/// A JSON value. Numbers keep their literal text; an object keeps its fields
/// in order.
#[derive(Debug)]
pub enum Json {
    Null,
    Bool(bool),
    Number(String),
    Str(String),
    Array(Vec<Json>),
    Object(Vec<(String, Json)>),
}

impl Json {
    /// The mathematical content of this value.
    pub open spec fn value(&self) -> JsonValue
        decreases self,
    {
        match self {
            Json::Null => JsonValue::Null,
            Json::Bool(b) => JsonValue::Bool(*b),
            Json::Number(n) => JsonValue::Number(n@),
            Json::Str(s) => JsonValue::Str(s@),
            Json::Array(items) => JsonValue::Array(
                Seq::new(items@.len(), |i: int| if 0 <= i < items@.len() { items@[i].value() } else { JsonValue::Null }),
            ),
            Json::Object(fields) => JsonValue::Object(
                Seq::new(fields@.len(), |i: int| if 0 <= i < fields@.len() { (fields@[i].0@, fields@[i].1.value()) } else { (Seq::empty(), JsonValue::Null) }),
            ),
        }
    }
}

impl View for Json {
    type V = JsonValue;

    open spec fn view(&self) -> JsonValue {
        self.value()
    }
}

/// The value of the first field named `key` of an object.
pub open spec fn find_field(fields: Seq<(Seq<char>, JsonValue)>, key: Seq<char>) -> Option<JsonValue>
    decreases fields.len(),
{
    if fields.len() == 0 {
        None
    } else if fields[0].0 == key {
        Some(fields[0].1)
    } else {
        find_field(fields.drop_first(), key)
    }
}

/// The field `key` of `v`: none where `v` is not an object.
pub open spec fn field(v: JsonValue, key: Seq<char>) -> Option<JsonValue> {
    match v {
        JsonValue::Object(fields) => find_field(fields, key),
        _ => None,
    }
}

/// Sets field `key` to `value`: the first field of that name takes the new
/// value in its place, or the field is added at the end.
pub open spec fn set_field(fields: Seq<(Seq<char>, JsonValue)>, key: Seq<char>, value: JsonValue) -> Seq<(Seq<char>, JsonValue)>
    decreases fields.len(),
{
    if fields.len() == 0 {
        seq![(key, value)]
    } else if fields[0].0 == key {
        fields.update(0, (key, value))
    } else {
        seq![fields[0]] + set_field(fields.drop_first(), key, value)
    }
}

/// The text of a string value.
pub open spec fn str_of(v: Option<JsonValue>) -> Option<Seq<char>> {
    match v {
        Some(JsonValue::Str(s)) => Some(s),
        _ => None,
    }
}

pub open spec fn fields_view(fields: Seq<(String, Json)>) -> Seq<(Seq<char>, JsonValue)> {
    Seq::new(fields.len(), |i: int| (fields[i].0@, fields[i].1@))
}

pub proof fn lemma_object_view(fields: Vec<(String, Json)>)
    ensures
        Json::Object(fields)@ == JsonValue::Object(fields_view(fields@)),
{
    let whole = Json::Object(fields)@;
    let s = whole->Object_0;
    assert(s.len() == fields.len());
    assert forall|i: int| 0 <= i < s.len() implies s[i] == fields_view(fields@)[i] by {}
    assert(s =~= fields_view(fields@));
}

pub proof fn lemma_array_view(items: Vec<Json>)
    ensures
        Json::Array(items)@ == JsonValue::Array(items@.map_values(|j: Json| j@)),
{
    let whole = Json::Array(items)@;
    let s = whole->Array_0;
    assert(s.len() == items.len());
    assert forall|i: int| 0 <= i < s.len() implies s[i] == items@.map_values(|j: Json| j@)[i] by {}
    assert(s =~= items@.map_values(|j: Json| j@));
}

proof fn lemma_find_first(fields: Seq<(Seq<char>, JsonValue)>, key: Seq<char>, i: int)
    requires
        0 <= i < fields.len(),
        fields[i].0 == key,
        forall|j: int| 0 <= j < i ==> fields[j].0 != key,
    ensures
        find_field(fields, key) == Some(fields[i].1),
        set_field(fields, key, fields[i].1) == fields,
    decreases i,
{
    if i > 0 {
        lemma_find_first(fields.drop_first(), key, i - 1);
        assert(seq![fields[0]] + fields.drop_first() =~= fields);
    } else {
        assert(fields.update(0, (key, fields[0].1)) =~= fields);
    }
}

proof fn lemma_set_first(fields: Seq<(Seq<char>, JsonValue)>, key: Seq<char>, value: JsonValue, i: int)
    requires
        0 <= i < fields.len(),
        fields[i].0 == key,
        forall|j: int| 0 <= j < i ==> fields[j].0 != key,
    ensures
        set_field(fields, key, value) == fields.update(i, (key, value)),
    decreases i,
{
    if i > 0 {
        lemma_set_first(fields.drop_first(), key, value, i - 1);
        assert(seq![fields[0]] + fields.drop_first().update(i - 1, (key, value)) =~= fields.update(i, (key, value)));
    }
}

proof fn lemma_absent(fields: Seq<(Seq<char>, JsonValue)>, key: Seq<char>, value: JsonValue)
    requires
        forall|j: int| 0 <= j < fields.len() ==> fields[j].0 != key,
    ensures
        find_field(fields, key) is None,
        set_field(fields, key, value) == fields.push((key, value)),
    decreases fields.len(),
{
    if fields.len() > 0 {
        lemma_absent(fields.drop_first(), key, value);
        assert(seq![fields[0]] + fields.drop_first().push((key, value)) =~= fields.push((key, value)));
    }
}

/// Whether every character is a decimal digit.
pub open spec fn is_digits(t: Seq<char>) -> bool {
    forall|i: int| 0 <= i < t.len() ==> '0' <= #[trigger] t[i] && t[i] <= '9'
}

/// The number that decimal digits stand for.
pub open spec fn digits_value(t: Seq<char>) -> nat
    decreases t.len(),
{
    if t.len() == 0 {
        0
    } else {
        10 * digits_value(t.drop_last()) + ((t.last() as u32) - ('0' as u32)) as nat
    }
}

/// The unsigned 64-bit integer that a JSON value holds: a number written
/// with digits alone, small enough.
pub open spec fn u64_of(v: JsonValue) -> Option<u64> {
    match v {
        JsonValue::Number(t) => if t.len() > 0 && is_digits(t) && digits_value(t) <= u64::MAX {
            Some(digits_value(t) as u64)
        } else {
            None
        },
        _ => None,
    }
}

/// A field that must be an unsigned integer.
pub open spec fn u64_field(v: JsonValue, key: Seq<char>) -> Option<u64> {
    match field(v, key) {
        Some(n) => u64_of(n),
        None => None,
    }
}

/// A field that must be a string.
pub open spec fn string_field(v: JsonValue, key: Seq<char>) -> Option<Seq<char>> {
    str_of(field(v, key))
}

/// A field that may be absent or null, else must be a string: `Some` of
/// what it holds, or `None` where it is neither.
pub open spec fn opt_string_field(v: JsonValue, key: Seq<char>) -> Option<Option<Seq<char>>> {
    match field(v, key) {
        None => Some(None),
        Some(JsonValue::Null) => Some(None),
        Some(JsonValue::Str(s)) => Some(Some(s)),
        Some(_) => None,
    }
}

/// A field that may be absent or null, else must be an unsigned integer.
pub open spec fn opt_u64_field(v: JsonValue, key: Seq<char>) -> Option<Option<u64>> {
    match field(v, key) {
        None => Some(None),
        Some(JsonValue::Null) => Some(None),
        Some(n) => match u64_of(n) {
            Some(x) => Some(Some(x)),
            None => None,
        },
    }
}

pub open spec fn opt_view(o: Option<String>) -> Option<Seq<char>> {
    match o {
        Some(s) => Some(s@),
        None => None,
    }
}

proof fn lemma_digits_grow(t: Seq<char>, k: int)
    requires
        0 <= k <= t.len(),
        is_digits(t),
    ensures
        digits_value(t.take(k)) <= digits_value(t),
    decreases t.len() - k,
{
    if k < t.len() {
        lemma_digits_grow(t, k + 1);
        assert(t.take(k + 1).drop_last() =~= t.take(k));
    } else {
        assert(t.take(k) =~= t);
    }
}

/// Items of JSON text separated by commas.
pub open spec fn join_commas(parts: Seq<Seq<char>>) -> Seq<char>
    decreases parts.len(),
{
    if parts.len() == 0 {
        Seq::empty()
    } else if parts.len() == 1 {
        parts[0]
    } else {
        join_commas(parts.drop_last()) + seq![','] + parts.last()
    }
}

pub open spec fn hex_digit(d: u32) -> char {
    if d < 10 {
        ((d + 48) as u8) as char
    } else {
        ((d + 87) as u8) as char
    }
}

/// How one character of a string is written in JSON text: quote and
/// backslash escaped, control characters as short escapes where JSON has
/// one and as `\u00xx` otherwise; every other character as it is.
pub open spec fn escaped_char(c: char) -> Seq<char> {
    if c == '"' {
        seq!['\\', '"']
    } else if c == '\\' {
        seq!['\\', '\\']
    } else if c == '\n' {
        seq!['\\', 'n']
    } else if c == '\r' {
        seq!['\\', 'r']
    } else if c == '\t' {
        seq!['\\', 't']
    } else if c == '\u{8}' {
        seq!['\\', 'b']
    } else if c == '\u{c}' {
        seq!['\\', 'f']
    } else if (c as u32) < 32 {
        seq!['\\', 'u', '0', '0', hex_digit((c as u32) / 16), hex_digit((c as u32) % 16)]
    } else {
        seq![c]
    }
}

pub open spec fn escaped(s: Seq<char>) -> Seq<char>
    decreases s.len(),
{
    if s.len() == 0 {
        Seq::empty()
    } else {
        escaped(s.drop_last()) + escaped_char(s.last())
    }
}

pub open spec fn quoted(s: Seq<char>) -> Seq<char> {
    seq!['"'] + escaped(s) + seq!['"']
}

/// The compact JSON text of a value: no whitespace, fields in order,
/// numbers as their literal text.
pub open spec fn json_text(v: JsonValue) -> Seq<char>
    decreases v,
{
    match v {
        JsonValue::Null => "null"@,
        JsonValue::Bool(b) => if b {
            "true"@
        } else {
            "false"@
        },
        JsonValue::Number(t) => t,
        JsonValue::Str(s) => quoted(s),
        JsonValue::Array(items) => seq!['['] + join_commas(item_texts(items)) + seq![']'],
        JsonValue::Object(fields) => seq!['{'] + join_commas(member_texts(fields)) + seq!['}'],
    }
}

/// The text of each item of an array.
pub open spec fn item_texts(items: Seq<JsonValue>) -> Seq<Seq<char>>
    decreases items,
{
    Seq::new(items.len(), |i: int| if 0 <= i < items.len() { json_text(items[i]) } else { Seq::empty() })
}

/// The text of each member of an object: quoted name, colon, value.
pub open spec fn member_texts(fields: Seq<(Seq<char>, JsonValue)>) -> Seq<Seq<char>>
    decreases fields,
{
    Seq::new(
        fields.len(),
        |i: int|
            if 0 <= i < fields.len() {
                quoted(fields[i].0) + seq![':'] + json_text(fields[i].1)
            } else {
                Seq::empty()
            },
    )
}

fn write_escaped(out: &mut String, s: &str)
    ensures
        final(out)@ == old(out)@ + quoted(s@),
{
    let ghost start = out@;
    crate::text::push_char(out, '"');
    for c in it: s.chars()
        invariant
            it.seq() == s@,
            out@ == start + seq!['"'] + escaped(it.seq().subrange(0, it.index() as int)),
    {
        let ghost before = out@;
        assert(it.seq().subrange(0, it.index() + 1).drop_last() =~= it.seq().subrange(0, it.index() as int));
        if c == '"' {
            crate::text::push_str(out, "\\\"");
            proof { reveal_strlit("\\\""); }
        } else if c == '\\' {
            crate::text::push_str(out, "\\\\");
            proof { reveal_strlit("\\\\"); }
        } else if c == '\n' {
            crate::text::push_str(out, "\\n");
            proof { reveal_strlit("\\n"); }
        } else if c == '\r' {
            crate::text::push_str(out, "\\r");
            proof { reveal_strlit("\\r"); }
        } else if c == '\t' {
            crate::text::push_str(out, "\\t");
            proof { reveal_strlit("\\t"); }
        } else if c == '\u{8}' {
            crate::text::push_str(out, "\\b");
            proof { reveal_strlit("\\b"); }
        } else if c == '\u{c}' {
            crate::text::push_str(out, "\\f");
            proof { reveal_strlit("\\f"); }
        } else if (c as u32) < 32 {
            crate::text::push_str(out, "\\u00");
            proof { reveal_strlit("\\u00"); }
            let hi = (c as u32) / 16;
            let lo = (c as u32) % 16;
            let h = if hi < 10 { ((hi + 48) as u8) as char } else { ((hi + 87) as u8) as char };
            let l = if lo < 10 { ((lo + 48) as u8) as char } else { ((lo + 87) as u8) as char };
            crate::text::push_char(out, h);
            crate::text::push_char(out, l);
        } else {
            crate::text::push_char(out, c);
        }
        assert(out@ =~= before + escaped_char(c));
    }
    assert(s@.subrange(0, s@.len() as int) =~= s@);
    crate::text::push_char(out, '"');
    assert(out@ =~= start + quoted(s@));
}

/// Whether two texts are the same.
pub(crate) fn same_text(a: &str, b: &str) -> (r: bool)
    ensures
        r == (a@ == b@),
{
    let n = a.unicode_len();
    let m = b.unicode_len();
    if n != m {
        return false;
    }
    let r = crate::text::has_at(a, 0, b);
    assert(a@.subrange(0, b@.len() as int) =~= a@);
    r
}

/// The index of the first field named `key`.
fn position(fields: &Vec<(String, Json)>, key: &str) -> (r: Option<usize>)
    ensures
        r matches Some(i) ==> i < fields@.len() && fields@[i as int].0@ == key@
            && forall|j: int| 0 <= j < i ==> fields@[j].0@ != key@,
        r is None ==> forall|j: int| 0 <= j < fields@.len() ==> fields@[j].0@ != key@,
{
    let mut i: usize = 0;
    while i < fields.len()
        invariant
            i <= fields@.len(),
            forall|j: int| 0 <= j < i ==> fields@[j].0@ != key@,
        decreases fields@.len() - i,
    {
        if same_text(fields[i].0.as_str(), key) {
            return Some(i);
        }
        i = i + 1;
    }
    None
}

impl Json {
    /// The field `key` of this value, where it is an object that has one.
    pub fn get(&self, key: &str) -> (r: Option<&Json>)
        ensures
            r matches Some(v) ==> field(self@, key@) == Some(v@),
            r is None ==> field(self@, key@) is None,
    {
        match self {
            Json::Object(fields) => {
                proof {
                    lemma_object_view(*fields);
                }
                match position(fields, key) {
                    Some(i) => {
                        proof {
                            lemma_find_first(fields_view(fields@), key@, i as int);
                        }
                        Some(&fields[i].1)
                    },
                    None => {
                        proof {
                            lemma_absent(fields_view(fields@), key@, JsonValue::Null);
                        }
                        None
                    },
                }
            },
            _ => None,
        }
    }

    /// The text of this value, where it is a string.
    pub fn as_str(&self) -> (r: Option<&String>)
        ensures
            r matches Some(s) ==> self@ == JsonValue::Str(s@),
            r is None ==> !(self@ is Str),
    {
        match self {
            Json::Str(s) => Some(s),
            _ => None,
        }
    }

    /// Appends the compact JSON text of this value (see `json_text`).
    pub fn write_text(&self, out: &mut String)
        ensures
            final(out)@ == old(out)@ + json_text(self@),
        decreases self@,
    {
        let ghost start = out@;
        match self {
            Json::Null => {
                assert(self@ == JsonValue::Null);
                crate::text::push_str(out, "null");
            },
            Json::Bool(b) => {
                assert(self@ == JsonValue::Bool(*b));
                if *b {
                    crate::text::push_str(out, "true");
                } else {
                    crate::text::push_str(out, "false");
                }
            },
            Json::Number(t) => {
                assert(self@ == JsonValue::Number(t@));
                crate::text::push_str(out, t.as_str());
            },
            Json::Str(s) => {
                assert(self@ == JsonValue::Str(s@));
                write_escaped(out, s.as_str());
            },
            Json::Array(items) => {
                let ghost vs = self@->Array_0;
                proof {
                    lemma_array_view(*items);
                }
                let ghost texts = item_texts(vs);
                crate::text::push_char(out, '[');
                let mut i: usize = 0;
                while i < items.len()
                    invariant
                        i <= items@.len(),
                        vs == self@->Array_0,
                        vs.len() == items@.len(),
                        forall|j: int| 0 <= j < vs.len() ==> #[trigger] vs[j] == items@[j]@,
                        self@ == JsonValue::Array(vs),
                        texts == item_texts(vs),
                        out@ == start + seq!['['] + join_commas(texts.take(i as int)),
                    decreases items@.len() - i,
                {
                    assert(texts.take(i + 1).drop_last() =~= texts.take(i as int));
                    if i > 0 {
                        crate::text::push_char(out, ',');
                    } else {
                        assert(texts.take(0) =~= Seq::<Seq<char>>::empty());
                    }
                    proof {
                        assert(self@ is Array);
                        assert(decreases_to!(self@ => self@->Array_0));
                        assert(decreases_to!(self@->Array_0 => self@->Array_0[i as int]));
                    }
                    let ghost mid = out@;
                    items[i].write_text(out);
                    assert(texts[i as int] == json_text(items@[i as int]@));
                    assert(texts.take(i + 1).last() == texts[i as int]);
                    assert(out@ =~= start + seq!['['] + join_commas(texts.take(i + 1)));
                    i = i + 1;
                }
                assert(texts.take(vs.len() as int) =~= texts);
                crate::text::push_char(out, ']');
            },
            Json::Object(fields) => {
                let ghost fs = self@->Object_0;
                proof {
                    lemma_object_view(*fields);
                }
                let ghost texts = member_texts(fs);
                crate::text::push_char(out, '{');
                let mut i: usize = 0;
                while i < fields.len()
                    invariant
                        i <= fields@.len(),
                        fs == self@->Object_0,
                        fs.len() == fields@.len(),
                        forall|j: int| 0 <= j < fs.len() ==> #[trigger] fs[j] == (fields@[j].0@, fields@[j].1@),
                        self@ == JsonValue::Object(fs),
                        texts == member_texts(fs),
                        out@ == start + seq!['{'] + join_commas(texts.take(i as int)),
                    decreases fields@.len() - i,
                {
                    assert(texts.take(i + 1).drop_last() =~= texts.take(i as int));
                    if i > 0 {
                        crate::text::push_char(out, ',');
                    } else {
                        assert(texts.take(0) =~= Seq::<Seq<char>>::empty());
                    }
                    write_escaped(out, fields[i].0.as_str());
                    crate::text::push_char(out, ':');
                    proof {
                        assert(self@ is Object);
                        assert(decreases_to!(self@ => self@->Object_0));
                        assert(decreases_to!(self@->Object_0 => self@->Object_0[i as int]));
                        assert(decreases_to!(self@->Object_0[i as int] => self@->Object_0[i as int].1));
                    }
                    fields[i].1.write_text(out);
                    assert(texts[i as int] == quoted(fields@[i as int].0@) + seq![':'] + json_text(fields@[i as int].1@));
                    assert(texts.take(i + 1).last() == texts[i as int]);
                    assert(out@ =~= start + seq!['{'] + join_commas(texts.take(i + 1)));
                    i = i + 1;
                }
                assert(texts.take(fs.len() as int) =~= texts);
                crate::text::push_char(out, '}');
            },
        }
    }

    /// The compact JSON text of this value (see `json_text`).
    pub fn to_text(&self) -> (r: String)
        ensures
            r@ == json_text(self@),
    {
        let mut out = String::new();
        self.write_text(&mut out);
        assert(out@ =~= json_text(self@));
        out
    }

    /// The unsigned integer this value holds (see `u64_of`).
    pub fn as_u64(&self) -> (r: Option<u64>)
        ensures
            r == u64_of(self@),
    {
        let t = match self {
            Json::Number(t) => t,
            _ => {
                return None;
            },
        };
        let n = t.as_str().unicode_len();
        if n == 0 {
            return None;
        }
        let mut value: u64 = 0;
        let mut i: usize = 0;
        while i < n
            invariant
                n == t@.len(),
                self@ == JsonValue::Number(t@),
                i <= n,
                is_digits(t@.take(i as int)),
                value as nat == digits_value(t@.take(i as int)),
            decreases n - i,
        {
            let c = t.as_str().get_char(i);
            assert(t@.take(i + 1).drop_last() =~= t@.take(i as int));
            if !('0' <= c && c <= '9') {
                assert(!is_digits(t@));
                return None;
            }
            let d = (c as u32 - '0' as u32) as u64;
            if value > (u64::MAX - d) / 10 {
                proof {
                    assert(digits_value(t@.take(i + 1)) > u64::MAX) by (nonlinear_arith)
                        requires
                            value > (u64::MAX - d) / 10,
                            digits_value(t@.take(i + 1)) == 10 * value + d,
                            d <= 9,
                    ;
                    if is_digits(t@) {
                        lemma_digits_grow(t@, i + 1);
                    }
                }
                return None;
            }
            value = value * 10 + d;
            i = i + 1;
        }
        assert(t@.take(n as int) =~= t@);
        Some(value)
    }

    /// The string field `key`, where there is one.
    pub fn string_field(&self, key: &str) -> (r: Option<String>)
        ensures
            opt_view(r) == string_field(self@, key@),
    {
        match self.get(key) {
            Some(Json::Str(s)) => Some(s.clone()),
            _ => None,
        }
    }

    /// The unsigned-integer field `key`, where there is one.
    pub fn u64_field(&self, key: &str) -> (r: Option<u64>)
        ensures
            r == u64_field(self@, key@),
    {
        match self.get(key) {
            Some(n) => n.as_u64(),
            None => None,
        }
    }

    /// The optional string field `key` (see `opt_string_field`).
    pub fn opt_string_field(&self, key: &str) -> (r: Option<Option<String>>)
        ensures
            r matches Some(o) ==> opt_string_field(self@, key@) == Some(opt_view(o)),
            r is None ==> opt_string_field(self@, key@) is None,
    {
        match self.get(key) {
            None => Some(None),
            Some(Json::Null) => Some(None),
            Some(Json::Str(s)) => Some(Some(s.clone())),
            Some(_) => None,
        }
    }

    /// The optional unsigned-integer field `key` (see `opt_u64_field`).
    pub fn opt_u64_field(&self, key: &str) -> (r: Option<Option<u64>>)
        ensures
            r == opt_u64_field(self@, key@),
    {
        match self.get(key) {
            None => Some(None),
            Some(Json::Null) => Some(None),
            Some(n) => match n.as_u64() {
                Some(x) => Some(Some(x)),
                None => None,
            },
        }
    }

    /// Whether this value is an object.
    pub fn is_object(&self) -> (r: bool)
        ensures
            r == (self@ is Object),
    {
        match self {
            Json::Object(_) => true,
            _ => false,
        }
    }

    /// A string value.
    pub fn string(s: &str) -> (r: Json)
        ensures
            r@ == JsonValue::Str(s@),
    {
        Json::Str(s.to_string())
    }
}

/// Sets field `key` of an object's fields to `value` (see `set_field`).
pub fn set_member(fields: &mut Vec<(String, Json)>, key: String, value: Json)
    ensures
        fields_view(final(fields)@) == set_field(fields_view(old(fields)@), key@, value@),
{
    let ghost old_view = fields_view(fields@);
    let ghost kv = key@;
    let ghost vv = value@;
    match position(fields, key.as_str()) {
        Some(i) => {
            proof {
                lemma_set_first(old_view, kv, vv, i as int);
            }
            fields.set(i, (key, value));
            assert(fields_view(fields@) =~= old_view.update(i as int, (kv, vv)));
        },
        None => {
            proof {
                lemma_absent(old_view, kv, vv);
            }
            fields.push((key, value));
            assert(fields_view(fields@) =~= old_view.push((kv, vv)));
        },
    }
}

} // verus!
