//! HTTP requests as the library describes them: URL, headers and JSON body.
use vstd::prelude::*;
use crate::credentials::Key;
use crate::error::ApiError;
use crate::json::Json;
use crate::text::concat;
use vstd::utf8::encode_utf8;

verus! {

/// A request ready to be sent: POST `body` as JSON to `url` with `headers`.
#[derive(Debug)]
pub struct HttpRequest {
    pub url: String,
    pub headers: Vec<(String, String)>,
    pub body: Json,
    /// Whether the client must use the rustls TLS backend.
    pub use_rustls: bool,
}

/// Whether a byte may stand in an HTTP header value: visible ASCII, space,
/// tab, or any byte of 128 and above.
pub open spec fn header_byte_ok(b: u8) -> bool {
    (b >= 32 && b != 127) || b == 9
}

/// Whether a text may be an HTTP header value.
pub open spec fn header_value_ok(s: Seq<char>) -> bool {
    forall|i: int| 0 <= i < encode_utf8(s).len() ==> header_byte_ok(#[trigger] encode_utf8(s)[i])
}

/// Whether `value` may be an HTTP header value.
pub fn is_header_value(value: &str) -> (r: bool)
    ensures
        r == header_value_ok(value@),
{
    let bytes = value.as_bytes();
    let mut i: usize = 0;
    while i < bytes.len()
        invariant
            bytes@ == encode_utf8(value@),
            i <= bytes@.len(),
            forall|j: int| 0 <= j < i ==> header_byte_ok(#[trigger] bytes@[j]),
        decreases bytes@.len() - i,
    {
        let b = bytes[i];
        if !((b >= 32 && b != 127) || b == 9) {
            return false;
        }
        i = i + 1;
    }
    true
}

pub open spec fn pairs_view(v: Seq<(String, String)>) -> Seq<(Seq<char>, Seq<char>)> {
    v.map_values(|p: (String, String)| (p.0@, p.1@))
}

/// The headers of an ordinary request: bearer authorization and JSON
/// content.
pub open spec fn standard_headers(key: Seq<char>) -> Seq<(Seq<char>, Seq<char>)> {
    seq![("Authorization"@, "Bearer "@ + key), ("Content-Type"@, "application/json"@)]
}

/// The standard headers for `key`; an error where the secret cannot stand in
/// a header.
pub fn request_headers(key: &Key) -> (r: Result<Vec<(String, String)>, ApiError>)
    ensures
        header_value_ok("Bearer "@ + key.key@) ==> (r matches Ok(h) && pairs_view(h@) == standard_headers(key.key@)),
        !header_value_ok("Bearer "@ + key.key@) ==> (r matches Err(e) && e is HeaderConstruction
            && e->HeaderConstruction_name@ == "Authorization"@),
{
    let auth = concat("Bearer ", key.key.as_str());
    if !is_header_value(auth.as_str()) {
        return Err(ApiError::HeaderConstruction { name: "Authorization".to_string() });
    }
    let headers = vec![
        ("Authorization".to_string(), auth),
        ("Content-Type".to_string(), "application/json".to_string()),
    ];
    assert(pairs_view(headers@) =~= standard_headers(key.key@));
    Ok(headers)
}

} // verus!
