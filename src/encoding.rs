//! Base64 and data-URI handling, through the `base64` and `regex` crates.
use vstd::prelude::*;
use base64::Engine;

verus! {

/// The standard, padded base64 text of some bytes.
pub uninterp spec fn base64_of(b: Seq<u8>) -> Seq<char>;

/// The bytes that standard, padded base64 text stands for; none where the
/// text is not such base64.
pub uninterp spec fn base64_bytes(s: Seq<char>) -> Option<Seq<u8>>;

/// The word that `^data:image/(\w+);base64,` captures at the start of a text.
pub uninterp spec fn data_image_type(s: Seq<char>) -> Option<Seq<char>>;

/// Relies on `base64::Engine::encode` with the standard alphabet and padding.
/// It panics only where the encoded length would overflow `usize`.
#[verifier::external_body]
pub(crate) fn base64_encode(b: &[u8]) -> (r: String)
    requires
        b@.len() <= usize::MAX / 2,
    ensures
        r@ == base64_of(b@),
{
    base64::engine::general_purpose::STANDARD.encode(b)
}

/// Relies on `base64::Engine::decode` with the standard alphabet and padding.
#[verifier::external_body]
pub(crate) fn base64_decode(s: &str) -> (r: Option<Vec<u8>>)
    ensures
        r matches Some(v) ==> base64_bytes(s@) == Some(v@),
        r is None ==> base64_bytes(s@) is None,
{
    base64::engine::general_purpose::STANDARD.decode(s).ok()
}

/// Relies on `regex::Regex::captures` with `^data:image/(\w+);base64,`: the
/// captured word, which is not empty, and the text starts with the match.
#[verifier::external_body]
pub(crate) fn image_type_of(s: &str) -> (r: Option<String>)
    ensures
        r matches Some(t) ==> data_image_type(s@) == Some(t@),
        r is None ==> data_image_type(s@) is None,
        r matches Some(t) ==> t@.len() > 0 && crate::text::starts_with(s@, "data:image/"@ + t@ + ";base64,"@),
{
    let re = regex::Regex::new(r"^data:image/(\w+);base64,").unwrap();
    re.captures(s).map(|caps| caps[1].to_string())
}

} // verus!
