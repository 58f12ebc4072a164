//! The calls into other crates. Each function here makes one such call; its
//! contract is believed, not proved.

use crate::address::{url_view, Host, ParsedUrl, UrlView};
use crate::text::{all_in, text_pairs, CharClass};
use base64::Engine;
use md5::Digest;
use subtle::ConstantTimeEq;
use vstd::prelude::*;
use vstd::string::*;
use zeroize::Zeroize;

verus! {

/// What `url::Url::parse` makes of a text.
pub uninterp spec fn url_of(text: Seq<char>) -> Option<UrlView>;

/// `url::Url::parse`, and of its result the scheme, the host and the port
/// (`port_or_known_default`). The contract says that these depend on the text
/// alone.
#[verifier::external_body]
pub(crate) fn parse_url(text: &str) -> (r: Option<ParsedUrl>)
    ensures
        url_view(r) == url_of(text@),
{
    let url = url::Url::parse(text).ok()?;
    let host = match url.host() {
        Some(url::Host::Domain(name)) => Some(Host::Domain(name.to_string())),
        Some(url::Host::Ipv4(a)) => Some(Host::Ipv4(u32::from(a))),
        Some(url::Host::Ipv6(a)) => Some(Host::Ipv6(u128::from(a))),
        None => None,
    };
    let scheme = url.scheme().to_string();
    Some(ParsedUrl { scheme, host, port: url.port_or_known_default() })
}

/// The pairs that `url::form_urlencoded::parse` reads from a query.
pub uninterp spec fn form_pairs(query: Seq<char>) -> Seq<(Seq<char>, Seq<char>)>;

/// `url::form_urlencoded::parse` on the bytes of a query: the decoded names
/// and values, in the order of the query. The contract says that they depend
/// on the query alone.
#[verifier::external_body]
pub(crate) fn parse_form(query: &str) -> (r: Vec<(String, String)>)
    ensures
        text_pairs(r@) == form_pairs(query@),
{
    url::form_urlencoded::parse(query.as_bytes()).into_owned().collect()
}

/// Base64 in the URL-safe alphabet without padding.
pub uninterp spec fn base64_url(bytes: Seq<u8>) -> Seq<char>;

/// `encode` of base64's `URL_SAFE_NO_PAD` engine. Besides that the text
/// depends on the bytes alone, the contract states its length, and that it is
/// made of ASCII letters and digits, hyphens and underscores. Where the text
/// would not fit in memory the call panics; such lengths are left out.
#[verifier::external_body]
pub(crate) fn encode_base64_url(bytes: &[u8]) -> (r: String)
    requires
        4 * (bytes@.len() / 3 + 1) <= isize::MAX,
    ensures
        r@ == base64_url(bytes@),
        r@.len() == (4 * bytes@.len() + 2) / 3,
        all_in(r@, CharClass::PathSegment),
{
    base64::engine::general_purpose::URL_SAFE_NO_PAD.encode(bytes)
}

/// The bytes that a text stands for in URL-safe base64 without padding.
pub uninterp spec fn base64_url_bytes(text: Seq<char>) -> Option<Seq<u8>>;

/// `decode` of base64's `URL_SAFE_NO_PAD` engine, `None` for any of its
/// errors. The contract says that the result depends on the text alone.
#[verifier::external_body]
pub(crate) fn decode_base64_url(text: &str) -> (r: Option<Vec<u8>>)
    ensures
        match r {
            Some(b) => base64_url_bytes(text@) == Some(b@),
            None => base64_url_bytes(text@) is None,
        },
{
    base64::engine::general_purpose::URL_SAFE_NO_PAD.decode(text).ok()
}

/// Base64 in the standard alphabet with padding.
pub uninterp spec fn base64_standard(bytes: Seq<u8>) -> Seq<char>;

/// `encode` of base64's `STANDARD` engine. Besides that the text depends on
/// the bytes alone, the contract states its length. Where the text would not
/// fit in memory the call panics; such lengths are left out.
#[verifier::external_body]
pub(crate) fn encode_base64_standard(bytes: &[u8]) -> (r: String)
    requires
        4 * (bytes@.len() / 3 + 1) <= isize::MAX,
    ensures
        r@ == base64_standard(bytes@),
        r@.len() == 4 * ((bytes@.len() + 2) / 3),
{
    base64::engine::general_purpose::STANDARD.encode(bytes)
}

/// The MD5 digest.
pub uninterp spec fn md5_of(bytes: Seq<u8>) -> Seq<u8>;

/// The digest that md5's `Md5` gives after one `update` with the bytes: a
/// function of the bytes, of 16 bytes.
#[verifier::external_body]
pub(crate) fn md5_digest(bytes: &[u8]) -> (r: Vec<u8>)
    ensures
        r@ == md5_of(bytes@),
        r@.len() == 16,
{
    let mut hasher = md5::Md5::new();
    hasher.update(bytes);
    hasher.finalize().to_vec()
}

/// The SHA-256 digest.
pub uninterp spec fn sha256_of(bytes: Seq<u8>) -> Seq<u8>;

/// `sha2::Sha256::digest`: a function of the bytes, of 32 bytes.
#[verifier::external_body]
pub(crate) fn sha256_digest(bytes: &[u8]) -> (r: Vec<u8>)
    ensures
        r@ == sha256_of(bytes@),
        r@.len() == 32,
{
    sha2::Sha256::digest(bytes).to_vec()
}

/// `getrandom::fill` on `n` bytes. Nothing is said of what the bytes are, nor
/// of when the system has none to give; the error is its own text.
#[verifier::external_body]
pub(crate) fn random_bytes(n: usize) -> (r: Result<Vec<u8>, String>)
    requires
        n <= isize::MAX,
    ensures
        r matches Ok(bytes) ==> bytes@.len() == n,
{
    let mut bytes = vec![0u8; n];
    match getrandom::fill(&mut bytes) {
        Ok(()) => Ok(bytes),
        Err(e) => Err(e.to_string()),
    }
}

/// `ct_eq` of subtle's `ConstantTimeEq` on byte slices: whether they are
/// equal. How long it takes is not stated.
#[verifier::external_body]
pub(crate) fn equal_in_constant_time(a: &[u8], b: &[u8]) -> (r: bool)
    ensures
        r == (a@ == b@),
{
    bool::from(a.ct_eq(b))
}

/// `zeroize` of zeroize's `Zeroize` on a string: it is empty afterwards. That
/// the memory it used is overwritten is not stated.
#[verifier::external_body]
pub(crate) fn wipe(s: &mut String)
    ensures
        final(s)@ == Seq::<char>::empty(),
{
    s.zeroize()
}

/// A text as the `Debug` form of a string shows it: quoted, with escapes.
pub uninterp spec fn quoted(text: Seq<char>) -> Seq<char>;

/// The `Debug` form of a string. The contract says that it depends on the
/// text alone.
#[verifier::external_body]
pub(crate) fn quoted_text(text: &str) -> (r: String)
    ensures
        r@ == quoted(text@),
{
    format!("{text:?}")
}

} // verus!
