//! The vendor's request signature.
//!
//! The digest is taken over the very bytes that are sent: [`sign`] takes the
//! body, and hands the same body back inside the request it signed.

use vstd::prelude::*;
use vstd::string::*;
use vstd::utf8::encode_utf8;
use crate::clock::{
    http_date, rfc2822_utc, wall_clock_millis, RFC2822_FIRST_MS, RFC2822_LAST_MS,
};
use crate::config::Solis;
use crate::crypto::{base64_of, base64_standard, hmac_sha1, hmac_sha1_of, md5_digest, md5_of};

verus! {

/// A request that is ready to be sent: where to post it, its headers, and its
/// body.
#[derive(Debug, PartialEq, Eq)]
pub struct SignedRequest {
    /// The address to post to.
    pub url: String,
    /// The `Content-Type` header.
    pub content_type: String,
    /// The `Date` header.
    pub date: String,
    /// The `Content-MD5` header.
    pub content_md5: String,
    /// The `Authorization` header.
    pub authorization: String,
    /// The body, byte for byte as it was signed.
    pub body: Vec<u8>,
}

/// The `Content-MD5` of a body: the Base64 text of its MD5 digest.
pub open spec fn content_digest(body: Seq<u8>) -> Seq<char> {
    base64_standard(md5_digest(body))
}

/// The text that is signed: the verb, the digest, the content type, the date
/// and the path, each on a line of its own.
pub open spec fn signing_text(digest: Seq<char>, date: Seq<char>, path: Seq<char>) -> Seq<char> {
    "POST\n"@ + digest + "\napplication/json\n"@ + date + "\n"@ + path
}

/// The signature of `text` under `secret`: the Base64 text of its HMAC-SHA1
/// tag.
pub open spec fn signature(secret: Seq<char>, text: Seq<char>) -> Seq<char> {
    base64_standard(hmac_sha1(encode_utf8(secret), encode_utf8(text)))
}

/// The `Authorization` header.
pub open spec fn authorization(key: Seq<char>, signature: Seq<char>) -> Seq<char> {
    "API "@ + key + ":"@ + signature
}

/// The `Content-Type` header.
pub open spec fn content_type() -> Seq<char> {
    "application/json;charset=utf-8"@
}

/// The text that is signed.
pub fn signing_string(digest: &str, date: &str, path: &str) -> (r: String)
    ensures
        r@ == signing_text(digest@, date@, path@),
{
    let mut text = String::from_str("POST\n");
    text.append(digest);
    text.append("\napplication/json\n");
    text.append(date);
    text.append("\n");
    text.append(path);
    text
}

/// `request` is the signed request to `path` with the body `body`, dated
/// `date`: the body is the one that was given, the digest is taken over it,
/// and the signature is taken over the digest, the date and the path.
pub open spec fn is_signed(
    request: SignedRequest,
    config: Solis,
    path: Seq<char>,
    body: Seq<u8>,
    date: Seq<char>,
) -> bool {
    &&& request.body@ == body
    &&& request.url@ == config.api@ + path
    &&& request.content_type@ == content_type()
    &&& request.date@ == date
    &&& request.content_md5@ == content_digest(body)
    &&& request.authorization@ == authorization(
        config.key@,
        signature(config.secret@, signing_text(content_digest(body), date, path)),
    )
}

/// Signs a request to `path` with the body `body`, dated `date`.
pub fn sign(config: &Solis, path: &str, body: Vec<u8>, date: &str) -> (r: SignedRequest)
    ensures
        is_signed(r, *config, path@, body@, date@),
{
    let digest = md5_of(body.as_slice());
    let content_md5 = base64_of(digest.as_slice());
    let text = signing_string(content_md5.as_str(), date, path);
    let tag = hmac_sha1_of(config.secret.as_str().as_bytes(), text.as_str().as_bytes()).unwrap();
    let signed = base64_of(tag.as_slice());
    let mut url = config.api.clone();
    url.append(path);
    let mut authorization = String::from_str("API ");
    authorization.append(config.key.as_str());
    authorization.append(":");
    authorization.append(signed.as_str());
    SignedRequest {
        url,
        content_type: String::from_str("application/json;charset=utf-8"),
        date: String::from_str(date),
        content_md5,
        authorization,
        body,
    }
}

/// Signs a request to `path` with the body `body`, dated at the instant
/// `millis` (milliseconds since the start of 1970). There is no request where
/// the instant has no RFC 2822 text: outside the years 0 to 9999.
pub fn sign_at(config: &Solis, path: &str, body: Vec<u8>, millis: i64) -> (r: Option<SignedRequest>)
    ensures
        r is Some <==> RFC2822_FIRST_MS <= millis <= RFC2822_LAST_MS,
        r matches Some(request) ==> is_signed(request, *config, path@, body@, rfc2822_utc(millis)),
{
    match http_date(millis) {
        Some(date) => Some(sign(config, path, body, date.as_str())),
        None => None,
    }
}

/// `r` is what signing at the instant `millis` gives: a signed request dated
/// with the RFC 2822 text of the instant where it has one, and nothing where
/// it has none.
pub open spec fn is_signed_at(
    r: Option<SignedRequest>,
    config: Solis,
    path: Seq<char>,
    body: Seq<u8>,
    millis: i64,
) -> bool {
    &&& r is Some <==> RFC2822_FIRST_MS <= millis <= RFC2822_LAST_MS
    &&& r matches Some(request) ==> is_signed(request, config, path, body, rfc2822_utc(millis))
}

/// Signs a request to `path` with the body `body`, dated at the instant the
/// clock shows. Whatever the clock shows, what comes back is what signing at
/// that instant gives: a request signed for its date, or nothing where the
/// clock stands outside the years 0 to 9999.
pub fn sign_now(config: &Solis, path: &str, body: Vec<u8>) -> (r: Option<SignedRequest>)
    ensures
        exists|millis: i64| #[trigger] is_signed_at(r, *config, path@, body@, millis),
{
    let millis = wall_clock_millis();
    let r = sign_at(config, path, body, millis);
    assert(is_signed_at(r, *config, path@, body@, millis));
    r
}

} // verus!
