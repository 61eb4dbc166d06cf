//! MD5, HMAC-SHA1 and Base64, taken from the crates that implement them.
//!
//! Nothing in this file is proved. Each digest is known to the rest of the
//! crate by a name only: the same bytes always give the same digest, and no
//! more is claimed than its length.

use base64::Engine;
use hmac::Mac;
use vstd::prelude::*;

verus! {

/// The MD5 digest of `data`.
pub uninterp spec fn md5_digest(data: Seq<u8>) -> Seq<u8>;

/// The HMAC-SHA1 tag of `message` under `key`.
pub uninterp spec fn hmac_sha1(key: Seq<u8>, message: Seq<u8>) -> Seq<u8>;

/// The Base64 text of `data`: standard alphabet, padded.
pub uninterp spec fn base64_standard(data: Seq<u8>) -> Seq<char>;

/// `md5::compute`: the 16 bytes of the MD5 digest of `data`.
#[verifier::external_body]
pub(crate) fn md5_of(data: &[u8]) -> (digest: Vec<u8>)
    ensures
        digest@ == md5_digest(data@),
        digest@.len() == 16,
{
    md5::compute(data).0.to_vec()
}

/// `Hmac::<Sha1>`, fed `message` in one piece: the 20 bytes of the tag.
/// `new_from_slice` takes a key of any length, so a tag always comes back.
#[verifier::external_body]
pub(crate) fn hmac_sha1_of(key: &[u8], message: &[u8]) -> (tag: Option<Vec<u8>>)
    ensures
        tag is Some,
        tag matches Some(t) ==> t@ == hmac_sha1(key@, message@) && t@.len() == 20,
{
    let mut mac = hmac::Hmac::<sha1::Sha1>::new_from_slice(key).ok()?;
    mac.update(message);
    Some(mac.finalize().into_bytes().to_vec())
}

/// `STANDARD.encode` of the `base64` crate. It panics where the length of the
/// text would not fit in `usize`; such inputs are left out.
#[verifier::external_body]
pub(crate) fn base64_of(data: &[u8]) -> (text: String)
    requires
        data@.len() / 3 * 4 + 4 <= usize::MAX,
    ensures
        text@ == base64_standard(data@),
{
    base64::engine::general_purpose::STANDARD.encode(data)
}

} // verus!
