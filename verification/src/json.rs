//! The pieces of JSON text that this crate writes itself: string literals and
//! the two request bodies of the vendor's interface.

use vstd::prelude::*;
use vstd::string::*;

verus! {

/// The JSON string literal for `text`: quoted and escaped as `serde_json`
/// writes it.
pub uninterp spec fn json_string(text: Seq<char>) -> Seq<char>;

/// `serde_json`'s rendering of a string value. Not proved: the literal is
/// known by its name only.
#[verifier::external_body]
pub(crate) fn quote(text: &str) -> (r: String)
    ensures
        r@ == json_string(text@),
{
    serde_json::Value::from(text).to_string()
}

/// The body of the inverter-list request: page 1, ten records a page.
pub open spec fn list_body() -> Seq<char> {
    "{\"pageNo\":1,\"pageSize\":10}"@
}

/// The body of the detail request for the device `id`.
pub open spec fn detail_body(id: Seq<char>) -> Seq<char> {
    "{\"id\":"@ + json_string(id) + "}"@
}

/// The body of the inverter-list request, as the bytes to sign and send.
pub fn list_request_body() -> (body: Vec<u8>)
    ensures
        body@ == vstd::utf8::encode_utf8(list_body()),
{
    "{\"pageNo\":1,\"pageSize\":10}".as_bytes_vec()
}

/// The body of the detail request for the device `id`, as the bytes to sign
/// and send.
pub fn detail_request_body(id: &str) -> (body: Vec<u8>)
    ensures
        body@ == vstd::utf8::encode_utf8(detail_body(id@)),
{
    let mut text = String::from_str("{\"id\":");
    let literal = quote(id);
    text.append(literal.as_str());
    text.append("}");
    text.as_str().as_bytes_vec()
}

} // verus!
