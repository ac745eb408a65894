//! The compute side of the engine's HTTP work: request and response values,
//! outcall cost accounting, and the interpretation of price-source and
//! JSON-RPC responses. The transport itself is a capability of the actor
//! runtime and lives outside this crate.

use vstd::prelude::*;

use crate::constants::{
    HTTP_OUTCALL_BYTE_RECEIVED_COST, HTTP_OUTCALL_REQUEST_COST, INGRESS_MESSAGE_BYTE_RECEIVED_COST,
    INGRESS_MESSAGE_RECEIVED_COST, INGRESS_OVERHEAD_BYTES,
};
use crate::error::Error;
use crate::parser::{
    json_document, json_text, parse_path, value_as_str, value_get, ParseError, WalkResult, walk,
};
use crate::price::{parse_scaled_decimal, scaled_decimal_val, valid_decimal};

verus! {

/// The bytes of ASCII text.
pub open spec fn ascii_bytes(s: Seq<char>) -> Seq<u8> {
    Seq::new(s.len(), |i: int| s[i] as u8)
}

/// The UTF-8 bytes of a string; for ASCII text they are its characters.
pub fn string_to_bytes(s: &str) -> (r: Vec<u8>)
    ensures
        vstd::utf8::is_ascii_chars(s@) ==> r@ == ascii_bytes(s@),
{
    let r = s.as_bytes_vec();
    proof {
        if vstd::utf8::is_ascii_chars(s@) {
            vstd::utf8::is_ascii_chars_encode_utf8(s@);
            assert(r@ =~= ascii_bytes(s@));
        }
    }
    r
}

/// An incoming HTTP request, as the runtime hands it over.
#[derive(Debug)]
pub struct HttpRequest {
    /// The HTTP method string.
    pub method: String,
    /// The URL that was visited.
    pub url: String,
    /// The request headers.
    pub headers: Vec<(String, String)>,
    /// The request body.
    pub body: Vec<u8>,
}

/// An HTTP response to hand back to the runtime.
#[derive(Debug)]
pub struct HttpResponse {
    /// The HTTP status code.
    pub status_code: u16,
    /// The response header map.
    pub headers: Vec<(String, String)>,
    /// The response body.
    pub body: Vec<u8>,
    /// Whether the query call should be upgraded to an update call.
    pub upgrade: Option<bool>,
}

impl HttpResponse {
    pub fn new(
        status_code: u16,
        headers: Vec<(String, String)>,
        body: Vec<u8>,
        upgrade: Option<bool>,
    ) -> (r: Self)
        ensures
            r.status_code == status_code,
            r.headers == headers,
            r.body == body,
            r.upgrade == upgrade,
    {
        Self { status_code, headers, body, upgrade }
    }

    /// An error response carrying the message as its body.
    pub fn error(status_code: u16, message: String) -> (r: Self)
        ensures
            r.status_code == status_code,
            r.headers@.len() == 0,
            r.upgrade is None,
            vstd::utf8::is_ascii_chars(message@) ==> r.body@ == ascii_bytes(message@),
    {
        Self {
            status_code,
            headers: Vec::new(),
            body: string_to_bytes(message.as_str()),
            upgrade: None,
        }
    }
}

/// Keeps of an outcall response only what every node of the subnet agrees
/// on — the status and the body; headers and the upgrade flag are dropped
/// so that small differences between nodes cannot break consensus.
pub fn transform(raw: HttpResponse) -> (r: HttpResponse)
    ensures
        r.status_code == raw.status_code,
        r.body == raw.body,
        r.headers@.len() == 0,
        r.upgrade is None,
{
    HttpResponse {
        status_code: raw.status_code,
        headers: Vec::new(),
        body: raw.body,
        upgrade: None,
    }
}

/// The headers every outbound HTTP call carries: the host it is for, who
/// is asking, and the payload type.
pub fn outcall_headers(host: &str) -> (r: Vec<(String, String)>)
    ensures
        r@.len() == 3,
        r@[0].0@ == "Host"@ && r@[0].1@ == host@,
        r@[1].0@ == "User-Agent"@ && r@[1].1@ == "Oracular"@,
        r@[2].0@ == "Content-Type"@ && r@[2].1@ == "application/json"@,
{
    let mut out: Vec<(String, String)> = Vec::new();
    out.push(("Host".to_owned(), host.to_owned()));
    out.push(("User-Agent".to_owned(), "Oracular".to_owned()));
    out.push(("Content-Type".to_owned(), "application/json".to_owned()));
    out
}

/// The cycle cost charged for one outbound HTTP call of the given request
/// and maximum response size.
pub fn get_request_costs(source: &str, json_rpc_payload: usize, max_response_bytes: u64) -> (r:
    u128)
    ensures
        r == INGRESS_MESSAGE_RECEIVED_COST + INGRESS_MESSAGE_BYTE_RECEIVED_COST * (
        json_rpc_payload + source.len() + INGRESS_OVERHEAD_BYTES)
            + HTTP_OUTCALL_REQUEST_COST + HTTP_OUTCALL_BYTE_RECEIVED_COST * (json_rpc_payload
            + source.len() + INGRESS_OVERHEAD_BYTES + max_response_bytes),
{
    let ingress_bytes = (json_rpc_payload as u128) + (source.len() as u128)
        + INGRESS_OVERHEAD_BYTES;
    INGRESS_MESSAGE_RECEIVED_COST + INGRESS_MESSAGE_BYTE_RECEIVED_COST * ingress_bytes
        + HTTP_OUTCALL_REQUEST_COST + HTTP_OUTCALL_BYTE_RECEIVED_COST * (ingress_bytes
        + max_response_bytes as u128)
}

/// What resolving an HTTP price source concludes from the response.
pub ghost enum HttpPriceSpec {
    /// The body was JSON, the path led to a numeric string, and its scaled
    /// value fits.
    Price(u64),
    /// The response status was not 200.
    BadStatus,
    /// The body was not well-formed JSON.
    BadJson,
    /// The path walk stopped early.
    PathFail(WalkResult),
    /// The leaf was not a JSON string.
    NotText,
    /// The leaf text was not decimal, or its scaled value does not fit.
    BadDecimal,
}

/// The outcome the resolver owes for a response.
pub open spec fn http_price_spec(status: u16, body: Seq<u8>, path: Seq<char>) -> HttpPriceSpec {
    if status != 200 {
        HttpPriceSpec::BadStatus
    } else {
        match json_document(body) {
            Option::None => HttpPriceSpec::BadJson,
            Option::Some(doc) => match walk(doc, path) {
                WalkResult::Found(leaf) => match json_text(leaf) {
                    Option::None => HttpPriceSpec::NotText,
                    Option::Some(txt) => if valid_decimal(txt) && scaled_decimal_val(txt)
                        <= u64::MAX {
                        HttpPriceSpec::Price(scaled_decimal_val(txt) as u64)
                    } else {
                        HttpPriceSpec::BadDecimal
                    },
                },
                w => HttpPriceSpec::PathFail(w),
            },
        }
    }
}

/// Resolves an HTTP price source's response: requires status 200, parses
/// the body as JSON, walks `json_path` to a numeric string, and scales it
/// to the fixed-point price.
pub fn resolve_http_price(status: u16, body: &[u8], json_path: &str) -> (r: Result<u64, Error>)
    ensures
        match http_price_spec(status, body@, json_path@) {
            HttpPriceSpec::Price(p) => r matches Ok(x) && x == p,
            HttpPriceSpec::BadStatus => r matches Err(Error::Internal(m)) && m@
                == "url is not valid"@,
            HttpPriceSpec::BadJson => r matches Err(Error::Http(m)) && m@ == "serde_json err"@,
            HttpPriceSpec::PathFail(w) => r matches Err(Error::ParseError(pe)) && match pe {
                ParseError::KeyNotFound(k) => w == WalkResult::KeyNotFound(k@),
                ParseError::NotAnObject(k) => w == WalkResult::NotAnObject(k@),
            },
            HttpPriceSpec::NotText => r matches Err(Error::Internal(m)) && m@
                == "price is not a numeric string"@,
            HttpPriceSpec::BadDecimal => r matches Err(Error::Internal(m)) && m@
                == "price is not a valid decimal"@,
        },
{
    if status != 200 {
        return Err(Error::Internal("url is not valid".to_owned()));
    }
    let doc = match crate::parser::json_from_slice(body) {
        Some(doc) => doc,
        None => {
            return Err(Error::Http("serde_json err".to_owned()));
        },
    };
    let leaf = match parse_path(&doc, json_path) {
        Ok(leaf) => leaf,
        Err(pe) => {
            return Err(Error::ParseError(pe));
        },
    };
    let text = match value_as_str(leaf) {
        Some(text) => text,
        None => {
            return Err(Error::Internal("price is not a numeric string".to_owned()));
        },
    };
    match parse_scaled_decimal(text) {
        Some(price) => Ok(price),
        None => Err(Error::Internal("price is not a valid decimal".to_owned())),
    }
}

/// Resolves a read-only chain call's result: the returned JSON value must
/// be a `0x`-prefixed hexadecimal quantity that fits a `u64`.
pub fn resolve_evm_price(value: &serde_json::Value) -> (r: Result<u64, Error>)
    ensures
        match r {
            Ok(p) => json_text(*value) matches Some(t)
                && crate::encoding::valid_hex_quantity(t)
                && crate::encoding::hex_quantity_val(t) <= u64::MAX && p
                == crate::encoding::hex_quantity_val(t),
            Err(Error::Internal(m)) => m@ == "price is not a hex quantity"@ && (json_text(*value)
                is None || !(json_text(*value) matches Some(t)
                && crate::encoding::valid_hex_quantity(t)
                && crate::encoding::hex_quantity_val(t) <= u64::MAX)),
            Err(_) => false,
        },
{
    match value_as_str(value) {
        None => Err(Error::Internal("price is not a hex quantity".to_owned())),
        Some(text) => match crate::encoding::parse_hex_u64(text) {
            Some(p) => Ok(p),
            None => Err(Error::Internal("price is not a hex quantity".to_owned())),
        },
    }
}

/// Relies on `serde_json`'s `Clone` for `Value`: the clone equals the
/// value cloned.
#[verifier::external_body]
fn value_clone(v: &serde_json::Value) -> (r: serde_json::Value)
    ensures
        r == *v,
{
    v.clone()
}

/// What interpreting a JSON-RPC reply concludes.
pub ghost enum JsonRpcReplySpec {
    /// A reply object carrying `result`.
    Reply(serde_json::Value),
    /// The response status was not 200.
    BadStatus,
    /// The body was not well-formed JSON.
    BadJson,
    /// A reply object carrying `error` and no `result`.
    RpcError,
    /// A reply object carrying neither.
    NoResult,
}

pub open spec fn jsonrpc_reply_spec(status: u16, body: Seq<u8>) -> JsonRpcReplySpec {
    if status != 200 {
        JsonRpcReplySpec::BadStatus
    } else {
        match json_document(body) {
            Option::None => JsonRpcReplySpec::BadJson,
            Option::Some(doc) => match crate::parser::json_child(doc, "result"@) {
                Option::Some(v) => JsonRpcReplySpec::Reply(v),
                Option::None => match crate::parser::json_child(doc, "error"@) {
                    Option::Some(_) => JsonRpcReplySpec::RpcError,
                    Option::None => JsonRpcReplySpec::NoResult,
                },
            },
        }
    }
}

/// Interprets the reply of one JSON-RPC call: status must be 200, the body
/// must be JSON, and the reply object's `result` member is handed back;
/// an `error` member is surfaced as a remote failure.
pub fn decode_jsonrpc_reply(status: u16, body: &[u8]) -> (r: Result<serde_json::Value, Error>)
    ensures
        match jsonrpc_reply_spec(status, body@) {
            JsonRpcReplySpec::Reply(v) => r matches Ok(x) && x == v,
            JsonRpcReplySpec::BadStatus => r matches Err(Error::Internal(m)) && m@
                == "url is not valid"@,
            JsonRpcReplySpec::BadJson => r matches Err(Error::Http(m)) && m@ == "serde_json err"@,
            JsonRpcReplySpec::RpcError => r matches Err(Error::Http(m)) && m@
                == "JSON-RPC error"@,
            JsonRpcReplySpec::NoResult => r matches Err(Error::Http(m)) && m@
                == "invalid JSON-RPC response"@,
        },
{
    if status != 200 {
        return Err(Error::Internal("url is not valid".to_owned()));
    }
    let doc = match crate::parser::json_from_slice(body) {
        Some(doc) => doc,
        None => {
            return Err(Error::Http("serde_json err".to_owned()));
        },
    };
    match value_get(&doc, "result") {
        Some(v) => Ok(value_clone(v)),
        None => match value_get(&doc, "error") {
            Some(_) => Err(Error::Http("JSON-RPC error".to_owned())),
            None => Err(Error::Http("invalid JSON-RPC response".to_owned())),
        },
    }
}

} // verus!
