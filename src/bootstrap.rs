use vstd::prelude::*;

use crate::codec::{
    answer_data_at, decode_message, decodes, encode_message, error_text, first_answer, name_parses,
    parse_name, AnswerData,
};
use crate::common::{build_request_message, RECORD_TYPE_A};
use crate::error::UpstreamError;

verus! {

/// The well-known DNS-over-HTTPS endpoint that bootstrap queries go to.
pub const BOOTSTRAP_ENDPOINT: &'static str = "https://1.1.1.1/dns-query";

/// Diagnostic for a response without a usable answer.
pub const NO_ANSWER: &'static str = "the response doesn't contain the answer";

/// Diagnostic for a first answer that is neither IPv4 nor IPv6.
pub const UNKNOWN_RECORD_TYPE: &'static str = "unknown record type";

/// An IP address, as octets.
#[derive(Debug, Clone, Copy, PartialEq, Eq)]
pub enum IpAddress {
    V4([u8; 4]),
    V6([u8; 16]),
}

/// A resolved address with its port.
#[derive(Debug, Clone, Copy, PartialEq, Eq)]
pub struct BootstrapAddress {
    pub ip: IpAddress,
    pub port: u16,
}

/// The outcome of reading a bootstrap response's first answer (`None` when
/// there is no answer record at all).
pub open spec fn answer_outcome(host: Seq<char>, first: Option<AnswerData>) -> Result<IpAddress, (Seq<char>, Seq<char>)> {
    match first {
        Some(AnswerData::V4(a)) => Ok(IpAddress::V4(a)),
        Some(AnswerData::V6(a)) => Ok(IpAddress::V6(a)),
        Some(AnswerData::Other) => Err((host, UNKNOWN_RECORD_TYPE@)),
        _ => Err((host, NO_ANSWER@)),
    }
}

/// The bootstrap error carrying `host` and a diagnostic.
pub open spec fn is_bootstrap_error(e: UpstreamError, host: Seq<char>) -> bool {
    e matches UpstreamError::Bootstrap(h, _) && h@ == host
}

/// Resolves a hostname to an address once, through the well-known endpoint.
/// The HTTPS exchange itself is the caller's: this builds the request body and
/// reads the response body.
#[derive(Debug)]
pub struct BootstrapClient {
    /// Where the request body is to be posted.
    pub endpoint: String,
}

/// The address that `first`, the first answer of a response for `host`,
/// gives: an IPv4 or IPv6 address with port 0, or a bootstrap error.
pub fn answer_address(host: &str, first: Option<AnswerData>) -> (r: Result<BootstrapAddress, UpstreamError>)
    ensures
        match answer_outcome(host@, first) {
            Ok(ip) => r == Ok::<BootstrapAddress, UpstreamError>(BootstrapAddress { ip, port: 0 }),
            Err((h, text)) => r matches Err(UpstreamError::Bootstrap(rh, rt)) && rh@ == h && rt@ == text,
        },
{
    match first {
        Some(AnswerData::V4(a)) => Ok(BootstrapAddress { ip: IpAddress::V4(a), port: 0 }),
        Some(AnswerData::V6(a)) => Ok(BootstrapAddress { ip: IpAddress::V6(a), port: 0 }),
        Some(AnswerData::Other) => Err(UpstreamError::Bootstrap(String::from_str(host), String::from_str(UNKNOWN_RECORD_TYPE))),
        _ => Err(UpstreamError::Bootstrap(String::from_str(host), String::from_str(NO_ANSWER))),
    }
}

impl BootstrapClient {
    pub fn new() -> (r: BootstrapClient)
        ensures
            r.endpoint@ == BOOTSTRAP_ENDPOINT@,
    {
        BootstrapClient { endpoint: String::from_str(BOOTSTRAP_ENDPOINT) }
    }

    /// The encoded A-type query for `host`, or a bootstrap error naming `host`
    /// when `host` is not a valid name or the query cannot be encoded.
    pub fn request(&self, host: &str) -> (r: Result<Vec<u8>, UpstreamError>)
        ensures
            !name_parses(host@) ==> r is Err,
            r matches Ok(w) ==> w@.len() >= crate::codec::HEADER_LEN,
            r matches Err(e) ==> is_bootstrap_error(e, host@),
    {
        let name = match parse_name(host) {
            Ok(n) => n,
            Err(e) => {
                return Err(UpstreamError::Bootstrap(String::from_str(host), error_text(&e)));
            },
        };
        let m = build_request_message(name, RECORD_TYPE_A);
        match encode_message(&m) {
            Ok(w) => Ok(w),
            Err(e) => Err(UpstreamError::Bootstrap(String::from_str(host), error_text(&e))),
        }
    }

    /// The address for `host` that `response`, the body answering its request,
    /// gives: the first answer decides; bytes that do not decode give a
    /// bootstrap error naming `host`.
    pub fn bootstrap(&self, host: &str, response: &[u8]) -> (r: Result<BootstrapAddress, UpstreamError>)
        ensures
            r matches Ok(a) ==> a.port == 0,
            r matches Err(e) ==> is_bootstrap_error(e, host@),
            !decodes(response@) ==> r is Err,
            decodes(response@) ==> match answer_outcome(host@, first_answer(response@)) {
                Ok(ip) => r == Ok::<BootstrapAddress, UpstreamError>(BootstrapAddress { ip, port: 0 }),
                Err((h, text)) => r matches Err(UpstreamError::Bootstrap(rh, rt)) && rh@ == h && rt@ == text,
            },
    {
        match decode_message(response) {
            Ok(d) => answer_address(host, answer_data_at(&d, 0)),
            Err(e) => Err(UpstreamError::Bootstrap(String::from_str(host), error_text(&e))),
        }
    }
}

} // verus!
