use vstd::prelude::*;

use crate::codec::{decoded_view, wire_decodes, DnsMessage};

verus! {

/// The longest body a two-byte length prefix can announce.
pub const MAX_FRAME_LEN: usize = 65535;

/// The length announced by a big-endian two-byte prefix.
pub open spec fn prefix_value(hi: u8, lo: u8) -> nat {
    hi as nat * 256 + lo as nat
}

/// A body preceded by its big-endian two-byte length.
pub open spec fn framed(body: Seq<u8>) -> Seq<u8> {
    seq![(body.len() / 256) as u8, (body.len() % 256) as u8] + body
}

/// What a connection does next.
#[derive(Debug)]
pub enum TcpAction {
    /// Read exactly this many body bytes.
    ReadBody(usize),
    /// Hand this request to the forwarder.
    Forward(DnsMessage),
    /// Write these bytes, flush, and read the next prefix.
    Write(Vec<u8>),
    /// End the connection without a reply.
    Close,
}

/// After a length prefix: a zero length ends the connection, any other asks
/// for that many body bytes.
pub fn on_prefix(prefix: [u8; 2]) -> (r: TcpAction)
    ensures
        prefix_value(prefix[0], prefix[1]) == 0 ==> r is Close,
        prefix_value(prefix[0], prefix[1]) > 0 ==> (r matches TcpAction::ReadBody(n) && n
            == prefix_value(prefix[0], prefix[1])),
{
    let len: usize = prefix[0] as usize * 256 + prefix[1] as usize;
    if len == 0 {
        TcpAction::Close
    } else {
        TcpAction::ReadBody(len)
    }
}

/// After a body: a request that decodes is forwarded; otherwise the
/// connection ends.
pub fn on_body(body: &[u8]) -> (r: TcpAction)
    ensures
        r is Forward || r is Close,
        r is Forward <==> wire_decodes(body@),
        r matches TcpAction::Forward(m) ==> m.wf() && m@ == decoded_view(body@),
{
    match DnsMessage::from_wire(body) {
        Ok(m) => TcpAction::Forward(m),
        Err(_) => TcpAction::Close,
    }
}

/// `body` with its two-byte big-endian length in front; `None` when the
/// length does not fit in two bytes.
pub fn frame(body: &Vec<u8>) -> (r: Option<Vec<u8>>)
    ensures
        body@.len() <= MAX_FRAME_LEN <==> r is Some,
        r matches Some(f) ==> f@ == framed(body@),
{
    let n = body.len();
    if n > MAX_FRAME_LEN {
        return None;
    }
    let mut out: Vec<u8> = Vec::new();
    out.push((n / 256) as u8);
    out.push((n % 256) as u8);
    let mut i: usize = 0;
    while i < n
        invariant
            n == body.len(),
            i <= n,
            out@ =~= seq![(n / 256) as u8, (n % 256) as u8] + body@.subrange(0, i as int),
        decreases n - i,
    {
        out.push(body[i]);
        i += 1;
    }
    assert(body@.subrange(0, n as int) =~= body@);
    Some(out)
}

/// After the forwarder answered: the framed encoding of the response is
/// written; a response too long to frame ends the connection.
pub fn on_response(response: &DnsMessage) -> (r: TcpAction)
    ensures
        response@.wire.len() <= MAX_FRAME_LEN ==> (r matches TcpAction::Write(f) && f@ == framed(response@.wire)),
        response@.wire.len() > MAX_FRAME_LEN ==> r is Close,
{
    match frame(&response.wire) {
        Some(f) => TcpAction::Write(f),
        None => TcpAction::Close,
    }
}

/// Framing round trip: the prefix of a framed body announces exactly the
/// body's length, and the body follows it unchanged; an empty body announces
/// zero, which a reader takes as the end of the exchange.
pub proof fn law_frame_round_trip(body: Seq<u8>)
    requires
        body.len() <= MAX_FRAME_LEN,
    ensures
        framed(body).len() == body.len() + 2,
        prefix_value(framed(body)[0], framed(body)[1]) == body.len(),
        framed(body).subrange(2, framed(body).len() as int) == body,
        body.len() == 0 <==> prefix_value(framed(body)[0], framed(body)[1]) == 0,
{
    let f = framed(body);
    assert(f[0] == (body.len() / 256) as u8);
    assert(f[1] == (body.len() % 256) as u8);
    assert(f.subrange(2, f.len() as int) =~= body);
}

} // verus!
