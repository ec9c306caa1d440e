use vstd::prelude::*;

use crate::codec::{decoded_view, wire_decodes, DnsMessage};

verus! {

/// Size of the buffer each datagram is received into.
pub const UDP_BUFFER_LEN: usize = 4096;

/// The request a received datagram carries, or `None` when it does not decode
/// (the datagram is then dropped without reply).
pub fn on_datagram(datagram: &[u8]) -> (r: Option<DnsMessage>)
    ensures
        r is Some <==> wire_decodes(datagram@),
        r matches Some(m) ==> m.wf() && m@ == decoded_view(datagram@),
{
    match DnsMessage::from_wire(datagram) {
        Ok(m) => Some(m),
        Err(_) => None,
    }
}

/// The datagram that answers with `response`: its encoding.
pub fn reply(response: &DnsMessage) -> (r: Vec<u8>)
    ensures
        r@ == response@.wire,
{
    let mut out: Vec<u8> = Vec::new();
    let mut i: usize = 0;
    while i < response.wire.len()
        invariant
            i <= response.wire.len(),
            out@ =~= response.wire@.subrange(0, i as int),
        decreases response.wire.len() - i,
    {
        out.push(response.wire[i]);
        i += 1;
    }
    assert(out@ =~= response.wire@);
    out
}

} // verus!
