use vstd::prelude::*;

use rand::Rng;
use trust_dns_proto::op::message::Message;
use trust_dns_proto::op::{MessageType, Query};
use trust_dns_proto::rr::{Name, RecordType};

verus! {

#[verifier::external_type_specification]
#[verifier::external_body]
pub struct ExName(Name);

#[verifier::external_type_specification]
pub struct ExMessageType(MessageType);

/// Record type number of an IPv4 address record.
pub const RECORD_TYPE_A: u16 = 1;

/// Relies on rand's `thread_rng().gen_range`: some transaction id; nothing is
/// promised of which.
#[verifier::external_body]
fn random_id() -> u16 {
    rand::thread_rng().gen_range(0..=65535)
}

/// Relies on `Message::new`, its setters, `Query::query` and
/// `RecordType::from`: a message with the given id, type and recursion flag,
/// and one question for `name` of type `record_type`.
#[verifier::external_body]
fn query_message(
    name: Name,
    record_type: u16,
    id: u16,
    message_type: MessageType,
    recursion_desired: bool,
) -> Message {
    let mut m = Message::new();
    m.set_id(id);
    m.set_message_type(message_type);
    m.set_recursion_desired(recursion_desired);
    m.add_query(Query::query(name, RecordType::from(record_type)));
    m
}

/// A query message for `name` and `record_type` under a random transaction id,
/// with recursion desired.
pub fn build_request_message(name: Name, record_type: u16) -> Message {
    let id = random_id();
    query_message(name, record_type, id, MessageType::Query, true)
}

} // verus!
