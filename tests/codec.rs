use https_dns::codec::DnsMessage;
use trust_dns_proto::op::{message::Message, Query};
use trust_dns_proto::rr::rdata::A;
use trust_dns_proto::rr::{Name, RData, Record, RecordType};

#[test]
fn decode_reads_questions_and_ttls() {
    let name: Name = "Dns.Google".parse().unwrap();
    let mut message = Message::new();
    message.set_id(0x1234);
    message.add_query(Query::query(name.clone(), RecordType::AAAA));
    let mut first = Record::with(name.clone(), RecordType::A, 30);
    first.set_data(Some(RData::A(A::new(8, 8, 8, 8))));
    let mut second = Record::with(name, RecordType::A, 20);
    second.set_data(Some(RData::A(A::new(8, 8, 4, 4))));
    message.add_answer(first);
    message.add_answer(second);
    let decoded = DnsMessage::from_wire(&message.to_vec().unwrap()).unwrap();
    assert_eq!(decoded.id(), 0x1234);
    assert_eq!(decoded.questions.len(), 1);
    assert_eq!(decoded.questions[0].name, "dns.google.");
    assert_eq!(decoded.questions[0].record_type, 28);
    assert_eq!(decoded.questions[0].class, 1);
    assert_eq!(decoded.answer_ttls, vec![30, 20]);
}

#[test]
fn malformed_bytes_do_not_decode() {
    assert!(DnsMessage::from_wire(&[1, 2, 3]).is_err());
    assert!(DnsMessage::from_wire(&[]).is_err());
}

#[test]
fn set_id_rewrites_only_the_header_id() {
    let mut message = Message::new();
    message.set_id(7);
    message.add_query(Query::query("a.example".parse().unwrap(), RecordType::A));
    let mut decoded = DnsMessage::from_wire(&message.to_vec().unwrap()).unwrap();
    let before = decoded.wire.clone();
    decoded.set_id(0xABCD);
    assert_eq!(decoded.id(), 0xABCD);
    assert_eq!(&decoded.wire[2..], &before[2..]);
    let reread = Message::from_vec(&decoded.wire).unwrap();
    assert_eq!(reread.id(), 0xABCD);
}

#[test]
fn default_configuration() {
    let args = https_dns::cli::Args::default();
    assert_eq!(args.local_address, "127.0.0.1");
    assert_eq!(args.local_port, 53);
    assert_eq!(args.upstream_address, "1.1.1.1");
    assert_eq!(args.upstream_port, 443);
    assert!(!args.verbose && !args.cache);
}
