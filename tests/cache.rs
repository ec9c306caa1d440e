use https_dns::cache::{min_answer_ttl, Cache, CACHE_CAPACITY};
use https_dns::codec::DnsMessage;
use trust_dns_proto::op::{message::Message, Query};
use trust_dns_proto::rr::rdata::A;
use trust_dns_proto::rr::{Name, RData, Record, RecordType};

fn question(host: &str) -> Query {
    let mut query = Query::new();
    let name: Name = host.parse().unwrap();
    query.set_name(name);
    query
}

fn response_with_ttls(host: &str, ttls: &[u32]) -> DnsMessage {
    let query = question(host);
    let mut message = Message::new();
    message.add_query(query.clone());
    for ttl in ttls {
        let mut answer = Record::with(query.name().clone(), RecordType::A, *ttl);
        answer.set_data(Some(RData::A(A::new(1, 1, 1, 1))));
        message.add_answer(answer);
    }
    DnsMessage::from_wire(&message.to_vec().unwrap()).unwrap()
}

fn request(host: &str, id: u16) -> DnsMessage {
    let mut message = Message::new();
    message.set_id(id);
    message.add_query(question(host));
    DnsMessage::from_wire(&message.to_vec().unwrap()).unwrap()
}

#[test]
fn test_cache_hit() {
    let mut cache = Cache::new();
    cache.put(response_with_ttls("example.com", &[1000]));
    let request_message = request("example.com", 0);
    cache.get(&request_message).unwrap();
}

#[test]
#[should_panic]
fn test_cache_expire() {
    let mut cache = Cache::new();
    cache.put(response_with_ttls("example.com", &[0]));
    let request_message = request("example.com", 0);
    cache.get(&request_message).unwrap();
}

#[test]
fn round_trip_carries_the_fetch_id() {
    let mut cache = Cache::new();
    let stored = response_with_ttls("example.com", &[300]);
    let stored_wire = stored.wire.clone();
    cache.put_at(stored, 5_000);
    let hit = cache.get_at(&request("example.com", 0xBEEF), 6_000).unwrap();
    assert_eq!(hit.id(), 0xBEEF);
    assert_eq!(hit.wire[0], 0xBE);
    assert_eq!(hit.wire[1], 0xEF);
    assert_eq!(&hit.wire[2..], &stored_wire[2..]);
    assert_eq!(hit.answer_ttls, vec![300]);
    assert_eq!(hit.questions[0].name, "example.com.");
}

#[test]
fn zero_ttl_is_absent_and_stays_absent() {
    let mut cache = Cache::new();
    cache.put_at(response_with_ttls("example.com", &[0]), 1_000);
    assert!(cache.get_at(&request("example.com", 1), 1_000).is_none());
    assert!(cache.get_at(&request("example.com", 2), 0).is_none());
}

#[test]
fn shortest_ttl_governs_expiry() {
    assert_eq!(min_answer_ttl(&vec![10, 1000]), 10);
    assert_eq!(min_answer_ttl(&vec![1000, 7, 10]), 7);
    assert_eq!(min_answer_ttl(&vec![]), 0);
    let mut cache = Cache::new();
    cache.put_at(response_with_ttls("example.com", &[10, 1000]), 0);
    assert!(cache.get_at(&request("example.com", 1), 9_999).is_some());
    assert!(cache.get_at(&request("example.com", 1), 10_000).is_none());
    assert!(cache.get_at(&request("example.com", 1), 500_000).is_none());
}

#[test]
fn ids_share_one_entry() {
    let mut cache = Cache::new();
    cache.put_at(response_with_ttls("example.com", &[60]), 0);
    let first = cache.get_at(&request("example.com", 11), 10).unwrap();
    let second = cache.get_at(&request("example.com", 22), 20).unwrap();
    assert_eq!(first.id(), 11);
    assert_eq!(second.id(), 22);
    assert_eq!(&first.wire[2..], &second.wire[2..]);
}

#[test]
fn names_compare_without_case() {
    let mut cache = Cache::new();
    cache.put_at(response_with_ttls("Example.COM", &[60]), 0);
    assert!(cache.get_at(&request("example.com", 3), 10).is_some());
}

#[test]
fn guards_on_empty_messages() {
    let mut cache = Cache::new();
    let no_question = DnsMessage::from_wire(&Message::new().to_vec().unwrap()).unwrap();
    assert!(no_question.questions.is_empty());
    cache.put_at(no_question, 0);
    assert!(cache.get_at(&request("example.com", 1), 0).is_none());
    let no_answer = request("example.com", 9);
    cache.put_at(no_answer, 0);
    assert!(cache.get_at(&request("example.com", 1), 0).is_none());
    cache.put_at(response_with_ttls("example.com", &[60]), 0);
    let query_less = DnsMessage::from_wire(&Message::new().to_vec().unwrap()).unwrap();
    assert!(cache.get_at(&query_less, 0).is_none());
    assert!(cache.get_at(&request("example.com", 1), 0).is_some());
}

#[test]
fn least_recently_used_entry_leaves_first() {
    let mut cache = Cache::new();
    for i in 0..CACHE_CAPACITY {
        cache.put_at(response_with_ttls(&format!("host{}.example", i), &[600]), 0);
    }
    assert!(cache.get_at(&request("host0.example", 1), 1).is_some());
    cache.put_at(response_with_ttls("extra.example", &[600]), 2);
    assert!(cache.get_at(&request("host0.example", 1), 3).is_some());
    assert!(cache.get_at(&request("host1.example", 1), 3).is_none());
    assert!(cache.get_at(&request("extra.example", 1), 3).is_some());
}

#[test]
fn default_cache_is_empty() {
    let mut cache = Cache::default();
    assert!(cache.get_at(&request("example.com", 1), 0).is_none());
}
