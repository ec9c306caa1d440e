use https_dns::codec::DnsMessage;
use https_dns::error::UpstreamError;
use https_dns::upstream::HttpsClient;
use std::sync::{Arc, Mutex};
use trust_dns_proto::op::{message::Message, Query};
use trust_dns_proto::rr::rdata::A;
use trust_dns_proto::rr::{Name, RData, Record, RecordType};

fn query_bytes(host: &str, id: u16) -> Vec<u8> {
    let mut message = Message::new();
    message.set_id(id);
    message.add_query(Query::query(host.parse().unwrap(), RecordType::A));
    message.to_vec().unwrap()
}

/// A stand-in upstream: answers a query with one A record derived from the id.
fn stub_answer(request: &[u8]) -> Vec<u8> {
    let mut message = Message::from_vec(request).unwrap();
    let name: Name = message.queries()[0].name().clone();
    let id = message.id();
    let mut r = Record::with(name, RecordType::A, 60);
    r.set_data(Some(RData::A(A::new(10, 0, (id >> 8) as u8, id as u8))));
    message.add_answer(r);
    message.to_vec().unwrap()
}

#[test]
fn url_of_upstream() {
    let client = HttpsClient::new("dns.google".to_string(), 443, true);
    assert_eq!(client.url(), "https://dns.google:443/dns-query");
    let client = HttpsClient::new("1.1.1.1".to_string(), 8443, false);
    assert_eq!(client.url(), "https://1.1.1.1:8443/dns-query");
}

#[test]
fn miss_then_hit() {
    let mut client = HttpsClient::new("dns.google".to_string(), 443, true);
    let request = DnsMessage::from_wire(&query_bytes("example.com", 5)).unwrap();
    assert!(client.lookup_at(&request, 0).is_none());
    let body = client.request_body(&request);
    assert_eq!(body, request.wire);
    let response = client.respond_at(&stub_answer(&body), 0).unwrap();
    assert_eq!(response.id(), 5);
    let again = DnsMessage::from_wire(&query_bytes("example.com", 6)).unwrap();
    let hit = client.lookup_at(&again, 1_000).unwrap();
    assert_eq!(hit.id(), 6);
    assert_eq!(&hit.wire[2..], &response.wire[2..]);
}

#[test]
fn disabled_cache_never_hits() {
    let mut client = HttpsClient::new("dns.google".to_string(), 443, false);
    let request = DnsMessage::from_wire(&query_bytes("example.com", 5)).unwrap();
    client.respond_at(&stub_answer(&request.wire), 0).unwrap();
    assert!(client.lookup_at(&request, 1).is_none());
}

#[test]
fn undecodable_response_is_resolve_error() {
    let mut client = HttpsClient::new("dns.google".to_string(), 443, true);
    assert_eq!(client.respond_at(&[7, 7], 0).unwrap_err(), UpstreamError::Resolve);
}

#[test]
fn concurrent_queries_get_their_own_replies() {
    let runtime = tokio::runtime::Builder::new_multi_thread()
        .worker_threads(4)
        .build()
        .unwrap();
    let client = Arc::new(Mutex::new(HttpsClient::new("dns.google".to_string(), 443, true)));
    let mut handles = Vec::new();
    for i in 0..16u16 {
        let client = client.clone();
        handles.push(runtime.spawn(async move {
            let id = 1000 + i;
            let request = DnsMessage::from_wire(&query_bytes(&format!("h{}.example", i), id)).unwrap();
            let cached = client.lock().unwrap().lookup(&request);
            assert!(cached.is_none());
            let body = client.lock().unwrap().request_body(&request);
            tokio::task::yield_now().await;
            let upstream = stub_answer(&body);
            let response = client.lock().unwrap().respond(&upstream).unwrap();
            (i, response)
        }));
    }
    for h in handles {
        let (i, response) = runtime.block_on(h).unwrap();
        assert_eq!(response.id(), 1000 + i);
        let m = Message::from_vec(&response.wire).unwrap();
        assert_eq!(m.queries()[0].name().to_ascii(), format!("h{}.example.", i));
        let id = 1000 + i;
        assert_eq!(
            m.answers()[0].data(),
            Some(&RData::A(A::new(10, 0, (id >> 8) as u8, id as u8)))
        );
    }
}

#[test]
fn url_port_digits() {
    let client = HttpsClient::new("h".to_string(), 0, true);
    assert_eq!(client.url(), "https://h:0/dns-query");
    let client = HttpsClient::new("h".to_string(), 65535, true);
    assert_eq!(client.url(), "https://h:65535/dns-query");
    let client = HttpsClient::new("h".to_string(), 10, true);
    assert_eq!(client.url(), "https://h:10/dns-query");
}
