use https_dns::bootstrap::{
    answer_address, BootstrapAddress, BootstrapClient, IpAddress, BOOTSTRAP_ENDPOINT, NO_ANSWER,
    UNKNOWN_RECORD_TYPE,
};
use https_dns::codec::AnswerData;
use https_dns::common::{build_request_message, RECORD_TYPE_A};
use https_dns::error::UpstreamError;
use trust_dns_proto::op::{message::Message, Query};
use trust_dns_proto::rr::rdata::{A, AAAA, CNAME};
use trust_dns_proto::rr::{Name, RData, Record, RecordType};

fn response(data: Vec<RData>) -> Vec<u8> {
    let name: Name = "dns.google".parse().unwrap();
    let mut message = Message::new();
    message.add_query(Query::query(name.clone(), RecordType::A));
    for d in data {
        let mut r = Record::with(name.clone(), d.record_type(), 60);
        r.set_data(Some(d));
        message.add_answer(r);
    }
    message.to_vec().unwrap()
}

#[test]
fn first_ipv4_answer_with_port_zero() {
    let client = BootstrapClient::new();
    assert_eq!(client.endpoint, BOOTSTRAP_ENDPOINT);
    let body = response(vec![
        RData::A(A::new(8, 8, 8, 8)),
        RData::A(A::new(8, 8, 4, 4)),
    ]);
    let address = client.bootstrap("dns.google", &body).unwrap();
    assert_eq!(address, BootstrapAddress { ip: IpAddress::V4([8, 8, 8, 8]), port: 0 });
}

#[test]
fn ipv6_answer() {
    let client = BootstrapClient::new();
    let v6 = AAAA::new(0x2001, 0x4860, 0x4860, 0, 0, 0, 0, 0x8888);
    let body = response(vec![RData::AAAA(v6)]);
    let address = client.bootstrap("dns.google", &body).unwrap();
    let octets = [0x20, 0x01, 0x48, 0x60, 0x48, 0x60, 0, 0, 0, 0, 0, 0, 0, 0, 0x88, 0x88];
    assert_eq!(address, BootstrapAddress { ip: IpAddress::V6(octets), port: 0 });
}

#[test]
fn empty_answer_is_an_error() {
    let client = BootstrapClient::new();
    let err = client.bootstrap("dns.google", &response(vec![])).unwrap_err();
    assert_eq!(err, UpstreamError::Bootstrap("dns.google".to_string(), NO_ANSWER.to_string()));
}

#[test]
fn other_record_type_is_an_error() {
    let client = BootstrapClient::new();
    let body = response(vec![RData::CNAME(CNAME("alias.example".parse().unwrap()))]);
    let err = client.bootstrap("dns.google", &body).unwrap_err();
    assert_eq!(
        err,
        UpstreamError::Bootstrap("dns.google".to_string(), UNKNOWN_RECORD_TYPE.to_string())
    );
}

#[test]
fn malformed_response_is_an_error() {
    let client = BootstrapClient::new();
    match client.bootstrap("dns.google", &[0, 1, 2]) {
        Err(UpstreamError::Bootstrap(host, _)) => assert_eq!(host, "dns.google"),
        other => panic!("unexpected {:?}", other),
    }
}

#[test]
fn invalid_name_is_a_bootstrap_error() {
    let client = BootstrapClient::new();
    let long_label = "a".repeat(70);
    match client.request(&long_label) {
        Err(UpstreamError::Bootstrap(host, _)) => assert_eq!(host, long_label),
        other => panic!("unexpected {:?}", other),
    }
}

#[test]
fn request_is_an_a_query() {
    let client = BootstrapClient::new();
    let bytes = client.request("dns.google").unwrap();
    let message = Message::from_vec(&bytes).unwrap();
    assert_eq!(message.queries().len(), 1);
    assert_eq!(message.queries()[0].query_type(), RecordType::A);
    assert!(message.recursion_desired());
    let built = build_request_message("dns.google".parse().unwrap(), RECORD_TYPE_A);
    assert_eq!(built.queries()[0].name().to_ascii(), "dns.google");
}

#[test]
fn answer_address_cases() {
    assert_eq!(
        answer_address("h", Some(AnswerData::V4([1, 2, 3, 4]))),
        Ok(BootstrapAddress { ip: IpAddress::V4([1, 2, 3, 4]), port: 0 })
    );
    assert_eq!(
        answer_address("h", None),
        Err(UpstreamError::Bootstrap("h".to_string(), NO_ANSWER.to_string()))
    );
    assert_eq!(
        answer_address("h", Some(AnswerData::Missing)),
        Err(UpstreamError::Bootstrap("h".to_string(), NO_ANSWER.to_string()))
    );
    assert_eq!(
        answer_address("h", Some(AnswerData::Other)),
        Err(UpstreamError::Bootstrap("h".to_string(), UNKNOWN_RECORD_TYPE.to_string()))
    );
}
