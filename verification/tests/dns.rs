use tokio_dns::dns::{
    check_labels, collect_addresses, matches_query, query_for, read_reply, NameError, Question,
    RecordData, Reply, CLASS_IN, TYPE_A,
};
use tokio_dns::{IpAddress, Ipv4Address};

fn name_bytes(name: &str) -> Vec<u8> {
    let mut out = Vec::new();
    for label in name.split('.') {
        out.push(label.len() as u8);
        out.extend_from_slice(label.as_bytes());
    }
    out.push(0);
    out
}

fn message(id: u16, questions: &[(&str, u16, u16)], answers: &[(u16, Vec<u8>)]) -> Vec<u8> {
    let mut out = Vec::new();
    out.extend_from_slice(&id.to_be_bytes());
    out.extend_from_slice(&[0x81, 0x80]);
    out.extend_from_slice(&(questions.len() as u16).to_be_bytes());
    out.extend_from_slice(&(answers.len() as u16).to_be_bytes());
    out.extend_from_slice(&[0, 0, 0, 0]);
    for (name, kind, class) in questions {
        out.extend_from_slice(&name_bytes(name));
        out.extend_from_slice(&kind.to_be_bytes());
        out.extend_from_slice(&class.to_be_bytes());
    }
    for (kind, data) in answers {
        out.extend_from_slice(&[0xc0, 0x0c]);
        out.extend_from_slice(&kind.to_be_bytes());
        out.extend_from_slice(&[0, 1, 0, 0, 0, 60]);
        out.extend_from_slice(&(data.len() as u16).to_be_bytes());
        out.extend_from_slice(data);
    }
    out
}

#[test]
fn query_has_the_bytes_of_an_address_query() {
    let expected = b"\x06%\x01\x00\x00\x01\x00\x00\x00\x00\x00\x00\x07example\x03com\x00\x00\x01\x00\x01";
    assert_eq!(query_for(1573, "example.com"), Ok(expected.to_vec()));
}

#[test]
fn query_carries_its_identifier() {
    let a = query_for(0x1234, "localhost").unwrap();
    let b = query_for(0xabcd, "localhost").unwrap();
    assert_eq!(&a[..2], &[0x12, 0x34]);
    assert_eq!(&b[..2], &[0xab, 0xcd]);
    assert_eq!(&a[2..], &b[2..]);
    assert_eq!(a.len(), "localhost".len() + 18);
}

#[test]
fn query_is_read_back_as_its_own_question() {
    let packet = query_for(77, "www.rust-lang.org").unwrap();
    let reply = read_reply(&packet).unwrap();
    assert_eq!(reply.id, 77);
    assert_eq!(
        reply.questions,
        vec![Question { name: "www.rust-lang.org".to_string(), kind: TYPE_A, class: CLASS_IN }]
    );
    assert!(reply.answers.is_empty());
}

#[test]
fn long_label_is_refused() {
    let label62 = "a".repeat(62);
    let label63 = "a".repeat(63);
    assert!(query_for(1, &label62).is_ok());
    assert_eq!(query_for(1, &label63), Err(NameError::LabelTooLong));
    assert_eq!(query_for(1, &format!("www.{}.org", label63)), Err(NameError::LabelTooLong));
    assert!(check_labels(format!("{}.{}", label62, label62).as_bytes()));
    assert!(!check_labels(format!("{}.{}", label62, label63).as_bytes()));
    assert!(check_labels(b""));
    assert!(check_labels(b"..."));
}

#[test]
fn long_name_is_refused() {
    let label = "a".repeat(61);
    let mut name = String::new();
    while name.len() + 62 <= 494 {
        name.push_str(&label);
        name.push('.');
    }
    while name.len() < 494 {
        name.push('b');
    }
    assert_eq!(name.len(), 494);
    assert_eq!(query_for(1, &name).map(|p| p.len()), Ok(512));
    name.push('b');
    assert_eq!(query_for(1, &name), Err(NameError::MessageTooLong));
}

#[test]
fn reply_is_read_as_plain_values() {
    let data = b"\x06%\x81\x80\x00\x01\x00\x01\x00\x00\x00\x00\x07example\x03com\x00\x00\x01\x00\x01\xc0\x0c\x00\x01\x00\x01\x00\x00\x04\xf8\x00\x04]\xb8\xd8\"";
    let reply = read_reply(data).unwrap();
    assert_eq!(
        reply,
        Reply {
            id: 1573,
            questions: vec![Question {
                name: "example.com".to_string(),
                kind: TYPE_A,
                class: CLASS_IN,
            }],
            answers: vec![RecordData::A(Ipv4Address::new(93, 184, 216, 34))],
        }
    );
}

#[test]
fn reply_keeps_the_order_and_the_kind_of_its_answers() {
    let data = message(
        9,
        &[("host.example", 28, 1)],
        &[
            (1, vec![10, 0, 0, 1]),
            (28, vec![0; 16]),
            (1, vec![10, 0, 0, 2]),
            (16, vec![2, b'h', b'i']),
        ],
    );
    let reply = read_reply(&data).unwrap();
    assert_eq!(reply.id, 9);
    assert_eq!(reply.questions.len(), 1);
    assert_eq!(reply.questions[0].kind, 28);
    assert_eq!(
        reply.answers,
        vec![
            RecordData::A(Ipv4Address::new(10, 0, 0, 1)),
            RecordData::Other,
            RecordData::A(Ipv4Address::new(10, 0, 0, 2)),
            RecordData::Other,
        ]
    );
    assert_eq!(
        collect_addresses(&reply.answers),
        vec![
            IpAddress::V4(Ipv4Address::new(10, 0, 0, 1)),
            IpAddress::V4(Ipv4Address::new(10, 0, 0, 2)),
        ]
    );
}

#[test]
fn malformed_datagram_is_no_reply() {
    assert_eq!(read_reply(b""), None);
    assert_eq!(read_reply(b"\x00\x01\x81\x80"), None);
    assert_eq!(read_reply(&[0xff; 40]), None);
    let mut cut = message(1, &[("example.com", 1, 1)], &[(1, vec![1, 2, 3, 4])]);
    cut.pop();
    assert_eq!(read_reply(&cut), None);
    let mut bad_length = message(1, &[("example.com", 1, 1)], &[(1, vec![1, 2, 3])]);
    assert_eq!(read_reply(&bad_length), None);
    bad_length.clear();
    assert_eq!(read_reply(&bad_length), None);
}

#[test]
fn oversized_datagram_is_no_reply() {
    let mut data = message(1, &[("example.com", 1, 1)], &[]);
    assert!(read_reply(&data).is_some());
    data.resize(512, 0);
    assert!(read_reply(&data).is_some());
    data.push(0);
    assert_eq!(read_reply(&data), None);
}

#[test]
fn reply_answers_only_its_own_query() {
    let host = "example.com".to_string();
    let good = read_reply(&message(1, &[("example.com", 1, 1)], &[])).unwrap();
    assert!(matches_query(&good, &host));
    assert!(!matches_query(&good, &"example.org".to_string()));
    assert!(!matches_query(&good, &"Example.com".to_string()));
    let wrong_kind = read_reply(&message(1, &[("example.com", 28, 1)], &[])).unwrap();
    assert!(!matches_query(&wrong_kind, &host));
    let wrong_class = read_reply(&message(1, &[("example.com", 1, 3)], &[])).unwrap();
    assert!(!matches_query(&wrong_class, &host));
    let two = read_reply(&message(1, &[("example.com", 1, 1), ("example.com", 1, 1)], &[]))
        .unwrap();
    assert!(!matches_query(&two, &host));
    let none = read_reply(&message(1, &[], &[])).unwrap();
    assert!(!matches_query(&none, &host));
}

#[test]
fn no_answers_bring_no_addresses() {
    assert_eq!(collect_addresses(&vec![]), vec![]);
    assert_eq!(collect_addresses(&vec![RecordData::Other, RecordData::Other]), vec![]);
}
