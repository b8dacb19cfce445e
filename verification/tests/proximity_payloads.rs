use connected::device_type::DeviceType;
use connected::proximity::{parse_payload, proximity_injection, uuid_string, Ipv4Octets};

fn id_bytes() -> [u8; 16] {
    [
        0x12, 0x34, 0x56, 0x78, 0x9a, 0xbc, 0xde, 0xf0, 0x0f, 0xed, 0xcb, 0xa9, 0x87, 0x65, 0x43,
        0x21,
    ]
}

fn v1_payload(name: &[u8]) -> Vec<u8> {
    let mut d = vec![0x12u8, 0x1f, 0x90];
    d.extend_from_slice(&id_bytes());
    d.push(name.len() as u8);
    d.extend_from_slice(name);
    d.extend_from_slice(&[192, 168, 1, 20]);
    d
}

#[test]
fn uuid_text_matches_uuid_crate() {
    let mut data = vec![0u8, 0, 0];
    data.extend_from_slice(&id_bytes());
    let expected = uuid::Uuid::from_bytes(id_bytes()).to_string();
    assert_eq!(uuid_string(&data, 3), expected);
    assert_eq!(uuid_string(&data, 3), "12345678-9abc-def0-0fed-cba987654321");
    let mut x: u64 = 99;
    for _ in 0..50 {
        let mut b = [0u8; 16];
        for v in b.iter_mut() {
            x = x.wrapping_mul(6364136223846793005).wrapping_add(1);
            *v = (x >> 56) as u8;
        }
        let mut d = vec![9u8, 9, 9];
        d.extend_from_slice(&b);
        assert_eq!(uuid_string(&d, 3), uuid::Uuid::from_bytes(b).to_string());
    }
}

#[test]
fn protocol_one_carries_name_and_address() {
    let p = parse_payload(&v1_payload(b"Laptop")).expect("valid payload");
    assert_eq!(p.device_id, "12345678-9abc-def0-0fed-cba987654321");
    assert_eq!(p.name, "Laptop");
    assert_eq!(p.device_type, DeviceType::Linux);
    assert_eq!(p.port, 8080);
    assert_eq!(p.ip, Some(Ipv4Octets(192, 168, 1, 20)));
}

#[test]
fn protocol_two_is_offline_and_unnamed() {
    let mut d = vec![0x21u8, 0x00, 0x50];
    d.extend_from_slice(&id_bytes());
    let p = parse_payload(&d).expect("valid payload");
    assert_eq!(p.name, "Unknown");
    assert_eq!(p.ip, None);
    assert_eq!(p.port, 80);
    assert_eq!(p.device_type, DeviceType::Android);
}

#[test]
fn malformed_payloads_are_ignored() {
    assert!(parse_payload(&[]).is_none());
    assert!(parse_payload(&[0x12u8; 18]).is_none());
    // protocol 0 is not compatible
    let mut d = vec![0x02u8, 0, 1];
    d.extend_from_slice(&id_bytes());
    d.extend_from_slice(&[0; 8]);
    assert!(parse_payload(&d).is_none());
    // protocol 3 needs at least 20 bytes
    let mut d3 = vec![0x33u8, 0, 1];
    d3.extend_from_slice(&id_bytes());
    assert!(parse_payload(&d3).is_none());
    d3.push(0);
    assert!(parse_payload(&d3).is_some());
    // protocol 1 with a name longer than the payload
    let mut short = v1_payload(b"Laptop");
    short.truncate(short.len() - 1);
    assert!(parse_payload(&short).is_none());
}

#[test]
fn own_advertisement_is_not_injected() {
    let p = parse_payload(&v1_payload(b"Me")).unwrap();
    assert!(proximity_injection(p.clone(), "12345678-9abc-def0-0fed-cba987654321").is_none());
    let i = proximity_injection(p, "other").expect("injected");
    assert_eq!(i.ip, Ipv4Octets(192, 168, 1, 20));
    let mut d = vec![0x24u8, 0x00, 0x50];
    d.extend_from_slice(&id_bytes());
    let offline = proximity_injection(parse_payload(&d).unwrap(), "other").unwrap();
    assert_eq!(offline.ip, Ipv4Octets(0, 0, 0, 0));
    assert_eq!(offline.device_type, DeviceType::MacOS);
}
