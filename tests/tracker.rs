use hotline::tracker::{name_is_separator, TrackerClient, TrackerError};

fn entry(ip: [u8; 4], port: u16, users: u16, name: &[u8], desc: &[u8]) -> Vec<u8> {
    let mut e = ip.to_vec();
    e.extend_from_slice(&port.to_be_bytes());
    e.extend_from_slice(&users.to_be_bytes());
    e.extend_from_slice(&[0, 0]);
    e.push(name.len() as u8);
    e.extend_from_slice(name);
    e.push(desc.len() as u8);
    e.extend_from_slice(desc);
    e
}

fn batch(total: u16, entries: &[Vec<u8>]) -> Vec<u8> {
    let mut b = vec![0, 1, 0, 0];
    b.extend_from_slice(&total.to_be_bytes());
    b.extend_from_slice(&(entries.len() as u16).to_be_bytes());
    for e in entries {
        b.extend_from_slice(e);
    }
    b
}

#[test]
fn tracker_handshake() {
    assert_eq!(TrackerClient::handshake(), b"HTRK\x00\x01".to_vec());
    assert_eq!(TrackerClient::check_reply(b"HTRK\x00\x01"), Ok(1));
    assert_eq!(TrackerClient::check_reply(b"TRTP\x00\x01"), Err(TrackerError::BadMagic));
}

#[test]
fn tracker_listing_batches() {
    let mut s = batch(3, &[entry([10, 0, 0, 1], 5500, 12, b"Alpha", b"First"), entry([1, 2, 3, 4], 5500, 0, b"-----", b"")]);
    s.extend(batch(3, &[entry([192, 168, 1, 9], 5600, 3, b"Caf\x8e", b"")]));
    let v = TrackerClient::parse_listing(&s).unwrap();
    assert_eq!(v.len(), 2);
    assert_eq!(v[0].ip, [10, 0, 0, 1]);
    assert_eq!(v[0].address(), "10.0.0.1");
    assert_eq!(v[1].address(), "192.168.1.9");
    assert_eq!(v[0].port, 5500);
    assert_eq!(v[0].users, 12);
    assert_eq!(v[0].name.as_deref(), Some("Alpha"));
    assert_eq!(v[0].description.as_deref(), Some("First"));
    assert_eq!(v[1].name.as_deref(), Some("Café"));
    assert_eq!(v[1].description, None);
    assert!(TrackerClient::parse_listing(&s[..s.len() - 1]).is_none());
    assert!(TrackerClient::parse_listing(&s[..20]).is_none());
}

#[test]
fn tracker_separators() {
    assert!(name_is_separator(&"---".to_string()));
    assert!(name_is_separator(&"--------".to_string()));
    assert!(!name_is_separator(&"--".to_string()));
    assert!(!name_is_separator(&"-a-".to_string()));
}
