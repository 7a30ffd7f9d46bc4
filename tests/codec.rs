use hotline::codes::{FieldType, TransactionType};
use hotline::path::{decode_path, encode_path};
use hotline::transaction::{CodecError, Transaction, TransactionField};

fn sample() -> Transaction {
    let mut t = Transaction::new(7, TransactionType::SendChat);
    t.add_field(TransactionField::from_string(FieldType::Data, "hello"));
    t.add_field(TransactionField::from_u16(FieldType::ChatOptions, 0));
    t.add_field(TransactionField::from_u32(FieldType::ReferenceNumber, 0xDEADBEEF));
    t
}

fn same(a: &Transaction, b: &Transaction) {
    assert_eq!(a.flags, b.flags);
    assert_eq!(a.is_reply, b.is_reply);
    assert_eq!(a.transaction_type, b.transaction_type);
    assert_eq!(a.id, b.id);
    assert_eq!(a.error_code, b.error_code);
    assert_eq!(a.fields.len(), b.fields.len());
    for (x, y) in a.fields.iter().zip(b.fields.iter()) {
        assert_eq!(x.field_type, y.field_type);
        assert_eq!(x.data, y.data);
    }
}

#[test]
fn frame_round_trip() {
    let t = sample();
    let bytes = t.encode();
    let data_size = 2 + (4 + 5) + (4 + 2) + (4 + 4);
    assert_eq!(bytes.len(), 20 + data_size);
    let back = Transaction::decode(&bytes).unwrap();
    same(&t, &back);
}

#[test]
fn frame_round_trip_without_fields() {
    let t = Transaction::new(1, TransactionType::GetUserNameList);
    let bytes = t.encode();
    assert_eq!(bytes.len(), 22);
    let back = Transaction::decode(&bytes).unwrap();
    same(&t, &back);
}

#[test]
fn frame_header_layout() {
    let mut t = Transaction::new(0x01020304, TransactionType::Login);
    t.add_field(TransactionField::new(FieldType::Data, vec![0xAA]));
    let b = t.encode();
    assert_eq!(&b[0..4], &[0, 0, 0, 107]);
    assert_eq!(&b[4..8], &[1, 2, 3, 4]);
    assert_eq!(&b[8..12], &[0, 0, 0, 0]);
    assert_eq!(&b[12..16], &[0, 0, 0, 7]);
    assert_eq!(&b[16..20], &[0, 0, 0, 7]);
    assert_eq!(&b[20..], &[0, 1, 0, 101, 0, 1, 0xAA]);
}

#[test]
fn frame_split_over_loopback_reads() {
    let t = sample();
    let bytes = t.encode();
    let (header, rest) = bytes.split_at(20);
    let declared = u32::from_be_bytes([header[16], header[17], header[18], header[19]]) as usize;
    assert_eq!(declared, rest.len());
    let mut joined = header.to_vec();
    joined.extend_from_slice(&rest[..declared]);
    same(&t, &Transaction::decode(&joined).unwrap());
}

#[test]
fn zero_data_size_has_no_fields() {
    let mut b = vec![0u8, 1, 0, 0, 0, 0, 0, 9, 0, 0, 0, 0, 0, 0, 0, 0, 0, 0, 0, 0];
    b.extend_from_slice(&[0, 1, 0, 101, 0, 1, 0x41]);
    let t = Transaction::decode(&b).unwrap();
    assert_eq!(t.fields.len(), 0);
    assert_eq!(t.id, 9);
    assert_eq!(t.is_reply, 1);
}

#[test]
fn zero_length_field_is_empty() {
    let mut t = Transaction::new(3, TransactionType::Reply);
    t.add_field(TransactionField::new(FieldType::UserId, Vec::new()));
    let back = Transaction::decode(&t.encode()).unwrap();
    assert_eq!(back.fields.len(), 1);
    assert!(back.fields[0].data.is_empty());
    assert_eq!(back.fields[0].to_u16(), Err(CodecError::MalformedField));
    assert_eq!(back.fields[0].to_u32(), Err(CodecError::MalformedField));
}

#[test]
fn truncated_field_stops_decoding() {
    let mut b = vec![0u8, 1, 0, 0, 0, 0, 0, 2, 0, 0, 0, 0, 0, 0, 0, 20, 0, 0, 0, 20];
    b.extend_from_slice(&[0, 2, 0, 101, 0, 1, 0x41, 0, 102, 0, 9, 0x42]);
    let t = Transaction::decode(&b).unwrap();
    assert_eq!(t.fields.len(), 1);
    assert_eq!(t.fields[0].data, vec![0x41]);
}

#[test]
fn short_frame_is_refused() {
    assert_eq!(Transaction::decode(&[0u8; 19]).err(), Some(CodecError::FrameTooShort));
}

#[test]
fn unknown_codes_survive() {
    let mut t = Transaction::new(1, TransactionType::Other(999));
    t.add_field(TransactionField::new(FieldType::Other(4242), vec![1, 2]));
    let back = Transaction::decode(&t.encode()).unwrap();
    assert_eq!(back.transaction_type, TransactionType::Other(999));
    assert_eq!(back.fields[0].field_type, FieldType::Other(4242));
    assert_eq!(TransactionType::from_code(107), TransactionType::Login);
    assert_eq!(FieldType::from_code(105).code(), 105);
}

#[test]
fn obfuscated_string() {
    let f = TransactionField::from_encoded_string(FieldType::UserLogin, "guest");
    let xored: Vec<u8> = "guest".bytes().map(|b| b ^ 0xFF).collect();
    assert_eq!(f.data, xored);
    assert_eq!(f.data, vec![0x98, 0x8A, 0x9A, 0x8C, 0x8B]);
    assert_eq!(f.to_decoded_string().unwrap(), "guest");
    let g = TransactionField::from_encoded_string(FieldType::UserPassword, "pässwörd");
    assert_eq!(g.to_decoded_string().unwrap(), "pässwörd");
}

#[test]
fn integer_fields() {
    let a = TransactionField::from_u16(FieldType::UserIconId, 414);
    assert_eq!(a.data, vec![0x01, 0x9E]);
    assert_eq!(a.to_u16(), Ok(414));
    assert_eq!(a.to_u32(), Err(CodecError::MalformedField));
    let b = TransactionField::from_u32(FieldType::VersionNumber, 123);
    assert_eq!(b.data, vec![0, 0, 0, 123]);
    assert_eq!(b.to_u32(), Ok(123));
}

#[test]
fn text_fields() {
    let f = TransactionField::from_string(FieldType::UserName, "héllo");
    assert_eq!(f.data, "héllo".as_bytes().to_vec());
    assert_eq!(f.to_string().unwrap(), "héllo");
    let bad = TransactionField::new(FieldType::Data, vec![0xFF, 0xFE]);
    assert_eq!(bad.to_string(), Err(CodecError::InvalidText));
}

#[test]
fn field_encoding() {
    let f = TransactionField::from_u16(FieldType::UserId, 5);
    assert_eq!(f.encode(), vec![0, 103, 0, 2, 0, 5]);
}

#[test]
fn first_field_of_a_kind() {
    let mut t = Transaction::new(1, TransactionType::Reply);
    t.add_field(TransactionField::from_string(FieldType::Data, "one"));
    t.add_field(TransactionField::from_u16(FieldType::UserId, 2));
    t.add_field(TransactionField::from_string(FieldType::Data, "two"));
    assert_eq!(t.get_field(FieldType::Data).unwrap().to_string().unwrap(), "one");
    assert!(t.get_field(FieldType::ErrorText).is_none());
}

#[test]
fn encodable_limits() {
    let mut t = Transaction::new(1, TransactionType::Reply);
    t.add_field(TransactionField::new(FieldType::Data, vec![0; 65535]));
    assert!(t.is_encodable());
    t.add_field(TransactionField::new(FieldType::Data, vec![0; 65536]));
    assert!(!t.is_encodable());
}

#[test]
fn path_round_trip() {
    let segs: Vec<Vec<u8>> = vec![b"Uploads".to_vec(), vec![0x8E, 0x20], vec![b'x'; 255]];
    let bytes = encode_path(&segs).unwrap();
    assert_eq!(&bytes[0..2], &[0, 3]);
    assert_eq!(&bytes[2..5], &[0, 0, 7]);
    assert_eq!(decode_path(&bytes).unwrap(), segs);
}

#[test]
fn path_limits() {
    assert_eq!(encode_path(&vec![vec![b'a'; 256]]), Err(CodecError::PathTooLong));
    assert_eq!(decode_path(&[0, 1, 0, 0, 5, b'a']), Err(CodecError::MalformedField));
    assert_eq!(decode_path(&[0]), Err(CodecError::MalformedField));
    assert_eq!(decode_path(&[0, 0]).unwrap().len(), 0);
}

#[test]
fn path_field() {
    let f = TransactionField::from_path(FieldType::FilePath, &vec!["a".to_string(), "bc".to_string()]).unwrap();
    assert_eq!(f.data, vec![0, 2, 0, 0, 1, b'a', 0, 0, 2, b'b', b'c']);
    let long = "y".repeat(300);
    assert_eq!(TransactionField::from_path(FieldType::FilePath, &vec![long]).err(), Some(CodecError::PathTooLong));
}

#[test]
fn declared_block_size_of_header() {
    let t = sample();
    let b = t.encode();
    assert_eq!(Transaction::declared_block_size(&b) as usize, b.len() - 20);
}

#[test]
fn lookup_is_by_field_type() {
    let mut t = Transaction::new(1, TransactionType::Reply);
    t.add_field(TransactionField::new(FieldType::Other(101), vec![1]));
    t.add_field(TransactionField::new(FieldType::Data, vec![2]));
    assert_eq!(t.get_field(FieldType::Data).unwrap().data, vec![2]);
    assert_eq!(t.get_field(FieldType::Other(101)).unwrap().data, vec![1]);
}

#[test]
fn decoded_kinds_are_named() {
    let b = [0u8, 1, 0, 0, 0, 0, 0, 7, 0, 0, 0, 0, 0, 0, 0, 6, 0, 0, 0, 6, 0, 1, 0, 0x65, 0, 0];
    let t = Transaction::decode(&b).unwrap();
    assert_eq!(t.transaction_type, TransactionType::Reply);
    assert_eq!(t.fields.len(), 1);
    assert_eq!(t.fields[0].field_type, FieldType::Data);
    assert!(t.fields[0].data.is_empty());
}
