use authengine::headers::build_protobuf_headers_map;
use authengine::wire::{decode_reply, encode_request, read_varint_at, write_varint, DecodeError};
use protobuf::CodedInputStream;
use protobuf::CodedOutputStream;

fn reply_bytes(allow: Option<bool>, user: Option<&str>, message: Option<&str>) -> Vec<u8> {
    let mut out = Vec::new();
    {
        let mut os = CodedOutputStream::vec(&mut out);
        if let Some(a) = allow {
            os.write_bool(1, a).unwrap();
        }
        if let Some(u) = user {
            os.write_string(2, u).unwrap();
        }
        if let Some(m) = message {
            os.write_string(3, m).unwrap();
        }
        os.flush().unwrap();
    }
    out
}

#[test]
fn varint_examples() {
    let mut v = Vec::new();
    write_varint(&mut v, 0);
    assert_eq!(v, vec![0]);
    let mut v = Vec::new();
    write_varint(&mut v, 300);
    assert_eq!(v, vec![0xac, 0x02]);
    let mut v = vec![7];
    write_varint(&mut v, 127);
    assert_eq!(v, vec![7, 127]);
    let mut v = Vec::new();
    write_varint(&mut v, u64::MAX);
    assert_eq!(v.len(), 10);
    assert_eq!(read_varint_at(&v, 0), Some((u64::MAX, 10)));
}

#[test]
fn varint_reading() {
    assert_eq!(read_varint_at(&vec![0xac, 0x02], 0), Some((300, 2)));
    assert_eq!(read_varint_at(&vec![9, 0x01], 1), Some((1, 2)));
    assert_eq!(read_varint_at(&vec![0x80], 0), None);
    assert_eq!(read_varint_at(&vec![], 0), None);
    assert_eq!(read_varint_at(&vec![0xff; 11], 0), None);
    let mut too_big = vec![0xff; 9];
    too_big.push(0x02);
    assert_eq!(read_varint_at(&too_big, 0), None);
}

#[test]
fn request_encoding_exact_bytes() {
    let m = build_protobuf_headers_map(&vec![("x-request-id".to_string(), "r".to_string())]);
    let bytes = encode_request("GET", "/", "", &m);
    let mut expected = vec![0x0a, 3, b'G', b'E', b'T', 0x12, 1, b'/', 0x1a, 0];
    expected.extend_from_slice(&[0x22, 17, 0x0a, 12]);
    expected.extend_from_slice(b"x-request-id");
    expected.extend_from_slice(&[0x12, 1, b'r']);
    assert_eq!(bytes, expected);
}

#[test]
fn request_encoding_reads_back_with_protobuf() {
    let m = build_protobuf_headers_map(&vec![
        (":method".to_string(), "POST".to_string()),
        ("authorization".to_string(), "Bearer é".to_string()),
    ]);
    let bytes = encode_request("POST", "/p", "https", &m);
    let mut is = CodedInputStream::from_bytes(&bytes);
    let mut strings = Vec::new();
    let mut entries = Vec::new();
    while !is.eof().unwrap() {
        let (field, _) = is.read_tag_unpack().unwrap();
        if field == 4 {
            let entry = is.read_bytes().unwrap();
            let mut es = CodedInputStream::from_bytes(&entry);
            let (k_field, _) = es.read_tag_unpack().unwrap();
            let k = es.read_string().unwrap();
            let (v_field, _) = es.read_tag_unpack().unwrap();
            let v = es.read_string().unwrap();
            assert_eq!((k_field, v_field), (1, 2));
            entries.push((k, v));
        } else {
            strings.push((field, is.read_string().unwrap()));
        }
    }
    assert_eq!(
        strings,
        vec![(1, "POST".to_string()), (2, "/p".to_string()), (3, "https".to_string())]
    );
    assert_eq!(
        entries,
        vec![
            ("x-original-req-method".to_string(), "POST".to_string()),
            ("authorization".to_string(), "Bearer é".to_string())
        ]
    );
}

#[test]
fn reply_decoding_of_protobuf_output() {
    let b = reply_bytes(Some(true), Some("alice"), Some("ok"));
    let r = decode_reply(&b).ok().unwrap();
    assert!(r.allow);
    assert_eq!(r.user, "alice");
    assert_eq!(r.message, "ok");
}

#[test]
fn reply_absent_fields_take_defaults() {
    let b = reply_bytes(None, None, Some("no access"));
    let r = decode_reply(&b).ok().unwrap();
    assert!(!r.allow);
    assert_eq!(r.user, "");
    assert_eq!(r.message, "no access");
    let r = decode_reply(&Vec::new()).ok().unwrap();
    assert!(!r.allow);
}

#[test]
fn reply_unknown_fields_are_skipped() {
    let mut out = Vec::new();
    {
        let mut os = CodedOutputStream::vec(&mut out);
        os.write_uint64(9, 123456).unwrap();
        os.write_bool(1, true).unwrap();
        os.write_fixed32(7, 5).unwrap();
        os.write_string(8, "ignored").unwrap();
        os.write_string(2, "bob").unwrap();
        os.flush().unwrap();
    }
    let r = decode_reply(&out).ok().unwrap();
    assert!(r.allow);
    assert_eq!(r.user, "bob");
}

#[test]
fn reply_later_field_replaces_earlier() {
    let b = vec![0x12, 1, b'a', 0x12, 1, b'b', 0x08, 1, 0x08, 0];
    let r = decode_reply(&b).ok().unwrap();
    assert_eq!(r.user, "b");
    assert!(!r.allow);
}

#[test]
fn reply_corrupted_is_malformed() {
    assert_eq!(decode_reply(&vec![0xff, 0xff]).err(), Some(DecodeError::Malformed));
    assert_eq!(decode_reply(&vec![0x12, 5, b'a']).err(), Some(DecodeError::Malformed));
    assert_eq!(decode_reply(&vec![0x0a, 0]).err(), Some(DecodeError::Malformed));
    assert_eq!(decode_reply(&vec![0x10, 1]).err(), Some(DecodeError::Malformed));
    assert_eq!(decode_reply(&vec![0x00, 1]).err(), Some(DecodeError::Malformed));
    assert_eq!(decode_reply(&vec![0x0b]).err(), Some(DecodeError::Malformed));
}

#[test]
fn reply_invalid_utf8_is_malformed() {
    assert_eq!(decode_reply(&vec![0x1a, 2, 0xc3, 0x28]).err(), Some(DecodeError::Malformed));
    let r = decode_reply(&vec![0x1a, 2, 0xc3, 0xa9]).ok().unwrap();
    assert_eq!(r.message, "é");
}
