use std::mem::size_of;
use triton_rs::{decode_string, encode_string, DataType, ModelExecutorError};

#[test]
fn encode_hello() {
    assert_eq!(encode_string("hello"), vec![5, 0, 0, 0, b'h', b'e', b'l', b'l', b'o']);
}

#[test]
fn encode_empty_string() {
    assert_eq!(encode_string(""), vec![0, 0, 0, 0]);
}

#[test]
fn encode_multibyte_counts_bytes() {
    let e = encode_string("é");
    assert_eq!(e, vec![2, 0, 0, 0, 0xc3, 0xa9]);
}

#[test]
fn decode_round_trips_encode() {
    let e = encode_string("hello");
    assert_eq!(decode_string(&e).unwrap(), vec!["hello".to_string()]);
}

#[test]
fn decode_several_elements() {
    let mut b = encode_string("ab");
    b.extend(encode_string(""));
    b.extend(encode_string("xyz"));
    assert_eq!(
        decode_string(&b).unwrap(),
        vec!["ab".to_string(), String::new(), "xyz".to_string()]
    );
}

#[test]
fn decode_empty_buffer() {
    assert_eq!(decode_string(&[]).unwrap(), Vec::<String>::new());
}

#[test]
fn decode_long_length_prefix() {
    let mut b = vec![0x00, 0x01, 0x00, 0x00];
    b.extend(vec![b'a'; 256]);
    let d = decode_string(&b).unwrap();
    assert_eq!(d.len(), 1);
    assert_eq!(d[0].len(), 256);
}

#[test]
fn decode_truncated_prefix_is_an_error() {
    assert!(matches!(decode_string(&[1, 0]), Err(ModelExecutorError::FFIError(_))));
}

#[test]
fn decode_truncated_payload_is_an_error() {
    assert!(matches!(decode_string(&[3, 0, 0, 0, b'a']), Err(ModelExecutorError::FFIError(_))));
}

#[test]
fn decode_replaces_invalid_utf8() {
    let d = decode_string(&[2, 0, 0, 0, 0xff, b'a']).unwrap();
    assert_eq!(d, vec!["\u{fffd}a".to_string()]);
}

#[test]
fn datatype_codes_round_trip() {
    for c in 0u32..=14 {
        assert_eq!(DataType::from_code(c).code(), c);
        assert_eq!(DataType::from(c), DataType::from_code(c));
    }
    assert_eq!(DataType::from_code(15), DataType::INVALID);
    assert_eq!(DataType::from_code(u32::MAX), DataType::INVALID);
    assert_eq!(DataType::BYTES.code(), 13);
    assert_eq!(DataType::FP32.code(), 11);
}

#[test]
fn datatype_widths_match_element_sizes() {
    assert_eq!(DataType::BOOL.byte_size() as usize, size_of::<bool>());
    assert_eq!(DataType::UINT8.byte_size() as usize, size_of::<u8>());
    assert_eq!(DataType::UINT16.byte_size() as usize, size_of::<u16>());
    assert_eq!(DataType::UINT32.byte_size() as usize, size_of::<u32>());
    assert_eq!(DataType::UINT64.byte_size() as usize, size_of::<u64>());
    assert_eq!(DataType::INT8.byte_size() as usize, size_of::<i8>());
    assert_eq!(DataType::INT16.byte_size() as usize, size_of::<i16>());
    assert_eq!(DataType::INT32.byte_size() as usize, size_of::<i32>());
    assert_eq!(DataType::INT64.byte_size() as usize, size_of::<i64>());
    assert_eq!(DataType::FP16.byte_size(), 2);
    assert_eq!(DataType::BF16.byte_size(), 2);
    assert_eq!(DataType::FP32.byte_size() as usize, size_of::<f32>());
    assert_eq!(DataType::FP64.byte_size() as usize, size_of::<f64>());
    assert_eq!(DataType::BYTES.byte_size(), 0);
    assert_eq!(DataType::INVALID.byte_size(), 0);
}
