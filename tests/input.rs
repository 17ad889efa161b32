use triton_rs::{encode_string, DataType, InputProperties, ModelExecutorError};

fn props(datatype: DataType, byte_size: u64) -> InputProperties {
    InputProperties {
        name: "prompt".to_string(),
        datatype,
        shape: vec![1],
        byte_size,
        buffer_count: 1,
    }
}

#[test]
fn u64_input_reads_little_endian() {
    let p = props(DataType::UINT64, 8);
    let bytes = 0x0102_0304_0506_0708u64.to_le_bytes();
    assert_eq!(p.as_u64(&bytes).unwrap(), 0x0102_0304_0506_0708);
}

#[test]
fn u64_input_with_wrong_type_is_an_input_error() {
    let p = props(DataType::INT64, 8);
    assert!(matches!(p.as_u64(&[0; 8]), Err(ModelExecutorError::InputError(_))));
}

#[test]
fn u64_input_too_small_is_an_input_error() {
    let p = props(DataType::UINT64, 4);
    assert!(matches!(p.as_u64(&[0; 8]), Err(ModelExecutorError::InputError(_))));
    let q = props(DataType::UINT64, 8);
    assert!(matches!(q.as_u64(&[0; 7]), Err(ModelExecutorError::InputError(_))));
}

#[test]
fn string_input_reads_the_first_element() {
    let p = props(DataType::BYTES, 13);
    let mut b = encode_string("hello");
    b.extend(encode_string("world"));
    assert_eq!(p.as_string(&b).unwrap(), "hello");
}

#[test]
fn string_input_errors() {
    assert!(matches!(
        props(DataType::FP32, 4).as_string(&encode_string("x")),
        Err(ModelExecutorError::InputError(_))
    ));
    assert!(matches!(
        props(DataType::BYTES, 0).as_string(&[]),
        Err(ModelExecutorError::InputError(_))
    ));
    assert!(matches!(
        props(DataType::BYTES, 2).as_string(&[9, 0]),
        Err(ModelExecutorError::FFIError(_))
    ));
}
