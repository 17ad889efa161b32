use triton_rs::{
    decode_string, encode_string, fixed_byte_size, CompletionEvent, CompletionSignal, DataType,
    InferenceRequest, InferenceResponse, ModelExecutor, ModelExecutorError, OutputSlot,
    RequestFlags, RequestReleaseFlags, ResponseFlags,
};

fn slot(name: &str, datatype: u32, shape: Vec<i64>, data: Option<Vec<u8>>) -> OutputSlot {
    OutputSlot {
        name: name.to_string(),
        datatype,
        shape,
        data,
        memory_type: 0,
        memory_type_id: 0,
    }
}

#[test]
fn executor_rejects_a_name_with_nul() {
    assert!(matches!(
        ModelExecutor::new("bad\0name", 1),
        Err(ModelExecutorError::InitializationError(_))
    ));
    let x = ModelExecutor::new("echo", 3).unwrap();
    assert_eq!(x.model_name(), "echo");
    assert_eq!(x.model_version(), 3);
}

#[test]
fn request_builder_records_what_is_declared() {
    let executor = ModelExecutor::new("echo", 1).unwrap();
    let mut request = InferenceRequest::new(&executor).unwrap();
    assert_eq!(request.model_name(), "echo");
    assert_eq!(request.model_version(), 1);
    request.set_request_id("req-7").unwrap();
    request.set_correlation_id(42).unwrap();
    request.add_input("INPUT", DataType::FP32, &[2]).unwrap();
    request.set_input_data("INPUT", &[1, 2, 3, 4]).unwrap();
    request.set_input_data("INPUT", &[5, 6, 7, 8]).unwrap();
    request.add_output("OUTPUT").unwrap();
    assert_eq!(request.request_id(), "req-7");
    assert_eq!(request.correlation_id(), 42);
    assert_eq!(request.inputs().len(), 1);
    assert_eq!(request.inputs()[0].name, "INPUT");
    assert_eq!(request.inputs()[0].data_type, DataType::FP32);
    assert_eq!(request.inputs()[0].shape, vec![2]);
    assert_eq!(request.inputs()[0].data, vec![1, 2, 3, 4, 5, 6, 7, 8]);
    assert_eq!(request.outputs(), &["OUTPUT".to_string()]);
}

#[test]
fn duplicate_input_is_an_input_error() {
    let mut request = InferenceRequest::for_model("m", 1).unwrap();
    request.add_input("x", DataType::INT32, &[1]).unwrap();
    assert!(matches!(
        request.add_input("x", DataType::INT32, &[1]),
        Err(ModelExecutorError::InputError(_))
    ));
    assert_eq!(request.inputs().len(), 1);
}

#[test]
fn negative_dimension_is_an_input_error() {
    let mut request = InferenceRequest::for_model("m", 1).unwrap();
    assert!(matches!(
        request.add_input("x", DataType::INT32, &[2, -1]),
        Err(ModelExecutorError::InputError(_))
    ));
    assert!(request.inputs().is_empty());
}

#[test]
fn data_for_an_undeclared_input_is_an_input_error() {
    let mut request = InferenceRequest::for_model("m", 1).unwrap();
    assert!(matches!(
        request.set_input_data("nope", &[1]),
        Err(ModelExecutorError::InputError(_))
    ));
}

#[test]
fn names_with_nul_are_ffi_errors() {
    let mut request = InferenceRequest::for_model("m", 1).unwrap();
    assert!(matches!(request.add_output("a\0b"), Err(ModelExecutorError::FFIError(_))));
    assert!(matches!(
        request.add_input("a\0b", DataType::BOOL, &[1]),
        Err(ModelExecutorError::FFIError(_))
    ));
    assert!(matches!(request.set_request_id("\0"), Err(ModelExecutorError::FFIError(_))));
    assert!(matches!(
        InferenceRequest::for_model("m\0", 1),
        Err(ModelExecutorError::InitializationError(_))
    ));
}

#[test]
fn submission_needs_the_release_callback() {
    let executor = ModelExecutor::new("echo", 1).unwrap();
    let mut request = InferenceRequest::new(&executor).unwrap();
    assert!(matches!(
        executor.check_submission(&request),
        Err(ModelExecutorError::ExecutionError(_))
    ));
    request.set_release_callback().unwrap();
    assert!(request.has_release_callback());
    assert!(executor.check_submission(&request).is_ok());
    let other = ModelExecutor::new("other", 1).unwrap();
    assert!(matches!(
        other.check_submission(&request),
        Err(ModelExecutorError::ExecutionError(_))
    ));
}

#[test]
fn completion_resolves_once_with_the_response() {
    let mut signal: CompletionSignal<u32> = CompletionSignal::new();
    assert!(!signal.is_resolved());
    assert!(signal.deliver(CompletionEvent::Responded(7)));
    assert!(signal.is_resolved());
    assert!(!signal.deliver(CompletionEvent::Responded(8)));
    assert!(!signal.deliver(CompletionEvent::ProducerDropped));
    assert!(matches!(signal.outcome(), Some(Ok(7))));
}

#[test]
fn completion_resolves_once_with_a_failure() {
    let mut signal: CompletionSignal<u32> = CompletionSignal::new();
    let failure = ModelExecutorError::ExecutionError("engine failed".to_string());
    assert!(signal.deliver(CompletionEvent::Failed(failure)));
    assert!(!signal.deliver(CompletionEvent::Responded(1)));
    match signal.outcome() {
        Some(Err(ModelExecutorError::ExecutionError(m))) => assert_eq!(m, "engine failed"),
        _ => panic!("expected the engine failure"),
    }
}

#[test]
fn dropped_producer_gives_a_channel_error() {
    let mut signal: CompletionSignal<u32> = CompletionSignal::new();
    assert!(signal.deliver(CompletionEvent::ProducerDropped));
    assert!(!signal.deliver(CompletionEvent::Responded(1)));
    assert!(matches!(signal.outcome(), Some(Err(ModelExecutorError::AsyncChannelError(_)))));
}

#[test]
fn pending_signal_has_no_outcome() {
    let signal: CompletionSignal<u32> = CompletionSignal::new();
    assert!(signal.outcome().is_none());
}

#[test]
fn null_data_pointer_decodes_to_an_empty_tensor() {
    let decoded = InferenceResponse::from_slots(vec![Ok(slot("OUT", 11, vec![0, 3], None))]);
    assert!(decoded.error.is_none());
    let out = decoded.response.get_output_data("OUT").unwrap();
    assert!(out.data.is_empty());
    assert_eq!(out.shape, vec![0, 3]);
    assert_eq!(out.data_type, DataType::FP32);
}

#[test]
fn duplicate_output_names_keep_the_last() {
    let decoded = InferenceResponse::from_slots(vec![
        Ok(slot("A", 2, vec![1], Some(vec![1]))),
        Ok(slot("B", 2, vec![1], Some(vec![2]))),
        Ok(slot("A", 2, vec![1], Some(vec![3]))),
    ]);
    assert!(decoded.error.is_none());
    let r = decoded.response;
    assert_eq!(r.get_output_count(), 2);
    assert_eq!(r.get_output_data("A").unwrap().data, vec![3]);
    assert_eq!(r.get_output_data("B").unwrap().data, vec![2]);
    assert_eq!(r.iter().len(), 2);
}

#[test]
fn failed_slot_keeps_what_was_decoded_before_it() {
    let decoded = InferenceResponse::from_slots(vec![
        Ok(slot("A", 5, vec![1], Some(vec![1, 0, 0, 0, 0, 0, 0, 0]))),
        Err("Failed to get output".to_string()),
        Ok(slot("C", 5, vec![1], None)),
    ]);
    match decoded.error {
        Some(ModelExecutorError::OutputError(m)) => assert_eq!(m, "Failed to get output"),
        _ => panic!("expected an output error"),
    }
    let r = decoded.response;
    assert_eq!(r.get_output_count(), 1);
    assert_eq!(r.get_output_data("A").unwrap().data_type, DataType::UINT64);
    assert!(matches!(r.get_output_data("C"), Err(ModelExecutorError::OutputError(_))));
}

#[test]
fn unknown_datatype_code_decodes_as_invalid() {
    let decoded = InferenceResponse::from_slots(vec![Ok(slot("X", 99, vec![], None))]);
    assert_eq!(decoded.response.get_output_data("X").unwrap().data_type, DataType::INVALID);
}

#[test]
fn missing_output_is_an_output_error() {
    let decoded = InferenceResponse::from_slots(vec![]);
    assert_eq!(decoded.response.get_output_count(), 0);
    assert!(matches!(
        decoded.response.get_output_data("output"),
        Err(ModelExecutorError::OutputError(_))
    ));
}

#[test]
fn echo_request_round_trips_a_bytes_tensor() {
    let executor = ModelExecutor::new("echo", 1).unwrap();
    let mut request = InferenceRequest::new(&executor).unwrap();
    let prompt = encode_string("hello");
    request.add_input("prompt", DataType::BYTES, &[1]).unwrap();
    request.set_input_data("prompt", &prompt).unwrap();
    request.add_output("output").unwrap();
    request.set_release_callback().unwrap();
    assert!(executor.check_submission(&request).is_ok());

    // The engine echoes the input payload back as the requested output.
    let echoed = request.inputs()[0].data.clone();
    let mut signal = CompletionSignal::new();
    assert!(signal.deliver(CompletionEvent::Responded(vec![Ok(slot(
        "output",
        DataType::BYTES.code(),
        vec![1],
        Some(echoed),
    ))])));
    let slots = signal.outcome().unwrap().unwrap();
    let decoded = InferenceResponse::from_slots(slots);
    assert!(decoded.error.is_none());
    let response = decoded.response;
    assert_eq!(response.get_output_count(), 1);
    let out = response.get_output_data("output").unwrap();
    assert_eq!(out.data_type, DataType::BYTES);
    let strings = decode_string(&out.data).unwrap();
    assert_eq!(strings, vec!["hello".to_string()]);
    assert_eq!(encode_string(&strings[0]), prompt);
}

#[test]
fn fixed_byte_sizes() {
    assert_eq!(fixed_byte_size(DataType::FP32, &[4]), Some(16));
    assert_eq!(fixed_byte_size(DataType::INT64, &[2, 3]), Some(48));
    assert_eq!(fixed_byte_size(DataType::UINT8, &[]), Some(1));
    assert_eq!(fixed_byte_size(DataType::FP64, &[i64::MAX, 0]), Some(0));
    assert_eq!(fixed_byte_size(DataType::BYTES, &[4]), None);
    assert_eq!(fixed_byte_size(DataType::INVALID, &[4]), None);
    assert_eq!(fixed_byte_size(DataType::INT32, &[-1]), None);
    assert_eq!(fixed_byte_size(DataType::INT32, &[i64::MAX, i64::MAX]), None);
}

#[test]
fn array_view_checks() {
    let decoded = InferenceResponse::from_slots(vec![
        Ok(slot("OUTPUT", 11, vec![4], Some(vec![0; 16]))),
        Ok(slot("SHORT", 11, vec![4], Some(vec![0; 12]))),
    ]);
    let r = decoded.response;
    let out = r.get_output_data("OUTPUT").unwrap();
    assert_eq!(out.check_view(DataType::FP32, 1).unwrap(), vec![4usize]);
    assert!(matches!(out.check_view(DataType::INT32, 1), Err(ModelExecutorError::OutputError(_))));
    assert!(matches!(out.check_view(DataType::FP32, 2), Err(ModelExecutorError::OutputError(_))));
    let short = r.get_output_data("SHORT").unwrap();
    assert!(matches!(short.check_view(DataType::FP32, 1), Err(ModelExecutorError::OutputError(_))));
}

#[test]
fn request_flags() {
    let f = RequestFlags::from(3);
    assert!(f.is_start());
    assert!(f.is_end());
    assert!(RequestFlags(1).is_start());
    assert!(!RequestFlags(1).is_end());
    assert!(!RequestFlags(2).is_start());
    assert!(RequestFlags(2).is_end());
    assert!(!RequestFlags(0).is_start());
    assert_eq!(ResponseFlags::NONE.code(), 0);
    assert_eq!(ResponseFlags::FINAL.code(), 1);
    assert_eq!(RequestReleaseFlags::ALL.code(), 1);
}
