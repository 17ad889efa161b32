use triton_rs::{
    poison, ModelExecutorError, ResponseAllocator, MEMORY_CPU, MEMORY_CPU_PINNED, MEMORY_GPU,
    POISON_BYTE,
};

#[test]
fn test_allocation_cpu() {
    let mut allocator = ResponseAllocator::new(false);
    let outcome = allocator.allocate("foo", 123, MEMORY_CPU, 321);
    let buffer = outcome.result.unwrap();
    assert!(buffer.is_some());
    let mut buffer = buffer.unwrap();
    assert_eq!(buffer.data.len(), 123);
    assert_eq!(outcome.actual_memory_type, 0);
    assert_eq!(outcome.actual_memory_type_id, 321);

    buffer.data[122] = 0xff; // poke in buffer
    assert_eq!(buffer.tag, "foo"); // peek

    let r = allocator.release(buffer);
    assert!(r.is_ok());
}

#[test]
fn test_allocation_cpu_pinned() {
    let mut allocator = ResponseAllocator::new(false);
    let outcome = allocator.allocate("bar", 123, MEMORY_CPU_PINNED, 321);
    let buffer = outcome.result.unwrap();
    assert!(buffer.is_some());
    let mut buffer = buffer.unwrap();
    assert_eq!(buffer.data.len(), 123);
    assert_eq!(outcome.actual_memory_type, 0); // pinned is served as plain host memory
    assert_eq!(outcome.actual_memory_type_id, 0); // on device 0, not 321

    buffer.data[122] = 0xff;
    assert_eq!(buffer.tag, "bar");

    let r = allocator.release(buffer);
    assert!(r.is_ok());
}

#[test]
fn test_allocation_gpu() {
    let mut allocator = ResponseAllocator::new(false);
    let outcome = allocator.allocate("baz", 123, MEMORY_GPU, 321);
    assert!(outcome.result.is_err());
}

#[test]
fn gpu_request_is_an_allocation_error_and_leaves_no_entry() {
    let mut allocator = ResponseAllocator::new(false);
    let outcome = allocator.allocate("baz", 123, MEMORY_GPU, 321);
    assert!(matches!(outcome.result, Err(ModelExecutorError::AllocationError(_))));
    assert_eq!(outcome.actual_memory_type, MEMORY_GPU);
    assert_eq!(outcome.actual_memory_type_id, 321);
    assert_eq!(allocator.outstanding(), 0);
    assert!(allocator.is_idle());
}

#[test]
fn unknown_memory_kind_is_an_allocation_error() {
    let mut allocator = ResponseAllocator::new(false);
    let outcome = allocator.allocate("q", 8, 7, 0);
    assert!(matches!(outcome.result, Err(ModelExecutorError::AllocationError(_))));
    assert!(allocator.is_idle());
}

#[test]
fn pinned_request_reports_cpu_on_device_zero_whatever_the_size() {
    let mut allocator = ResponseAllocator::new(false);
    let big = allocator.allocate("p", 123, MEMORY_CPU_PINNED, 321);
    assert_eq!((big.actual_memory_type, big.actual_memory_type_id), (MEMORY_CPU, 0));
    let empty = allocator.allocate("p", 0, MEMORY_CPU_PINNED, 321);
    assert_eq!((empty.actual_memory_type, empty.actual_memory_type_id), (MEMORY_CPU, 0));
}

#[test]
fn zero_size_allocation_gives_no_buffer_and_no_release() {
    let mut allocator = ResponseAllocator::new(false);
    let outcome = allocator.allocate("empty", 0, MEMORY_CPU, 5);
    assert!(matches!(outcome.result, Ok(None)));
    assert_eq!(outcome.actual_memory_type, MEMORY_CPU);
    assert_eq!(outcome.actual_memory_type_id, 5);
    assert_eq!(allocator.outstanding(), 0);
    assert!(allocator.is_idle());
}

#[test]
fn every_allocation_is_released_exactly_once() {
    let mut allocator = ResponseAllocator::new(false);
    let a = allocator.allocate("a", 4, MEMORY_CPU, 0).result.unwrap().unwrap();
    let b = allocator.allocate("b", 8, MEMORY_CPU, 0).result.unwrap().unwrap();
    assert_ne!(a.id, b.id);
    assert_eq!(allocator.outstanding(), 2);
    assert!(allocator.release(a).is_ok());
    assert_eq!(allocator.outstanding(), 1);
    assert!(allocator.release(b).is_ok());
    assert!(allocator.is_idle());
}

#[test]
fn release_of_a_foreign_buffer_is_refused() {
    let mut first = ResponseAllocator::new(false);
    let mut second = ResponseAllocator::new(false);
    let a = first.allocate("a", 4, MEMORY_CPU, 0).result.unwrap().unwrap();
    let r = second.release(a);
    assert!(matches!(r, Err(ModelExecutorError::AllocationError(_))));
    assert_eq!(first.outstanding(), 1);
}

#[test]
fn allocated_buffer_is_zeroed_and_tagged() {
    let mut allocator = ResponseAllocator::new(true);
    let b = allocator.allocate("OUTPUT", 16, MEMORY_CPU, 0).result.unwrap().unwrap();
    assert_eq!(b.data, vec![0u8; 16]);
    assert_eq!(b.tag, "OUTPUT");
    assert!(allocator.release(b).is_ok());
    assert!(allocator.is_idle());
}

#[test]
fn poison_overwrites_every_byte() {
    let mut allocator = ResponseAllocator::new(false);
    let mut b = allocator.allocate("x", 5, MEMORY_CPU, 0).result.unwrap().unwrap();
    b.data[0] = 1;
    poison(&mut b);
    assert_eq!(b.data, vec![POISON_BYTE; 5]);
    assert_eq!(POISON_BYTE, 123);
    assert_eq!(b.tag, "x");
}

#[test]
fn float_output_round_trips_through_the_buffer_bit_for_bit() {
    let mut allocator = ResponseAllocator::new(false);
    let outcome = allocator.allocate("OUTPUT", 16, MEMORY_CPU, 0);
    let mut buffer = outcome.result.unwrap().unwrap();
    assert_eq!(buffer.word_count(), 4);
    let nan_with_payload = f32::from_bits(0x7fc0_1234);
    let values: [f32; 4] = [0.0, 1.234, -7.5, nan_with_payload];
    for (i, v) in values.iter().enumerate() {
        buffer.write_u32(i, v.to_bits());
    }
    for (i, v) in values.iter().enumerate() {
        assert_eq!(buffer.read_u32(i), v.to_bits());
        assert_eq!(f32::from_bits(buffer.read_u32(i)).to_bits(), v.to_bits());
    }
    assert!(f32::from_bits(buffer.read_u32(3)).is_nan());
    assert_eq!(&buffer.data[4..8], &1.234f32.to_le_bytes());
    assert!(allocator.release(buffer).is_ok());
}
