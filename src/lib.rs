//! Verified core of an asynchronous inference bridge: tensor type registry,
//! string tensor codec, response allocator policy, request builder, completion
//! signal and response decoder.

pub mod allocator;
pub mod data_type;
pub mod error;
pub mod flags;
pub mod input;
pub mod inference_request;
pub mod inference_response;
pub mod model_executor;
pub mod string_codec;
pub mod tensor;

pub use allocator::{
    poison, AllocOutcome, AllocatedBuffer, ResponseAllocator, MEMORY_CPU, MEMORY_CPU_PINNED,
    MEMORY_GPU, POISON_BYTE,
};
pub use data_type::DataType;
pub use error::ModelExecutorError;
pub use flags::{RequestFlags, RequestReleaseFlags, ResponseFlags, SEQUENCE_END, SEQUENCE_START};
pub use input::InputProperties;
pub use inference_request::{is_c_compatible, is_valid_shape, InferenceRequest, InputTensor};
pub use model_executor::{Completion, CompletionEvent, CompletionSignal, ModelExecutor};
pub use inference_response::{DecodedResponse, InferenceResponse, OutputData, OutputSlot};
pub use tensor::fixed_byte_size;
pub use string_codec::{decode_string, encode_string};
