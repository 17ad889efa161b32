//! Reading the inputs a backend receives: the declared properties of an
//! input and the typed values read out of its bytes.
use vstd::prelude::*;
use vstd::bytes::{spec_u64_from_le_bytes, u64_from_le_bytes};
use vstd::slice::slice_subrange;
use crate::data_type::DataType;
use crate::error::ModelExecutorError;
use crate::string_codec::{decode_string, decoded_strings};

verus! {

/// What the engine declares about one input of a request.
pub struct InputProperties {
    pub name: String,
    pub datatype: DataType,
    pub shape: Vec<i64>,
    pub byte_size: u64,
    pub buffer_count: u32,
}

impl InputProperties {
    /// Reads the input as one unsigned 64-bit integer from the first 8 bytes
    /// of `buffer`, little-endian. An `InputError` when the input is not
    /// declared `UINT64`, or when it or the buffer holds fewer than 8 bytes.
    pub fn as_u64(&self, buffer: &[u8]) -> (r: Result<u64, ModelExecutorError>)
        ensures
            r is Ok <==> self.datatype == DataType::UINT64 && self.byte_size >= 8 && buffer@.len()
                >= 8,
            r matches Ok(v) ==> v == spec_u64_from_le_bytes(buffer@.subrange(0, 8)),
            r matches Err(e) ==> e is InputError,
    {
        if self.datatype != DataType::UINT64 {
            return Err(ModelExecutorError::InputError("DataType does not match u64".to_string()));
        }
        if self.byte_size < 8 || buffer.len() < 8 {
            return Err(ModelExecutorError::InputError("Buffer too small".to_string()));
        }
        let bytes = slice_subrange(buffer, 0, 8);
        Ok(u64_from_le_bytes(bytes))
    }

    /// Reads the input as a string: the first element of a `BYTES` input.
    /// An `InputError` when the input is not declared `BYTES` or holds no
    /// element; an `FFIError` when its bytes are not well formed.
    pub fn as_string(&self, buffer: &[u8]) -> (r: Result<String, ModelExecutorError>)
        ensures
            r is Ok <==> (self.datatype == DataType::BYTES && decoded_strings(buffer@) is Some
                && decoded_strings(buffer@)->Some_0.len() > 0),
            r matches Ok(s) ==> s@ == decoded_strings(buffer@)->Some_0[0],
            r matches Err(e) ==> (e is InputError || e is FFIError),
            self.datatype == DataType::BYTES && decoded_strings(buffer@) is None ==> (r matches Err(
                e,
            ) && e is FFIError),
    {
        if self.datatype != DataType::BYTES {
            return Err(
                ModelExecutorError::InputError("DataType does not match String".to_string()),
            );
        }
        let strings = decode_string(buffer);
        match strings {
            Err(e) => Err(e),
            Ok(mut strings) => {
                if strings.len() == 0 {
                    return Err(ModelExecutorError::InputError("input holds no string".to_string()));
                }
                proof {
                    assert(strings@.map_values(|s: String| s@)[0] == strings@[0]@);
                }
                Ok(strings.swap_remove(0))
            },
        }
    }
}

} // verus!
