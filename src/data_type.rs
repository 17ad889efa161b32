use vstd::prelude::*;

verus! {

/// Element type of a tensor, as enumerated by the inference engine.
#[allow(non_camel_case_types, clippy::upper_case_acronyms)]
#[derive(Debug, Clone, Copy, PartialEq, Eq, Structural)]
pub enum DataType {
    INVALID,
    BOOL,
    UINT8,
    UINT16,
    UINT32,
    UINT64,
    INT8,
    INT16,
    INT32,
    INT64,
    FP16,
    FP32,
    FP64,
    BYTES,
    BF16,
}

/// Largest datatype code the engine defines.
pub const MAX_DATATYPE_CODE: u32 = 14;

/// The engine's numeric code for a datatype.
pub open spec fn code_of(t: DataType) -> u32 {
    match t {
        DataType::INVALID => 0,
        DataType::BOOL => 1,
        DataType::UINT8 => 2,
        DataType::UINT16 => 3,
        DataType::UINT32 => 4,
        DataType::UINT64 => 5,
        DataType::INT8 => 6,
        DataType::INT16 => 7,
        DataType::INT32 => 8,
        DataType::INT64 => 9,
        DataType::FP16 => 10,
        DataType::FP32 => 11,
        DataType::FP64 => 12,
        DataType::BYTES => 13,
        DataType::BF16 => 14,
    }
}

/// The datatype that a numeric code denotes; unknown codes denote `INVALID`.
pub open spec fn type_of_code(c: u32) -> DataType {
    if c == 1 {
        DataType::BOOL
    } else if c == 2 {
        DataType::UINT8
    } else if c == 3 {
        DataType::UINT16
    } else if c == 4 {
        DataType::UINT32
    } else if c == 5 {
        DataType::UINT64
    } else if c == 6 {
        DataType::INT8
    } else if c == 7 {
        DataType::INT16
    } else if c == 8 {
        DataType::INT32
    } else if c == 9 {
        DataType::INT64
    } else if c == 10 {
        DataType::FP16
    } else if c == 11 {
        DataType::FP32
    } else if c == 12 {
        DataType::FP64
    } else if c == 13 {
        DataType::BYTES
    } else if c == 14 {
        DataType::BF16
    } else {
        DataType::INVALID
    }
}

/// Bytes per element; zero for the variable-width `BYTES` kind and for `INVALID`.
pub open spec fn width_of(t: DataType) -> u32 {
    match t {
        DataType::BOOL | DataType::UINT8 | DataType::INT8 => 1,
        DataType::UINT16 | DataType::INT16 | DataType::FP16 | DataType::BF16 => 2,
        DataType::UINT32 | DataType::INT32 | DataType::FP32 => 4,
        DataType::UINT64 | DataType::INT64 | DataType::FP64 => 8,
        DataType::BYTES | DataType::INVALID => 0,
    }
}

/// True for every kind whose elements all have the same byte width.
pub open spec fn is_fixed_width(t: DataType) -> bool {
    t != DataType::BYTES && t != DataType::INVALID
}

impl DataType {
    /// Number of bytes in one element of this type (zero for `BYTES` and `INVALID`).
    pub fn byte_size(&self) -> (r: u32)
        ensures
            r == width_of(*self),
            is_fixed_width(*self) <==> r > 0,
    {
        match self {
            DataType::BOOL | DataType::UINT8 | DataType::INT8 => 1,
            DataType::UINT16 | DataType::INT16 | DataType::FP16 | DataType::BF16 => 2,
            DataType::UINT32 | DataType::INT32 | DataType::FP32 => 4,
            DataType::UINT64 | DataType::INT64 | DataType::FP64 => 8,
            DataType::BYTES | DataType::INVALID => 0,
        }
    }

    /// The engine's numeric code for this type.
    pub fn code(&self) -> (r: u32)
        ensures
            r == code_of(*self),
            r <= MAX_DATATYPE_CODE,
    {
        match self {
            DataType::INVALID => 0,
            DataType::BOOL => 1,
            DataType::UINT8 => 2,
            DataType::UINT16 => 3,
            DataType::UINT32 => 4,
            DataType::UINT64 => 5,
            DataType::INT8 => 6,
            DataType::INT16 => 7,
            DataType::INT32 => 8,
            DataType::INT64 => 9,
            DataType::FP16 => 10,
            DataType::FP32 => 11,
            DataType::FP64 => 12,
            DataType::BYTES => 13,
            DataType::BF16 => 14,
        }
    }

    /// The type a numeric code denotes; total, with `INVALID` for unknown codes.
    pub fn from_code(c: u32) -> (r: DataType)
        ensures
            r == type_of_code(c),
            c == 0 || c > MAX_DATATYPE_CODE ==> r == DataType::INVALID,
    {
        match c {
            1 => DataType::BOOL,
            2 => DataType::UINT8,
            3 => DataType::UINT16,
            4 => DataType::UINT32,
            5 => DataType::UINT64,
            6 => DataType::INT8,
            7 => DataType::INT16,
            8 => DataType::INT32,
            9 => DataType::INT64,
            10 => DataType::FP16,
            11 => DataType::FP32,
            12 => DataType::FP64,
            13 => DataType::BYTES,
            14 => DataType::BF16,
            _ => DataType::INVALID,
        }
    }
}

/// Every code the registry emits maps back to itself, and every type survives
/// the trip through its code.
pub proof fn lemma_code_round_trip(t: DataType, c: u32)
    ensures
        type_of_code(code_of(t)) == t,
        c <= MAX_DATATYPE_CODE ==> code_of(type_of_code(c)) == c,
{
}

/// The byte width of each fixed-width integer and boolean kind is the size of
/// one element of the matching Rust type; each floating kind has the width of
/// the unsigned integer that carries its bits.
pub proof fn lemma_width_is_element_size()
    ensures
        width_of(DataType::BOOL) == vstd::layout::size_of::<bool>(),
        width_of(DataType::UINT8) == vstd::layout::size_of::<u8>(),
        width_of(DataType::UINT16) == vstd::layout::size_of::<u16>(),
        width_of(DataType::UINT32) == vstd::layout::size_of::<u32>(),
        width_of(DataType::UINT64) == vstd::layout::size_of::<u64>(),
        width_of(DataType::INT8) == vstd::layout::size_of::<i8>(),
        width_of(DataType::INT16) == vstd::layout::size_of::<i16>(),
        width_of(DataType::INT32) == vstd::layout::size_of::<i32>(),
        width_of(DataType::INT64) == vstd::layout::size_of::<i64>(),
        width_of(DataType::FP16) == vstd::layout::size_of::<u16>(),
        width_of(DataType::BF16) == vstd::layout::size_of::<u16>(),
        width_of(DataType::FP32) == vstd::layout::size_of::<u32>(),
        width_of(DataType::FP64) == vstd::layout::size_of::<u64>(),
{
    broadcast use vstd::layout::layout_of_primitives;
}

impl From<u32> for DataType {
    fn from(v: u32) -> (r: DataType)
        ensures
            r == type_of_code(v),
    {
        DataType::from_code(v)
    }
}

impl vstd::std_specs::convert::FromSpecImpl<u32> for DataType {
    open spec fn obeys_from_spec() -> bool {
        true
    }

    open spec fn from_spec(v: u32) -> DataType {
        type_of_code(v)
    }
}

} // verus!
