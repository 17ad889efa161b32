//! Flag words exchanged with the engine.
use vstd::prelude::*;

verus! {

/// Bit of a request's flag word that marks the start of a sequence.
pub const SEQUENCE_START: u32 = 1;

/// Bit of a request's flag word that marks the end of a sequence.
pub const SEQUENCE_END: u32 = 2;

/// The flag word the engine attaches to a request.
#[derive(Debug, PartialEq, Eq, Structural)]
pub struct RequestFlags(pub u32);

impl RequestFlags {
    /// Whether the request starts a sequence.
    pub fn is_start(&self) -> (r: bool)
        ensures
            r <==> self.0 % 2 == 1,
    {
        let w = self.0;
        assert((w & 1u32 != 0) == (w % 2 == 1)) by (bit_vector);
        w & SEQUENCE_START != 0
    }

    /// Whether the request ends a sequence.
    pub fn is_end(&self) -> (r: bool)
        ensures
            r <==> (self.0 / 2) % 2 == 1,
    {
        let w = self.0;
        assert((w & 2u32 != 0) == ((w / 2) % 2 == 1)) by (bit_vector);
        w & SEQUENCE_END != 0
    }
}

impl From<u32> for RequestFlags {
    fn from(v: u32) -> (r: RequestFlags)
        ensures
            r.0 == v,
    {
        RequestFlags(v)
    }
}

impl vstd::std_specs::convert::FromSpecImpl<u32> for RequestFlags {
    open spec fn obeys_from_spec() -> bool {
        true
    }

    open spec fn from_spec(v: u32) -> RequestFlags {
        RequestFlags(v)
    }
}

/// Flags sent with a response.
#[derive(Debug, Clone, Copy, PartialEq, Eq, Structural)]
pub enum ResponseFlags {
    NONE,
    FINAL,
}

impl ResponseFlags {
    /// The flag word sent to the engine.
    pub fn code(&self) -> (r: u32)
        ensures
            r == (if *self == ResponseFlags::FINAL { 1u32 } else { 0u32 }),
    {
        match self {
            ResponseFlags::NONE => 0,
            ResponseFlags::FINAL => 1,
        }
    }
}

/// Flags sent when a backend releases a request.
#[derive(Debug, Clone, Copy, PartialEq, Eq, Structural)]
pub enum RequestReleaseFlags {
    ALL,
}

impl RequestReleaseFlags {
    /// The flag word sent to the engine.
    pub fn code(&self) -> (r: u32)
        ensures
            r == 1,
    {
        1
    }
}

} // verus!
