//! Output-buffer allocation for responses: where a buffer is placed, which
//! requests are refused, and the ledger that pairs each allocation with
//! exactly one release.
use vstd::prelude::*;
use std::collections::HashMap;
use crate::error::ModelExecutorError;
use vstd::bytes::{spec_u32_from_le_bytes, spec_u32_to_le_bytes, u32_from_le_bytes, u32_to_le_bytes};
use vstd::slice::slice_subrange;

verus! {

broadcast use vstd::std_specs::hash::group_hash_axioms;

/// Memory-kind code for ordinary host memory.
pub const MEMORY_CPU: u32 = 0;

/// Memory-kind code for page-locked host memory.
pub const MEMORY_CPU_PINNED: u32 = 1;

/// Memory-kind code for accelerator memory.
pub const MEMORY_GPU: u32 = 2;

/// Byte written over a buffer on release when poisoning is on.
pub const POISON_BYTE: u8 = 123;

/// The memory kind and device id reported back for a request: pinned host
/// memory is served as plain host memory on device 0, any other kind is
/// reported as requested.
pub open spec fn placement(preferred_type: u32, preferred_id: i64) -> (u32, i64) {
    if preferred_type == MEMORY_CPU_PINNED {
        (MEMORY_CPU, 0)
    } else {
        (preferred_type, preferred_id)
    }
}

/// Host memory (plain or pinned) is the only kind this allocator serves.
pub open spec fn is_host_kind(t: u32) -> bool {
    t == MEMORY_CPU || t == MEMORY_CPU_PINNED
}

/// A heap buffer handed to the engine for one output tensor, tagged with the
/// tensor's name and the ledger entry that its release must consume.
pub struct AllocatedBuffer {
    pub id: u64,
    pub tag: String,
    pub data: Vec<u8>,
}

/// What an allocate call reports: the actual placement, always, and either
/// no buffer (zero bytes), a buffer, or an allocation error.
pub struct AllocOutcome {
    pub actual_memory_type: u32,
    pub actual_memory_type_id: i64,
    pub result: Result<Option<AllocatedBuffer>, ModelExecutorError>,
}

/// The allocator's ledger of live buffers, keyed by allocation id.
pub struct ResponseAllocator {
    next_id: u64,
    tags: HashMap<u64, String>,
    poison_on_release: bool,
}

impl ResponseAllocator {
    /// Allocation id to tensor name, for every buffer not yet released.
    pub closed spec fn live(&self) -> Map<u64, Seq<char>> {
        self.tags@.map_values(|s: String| s@)
    }

    /// The id the next allocation will receive.
    pub closed spec fn spec_next_id(&self) -> u64 {
        self.next_id
    }

    /// Whether released buffers are overwritten first.
    pub closed spec fn spec_poisons(&self) -> bool {
        self.poison_on_release
    }

    /// Every live id was handed out before the next one.
    pub closed spec fn wf(&self) -> bool {
        forall|k: u64| #[trigger] self.tags@.contains_key(k) ==> k < self.next_id
    }

    /// An allocator with no live buffers; `poison_on_release` turns on the
    /// use-after-free detector.
    pub fn new(poison_on_release: bool) -> (r: ResponseAllocator)
        ensures
            r.wf(),
            r.live() == Map::<u64, Seq<char>>::empty(),
            r.spec_poisons() == poison_on_release,
    {
        let r = ResponseAllocator { next_id: 0, tags: HashMap::new(), poison_on_release };
        assert(r.live() =~= Map::<u64, Seq<char>>::empty());
        r
    }

    /// Number of buffers allocated and not yet released.
    pub fn outstanding(&self) -> (r: usize)
        ensures
            r == self.live().len(),
    {
        proof {
            assert(self.live().dom() =~= self.tags@.dom());
            vstd::std_specs::hash::axiom_spec_hash_map_len(&self.tags);
        }
        self.tags.len()
    }

    /// True when every allocation has been released.
    pub fn is_idle(&self) -> (r: bool)
        ensures
            r <==> self.live() == Map::<u64, Seq<char>>::empty(),
    {
        let r = self.tags.is_empty();
        proof {
            if !r {
                let k = self.tags@.dom().choose();
                assert(self.live().contains_key(k));
            } else {
                assert(self.live() =~= Map::<u64, Seq<char>>::empty());
            }
        }
        r
    }

    /// Serves one allocate callback. The placement is always reported. Zero
    /// bytes give no buffer and no ledger entry. Host kinds give a zeroed
    /// buffer of `byte_size` bytes, recorded in the ledger under its tag
    /// (unless the id space is exhausted). Every other kind is an
    /// `AllocationError` and leaves the ledger unchanged.
    pub fn allocate(
        &mut self,
        tensor_name: &str,
        byte_size: usize,
        preferred_memory_type: u32,
        preferred_memory_type_id: i64,
    ) -> (r: AllocOutcome)
        requires
            old(self).wf(),
        ensures
            final(self).wf(),
            final(self).spec_poisons() == old(self).spec_poisons(),
            (r.actual_memory_type, r.actual_memory_type_id) == placement(
                preferred_memory_type,
                preferred_memory_type_id,
            ),
            byte_size == 0 ==> r.result == Ok::<Option<AllocatedBuffer>, ModelExecutorError>(None),
            byte_size > 0 && !is_host_kind(preferred_memory_type) ==> r.result is Err,
            byte_size > 0 && is_host_kind(preferred_memory_type) ==> (r.result is Err <==> old(
                self,
            ).spec_next_id() == u64::MAX),
            byte_size > 0 && is_host_kind(preferred_memory_type) && old(self).spec_next_id()
                < u64::MAX ==> r.result matches Ok(Some(_)),
            r.result is Err ==> r.result->Err_0 is AllocationError,
            match r.result {
                Ok(Some(b)) => {
                    &&& b.data@ == Seq::new(byte_size as nat, |i: int| 0u8)
                    &&& b.tag@ == tensor_name@
                    &&& b.id == old(self).spec_next_id()
                    &&& !old(self).live().contains_key(b.id)
                    &&& final(self).live() == old(self).live().insert(b.id, b.tag@)
                },
                _ => final(self).live() == old(self).live(),
            },
    {
        let (actual_memory_type, actual_memory_type_id) = if preferred_memory_type
            == MEMORY_CPU_PINNED {
            (MEMORY_CPU, 0i64)
        } else {
            (preferred_memory_type, preferred_memory_type_id)
        };
        if byte_size == 0 {
            return AllocOutcome { actual_memory_type, actual_memory_type_id, result: Ok(None) };
        }
        if preferred_memory_type == MEMORY_GPU {
            return AllocOutcome {
                actual_memory_type,
                actual_memory_type_id,
                result: Err(
                    ModelExecutorError::AllocationError("GPU memory not implemented".to_string()),
                ),
            };
        }
        if preferred_memory_type != MEMORY_CPU && preferred_memory_type != MEMORY_CPU_PINNED {
            return AllocOutcome {
                actual_memory_type,
                actual_memory_type_id,
                result: Err(
                    ModelExecutorError::AllocationError(
                        "Invalid memory type requested".to_string(),
                    ),
                ),
            };
        }
        if self.next_id == u64::MAX {
            return AllocOutcome {
                actual_memory_type,
                actual_memory_type_id,
                result: Err(
                    ModelExecutorError::AllocationError("allocation ids exhausted".to_string()),
                ),
            };
        }
        let id = self.next_id;
        let tag = tensor_name.to_string();
        let data: Vec<u8> = vec![0u8; byte_size];
        assert(!self.tags@.contains_key(id));
        self.tags.insert(id, tag.clone());
        self.next_id = id + 1;
        let buffer = AllocatedBuffer { id, tag, data };
        proof {
            assert(buffer.data@ =~= Seq::new(byte_size as nat, |i: int| 0u8));
            assert(self.live() =~= old(self).live().insert(id, buffer.tag@));
        }
        AllocOutcome { actual_memory_type, actual_memory_type_id, result: Ok(Some(buffer)) }
    }

    /// Serves one release callback: consumes the buffer and its ledger entry,
    /// overwriting the bytes with `POISON_BYTE` first when poisoning is on. A
    /// buffer with no live entry is an `AllocationError`.
    pub fn release(&mut self, buffer: AllocatedBuffer) -> (r: Result<(), ModelExecutorError>)
        requires
            old(self).wf(),
        ensures
            final(self).wf(),
            final(self).spec_poisons() == old(self).spec_poisons(),
            final(self).spec_next_id() == old(self).spec_next_id(),
            r is Ok <==> old(self).live().contains_key(buffer.id),
            r is Ok ==> final(self).live() == old(self).live().remove(buffer.id),
            r is Err ==> r->Err_0 is AllocationError && final(self).live() == old(self).live(),
    {
        let mut buffer = buffer;
        let removed = self.tags.remove(&buffer.id);
        match removed {
            Some(_) => {
                if self.poison_on_release {
                    poison(&mut buffer);
                }
                proof {
                    assert(self.live() =~= old(self).live().remove(buffer.id));
                }
                Ok(())
            },
            None => {
                proof {
                    assert(self.live() =~= old(self).live());
                }
                Err(ModelExecutorError::AllocationError("release of an unknown buffer".to_string()))
            },
        }
    }
}

/// `data` with the 4 bytes at word `index` replaced by `word`, little-endian.
pub open spec fn put_word(data: Seq<u8>, index: int, word: u32) -> Seq<u8> {
    data.subrange(0, 4 * index) + spec_u32_to_le_bytes(word) + data.subrange(4 * index + 4, data.len() as int)
}

/// The 32-bit little-endian word at word `index` of `data`.
pub open spec fn word_at(data: Seq<u8>, index: int) -> u32 {
    spec_u32_from_le_bytes(data.subrange(4 * index, 4 * index + 4))
}

impl AllocatedBuffer {
    /// Number of whole 32-bit words the buffer holds.
    pub fn word_count(&self) -> (r: usize)
        ensures
            r == self.data@.len() / 4,
    {
        self.data.len() / 4
    }

    /// Stores the bits of one 32-bit element at word `index`, little-endian.
    pub fn write_u32(&mut self, index: usize, word: u32)
        requires
            index < old(self).data@.len() / 4,
        ensures
            final(self).id == old(self).id,
            final(self).tag == old(self).tag,
            final(self).data@ == put_word(old(self).data@, index as int, word),
    {
        let bytes = u32_to_le_bytes(word);
        let len = self.data.len();
        assert(4 * index + 4 <= len) by (nonlinear_arith)
            requires
                index < len / 4,
        ;
        let base = 4 * index;
        let mut k: usize = 0;
        while k < 4
            invariant
                base == 4 * index,
                base + 4 <= self.data@.len(),
                self.data@.len() == old(self).data@.len(),
                self.id == old(self).id,
                self.tag == old(self).tag,
                bytes@ == spec_u32_to_le_bytes(word),
                bytes@.len() == 4,
                k <= 4,
                forall|j: int| 0 <= j < self.data@.len() && (j < base || j >= base + k) ==> #[trigger] self.data@[j] == old(self).data@[j],
                forall|j: int| base <= j < base + k ==> #[trigger] self.data@[j] == bytes@[j - base],
            decreases 4 - k,
        {
            self.data.set(base + k, bytes[k]);
            k = k + 1;
        }
        assert(self.data@ =~= put_word(old(self).data@, index as int, word));
    }

    /// Loads the bits of the 32-bit element at word `index`, little-endian.
    pub fn read_u32(&self, index: usize) -> (r: u32)
        requires
            index < self.data@.len() / 4,
        ensures
            r == word_at(self.data@, index as int),
    {
        let len = self.data.len();
        assert(4 * index + 4 <= len) by (nonlinear_arith)
            requires
                index < len / 4,
        ;
        let s = slice_subrange(self.data.as_slice(), 4 * index, 4 * index + 4);
        u32_from_le_bytes(s)
    }
}

/// Reading a word back after writing it gives exactly the bits written, and
/// the other words are untouched.
pub proof fn lemma_write_then_read(data: Seq<u8>, index: int, other: int, word: u32)
    requires
        0 <= index < data.len() / 4,
        0 <= other < data.len() / 4,
        other != index,
    ensures
        put_word(data, index, word).len() == data.len(),
        word_at(put_word(data, index, word), index) == word,
        word_at(put_word(data, index, word), other) == word_at(data, other),
{
    vstd::bytes::lemma_auto_spec_u32_to_from_le_bytes();
    let d = put_word(data, index, word);
    assert(d.subrange(4 * index, 4 * index + 4) =~= spec_u32_to_le_bytes(word));
    assert(d.subrange(4 * other, 4 * other + 4) =~= data.subrange(4 * other, 4 * other + 4));
}

/// Overwrites every byte of a buffer with `POISON_BYTE`, so that a read after
/// release shows a recognisable pattern.
pub fn poison(buffer: &mut AllocatedBuffer)
    ensures
        final(buffer).id == old(buffer).id,
        final(buffer).tag == old(buffer).tag,
        final(buffer).data@ == Seq::new(old(buffer).data@.len(), |i: int| POISON_BYTE),
{
    let n = buffer.data.len();
    let mut i: usize = 0;
    while i < n
        invariant
            n == buffer.data@.len(),
            i <= n,
            buffer.id == old(buffer).id,
            buffer.tag == old(buffer).tag,
            buffer.data@.len() == old(buffer).data@.len(),
            forall|k: int| 0 <= k < i ==> buffer.data@[k] == POISON_BYTE,
        decreases n - i,
    {
        buffer.data.set(i, POISON_BYTE);
        i = i + 1;
    }
    assert(buffer.data@ =~= Seq::new(old(buffer).data@.len(), |i: int| POISON_BYTE));
}

/// Releasing a buffer right after allocating it leaves the ledger exactly as
/// it was: each allocation is consumed by one release.
pub proof fn lemma_allocate_release_restores(live: Map<u64, Seq<char>>, id: u64, tag: Seq<char>)
    requires
        !live.contains_key(id),
    ensures
        live.insert(id, tag).remove(id) == live,
        live.insert(id, tag).contains_key(id),
        !live.insert(id, tag).remove(id).contains_key(id),
{
    assert(live.insert(id, tag).remove(id) =~= live);
}

} // verus!
