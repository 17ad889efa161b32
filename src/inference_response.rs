//! Decoding of an engine response into owned, named output tensors.
use vstd::prelude::*;
use crate::data_type::{type_of_code, DataType};
use crate::error::ModelExecutorError;

verus! {

/// What the engine reports for one output slot of a response, copied out of
/// engine memory: `data` is `None` where the engine gave a null data pointer.
pub struct OutputSlot {
    pub name: String,
    pub datatype: u32,
    pub shape: Vec<i64>,
    pub data: Option<Vec<u8>>,
    pub memory_type: u32,
    pub memory_type_id: i64,
}

/// One decoded output tensor; owns all of its bytes.
pub struct OutputData {
    pub name: String,
    pub data_type: DataType,
    pub shape: Vec<i64>,
    pub data: Vec<u8>,
    pub memory_type: u32,
    pub memory_type_id: i64,
}

/// The bytes a slot decodes to: its data, or nothing for a null pointer.
pub open spec fn slot_bytes(slot: OutputSlot) -> Seq<u8> {
    match slot.data {
        Some(d) => d@,
        None => Seq::empty(),
    }
}

/// The tensor a slot decodes to.
pub open spec fn decodes_to(slot: OutputSlot, out: OutputData) -> bool {
    &&& out.name@ == slot.name@
    &&& out.data_type == type_of_code(slot.datatype)
    &&& out.shape@ == slot.shape@
    &&& out.data@ == slot_bytes(slot)
    &&& out.memory_type == slot.memory_type
    &&& out.memory_type_id == slot.memory_type_id
}

impl OutputData {
    /// Decodes one slot; a null data pointer gives an empty tensor that keeps
    /// the slot's declared type and shape.
    pub fn from_slot(slot: OutputSlot) -> (r: OutputData)
        ensures
            decodes_to(slot, r),
    {
        let data = match slot.data {
            Some(d) => d,
            None => Vec::new(),
        };
        OutputData {
            name: slot.name,
            data_type: DataType::from_code(slot.datatype),
            shape: slot.shape,
            data,
            memory_type: slot.memory_type,
            memory_type_id: slot.memory_type_id,
        }
    }
}

/// Outputs by name, each name mapped to the last tensor in `s` that carries it.
pub open spec fn name_map(s: Seq<OutputData>) -> Map<Seq<char>, OutputData>
    decreases s.len(),
{
    if s.len() == 0 {
        Map::empty()
    } else {
        name_map(s.drop_last()).insert(s.last().name@, s.last())
    }
}

/// No two tensors in `s` share a name.
pub open spec fn names_unique(s: Seq<OutputData>) -> bool {
    forall|i: int, j: int|
        0 <= i < s.len() && 0 <= j < s.len() && i != j ==> #[trigger] s[i].name@ != #[trigger] s[j].name@
}

/// The keys of `name_map(s)` are exactly the names in `s`.
proof fn lemma_name_map_dom(s: Seq<OutputData>, n: Seq<char>)
    ensures
        name_map(s).contains_key(n) <==> exists|i: int| 0 <= i < s.len() && #[trigger] s[i].name@ == n,
    decreases s.len(),
{
    if s.len() > 0 {
        lemma_name_map_dom(s.drop_last(), n);
        if name_map(s.drop_last()).contains_key(n) {
            let i = choose|i: int| 0 <= i < s.drop_last().len() && #[trigger] s.drop_last()[i].name@ == n;
            assert(s[i].name@ == n);
        }
        if exists|i: int| 0 <= i < s.len() && #[trigger] s[i].name@ == n {
            let i = choose|i: int| 0 <= i < s.len() && #[trigger] s[i].name@ == n;
            if i < s.len() - 1 {
                assert(s.drop_last()[i].name@ == n);
            }
        }
    }
}

/// With unique names, there is one entry per tensor.
proof fn lemma_name_map_len(s: Seq<OutputData>)
    requires
        names_unique(s),
    ensures
        name_map(s).len() == s.len(),
        name_map(s).dom().finite(),
    decreases s.len(),
{
    if s.len() > 0 {
        let d = s.drop_last();
        assert(names_unique(d)) by {
            assert forall|a: int, b: int| 0 <= a < d.len() && 0 <= b < d.len() && a != b implies #[trigger] d[a].name@ != #[trigger] d[b].name@ by {
                assert(d[a] == s[a] && d[b] == s[b]);
            }
        }
        lemma_name_map_len(d);
        lemma_name_map_dom(d, s.last().name@);
        if name_map(d).contains_key(s.last().name@) {
            let i = choose|i: int| 0 <= i < d.len() && #[trigger] d[i].name@ == s.last().name@;
            assert(d[i] == s[i]);
        }
    }
}

/// A response decoded from one tensor holds exactly that tensor, under its
/// name.
pub proof fn lemma_single_output(o: OutputData)
    ensures
        name_map(seq![o]) == Map::<Seq<char>, OutputData>::empty().insert(o.name@, o),
        name_map(seq![o]).len() == 1,
        name_map(seq![o])[o.name@] == o,
{
    assert(seq![o].drop_last() =~= Seq::<OutputData>::empty());
    assert(name_map(Seq::<OutputData>::empty()) == Map::<Seq<char>, OutputData>::empty());
    assert(Map::<Seq<char>, OutputData>::empty().insert(o.name@, o).dom() =~= set![o.name@]);
}

/// In a sequence with unique names, the entry for `s[j]`'s name is `s[j]`.
proof fn lemma_name_map_at(s: Seq<OutputData>, j: int)
    requires
        names_unique(s),
        0 <= j < s.len(),
    ensures
        name_map(s).contains_key(s[j].name@),
        name_map(s)[s[j].name@] == s[j],
    decreases s.len(),
{
    if j < s.len() - 1 {
        let d = s.drop_last();
        assert(names_unique(d)) by {
            assert forall|a: int, b: int| 0 <= a < d.len() && 0 <= b < d.len() && a != b implies #[trigger] d[a].name@ != #[trigger] d[b].name@ by {
                assert(d[a] == s[a] && d[b] == s[b]);
            }
        }
        lemma_name_map_at(d, j);
        assert(d[j] == s[j]);
        assert(s.last().name@ != s[j].name@);
    }
}

/// Replacing the tensor that carries a name replaces that name's entry.
proof fn lemma_name_map_update(s: Seq<OutputData>, j: int, x: OutputData)
    requires
        names_unique(s),
        0 <= j < s.len(),
        s[j].name@ == x.name@,
    ensures
        name_map(s.update(j, x)) == name_map(s).insert(x.name@, x),
    decreases s.len(),
{
    let t = s.update(j, x);
    if j == s.len() - 1 {
        assert(t.drop_last() =~= s.drop_last());
        assert(name_map(t) =~= name_map(s).insert(x.name@, x));
    } else {
        let d = s.drop_last();
        assert(names_unique(d)) by {
            assert forall|a: int, b: int| 0 <= a < d.len() && 0 <= b < d.len() && a != b implies #[trigger] d[a].name@ != #[trigger] d[b].name@ by {
                assert(d[a] == s[a] && d[b] == s[b]);
            }
        }
        assert(t.drop_last() =~= d.update(j, x));
        lemma_name_map_update(d, j, x);
        assert(s.last().name@ != s[j].name@);
        assert(t.last() == s.last());
        assert(name_map(t) =~= name_map(s).insert(x.name@, x));
    }
}

/// The decoded outputs of one response.
pub struct InferenceResponse {
    outputs: Vec<OutputData>,
}

/// The outcome of decoding a response: what was decoded, and the error that
/// stopped decoding, if one did.
pub struct DecodedResponse {
    pub response: InferenceResponse,
    pub error: Option<ModelExecutorError>,
}

/// The slots before the first failed read.
pub open spec fn readable_prefix(slots: Seq<Result<OutputSlot, String>>) -> int
    decreases slots.len(),
{
    if slots.len() == 0 {
        0
    } else if slots[0] is Err {
        0
    } else {
        1 + readable_prefix(slots.drop_first())
    }
}

/// Decoding reads up to the first failed slot, and reads every slot when
/// none failed.
pub proof fn lemma_readable_prefix_bounds(slots: Seq<Result<OutputSlot, String>>)
    ensures
        (forall|k: int| 0 <= k < slots.len() ==> #[trigger] slots[k] is Ok) ==> readable_prefix(slots)
            == slots.len(),
        0 <= readable_prefix(slots) <= slots.len(),
        readable_prefix(slots) < slots.len() ==> slots[readable_prefix(slots)] is Err,
        forall|k: int| 0 <= k < readable_prefix(slots) ==> #[trigger] slots[k] is Ok,
    decreases slots.len(),
{
    if slots.len() > 0 && slots[0] is Ok {
        let d = slots.drop_first();
        lemma_readable_prefix_bounds(d);
        if forall|k: int| 0 <= k < slots.len() ==> #[trigger] slots[k] is Ok {
            assert forall|k: int| 0 <= k < d.len() implies #[trigger] d[k] is Ok by {
                assert(d[k] == slots[k + 1]);
            }
        }
        assert forall|k: int| 0 <= k < readable_prefix(slots) implies #[trigger] slots[k] is Ok by {
            if k > 0 {
                assert(slots[k] == d[k - 1]);
            }
        }
    }
}

impl InferenceResponse {
    /// The decoded outputs, in the order first seen, names unique.
    pub closed spec fn entries(&self) -> Seq<OutputData> {
        self.outputs@
    }

    /// Outputs by name.
    pub open spec fn view_map(&self) -> Map<Seq<char>, OutputData> {
        name_map(self.entries())
    }

    pub open spec fn wf(&self) -> bool {
        names_unique(self.entries())
    }

    /// A response with no outputs.
    pub fn empty() -> (r: InferenceResponse)
        ensures
            r.wf(),
            r.view_map() == Map::<Seq<char>, OutputData>::empty(),
            r.entries().len() == 0,
    {
        InferenceResponse { outputs: Vec::new() }
    }

    /// Number of distinct outputs.
    pub fn get_output_count(&self) -> (r: usize)
        requires
            self.wf(),
        ensures
            r == self.view_map().len(),
    {
        proof {
            lemma_name_map_len(self.outputs@);
        }
        self.outputs.len()
    }

    /// The output called `name`; an `OutputError` when the response has none.
    pub fn get_output_data(&self, name: &str) -> (r: Result<&OutputData, ModelExecutorError>)
        requires
            self.wf(),
        ensures
            r is Ok <==> self.view_map().contains_key(name@),
            r matches Ok(o) ==> *o == self.view_map()[name@],
            r matches Err(e) ==> e is OutputError,
    {
        let key = name.to_string();
        let mut i: usize = 0;
        while i < self.outputs.len()
            invariant
                i <= self.outputs@.len(),
                self.wf(),
                key@ == name@,
                forall|k: int| 0 <= k < i ==> #[trigger] self.outputs@[k].name@ != name@,
            decreases self.outputs@.len() - i,
        {
            if self.outputs[i].name == key {
                proof {
                    lemma_name_map_at(self.outputs@, i as int);
                }
                return Ok(&self.outputs[i]);
            }
            i = i + 1;
        }
        proof {
            lemma_name_map_dom(self.outputs@, name@);
        }
        let mut msg = "failed to find output ".to_string();
        msg.append(name);
        Err(ModelExecutorError::OutputError(msg))
    }

    /// The outputs, each name once, in the order first decoded.
    pub fn iter(&self) -> (r: &[OutputData])
        ensures
            r@ == self.entries(),
    {
        self.outputs.as_slice()
    }

    /// Adds one decoded tensor; one already held under the same name is
    /// replaced (last wins).
    pub fn insert(&mut self, out: OutputData)
        requires
            old(self).wf(),
        ensures
            final(self).wf(),
            final(self).view_map() == old(self).view_map().insert(out.name@, out),
    {
        let mut i: usize = 0;
        let n = self.outputs.len();
        while i < n
            invariant
                n == self.outputs@.len(),
                i <= n,
                self.outputs@ == old(self).outputs@,
                old(self).wf(),
                forall|k: int| 0 <= k < i ==> #[trigger] self.outputs@[k].name@ != out.name@,
            decreases n - i,
        {
            if self.outputs[i].name == out.name {
                proof {
                    let s = self.outputs@;
                    lemma_name_map_update(s, i as int, out);
                    let t = s.update(i as int, out);
                    assert forall|a: int, b: int| 0 <= a < t.len() && 0 <= b < t.len() && a != b implies #[trigger] t[a].name@ != #[trigger] t[b].name@ by {
                        if a != i && b != i {
                            assert(t[a] == s[a] && t[b] == s[b]);
                        } else if a == i {
                            assert(t[b] == s[b]);
                        } else {
                            assert(t[a] == s[a]);
                        }
                    }
                }
                self.outputs.set(i, out);
                return;
            }
            i = i + 1;
        }
        proof {
            let s = self.outputs@;
            let t = s.push(out);
            assert(t.drop_last() =~= s);
            assert forall|a: int, b: int| 0 <= a < t.len() && 0 <= b < t.len() && a != b implies #[trigger] t[a].name@ != #[trigger] t[b].name@ by {
                if a < s.len() && b < s.len() {
                    assert(t[a] == s[a] && t[b] == s[b]);
                } else if a == s.len() {
                    assert(t[b] == s[b]);
                } else {
                    assert(t[a] == s[a]);
                }
            }
        }
        self.outputs.push(out);
    }

    /// Decodes the slots of a response in index order. Decoding stops at the
    /// first slot that could not be read, with an `OutputError` carrying its
    /// message, and keeps every tensor decoded before it. A name seen twice
    /// keeps the later tensor.
    pub fn from_slots(slots: Vec<Result<OutputSlot, String>>) -> (r: DecodedResponse)
        ensures
            r.response.wf(),
            0 <= readable_prefix(slots@) <= slots@.len(),
            r.error is None <==> readable_prefix(slots@) == slots@.len(),
            (forall|k: int| 0 <= k < slots@.len() ==> #[trigger] slots@[k] is Ok) ==> r.error is None,
            r.error matches Some(e) ==> e is OutputError && readable_prefix(slots@) < slots@.len()
                && e->OutputError_0 == slots@[readable_prefix(slots@)]->Err_0,
            exists|outs: Seq<OutputData>| {
                &&& outs.len() == readable_prefix(slots@) <= slots@.len()
                &&& forall|k: int| 0 <= k < outs.len() ==> decodes_to(#[trigger] slots@[k]->Ok_0, outs[k])
                &&& r.response.view_map() == name_map(outs)
            },
    {
        let mut response = InferenceResponse::empty();
        let ghost all = slots@;
        let ghost mut outs: Seq<OutputData> = Seq::empty();
        let mut rest = slots;
        proof {
            lemma_readable_prefix_bounds(all);
            assert(all.subrange(0, all.len() as int) =~= all);
        }
        while rest.len() > 0
            invariant
                response.wf(),
                all == slots@,
                0 <= readable_prefix(all) <= all.len(),
                outs.len() <= all.len(),
                rest@ == all.subrange(outs.len() as int, all.len() as int),
                readable_prefix(all) == outs.len() + readable_prefix(rest@),
                forall|k: int| 0 <= k < outs.len() ==> decodes_to(#[trigger] all[k]->Ok_0, outs[k]),
                forall|k: int| 0 <= k < outs.len() ==> #[trigger] all[k] is Ok,
                response.view_map() == name_map(outs),
            decreases rest@.len(),
        {
            let ghost before = rest@;
            let slot = rest.remove(0);
            proof {
                assert(rest@ =~= before.drop_first());
                assert(slot == all[outs.len() as int]);
            }
            match slot {
                Ok(s) => {
                    let out = OutputData::from_slot(s);
                    let ghost g = out;
                    response.insert(out);
                    proof {
                        let next = outs.push(g);
                        assert(next.drop_last() =~= outs);
                        assert(rest@ =~= all.subrange(next.len() as int, all.len() as int));
                        outs = next;
                    }
                },
                Err(msg) => {
                    proof {
                        assert(readable_prefix(before) == 0);
                        assert(readable_prefix(all) == outs.len());
                    }
                    return DecodedResponse {
                        response,
                        error: Some(ModelExecutorError::OutputError(msg)),
                    };
                },
            }
        }
        DecodedResponse { response, error: None }
    }
}

} // verus!
