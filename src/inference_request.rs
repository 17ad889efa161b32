//! Building an inference request: the target model, its ids, its input
//! tensors and the outputs it asks for, checked as they are declared.
use vstd::prelude::*;
use vstd::utf8::encode_utf8;
use crate::data_type::DataType;
use crate::error::ModelExecutorError;
use crate::model_executor::ModelExecutor;

verus! {

/// True when a string can cross the engine boundary as a NUL-terminated
/// string: its UTF-8 bytes hold no zero byte.
pub open spec fn c_compatible(s: Seq<char>) -> bool {
    !encode_utf8(s).contains(0u8)
}

/// Checks that a string holds no NUL byte.
pub fn is_c_compatible(s: &str) -> (r: bool)
    ensures
        r == c_compatible(s@),
{
    let b = s.as_bytes();
    let mut i: usize = 0;
    while i < b.len()
        invariant
            i <= b@.len(),
            b@ == encode_utf8(s@),
            forall|k: int| 0 <= k < i ==> b@[k] != 0u8,
        decreases b@.len() - i,
    {
        if b[i] == 0 {
            assert(encode_utf8(s@)[i as int] == 0u8);
            return false;
        }
        i = i + 1;
    }
    assert(!encode_utf8(s@).contains(0u8));
    true
}

/// True when no dimension is negative.
pub open spec fn valid_shape(shape: Seq<i64>) -> bool {
    forall|k: int| 0 <= k < shape.len() ==> shape[k] >= 0
}

/// Checks that no dimension is negative.
pub fn is_valid_shape(shape: &[i64]) -> (r: bool)
    ensures
        r == valid_shape(shape@),
{
    let mut i: usize = 0;
    while i < shape.len()
        invariant
            i <= shape@.len(),
            forall|k: int| 0 <= k < i ==> shape@[k] >= 0,
        decreases shape@.len() - i,
    {
        if shape[i] < 0 {
            return false;
        }
        i = i + 1;
    }
    true
}

/// One declared input: its type, its shape and the bytes appended so far.
pub struct InputTensor {
    pub name: String,
    pub data_type: DataType,
    pub shape: Vec<i64>,
    pub data: Vec<u8>,
}

/// A request under construction for one model version.
pub struct InferenceRequest {
    model_name: String,
    model_version: i64,
    request_id: String,
    correlation_id: u64,
    inputs: Vec<InputTensor>,
    outputs: Vec<String>,
    release_callback: bool,
}

/// The index of the input called `name`, if one is declared.
pub open spec fn input_index(inputs: Seq<InputTensor>, name: Seq<char>) -> Option<int> {
    if exists|k: int| 0 <= k < inputs.len() && #[trigger] inputs[k].name@ == name {
        Some(choose|k: int| 0 <= k < inputs.len() && #[trigger] inputs[k].name@ == name)
    } else {
        None
    }
}

impl InferenceRequest {
    pub closed spec fn spec_model_name(&self) -> Seq<char> {
        self.model_name@
    }

    pub closed spec fn spec_model_version(&self) -> i64 {
        self.model_version
    }

    pub closed spec fn spec_request_id(&self) -> Seq<char> {
        self.request_id@
    }

    pub closed spec fn spec_correlation_id(&self) -> u64 {
        self.correlation_id
    }

    /// The declared inputs, in declaration order.
    pub closed spec fn spec_inputs(&self) -> Seq<InputTensor> {
        self.inputs@
    }

    /// The requested output names, in request order.
    pub closed spec fn spec_outputs(&self) -> Seq<Seq<char>> {
        self.outputs@.map_values(|s: String| s@)
    }

    pub closed spec fn spec_release_callback(&self) -> bool {
        self.release_callback
    }

    /// Input names are unique and every name and shape passed the checks.
    pub open spec fn wf(&self) -> bool {
        &&& forall|i: int, j: int|
            0 <= i < self.spec_inputs().len() && 0 <= j < self.spec_inputs().len() && i != j
                ==> #[trigger] self.spec_inputs()[i].name@ != #[trigger] self.spec_inputs()[j].name@
        &&& forall|i: int|
            0 <= i < self.spec_inputs().len() ==> valid_shape(
                #[trigger] self.spec_inputs()[i].shape@,
            )
        &&& forall|i: int|
            0 <= i < self.spec_inputs().len() ==> c_compatible(
                #[trigger] self.spec_inputs()[i].name@,
            )
    }

    /// A request against the executor's model and version.
    pub fn new(executor: &ModelExecutor) -> (r: Result<InferenceRequest, ModelExecutorError>)
        requires
            executor.wf(),
        ensures
            r matches Ok(q) && q.wf() && q.spec_model_name() == executor.spec_model_name()
                && q.spec_model_version() == executor.spec_model_version()
                && q.spec_request_id() == Seq::<char>::empty() && q.spec_correlation_id() == 0
                && q.spec_inputs().len() == 0 && q.spec_outputs().len() == 0
                && !q.spec_release_callback(),
    {
        InferenceRequest::for_model(executor.model_name(), executor.model_version())
    }

    /// A request for `model_name` at `model_version`; an `InitializationError`
    /// when the name holds a NUL byte.
    pub fn for_model(model_name: &str, model_version: i64) -> (r: Result<
        InferenceRequest,
        ModelExecutorError,
    >)
        ensures
            r is Ok <==> c_compatible(model_name@),
            r matches Err(e) ==> e is InitializationError,
            r matches Ok(q) ==> {
                &&& q.wf()
                &&& q.spec_model_name() == model_name@
                &&& q.spec_model_version() == model_version
                &&& q.spec_request_id() == Seq::<char>::empty()
                &&& q.spec_correlation_id() == 0
                &&& q.spec_inputs().len() == 0
                &&& q.spec_outputs().len() == 0
                &&& !q.spec_release_callback()
            },
    {
        if !is_c_compatible(model_name) {
            return Err(
                ModelExecutorError::InitializationError("model name holds a NUL byte".to_string()),
            );
        }
        let q = InferenceRequest {
            model_name: model_name.to_string(),
            model_version,
            request_id: String::new(),
            correlation_id: 0,
            inputs: Vec::new(),
            outputs: Vec::new(),
            release_callback: false,
        };
        proof {
            assert(q.spec_outputs() =~= Seq::<Seq<char>>::empty());
        }
        Ok(q)
    }

    /// Model name.
    pub fn model_name(&self) -> (r: &str)
        ensures
            r@ == self.spec_model_name(),
    {
        self.model_name.as_str()
    }

    /// Model version.
    pub fn model_version(&self) -> (r: i64)
        ensures
            r == self.spec_model_version(),
    {
        self.model_version
    }

    /// Request id; empty until set.
    pub fn request_id(&self) -> (r: &str)
        ensures
            r@ == self.spec_request_id(),
    {
        self.request_id.as_str()
    }

    /// Correlation id; zero until set.
    pub fn correlation_id(&self) -> (r: u64)
        ensures
            r == self.spec_correlation_id(),
    {
        self.correlation_id
    }

    /// The declared inputs.
    pub fn inputs(&self) -> (r: &[InputTensor])
        ensures
            r@ == self.spec_inputs(),
    {
        self.inputs.as_slice()
    }

    /// The requested outputs.
    pub fn outputs(&self) -> (r: &[String])
        ensures
            r@.map_values(|s: String| s@) == self.spec_outputs(),
    {
        self.outputs.as_slice()
    }

    /// Whether the release callback has been registered.
    pub fn has_release_callback(&self) -> (r: bool)
        ensures
            r == self.spec_release_callback(),
    {
        self.release_callback
    }

    /// Asks for the output called `name`; an `FFIError` when the name holds
    /// a NUL byte.
    pub fn add_output(&mut self, name: &str) -> (r: Result<(), ModelExecutorError>)
        requires
            old(self).wf(),
        ensures
            final(self).wf(),
            r is Ok <==> c_compatible(name@),
            r matches Err(e) ==> e is FFIError,
            final(self).spec_outputs() == if r is Ok {
                old(self).spec_outputs().push(name@)
            } else {
                old(self).spec_outputs()
            },
            final(self).spec_inputs() == old(self).spec_inputs(),
            final(self).spec_model_name() == old(self).spec_model_name(),
            final(self).spec_model_version() == old(self).spec_model_version(),
            final(self).spec_request_id() == old(self).spec_request_id(),
            final(self).spec_correlation_id() == old(self).spec_correlation_id(),
            final(self).spec_release_callback() == old(self).spec_release_callback(),
    {
        if !is_c_compatible(name) {
            return Err(ModelExecutorError::FFIError("output name holds a NUL byte".to_string()));
        }
        self.outputs.push(name.to_string());
        proof {
            assert(self.spec_outputs() =~= old(self).spec_outputs().push(name@));
        }
        Ok(())
    }

    /// Finds the input called `name`.
    fn find_input(&self, name: &str) -> (r: Option<usize>)
        ensures
            r matches Some(k) ==> k < self.spec_inputs().len() && self.spec_inputs()[k as int].name@
                == name@,
            r is None ==> forall|k: int|
                0 <= k < self.spec_inputs().len() ==> #[trigger] self.spec_inputs()[k].name@
                    != name@,
    {
        let key = name.to_string();
        let mut i: usize = 0;
        while i < self.inputs.len()
            invariant
                i <= self.inputs@.len(),
                key@ == name@,
                forall|k: int| 0 <= k < i ==> #[trigger] self.inputs@[k].name@ != name@,
            decreases self.inputs@.len() - i,
        {
            if self.inputs[i].name == key {
                return Some(i);
            }
            i = i + 1;
        }
        None
    }

    /// Declares an input. An `FFIError` when the name holds a NUL byte; an
    /// `InputError` when the name is already declared or a dimension is
    /// negative.
    pub fn add_input(&mut self, name: &str, data_type: DataType, shape: &[i64]) -> (r: Result<
        (),
        ModelExecutorError,
    >)
        requires
            old(self).wf(),
        ensures
            final(self).wf(),
            !c_compatible(name@) ==> (r matches Err(e) && e is FFIError),
            c_compatible(name@) ==> (r is Ok <==> (input_index(old(self).spec_inputs(), name@) is None
                && valid_shape(shape@))),
            r matches Err(e) ==> e is FFIError || e is InputError,
            c_compatible(name@) && r is Err ==> r->Err_0 is InputError,
            r is Ok ==> final(self).spec_inputs().len() == old(self).spec_inputs().len() + 1
                && final(self).spec_inputs().drop_last() == old(self).spec_inputs()
                && final(self).spec_inputs().last().name@ == name@
                && final(self).spec_inputs().last().data_type == data_type
                && final(self).spec_inputs().last().shape@ == shape@
                && final(self).spec_inputs().last().data@.len() == 0,
            r is Err ==> final(self).spec_inputs() == old(self).spec_inputs(),
            final(self).spec_outputs() == old(self).spec_outputs(),
            final(self).spec_model_name() == old(self).spec_model_name(),
            final(self).spec_model_version() == old(self).spec_model_version(),
            final(self).spec_request_id() == old(self).spec_request_id(),
            final(self).spec_correlation_id() == old(self).spec_correlation_id(),
            final(self).spec_release_callback() == old(self).spec_release_callback(),
    {
        if !is_c_compatible(name) {
            return Err(ModelExecutorError::FFIError("input name holds a NUL byte".to_string()));
        }
        if let Some(k) = self.find_input(name) {
            return Err(ModelExecutorError::InputError("input already declared".to_string()));
        }
        if !is_valid_shape(shape) {
            return Err(ModelExecutorError::InputError("negative dimension".to_string()));
        }
        let input = InputTensor {
            name: name.to_string(),
            data_type,
            shape: vstd::slice::slice_to_vec(shape),
            data: Vec::new(),
        };
        self.inputs.push(input);
        proof {
            assert(self.spec_inputs().drop_last() =~= old(self).spec_inputs());
            let s = self.spec_inputs();
            assert forall|a: int, b: int| 0 <= a < s.len() && 0 <= b < s.len() && a != b implies #[trigger] s[a].name@ != #[trigger] s[b].name@ by {
                if a < s.len() - 1 && b < s.len() - 1 {
                    assert(s[a] == old(self).spec_inputs()[a]);
                    assert(s[b] == old(self).spec_inputs()[b]);
                } else if a == s.len() - 1 {
                    assert(s[b] == old(self).spec_inputs()[b]);
                } else {
                    assert(s[a] == old(self).spec_inputs()[a]);
                }
            }
            assert forall|a: int| 0 <= a < s.len() implies valid_shape(#[trigger] s[a].shape@) by {
                if a < s.len() - 1 {
                    assert(s[a] == old(self).spec_inputs()[a]);
                }
            }
        }
        Ok(())
    }

    /// Appends a chunk of payload to a declared input. An `FFIError` when
    /// the name holds a NUL byte; an `InputError` when no such input is
    /// declared.
    pub fn set_input_data(&mut self, name: &str, data: &[u8]) -> (r: Result<(), ModelExecutorError>)
        requires
            old(self).wf(),
        ensures
            final(self).wf(),
            !c_compatible(name@) ==> (r matches Err(e) && e is FFIError),
            c_compatible(name@) ==> (r is Ok <==> input_index(old(self).spec_inputs(), name@) is Some),
            r matches Err(e) ==> e is FFIError || e is InputError,
            c_compatible(name@) && r is Err ==> r->Err_0 is InputError,
            r is Ok ==> {
                let k = input_index(old(self).spec_inputs(), name@)->Some_0;
                let old_in = old(self).spec_inputs()[k];
                &&& final(self).spec_inputs().len() == old(self).spec_inputs().len()
                &&& forall|j: int|
                    0 <= j < old(self).spec_inputs().len() && j != k
                        ==> #[trigger] final(self).spec_inputs()[j] == old(self).spec_inputs()[j]
                &&& final(self).spec_inputs()[k].name == old_in.name
                &&& final(self).spec_inputs()[k].data_type == old_in.data_type
                &&& final(self).spec_inputs()[k].shape == old_in.shape
                &&& final(self).spec_inputs()[k].data@ == old_in.data@ + data@
            },
            r is Err ==> final(self).spec_inputs() == old(self).spec_inputs(),
            final(self).spec_outputs() == old(self).spec_outputs(),
            final(self).spec_model_name() == old(self).spec_model_name(),
            final(self).spec_model_version() == old(self).spec_model_version(),
            final(self).spec_request_id() == old(self).spec_request_id(),
            final(self).spec_correlation_id() == old(self).spec_correlation_id(),
            final(self).spec_release_callback() == old(self).spec_release_callback(),
    {
        if !is_c_compatible(name) {
            return Err(ModelExecutorError::FFIError("input name holds a NUL byte".to_string()));
        }
        match self.find_input(name) {
            None => Err(ModelExecutorError::InputError("input is not declared".to_string())),
            Some(k) => {
                proof {
                    let s = old(self).spec_inputs();
                    assert(s[k as int].name@ == name@);
                    let c = input_index(s, name@)->Some_0;
                    if c != k {
                        assert(s[c].name@ != s[k as int].name@);
                    }
                }
                let ghost before = self.inputs@;
                let mut input = self.inputs.remove(k);
                input.data.extend_from_slice(data);
                self.inputs.insert(k, input);
                proof {
                    assert(input.data@ =~= before[k as int].data@ + data@);
                    let s = self.inputs@;
                    assert forall|j: int| 0 <= j < s.len() && j != k implies #[trigger] s[j] == before[j] by {
                    }
                    assert forall|a: int, b: int| 0 <= a < s.len() && 0 <= b < s.len() && a != b implies #[trigger] s[a].name@ != #[trigger] s[b].name@ by {
                        assert(s[a].name@ == before[a].name@);
                        assert(s[b].name@ == before[b].name@);
                    }
                    assert forall|a: int| 0 <= a < s.len() implies valid_shape(#[trigger] s[a].shape@) by {
                        assert(s[a].shape@ == before[a].shape@);
                    }
                }
                Ok(())
            },
        }
    }

    /// Sets the request id; an `FFIError` when it holds a NUL byte.
    pub fn set_request_id(&mut self, id: &str) -> (r: Result<(), ModelExecutorError>)
        requires
            old(self).wf(),
        ensures
            final(self).wf(),
            r is Ok <==> c_compatible(id@),
            r matches Err(e) ==> e is FFIError,
            final(self).spec_request_id() == if r is Ok {
                id@
            } else {
                old(self).spec_request_id()
            },
            final(self).spec_inputs() == old(self).spec_inputs(),
            final(self).spec_outputs() == old(self).spec_outputs(),
            final(self).spec_model_name() == old(self).spec_model_name(),
            final(self).spec_model_version() == old(self).spec_model_version(),
            final(self).spec_correlation_id() == old(self).spec_correlation_id(),
            final(self).spec_release_callback() == old(self).spec_release_callback(),
    {
        if !is_c_compatible(id) {
            return Err(ModelExecutorError::FFIError("request id holds a NUL byte".to_string()));
        }
        self.request_id = id.to_string();
        Ok(())
    }

    /// Sets the correlation id.
    pub fn set_correlation_id(&mut self, id: u64) -> (r: Result<(), ModelExecutorError>)
        requires
            old(self).wf(),
        ensures
            final(self).wf(),
            r is Ok,
            final(self).spec_correlation_id() == id,
            final(self).spec_inputs() == old(self).spec_inputs(),
            final(self).spec_outputs() == old(self).spec_outputs(),
            final(self).spec_model_name() == old(self).spec_model_name(),
            final(self).spec_model_version() == old(self).spec_model_version(),
            final(self).spec_request_id() == old(self).spec_request_id(),
            final(self).spec_release_callback() == old(self).spec_release_callback(),
    {
        self.correlation_id = id;
        Ok(())
    }

    /// Registers the callback that frees the request once the engine is done
    /// with it; required before submission.
    pub fn set_release_callback(&mut self) -> (r: Result<(), ModelExecutorError>)
        requires
            old(self).wf(),
        ensures
            final(self).wf(),
            r is Ok,
            final(self).spec_release_callback(),
            final(self).spec_inputs() == old(self).spec_inputs(),
            final(self).spec_outputs() == old(self).spec_outputs(),
            final(self).spec_model_name() == old(self).spec_model_name(),
            final(self).spec_model_version() == old(self).spec_model_version(),
            final(self).spec_request_id() == old(self).spec_request_id(),
            final(self).spec_correlation_id() == old(self).spec_correlation_id(),
    {
        self.release_callback = true;
        Ok(())
    }
}

} // verus!
