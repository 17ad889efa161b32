//! The execution bridge: the executor that requests are built against, the
//! check made before a request is submitted, and the one-shot completion
//! signal that hands the engine's single answer to the waiting caller.
use vstd::prelude::*;
use crate::error::ModelExecutorError;
use crate::inference_request::{c_compatible, is_c_compatible, InferenceRequest};

verus! {

/// The target of submitted requests: one model at one version.
pub struct ModelExecutor {
    model_name: String,
    model_version: i64,
}

impl ModelExecutor {
    pub closed spec fn spec_model_name(&self) -> Seq<char> {
        self.model_name@
    }

    pub closed spec fn spec_model_version(&self) -> i64 {
        self.model_version
    }

    /// The model name can cross the engine boundary.
    pub open spec fn wf(&self) -> bool {
        c_compatible(self.spec_model_name())
    }

    /// An executor for `model_name` at `model_version`; an
    /// `InitializationError` when the name holds a NUL byte.
    pub fn new(model_name: &str, model_version: i64) -> (r: Result<ModelExecutor, ModelExecutorError>)
        ensures
            r is Ok <==> c_compatible(model_name@),
            r matches Err(e) ==> e is InitializationError,
            r matches Ok(x) ==> x.wf() && x.spec_model_name() == model_name@
                && x.spec_model_version() == model_version,
    {
        if !is_c_compatible(model_name) {
            return Err(
                ModelExecutorError::InitializationError("Failed to allocate CString".to_string()),
            );
        }
        Ok(ModelExecutor { model_name: model_name.to_string(), model_version })
    }

    /// Model name.
    pub fn model_name(&self) -> (r: &str)
        ensures
            r@ == self.spec_model_name(),
    {
        self.model_name.as_str()
    }

    /// Model version.
    pub fn model_version(&self) -> (r: i64)
        ensures
            r == self.spec_model_version(),
    {
        self.model_version
    }

    /// Decides whether `request` may be submitted through this executor: it
    /// must target this executor's model and version and have its release
    /// callback registered; otherwise an `ExecutionError`.
    pub fn check_submission(&self, request: &InferenceRequest) -> (r: Result<(), ModelExecutorError>)
        ensures
            r is Ok <==> request.spec_release_callback() && request.spec_model_name()
                == self.spec_model_name() && request.spec_model_version()
                == self.spec_model_version(),
            r matches Err(e) ==> e is ExecutionError,
    {
        if !request.has_release_callback() {
            return Err(
                ModelExecutorError::ExecutionError("release callback not registered".to_string()),
            );
        }
        let same_name = request.model_name().to_string() == self.model_name;
        if !same_name || request.model_version() != self.model_version {
            return Err(
                ModelExecutorError::ExecutionError("request targets another model".to_string()),
            );
        }
        Ok(())
    }
}

/// What can reach the waiting side of a completion signal.
pub enum CompletionEvent<T> {
    /// The engine delivered its response.
    Responded(T),
    /// Submission or the engine failed.
    Failed(ModelExecutorError),
    /// The producer went away without resolving.
    ProducerDropped,
}

/// The state of one completion signal.
pub enum Completion<T> {
    Pending,
    Responded(T),
    Failed(ModelExecutorError),
    Closed,
}

/// The terminal state an event puts a pending signal in.
pub open spec fn resolved_by<T>(e: CompletionEvent<T>) -> Completion<T> {
    match e {
        CompletionEvent::Responded(v) => Completion::Responded(v),
        CompletionEvent::Failed(err) => Completion::Failed(err),
        CompletionEvent::ProducerDropped => Completion::Closed,
    }
}

/// One step of a completion signal: the first event resolves it, and a
/// resolved signal ignores every later event.
pub open spec fn step<T>(s: Completion<T>, e: CompletionEvent<T>) -> Completion<T> {
    match s {
        Completion::Pending => resolved_by(e),
        _ => s,
    }
}

/// The state after a sequence of events, starting from `s`.
pub open spec fn run<T>(s: Completion<T>, events: Seq<CompletionEvent<T>>) -> Completion<T>
    decreases events.len(),
{
    if events.len() == 0 {
        s
    } else {
        run(step(s, events[0]), events.drop_first())
    }
}

/// A single-resolution handoff of one response, or one failure, from the
/// engine's completion callback to the caller that waits for it.
pub struct CompletionSignal<T> {
    state: Completion<T>,
}

impl<T> CompletionSignal<T> {
    pub closed spec fn state(&self) -> Completion<T> {
        self.state
    }

    /// A signal nothing has resolved yet.
    pub fn new() -> (r: CompletionSignal<T>)
        ensures
            r.state() is Pending,
    {
        CompletionSignal { state: Completion::Pending }
    }

    /// Whether an event has resolved the signal.
    pub fn is_resolved(&self) -> (r: bool)
        ensures
            r <==> !(self.state() is Pending),
    {
        match self.state {
            Completion::Pending => false,
            _ => true,
        }
    }

    /// Hands one event to the signal. The first event resolves it and is
    /// accepted; any later one is refused and dropped.
    pub fn deliver(&mut self, e: CompletionEvent<T>) -> (accepted: bool)
        ensures
            final(self).state() == step(old(self).state(), e),
            accepted <==> old(self).state() is Pending,
    {
        match self.state {
            Completion::Pending => {
                self.state = match e {
                    CompletionEvent::Responded(v) => Completion::Responded(v),
                    CompletionEvent::Failed(err) => Completion::Failed(err),
                    CompletionEvent::ProducerDropped => Completion::Closed,
                };
                true
            },
            _ => false,
        }
    }

    /// What the waiting caller receives: nothing while pending, else the
    /// response, the failure, or an `AsyncChannelError` when the producer
    /// went away without resolving.
    pub fn outcome(self) -> (r: Option<Result<T, ModelExecutorError>>)
        ensures
            self.state() is Pending <==> r is None,
            self.state() matches Completion::Responded(v) ==> r == Some(
                Ok::<T, ModelExecutorError>(v),
            ),
            self.state() matches Completion::Failed(err) ==> r == Some(
                Err::<T, ModelExecutorError>(err),
            ),
            self.state() is Closed ==> (r matches Some(Err(err)) && err is AsyncChannelError),
    {
        match self.state {
            Completion::Pending => None,
            Completion::Responded(v) => Some(Ok(v)),
            Completion::Failed(err) => Some(Err(err)),
            Completion::Closed => Some(
                Err(ModelExecutorError::AsyncChannelError("channel closed".to_string())),
            ),
        }
    }
}

/// Once resolved, a signal keeps its outcome whatever events follow.
pub proof fn lemma_resolved_is_final<T>(s: Completion<T>, events: Seq<CompletionEvent<T>>)
    requires
        !(s is Pending),
    ensures
        run(s, events) == s,
    decreases events.len(),
{
    if events.len() > 0 {
        lemma_resolved_is_final(step(s, events[0]), events.drop_first());
    }
}

/// A signal resolves exactly once: with no event it stays pending, and after
/// any non-empty sequence of events it holds the outcome of the first one.
pub proof fn lemma_single_resolution<T>(events: Seq<CompletionEvent<T>>)
    ensures
        events.len() == 0 ==> run(Completion::<T>::Pending, events) is Pending,
        events.len() > 0 ==> run(Completion::<T>::Pending, events) == resolved_by(events[0]),
        events.len() > 0 ==> !(run(Completion::<T>::Pending, events) is Pending),
{
    if events.len() > 0 {
        lemma_resolved_is_final(resolved_by(events[0]), events.drop_first());
    }
}

/// A producer that goes away before any other event leaves the caller with
/// a closed channel, whatever arrives afterwards.
pub proof fn lemma_dropped_producer_closes<T>(later: Seq<CompletionEvent<T>>)
    ensures
        run(
            Completion::<T>::Pending,
            seq![CompletionEvent::<T>::ProducerDropped] + later,
        ) is Closed,
{
    let events = seq![CompletionEvent::<T>::ProducerDropped] + later;
    assert(events[0] == CompletionEvent::<T>::ProducerDropped);
    lemma_single_resolution(events);
}

} // verus!
