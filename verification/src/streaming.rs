//! Streaming values from a source to an outbound, and from a broadcast receiver into a
//! processing step.
//!
//! Pulling the next item of an asynchronous source and awaiting a receiver are done by
//! the caller; this module decides, for each item or failure that comes back, what
//! happens next, and sends through the broadcast channel.
use vstd::prelude::*;

use crate::channel::{broadcast_channel, broadcast_send, broadcast_subscribe};

verus! {

/// Why the source of a pipe could not produce its next item.
pub struct SourceError {
    pub message: String,
}

/// Why an outbound did not take a packet.
pub enum OutboundError {
    /// The broadcast channel has no receiver left.
    ChannelClosed,
    /// Any other refusal, described by the outbound.
    Other(String),
}

/// Why a pipe stopped before its source ran dry.
pub enum PipeError {
    /// The source failed; nothing of it was forwarded.
    Source(SourceError),
    /// The outbound refused the packet it was last handed.
    Outbound(OutboundError),
}

/// Something that takes packets, one at a time.
pub trait Outbound<T> {
    fn send(&self, packet: T) -> (r: Result<(), OutboundError>);
}

/// An outbound that broadcasts every packet to all receivers subscribed to `sender`.
#[verifier::reject_recursive_types(T)]
pub struct DataSender<T> {
    pub sender: tokio::sync::broadcast::Sender<T>,
    capacity: Ghost<nat>,
}

impl<T> DataSender<T> {
    /// The capacity the sender's channel was made with: how many packets it keeps for
    /// each receiver (tokio rounds it up to a power of two).
    pub closed spec fn requested_capacity(self) -> nat {
        self.capacity@
    }
}

impl<T: Clone> DataSender<T> {
    /// A sender on a fresh channel that buffers `capacity` packets and has no receiver yet.
    pub fn new(capacity: usize) -> (s: Self)
        requires
            0 < capacity <= usize::MAX / 2,
        ensures
            s.requested_capacity() == capacity,
    {
        let (sender, _first_receiver, made_with) = broadcast_channel(capacity);
        DataSender { sender, capacity: made_with }
    }
}

/// What a broadcast's outcome means to an outbound's caller: the number of receivers is
/// dropped, and a packet handed back means that the channel had no receiver.
pub open spec fn broadcast_outcome_spec<T>(sent: Result<usize, T>) -> Result<(), OutboundError> {
    match sent {
        Ok(_) => Ok(()),
        Err(_) => Err(OutboundError::ChannelClosed),
    }
}

/// Turns the outcome of a broadcast into the answer of an outbound.
pub fn broadcast_outcome<T>(sent: Result<usize, T>) -> (r: Result<(), OutboundError>)
    ensures
        r == broadcast_outcome_spec(sent),
        sent is Ok ==> r == Ok::<(), OutboundError>(()),
        sent is Err ==> r == Err::<(), OutboundError>(OutboundError::ChannelClosed),
{
    match sent {
        Ok(_) => Ok(()),
        Err(_) => Err(OutboundError::ChannelClosed),
    }
}

/// A broadcast that reached any number of receivers is a success for the outbound, and
/// the only failure is a channel without receivers: whatever the number of receivers,
/// the outcome fails exactly when the packet came back.
pub proof fn lemma_broadcast_outcome_fails_only_without_receivers<T>(sent: Result<usize, T>)
    ensures
        broadcast_outcome_spec(sent) is Err <==> sent is Err,
        forall|n: usize| #[trigger] broadcast_outcome_spec(Ok::<usize, T>(n)) == Ok::<(), OutboundError>(()),
        forall|v: T| #[trigger] broadcast_outcome_spec(Err::<usize, T>(v)) == Err::<(), OutboundError>(
            OutboundError::ChannelClosed,
        ),
{
}

impl<T> Outbound<T> for DataSender<T> {
    /// Broadcasts `packet`; fails only when the channel has no receiver at that moment.
    fn send(&self, packet: T) -> (r: Result<(), OutboundError>)
        ensures
            r is Err ==> r == Err::<(), OutboundError>(OutboundError::ChannelClosed),
    {
        let sent = broadcast_send(&self.sender, packet);
        broadcast_outcome(sent)
    }
}

/// What a pipe does after pulling from its source.
pub enum PipeStep<U> {
    /// Hand this item to the outbound, then pull again if it was taken.
    Forward(U),
    /// Stop, with this result.
    Finish(Result<(), PipeError>),
}

pub open spec fn pipe_step_spec<U>(item: Option<Result<U, SourceError>>) -> PipeStep<U> {
    match item {
        None => PipeStep::Finish(Ok(())),
        Some(Err(e)) => PipeStep::Finish(Err(PipeError::Source(e))),
        Some(Ok(v)) => PipeStep::Forward(v),
    }
}

/// Decides what a pipe does with what its source produced: a source that ran dry ends
/// the pipe successfully, a failed source ends it with that failure, and an item is
/// forwarded.
pub fn pipe_step<U>(item: Option<Result<U, SourceError>>) -> (s: PipeStep<U>)
    ensures
        s == pipe_step_spec(item),
        item is None ==> s == PipeStep::<U>::Finish(Ok(())),
        item matches Some(Ok(v)) ==> s == PipeStep::Forward(v),
        item matches Some(Err(e)) ==> s == PipeStep::<U>::Finish(Err(PipeError::Source(e))),
{
    match item {
        None => PipeStep::Finish(Ok(())),
        Some(Err(e)) => PipeStep::Finish(Err(PipeError::Source(e))),
        Some(Ok(v)) => PipeStep::Forward(v),
    }
}

pub open spec fn pipe_sent_spec(answer: Result<(), OutboundError>) -> Option<PipeError> {
    match answer {
        Ok(_) => None,
        Err(e) => Some(PipeError::Outbound(e)),
    }
}

/// Decides what a pipe does after forwarding an item: `None` means pull the next item,
/// `Some(e)` means stop with `e`, the outbound's refusal.
pub fn pipe_sent(answer: Result<(), OutboundError>) -> (s: Option<PipeError>)
    ensures
        s == pipe_sent_spec(answer),
        answer is Ok ==> s is None,
        answer matches Err(e) ==> s == Some(PipeError::Outbound(e)),
{
    match answer {
        Ok(_) => None,
        Err(e) => Some(PipeError::Outbound(e)),
    }
}

/// A whole run of a pipe over a source that yields `items` and then runs dry, where the
/// outbound answers the forwarding of `items[i]` with `answers[i]`: the items handed to
/// the outbound, in order, and the pipe's result.
pub open spec fn pipe_run<U>(
    items: Seq<Result<U, SourceError>>,
    answers: Seq<Result<(), OutboundError>>,
) -> (Seq<U>, Result<(), PipeError>)
    decreases items.len(),
{
    if items.len() == 0 {
        (Seq::empty(), Ok(()))
    } else {
        match pipe_step_spec(Some(items[0])) {
            PipeStep::Finish(r) => (Seq::empty(), r),
            PipeStep::Forward(v) => match pipe_sent_spec(answers[0]) {
                Some(e) => (seq![v], Err(e)),
                None => {
                    let rest = pipe_run(items.drop_first(), answers.drop_first());
                    (seq![v] + rest.0, rest.1)
                },
            },
        }
    }
}

/// A pipe hands the outbound its source's items in the order they came, up to the first
/// failure, and no other; it succeeds exactly when every item was produced and taken,
/// and otherwise reports the first failure: the source's, before which nothing more was
/// forwarded, or the outbound's refusal of the last item handed over.
pub proof fn lemma_pipe_forwards_in_order<U>(
    items: Seq<Result<U, SourceError>>,
    answers: Seq<Result<(), OutboundError>>,
)
    requires
        answers.len() == items.len(),
    ensures
        ({
            let (forwarded, outcome) = pipe_run(items, answers);
            &&& forwarded.len() <= items.len()
            &&& forall|i: int|
                0 <= i < forwarded.len() ==> items[i] == Ok::<U, SourceError>(#[trigger] forwarded[i])
            &&& forall|i: int| 0 <= i < forwarded.len() - 1 ==> (#[trigger] answers[i]) is Ok
            &&& (outcome is Ok <==> forall|i: int|
                0 <= i < items.len() ==> (#[trigger] items[i]) is Ok && answers[i] is Ok)
            &&& (outcome is Ok ==> forwarded.len() == items.len())
            &&& (outcome matches Err(PipeError::Source(e)) ==> {
                &&& forwarded.len() < items.len()
                &&& items[forwarded.len() as int] == Err::<U, SourceError>(e)
                &&& forall|i: int| 0 <= i < forwarded.len() ==> (#[trigger] answers[i]) is Ok
            })
            &&& (outcome matches Err(PipeError::Outbound(e)) ==> {
                &&& forwarded.len() >= 1
                &&& answers[forwarded.len() - 1] == Err::<(), OutboundError>(e)
            })
        }),
    decreases items.len(),
{
    if items.len() > 0 {
        lemma_pipe_forwards_in_order(items.drop_first(), answers.drop_first());
        let rest = pipe_run(items.drop_first(), answers.drop_first());
        let (forwarded, outcome) = pipe_run(items, answers);
        match items[0] {
            Ok(v) => {
                if answers[0] is Ok {
                    assert(forwarded == seq![v] + rest.0);
                    assert forall|i: int| 0 <= i < forwarded.len() implies items[i] == Ok::<
                        U,
                        SourceError,
                    >(#[trigger] forwarded[i]) by {
                        if i > 0 {
                            assert(items.drop_first()[i - 1] == Ok::<U, SourceError>(
                                rest.0[i - 1],
                            ));
                        }
                    }
                    assert forall|i: int| 0 <= i < forwarded.len() - 1 implies (
                    #[trigger] answers[i]) is Ok by {
                        if i > 0 {
                            assert(answers.drop_first()[i - 1] is Ok);
                        }
                    }
                    if outcome is Ok {
                        assert forall|i: int| 0 <= i < items.len() implies (
                        #[trigger] items[i]) is Ok && answers[i] is Ok by {
                            if i > 0 {
                                assert(items.drop_first()[i - 1] is Ok);
                                assert(answers.drop_first()[i - 1] is Ok);
                            }
                        }
                    } else {
                        if forall|i: int|
                            0 <= i < items.len() ==> (#[trigger] items[i]) is Ok && answers[i] is Ok {
                            assert forall|i: int| 0 <= i < items.drop_first().len() implies (
                            #[trigger] items.drop_first()[i]) is Ok && answers.drop_first()[i] is Ok by {
                                assert(items[i + 1] is Ok && answers[i + 1] is Ok);
                            }
                        }
                    }
                    if outcome matches Err(PipeError::Source(e)) {
                        assert forall|i: int| 0 <= i < forwarded.len() implies (
                        #[trigger] answers[i]) is Ok by {
                            if i > 0 {
                                assert(answers.drop_first()[i - 1] is Ok);
                            }
                        }
                    }
                } else {
                    assert(!(items[0] is Ok && answers[0] is Ok));
                }
            },
            Err(e) => {
                assert(!(items[0] is Ok));
            },
        }
    }
}

/// Why a broadcast receiver produced no value.
pub enum ReceiveFailure {
    /// Every sender is gone.
    Closed,
    /// The receiver fell behind and this many values were overwritten before it read them.
    Lagged(u64),
}

/// What a data receiver does after awaiting its channel.
pub enum ReceiveStep<T> {
    /// Hand this value to the processing module, then receive again if that succeeded.
    Process(T),
    /// Stop receiving; the receiver's run succeeded.
    Finish,
}

pub open spec fn receive_step_spec<T>(received: Result<T, ReceiveFailure>) -> ReceiveStep<T> {
    match received {
        Ok(v) => ReceiveStep::Process(v),
        Err(_) => ReceiveStep::Finish,
    }
}

/// Decides what a data receiver does with what its channel gave: a value is processed,
/// and any failure to receive, a lag as much as a closed channel, ends the run
/// successfully.
pub fn receive_step<T>(received: Result<T, ReceiveFailure>) -> (s: ReceiveStep<T>)
    ensures
        s == receive_step_spec(received),
        received matches Ok(v) ==> s == ReceiveStep::Process(v),
        received is Err ==> s == ReceiveStep::<T>::Finish,
{
    match received {
        Ok(v) => ReceiveStep::Process(v),
        Err(_) => ReceiveStep::Finish,
    }
}

pub open spec fn after_processing_spec<E>(answer: Result<(), E>) -> Option<E> {
    match answer {
        Ok(_) => None,
        Err(e) => Some(e),
    }
}

/// Decides what a data receiver does after its module processed a value: `None` means
/// receive the next value, `Some(e)` means stop with the module's error `e`.
pub fn after_processing<E>(answer: Result<(), E>) -> (s: Option<E>)
    ensures
        s == after_processing_spec(answer),
        answer is Ok ==> s is None,
        answer matches Err(e) ==> s == Some(e),
{
    match answer {
        Ok(_) => None,
        Err(e) => Some(e),
    }
}

/// A whole run of a data receiver whose channel yields `received`, where the module
/// answers the processing of `received[i]` with `answers[i]`: the values processed, in
/// order, and the run's result. A run ends at the first failure to receive, so
/// `received` is only read up to there.
pub open spec fn receive_run<T, E>(
    received: Seq<Result<T, ReceiveFailure>>,
    answers: Seq<Result<(), E>>,
) -> (Seq<T>, Result<(), E>)
    decreases received.len(),
{
    if received.len() == 0 {
        (Seq::empty(), Ok(()))
    } else {
        match receive_step_spec(received[0]) {
            ReceiveStep::Finish => (Seq::empty(), Ok(())),
            ReceiveStep::Process(v) => match after_processing_spec(answers[0]) {
                Some(e) => (seq![v], Err(e)),
                None => {
                    let rest = receive_run(received.drop_first(), answers.drop_first());
                    (seq![v] + rest.0, rest.1)
                },
            },
        }
    }
}

/// A data receiver processes the values it receives in the order they came, up to the
/// first failure to receive, which ends its run successfully (a lag as much as a closed
/// channel), or up to the first value its module fails on, which ends the run with that
/// error.
pub proof fn lemma_receiver_processes_in_order<T, E>(
    received: Seq<Result<T, ReceiveFailure>>,
    answers: Seq<Result<(), E>>,
)
    requires
        answers.len() == received.len(),
    ensures
        ({
            let (processed, outcome) = receive_run(received, answers);
            &&& processed.len() <= received.len()
            &&& forall|i: int|
                0 <= i < processed.len() ==> received[i] == Ok::<T, ReceiveFailure>(
                    #[trigger] processed[i],
                )
            &&& forall|i: int| 0 <= i < processed.len() - 1 ==> (#[trigger] answers[i]) is Ok
            &&& (outcome is Ok ==> processed.len() == received.len() || received[
                processed.len() as int] is Err)
            &&& (outcome is Ok ==> forall|i: int|
                0 <= i < processed.len() ==> (#[trigger] answers[i]) is Ok)
            &&& (outcome matches Err(e) ==> processed.len() >= 1 && answers[processed.len()
                - 1] == Err::<(), E>(e))
        }),
    decreases received.len(),
{
    if received.len() > 0 {
        lemma_receiver_processes_in_order(received.drop_first(), answers.drop_first());
        let rest = receive_run(received.drop_first(), answers.drop_first());
        let (processed, outcome) = receive_run(received, answers);
        if received[0] is Ok && answers[0] is Ok {
            assert(processed == seq![received[0]->Ok_0] + rest.0);
            assert forall|i: int| 0 <= i < processed.len() implies received[i] == Ok::<
                T,
                ReceiveFailure,
            >(#[trigger] processed[i]) by {
                if i > 0 {
                    assert(received.drop_first()[i - 1] == Ok::<T, ReceiveFailure>(
                        rest.0[i - 1],
                    ));
                }
            }
            assert forall|i: int| 0 <= i < processed.len() - 1 implies (
            #[trigger] answers[i]) is Ok by {
                if i > 0 {
                    assert(answers.drop_first()[i - 1] is Ok);
                }
            }
            if outcome is Ok {
                assert forall|i: int| 0 <= i < processed.len() implies (
                #[trigger] answers[i]) is Ok by {
                    if i > 0 {
                        assert(answers.drop_first()[i - 1] is Ok);
                    }
                }
                if processed.len() < received.len() {
                    assert(received.drop_first()[rest.0.len() as int] is Err);
                }
            }
        }
    }
}

/// A broadcast receiver together with the module that processes what it receives.
#[verifier::reject_recursive_types(T)]
pub struct DataReceiver<T, U> {
    pub receiver: tokio::sync::broadcast::Receiver<T>,
    pub processing_module: U,
}

impl<T, U> DataReceiver<T, U> {
    pub fn new(receiver: tokio::sync::broadcast::Receiver<T>, processing_module: U) -> (r: Self)
        ensures
            r.receiver == receiver,
            r.processing_module == processing_module,
    {
        DataReceiver { receiver, processing_module }
    }

    /// A data receiver on a new subscription to `sender`'s channel: it receives what is
    /// sent after this call.
    pub fn new_from_sender(sender: &tokio::sync::broadcast::Sender<T>, processing_module: U) -> (r:
        Self)
        ensures
            r.processing_module == processing_module,
    {
        DataReceiver { receiver: broadcast_subscribe(sender), processing_module }
    }
}

/// `trace` is one run of `maps` one after the other: `trace[k + 1]` is what `maps[k]`
/// gave back for `trace[k]`.
pub open spec fn is_map_trace<T, M: Fn(T) -> T>(maps: Seq<M>, trace: Seq<T>) -> bool {
    &&& trace.len() == maps.len() + 1
    &&& forall|k: int|
        #![trigger maps[k]]
        0 <= k < maps.len() ==> call_ensures(maps[k], (trace[k],), trace[k + 1])
}

/// A processing module that keeps a value only when every filter accepts it, and then
/// transforms it by each map in turn.
pub struct FilterMapProcessingModule<F, M> {
    pub filters: Vec<F>,
    pub maps: Vec<M>,
}

impl<F, M> FilterMapProcessingModule<F, M> {
    pub fn new(filters: Vec<F>, maps: Vec<M>) -> (r: Self)
        ensures
            r.filters == filters,
            r.maps == maps,
    {
        FilterMapProcessingModule { filters, maps }
    }

    /// Asks the filters in order whether to keep `value`, stopping at the first that
    /// refuses it (`None`); a value every filter accepted is passed through the maps in
    /// order and the last map's result is returned.
    pub fn process<T>(&self, value: T) -> (r: Option<T>) where
        F: Fn(&T) -> bool,
        M: Fn(T) -> T,

        requires
            forall|i: int| 0 <= i < self.filters.len() ==> call_requires(self.filters[i], (&value,)),
            forall|k: int, x: T| 0 <= k < self.maps.len() ==> call_requires(self.maps[k], (x,)),
        ensures
            r is None ==> exists|i: int|
                0 <= i < self.filters.len() && call_ensures(self.filters[i], (&value,), false)
                    && forall|j: int|
                    0 <= j < i ==> call_ensures(self.filters[j], (&value,), true),
            r matches Some(out) ==> {
                &&& forall|i: int|
                    0 <= i < self.filters.len() ==> call_ensures(self.filters[i], (&value,), true)
                &&& exists|trace: Seq<T>|
                    is_map_trace(self.maps@, trace) && trace[0] == value && trace.last() == out
            },
    {
        let mut i: usize = 0;
        while i < self.filters.len()
            invariant
                i <= self.filters.len(),
                forall|i: int|
                    0 <= i < self.filters.len() ==> call_requires(self.filters[i], (&value,)),
                forall|j: int| 0 <= j < i ==> call_ensures(self.filters[j], (&value,), true),
            decreases self.filters.len() - i,
        {
            let keep = (self.filters[i])(&value);
            if !keep {
                return None;
            }
            i += 1;
        }
        let ghost start = value;
        let ghost mut trace: Seq<T> = seq![value];
        let mut current = value;
        let mut k: usize = 0;
        while k < self.maps.len()
            invariant
                k <= self.maps.len(),
                forall|k: int, x: T| 0 <= k < self.maps.len() ==> call_requires(self.maps[k], (x,)),
                trace.len() == k + 1,
                trace[0] == start,
                trace.last() == current,
                forall|j: int|
                    #![trigger self.maps@[j]]
                    0 <= j < k ==> call_ensures(self.maps@[j], (trace[j],), trace[j + 1]),
            decreases self.maps.len() - k,
        {
            let next = (self.maps[k])(current);
            proof {
                trace = trace.push(next);
            }
            current = next;
            k += 1;
        }
        assert(is_map_trace(self.maps@, trace));
        Some(current)
    }
}

} // verus!
