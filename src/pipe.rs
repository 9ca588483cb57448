//! The decisions of the pipe that couples a source byte stream to an encoder
//! process: what to write to the encoder's input, what to hand the caller,
//! and when to stop the process. The caller runs both flows and reports
//! each thing that happens as an event.
use vstd::prelude::*;

verus! {

/// Something that happened on one of the two flows.
pub enum PipeEvent {
    /// The source produced these bytes.
    SourceData(Vec<u8>),
    /// The source is exhausted.
    SourceEnd,
    /// The encoder produced these bytes.
    EncodedData(Vec<u8>),
    /// The encoder closed its output.
    EncodedEnd,
    /// Reading, writing or waiting failed on either flow.
    Failed,
    /// The caller stopped consuming the output.
    Cancelled,
}

/// What to do next.
pub enum PipeAction {
    /// Write these bytes to the encoder's input.
    WriteInput(Vec<u8>),
    /// Close the encoder's input, so that it can flush and exit.
    CloseInput,
    /// Hand these encoded bytes to the caller.
    Deliver(Vec<u8>),
    /// The stream is complete.
    Finish,
    /// Report a transcode error and terminate the encoder.
    Fail,
    /// Terminate the encoder now.
    KillChild,
    /// Nothing to do.
    Nothing,
}

pub enum Event {
    SourceData(Seq<u8>),
    SourceEnd,
    EncodedData(Seq<u8>),
    EncodedEnd,
    Failed,
    Cancelled,
}

pub enum Action {
    WriteInput(Seq<u8>),
    CloseInput,
    Deliver(Seq<u8>),
    Finish,
    Fail,
    KillChild,
    Nothing,
}

pub open spec fn event_view(e: PipeEvent) -> Event {
    match e {
        PipeEvent::SourceData(b) => Event::SourceData(b@),
        PipeEvent::SourceEnd => Event::SourceEnd,
        PipeEvent::EncodedData(b) => Event::EncodedData(b@),
        PipeEvent::EncodedEnd => Event::EncodedEnd,
        PipeEvent::Failed => Event::Failed,
        PipeEvent::Cancelled => Event::Cancelled,
    }
}

pub open spec fn action_view(a: PipeAction) -> Action {
    match a {
        PipeAction::WriteInput(b) => Action::WriteInput(b@),
        PipeAction::CloseInput => Action::CloseInput,
        PipeAction::Deliver(b) => Action::Deliver(b@),
        PipeAction::Finish => Action::Finish,
        PipeAction::Fail => Action::Fail,
        PipeAction::KillChild => Action::KillChild,
        PipeAction::Nothing => Action::Nothing,
    }
}

#[derive(Clone, Copy, Debug, PartialEq, Eq, Structural)]
pub enum Phase {
    /// The encoder runs and both flows are live.
    Streaming,
    /// The encoder's output ended; the stream is complete.
    Finished,
    /// A flow failed and the encoder was stopped.
    Failed,
    /// The caller went away and the encoder was stopped.
    Killed,
}

#[derive(Clone, Copy, Debug, PartialEq, Eq, Structural)]
pub struct PipeState {
    pub phase: Phase,
    /// Whether the encoder's input is still open.
    pub input_open: bool,
}

pub open spec fn initial_pipe() -> PipeState {
    PipeState { phase: Phase::Streaming, input_open: true }
}

pub open spec fn pipe_step(s: PipeState, e: Event) -> (PipeState, Action) {
    if s.phase != Phase::Streaming {
        (s, Action::Nothing)
    } else {
        match e {
            Event::SourceData(b) => if s.input_open {
                (s, Action::WriteInput(b))
            } else {
                (s, Action::Nothing)
            },
            Event::SourceEnd => if s.input_open {
                (PipeState { input_open: false, ..s }, Action::CloseInput)
            } else {
                (s, Action::Nothing)
            },
            Event::EncodedData(b) => (s, Action::Deliver(b)),
            Event::EncodedEnd => (PipeState { phase: Phase::Finished, ..s }, Action::Finish),
            Event::Failed => (PipeState { phase: Phase::Failed, ..s }, Action::Fail),
            Event::Cancelled => (PipeState { phase: Phase::Killed, ..s }, Action::KillChild),
        }
    }
}

pub struct PipeAdapter {
    state: PipeState,
}

impl PipeAdapter {
    pub closed spec fn view(&self) -> PipeState {
        self.state
    }

    pub fn new() -> (r: PipeAdapter)
        ensures
            r@ == initial_pipe(),
    {
        PipeAdapter { state: PipeState { phase: Phase::Streaming, input_open: true } }
    }

    pub fn state(&self) -> (r: PipeState)
        ensures
            r == self@,
    {
        self.state
    }

    /// Decides what follows `event`. Once the stream has ended, failed or been
    /// cancelled nothing more is done; while it streams, a cancellation
    /// always stops the encoder.
    pub fn on_event(&mut self, event: PipeEvent) -> (r: PipeAction)
        ensures
            (final(self)@, action_view(r)) == pipe_step(old(self)@, event_view(event)),
            old(self)@.phase == Phase::Streaming && event is Cancelled ==> r is KillChild
                && final(self)@.phase == Phase::Killed,
    {
        if self.state.phase != Phase::Streaming {
            return PipeAction::Nothing;
        }
        match event {
            PipeEvent::SourceData(b) => if self.state.input_open {
                PipeAction::WriteInput(b)
            } else {
                PipeAction::Nothing
            },
            PipeEvent::SourceEnd => if self.state.input_open {
                self.state.input_open = false;
                PipeAction::CloseInput
            } else {
                PipeAction::Nothing
            },
            PipeEvent::EncodedData(b) => PipeAction::Deliver(b),
            PipeEvent::EncodedEnd => {
                self.state.phase = Phase::Finished;
                PipeAction::Finish
            },
            PipeEvent::Failed => {
                self.state.phase = Phase::Failed;
                PipeAction::Fail
            },
            PipeEvent::Cancelled => {
                self.state.phase = Phase::Killed;
                PipeAction::KillChild
            },
        }
    }
}

/// The state after a run of events, and the actions taken, in order.
pub open spec fn pipe_run(s: PipeState, es: Seq<Event>) -> (PipeState, Seq<Action>)
    decreases es.len(),
{
    if es.len() == 0 {
        (s, Seq::empty())
    } else {
        let (t, acts) = pipe_run(s, es.drop_last());
        let (u, a) = pipe_step(t, es.last());
        (u, acts.push(a))
    }
}

/// Every byte written to the encoder's input, in order.
pub open spec fn written(acts: Seq<Action>) -> Seq<u8>
    decreases acts.len(),
{
    if acts.len() == 0 {
        Seq::empty()
    } else {
        written(acts.drop_last()) + match acts.last() {
            Action::WriteInput(b) => b,
            _ => Seq::empty(),
        }
    }
}

/// Every byte the source produced, in order.
pub open spec fn sourced(es: Seq<Event>) -> Seq<u8>
    decreases es.len(),
{
    if es.len() == 0 {
        Seq::empty()
    } else {
        sourced(es.drop_last()) + match es.last() {
            Event::SourceData(b) => b,
            _ => Seq::empty(),
        }
    }
}

/// The events of a stream that is neither cancelled nor failed nor over,
/// with no source data after the source's end: output may come at any point.
pub open spec fn uninterrupted(es: Seq<Event>) -> bool {
    &&& forall|i: int|
        0 <= i < es.len() ==> !((#[trigger] es[i]) is EncodedEnd || es[i] is Failed
            || es[i] is Cancelled)
    &&& forall|i: int, j: int|
        0 <= i < j < es.len() && (#[trigger] es[i]) is SourceEnd ==> !((#[trigger] es[j]) is SourceData)
}

proof fn lemma_fidelity(es: Seq<Event>)
    requires
        uninterrupted(es),
    ensures
        written(pipe_run(initial_pipe(), es).1) == sourced(es),
        pipe_run(initial_pipe(), es).0.phase == Phase::Streaming,
        pipe_run(initial_pipe(), es).0.input_open <==> forall|i: int|
            0 <= i < es.len() ==> !((#[trigger] es[i]) is SourceEnd),
    decreases es.len(),
{
    if es.len() > 0 {
        let d = es.drop_last();
        assert(uninterrupted(d)) by {
            assert forall|i: int, j: int|
                0 <= i < j < d.len() && (#[trigger] d[i]) is SourceEnd implies !((#[trigger] d[j]) is SourceData) by {
                assert(d[i] == es[i] && d[j] == es[j]);
            }
            assert forall|i: int| 0 <= i < d.len() implies !((#[trigger] d[i]) is EncodedEnd
                || d[i] is Failed || d[i] is Cancelled) by {
                assert(d[i] == es[i]);
            }
        }
        lemma_fidelity(d);
        let last = es.len() - 1;
        assert(!(es[last] is EncodedEnd || es[last] is Failed || es[last] is Cancelled));
        let (t, acts) = pipe_run(initial_pipe(), d);
        let (u, a) = pipe_step(t, es.last());
        assert(acts.push(a).drop_last() =~= acts);
        if es.last() is SourceData {
            assert forall|i: int| 0 <= i < d.len() implies !((#[trigger] d[i]) is SourceEnd) by {
                assert(d[i] == es[i]);
            }
            assert(t.input_open);
        }
        assert((forall|i: int| 0 <= i < es.len() ==> !((#[trigger] es[i]) is SourceEnd)) <==> (
        forall|i: int| 0 <= i < d.len() ==> !((#[trigger] d[i]) is SourceEnd)) && !(
        es.last() is SourceEnd)) by {
            if forall|i: int| 0 <= i < d.len() ==> !((#[trigger] d[i]) is SourceEnd) {
                assert forall|i: int| 0 <= i < es.len() && !(es.last() is SourceEnd) implies !((
                #[trigger] es[i]) is SourceEnd) by {
                    if i < last {
                        assert(d[i] == es[i]);
                    }
                }
            }
            if forall|i: int| 0 <= i < es.len() ==> !((#[trigger] es[i]) is SourceEnd) {
                assert forall|i: int| 0 <= i < d.len() implies !((#[trigger] d[i]) is SourceEnd) by {
                    assert(d[i] == es[i]);
                }
                assert(!(es[last] is SourceEnd));
            }
        }
    }
}

/// What reaches the encoder's input is exactly what the source produced,
/// byte for byte and in order, however the source split it into chunks and
/// however encoded output was interleaved, for a stream that is not cut off.
/// Once the source ends and its end is passed on, the input is closed.
pub proof fn lemma_streaming_fidelity(es: Seq<Event>)
    requires
        uninterrupted(es),
    ensures
        written(pipe_run(initial_pipe(), es).1) == sourced(es),
        pipe_run(initial_pipe(), es).0.phase == Phase::Streaming,
        (exists|i: int| 0 <= i < es.len() && (#[trigger] es[i]) is SourceEnd) ==> !pipe_run(
            initial_pipe(),
            es,
        ).0.input_open,
{
    lemma_fidelity(es);
}

/// However a stream went before, a cancellation while it streams stops the
/// encoder, and after that no further byte is written to it.
pub proof fn lemma_cancel_stops(s: PipeState, later: Seq<Event>)
    requires
        s.phase == Phase::Streaming,
    ensures
        pipe_step(s, Event::Cancelled).1 == Action::KillChild,
        written(pipe_run(pipe_step(s, Event::Cancelled).0, later).1) == Seq::<u8>::empty(),
        pipe_run(pipe_step(s, Event::Cancelled).0, later).0.phase == Phase::Killed,
{
    lemma_quiet_after_stop(pipe_step(s, Event::Cancelled).0, later);
}

proof fn lemma_quiet_after_stop(s: PipeState, es: Seq<Event>)
    requires
        s.phase != Phase::Streaming,
    ensures
        written(pipe_run(s, es).1) == Seq::<u8>::empty(),
        pipe_run(s, es).0 == s,
    decreases es.len(),
{
    if es.len() > 0 {
        lemma_quiet_after_stop(s, es.drop_last());
        let acts = pipe_run(s, es.drop_last()).1;
        assert(acts.push(Action::Nothing).drop_last() =~= acts);
        assert(written(acts.push(Action::Nothing)) =~= written(acts));
    }
}

} // verus!
