//! Sending responses: a queue, one response under way, one write buffer.

use crate::buffer::{
    buffer_advance, buffer_as_slice, buffer_bytes, buffer_clear, buffer_extend, buffer_len, is_empty,
};
use crate::codec::Encode;
use crate::server::ServerFlowResponseHandle;
use crate::types::{Fragment, concat_data, fragment_views};
use bytes::BytesMut;
use std::collections::VecDeque;
use vstd::prelude::*;

verus! {

/// A response that is queued but not sent yet.
pub struct QueuedResponse<C: Encode> {
    pub handle: Option<ServerFlowResponseHandle>,
    pub response: C::Message,
}

/// A response that is being sent: its bytes are in the write buffer or already
/// written.
pub struct CurrentResponse<C: Encode> {
    pub handle: Option<ServerFlowResponseHandle>,
    pub response: C::Message,
}

/// A response was sent.
pub struct SendResponseEvent<C: Encode> {
    pub handle: Option<ServerFlowResponseHandle>,
    pub response: C::Message,
}

/// The sending side of a server.
pub struct SendResponseState<C: Encode> {
    codec: C,
    /// The responses that are sent next, first in, first out.
    queued_responses: VecDeque<QueuedResponse<C>>,
    /// The response that is being sent.
    current_response: Option<CurrentResponse<C>>,
    /// The bytes of the current response that are not written yet.
    write_buffer: BytesMut,
}

/// What a [`SendResponseState`] is, as a mathematical value.
pub struct SendResponseModel<C: Encode> {
    pub codec: C,
    pub queued: Seq<QueuedResponse<C>>,
    pub current: Option<CurrentResponse<C>>,
    pub write_buffer: Seq<u8>,
}

impl<C: Encode> SendResponseModel<C> {
    /// While no response is under way, nothing waits to be written.
    pub open spec fn wf(self) -> bool {
        self.current is None ==> self.write_buffer.len() == 0
    }

    pub open spec fn enqueue(self, handle: Option<ServerFlowResponseHandle>, response: C::Message) -> Self {
        SendResponseModel { queued: self.queued.push(QueuedResponse { handle, response }), ..self }
    }

    /// The state once the next queued response, if any, has been taken up: its
    /// whole encoding stands in the write buffer.
    pub open spec fn started(self) -> Self {
        if self.current is Some || self.queued.len() == 0 {
            self
        } else {
            let queued = self.queued.first();
            SendResponseModel {
                codec: self.codec,
                queued: self.queued.drop_first(),
                current: Some(CurrentResponse { handle: queued.handle, response: queued.response }),
                write_buffer: self.write_buffer + concat_data(
                    self.codec.fragments(&queued.response),
                ),
            }
        }
    }

    /// One call of `progress`: the state after it and the event it reports.
    pub open spec fn progress(self) -> (Self, Option<SendResponseEvent<C>>) {
        let started = self.started();
        match started.current {
            Some(current) if started.write_buffer.len() == 0 => (
                SendResponseModel { current: None, ..started },
                Some(SendResponseEvent { handle: current.handle, response: current.response }),
            ),
            _ => (started, None),
        }
    }

    /// The state after `count` bytes of the write buffer were written out.
    pub open spec fn consume_output(self, count: int) -> Self {
        SendResponseModel { write_buffer: self.write_buffer.skip(count), ..self }
    }
}

/// What can happen to a [`SendResponseState`] between its creation and now.
pub enum SendResponseStep<C: Encode> {
    /// `enqueue` was called.
    Enqueue { handle: Option<ServerFlowResponseHandle>, response: C::Message },
    /// `progress` was called.
    Progress,
    /// `consume_output` was called after `count` bytes were written.
    ConsumeOutput { count: int },
}

impl<C: Encode> SendResponseModel<C> {
    /// The state that `new` gives.
    pub open spec fn initial(codec: C) -> Self {
        SendResponseModel { codec, queued: Seq::empty(), current: None, write_buffer: Seq::empty() }
    }

    /// The responses that were enqueued and are not reported as sent: the one
    /// under way, then the queue.
    pub open spec fn pending(self) -> Seq<(Option<ServerFlowResponseHandle>, C::Message)> {
        let queued = self.queued.map_values(|queued: QueuedResponse<C>| (queued.handle, queued.response));
        match self.current {
            Some(current) => seq![(current.handle, current.response)] + queued,
            None => queued,
        }
    }

    /// One step: the state after it and the event it reports. A step that breaks
    /// the precondition of its function changes nothing.
    pub open spec fn step(self, step: SendResponseStep<C>) -> (Self, Option<SendResponseEvent<C>>) {
        match step {
            SendResponseStep::Enqueue { handle, response } => (self.enqueue(handle, response), None),
            SendResponseStep::Progress => self.progress(),
            SendResponseStep::ConsumeOutput { count } => if 0 <= count <= self.write_buffer.len() {
                (self.consume_output(count), None)
            } else {
                (self, None)
            },
        }
    }

    /// A whole history: the state after the steps and the events they reported,
    /// in order.
    pub open spec fn run(self, steps: Seq<SendResponseStep<C>>) -> (Self, Seq<SendResponseEvent<C>>)
        decreases steps.len(),
    {
        if steps.len() == 0 {
            (self, Seq::empty())
        } else {
            let (before, events) = self.run(steps.drop_last());
            let (after, event) = before.step(steps.last());
            (
                after,
                match event {
                    Some(event) => events.push(event),
                    None => events,
                },
            )
        }
    }

    /// The responses that a history enqueued, in order.
    pub open spec fn enqueued(steps: Seq<SendResponseStep<C>>) -> Seq<
        (Option<ServerFlowResponseHandle>, C::Message),
    >
        decreases steps.len(),
    {
        if steps.len() == 0 {
            Seq::empty()
        } else {
            let before = Self::enqueued(steps.drop_last());
            match steps.last() {
                SendResponseStep::Enqueue { handle, response } => before.push((handle, response)),
                _ => before,
            }
        }
    }

    /// The responses that events report as sent, in order.
    pub open spec fn sent(events: Seq<SendResponseEvent<C>>) -> Seq<
        (Option<ServerFlowResponseHandle>, C::Message),
    > {
        events.map_values(|event: SendResponseEvent<C>| (event.handle, event.response))
    }

    /// A step keeps the state well-formed, and what was reported as sent so far,
    /// followed by what is pending, grows only by what the step enqueues.
    pub proof fn lemma_step_keeps_order(self, step: SendResponseStep<C>)
        requires
            self.wf(),
        ensures
            self.step(step).0.wf(),
            ({
                let (after, event) = self.step(step);
                let sent_now = match event {
                    Some(event) => seq![(event.handle, event.response)],
                    None => Seq::empty(),
                };
                let enqueued_now = match step {
                    SendResponseStep::Enqueue { handle, response } => seq![(handle, response)],
                    _ => Seq::empty(),
                };
                sent_now + after.pending() == self.pending() + enqueued_now
            }),
    {
        let (after, event) = self.step(step);
        let f = |queued: QueuedResponse<C>| (queued.handle, queued.response);
        match step {
            SendResponseStep::Enqueue { handle, response } => {
                assert(after.queued.map_values(f) == self.queued.map_values(f).push(
                    (handle, response),
                ));
            },
            SendResponseStep::Progress => {
                let started = self.started();
                if self.current is None && self.queued.len() > 0 {
                    assert(self.queued.map_values(f) == seq![f(self.queued.first())]
                        + self.queued.drop_first().map_values(f));
                }
                assert(started.pending() == self.pending());
                assert(Seq::<(Option<ServerFlowResponseHandle>, C::Message)>::empty()
                    + after.pending() == after.pending());
            },
            SendResponseStep::ConsumeOutput { count } => {
                assert(Seq::<(Option<ServerFlowResponseHandle>, C::Message)>::empty()
                    + after.pending() == after.pending());
            },
        }
    }

    /// Every response is reported as sent at most once and in the order of
    /// enqueueing: after any history, the responses reported as sent, followed by
    /// those still pending, are exactly the responses enqueued, in that order.
    /// Once nothing is pending, each enqueued response was reported exactly once.
    pub proof fn lemma_sent_in_enqueue_order(codec: C, steps: Seq<SendResponseStep<C>>)
        ensures
            Self::initial(codec).run(steps).0.wf(),
            ({
                let (state, events) = Self::initial(codec).run(steps);
                Self::sent(events) + state.pending() == Self::enqueued(steps)
            }),
        decreases steps.len(),
    {
        let initial = Self::initial(codec);
        let g = |event: SendResponseEvent<C>| (event.handle, event.response);
        if steps.len() == 0 {
            assert(initial.pending() == Seq::<(Option<ServerFlowResponseHandle>, C::Message)>::empty());
            assert(Self::sent(Seq::empty()) + initial.pending() == Self::enqueued(steps));
        } else {
            Self::lemma_sent_in_enqueue_order(codec, steps.drop_last());
            let (before, events) = initial.run(steps.drop_last());
            before.lemma_step_keeps_order(steps.last());
            let (after, event) = before.step(steps.last());
            match event {
                Some(event) => {
                    assert(events.push(event).map_values(g) == events.map_values(g) + seq![g(event)]);
                },
                None => {},
            }
            let sent_before = Self::sent(events);
            let sent_now = match event {
                Some(event) => seq![(event.handle, event.response)],
                None => Seq::empty(),
            };
            let enqueued_now = match steps.last() {
                SendResponseStep::Enqueue { handle, response } => seq![(handle, response)],
                _ => Seq::empty(),
            };
            assert(Self::sent(initial.run(steps).1) == sent_before + sent_now);
            assert(Self::enqueued(steps) == Self::enqueued(steps.drop_last()) + enqueued_now);
            assert((sent_before + sent_now) + after.pending() == sent_before + (sent_now
                + after.pending()));
            assert(sent_before + (before.pending() + enqueued_now) == (sent_before
                + before.pending()) + enqueued_now);
        }
    }

    /// While bytes wait to be written, `progress` changes nothing and reports
    /// nothing, however often it is called: giving up on a write and coming back
    /// later loses no byte and no event.
    pub proof fn lemma_progress_waits_for_output(self)
        requires
            self.wf(),
            self.progress().0.write_buffer.len() > 0,
        ensures
            self.progress().1 is None,
            self.progress().0.progress() == self.progress(),
    {
    }

    /// Writing the output in two parts leaves the same state as writing it at
    /// once.
    pub proof fn lemma_partial_writes_compose(self, first: int, second: int)
        requires
            0 <= first,
            0 <= second,
            first + second <= self.write_buffer.len(),
        ensures
            self.consume_output(first).consume_output(second) == self.consume_output(
                first + second,
            ),
    {
        assert(self.write_buffer.skip(first).skip(second) == self.write_buffer.skip(first + second));
    }
}

impl<C: Encode> View for SendResponseState<C> {
    type V = SendResponseModel<C>;

    closed spec fn view(&self) -> SendResponseModel<C> {
        SendResponseModel {
            codec: self.codec,
            queued: self.queued_responses@,
            current: self.current_response,
            write_buffer: buffer_bytes(self.write_buffer),
        }
    }
}

/// Appends the bytes of every fragment to the buffer.
pub(crate) fn push_fragments(write_buffer: &mut BytesMut, fragments: &Vec<Fragment>)
    ensures
        buffer_bytes(*final(write_buffer)) == buffer_bytes(*old(write_buffer)) + concat_data(
            fragment_views(fragments@),
        ),
{
    let ghost views = fragment_views(fragments@);
    let mut i: usize = 0;
    while i < fragments.len()
        invariant
            i <= fragments.len(),
            views == fragment_views(fragments@),
            buffer_bytes(*write_buffer) == buffer_bytes(*old(write_buffer)) + concat_data(
                views.take(i as int),
            ),
        decreases fragments.len() - i,
    {
        proof {
            assert(views.take(i + 1).drop_last() == views.take(i as int));
            assert(views.take(i + 1).last() == fragments@[i as int]@);
        }
        match &fragments[i] {
            Fragment::Line { data } => buffer_extend(write_buffer, data.as_slice()),
            // A server never waits before it sends a literal.
            Fragment::Literal { data, .. } => buffer_extend(write_buffer, data.as_slice()),
        }
        i += 1;
    }
    proof {
        assert(views.take(i as int) == views);
    }
}

impl<C: Encode> QueuedResponse<C> {
    /// Starts sending: the whole encoding of the response goes to the buffer.
    pub fn push_to_buffer(self, write_buffer: &mut BytesMut, codec: &C) -> (current:
        CurrentResponse<C>)
        ensures
            current.handle == self.handle,
            current.response == self.response,
            buffer_bytes(*final(write_buffer)) == buffer_bytes(*old(write_buffer)) + concat_data(
                codec.fragments(&self.response),
            ),
    {
        let fragments = codec.encode(&self.response);
        push_fragments(write_buffer, &fragments);
        CurrentResponse { handle: self.handle, response: self.response }
    }
}

impl<C: Encode> SendResponseState<C> {
    /// A state with nothing queued. The write buffer handed in must be empty.
    pub fn new(codec: C, write_buffer: BytesMut) -> (state: Self)
        requires
            buffer_bytes(write_buffer).len() == 0,
        ensures
            state@.wf(),
            state@.codec == codec,
            state@.queued.len() == 0,
            state@.current is None,
            state@.write_buffer == buffer_bytes(write_buffer),
    {
        SendResponseState {
            codec,
            queued_responses: VecDeque::new(),
            current_response: None,
            write_buffer,
        }
    }

    /// A state with nothing queued, where the write buffer handed in is empty.
    /// A buffer that holds bytes comes back untouched, together with the codec.
    pub fn try_new(codec: C, write_buffer: BytesMut) -> (result: Result<Self, (C, BytesMut)>)
        ensures
            match result {
                Ok(state) => buffer_bytes(write_buffer).len() == 0 && state@.wf() && state@
                    == SendResponseModel::initial(codec),
                Err((codec_back, buffer_back)) => buffer_bytes(write_buffer).len() > 0
                    && codec_back == codec && buffer_back == write_buffer,
            },
    {
        if is_empty(&write_buffer) {
            let state = Self::new(codec, write_buffer);
            assert(state@.queued == Seq::<QueuedResponse<C>>::empty());
            assert(state@.write_buffer == Seq::<u8>::empty());
            Ok(state)
        } else {
            Err((codec, write_buffer))
        }
    }

    /// Queues a response behind those already queued.
    pub fn enqueue(&mut self, handle: Option<ServerFlowResponseHandle>, response: C::Message)
        requires
            old(self)@.wf(),
        ensures
            final(self)@ == old(self)@.enqueue(handle, response),
            final(self)@.wf(),
    {
        self.queued_responses.push_back(QueuedResponse { handle, response });
    }

    /// Gives the write buffer back, emptied.
    pub fn finish(self) -> (write_buffer: BytesMut)
        ensures
            buffer_bytes(write_buffer).len() == 0,
    {
        let mut write_buffer = self.write_buffer;
        buffer_clear(&mut write_buffer);
        write_buffer
    }

    /// The bytes that wait to be written to the stream.
    pub fn output(&self) -> (bytes: &[u8])
        ensures
            bytes@ == self@.write_buffer,
    {
        buffer_as_slice(&self.write_buffer)
    }

    /// Records that the first `count` bytes of [`Self::output`] were written.
    pub fn consume_output(&mut self, count: usize)
        requires
            old(self)@.wf(),
            count <= old(self)@.write_buffer.len(),
        ensures
            final(self)@ == old(self)@.consume_output(count as int),
            final(self)@.wf(),
    {
        buffer_advance(&mut self.write_buffer, count);
    }

    /// Takes up the next response if none is under way, and reports the current
    /// one as sent once all its bytes were written. While bytes wait in
    /// [`Self::output`], nothing is reported.
    pub fn progress(&mut self) -> (event: Option<SendResponseEvent<C>>)
        requires
            old(self)@.wf(),
        ensures
            (final(self)@, event) == old(self)@.progress(),
            final(self)@.wf(),
    {
        if self.current_response.is_none() {
            match self.queued_responses.pop_front() {
                None => {
                    return None;
                },
                Some(queued_response) => {
                    let current = queued_response.push_to_buffer(
                        &mut self.write_buffer,
                        &self.codec,
                    );
                    self.current_response = Some(current);
                },
            }
        }
        if buffer_len(&self.write_buffer) > 0 {
            return None;
        }
        match self.current_response.take() {
            Some(current) => Some(
                SendResponseEvent { handle: current.handle, response: current.response },
            ),
            None => None,
        }
    }
}

} // verus!
