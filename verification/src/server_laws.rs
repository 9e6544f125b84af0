//! What holds of every history of a [`ServerFlow`](crate::server::ServerFlow).

use crate::codec::{CommandDecodeError, response_from};
use crate::receive::ReceiveEvent;
use crate::send::SendResponseStep;
use crate::server::{
    NextExpectedMessage, ServerFlowEvent, ServerFlowModel, ServerFlowOutcome,
    ServerFlowResponseHandle, ServerReceiveModel,
};
use crate::types::ResponseParts;
use imap_types::response::{CommandContinuationRequest, Response, Status};
use vstd::prelude::*;

verus! {

/// What can happen to a server between the greeting and now.
pub enum ServerFlowStep {
    /// `enqueue_data`, `enqueue_status` or `enqueue_continuation` was called.
    Enqueue { parts: ResponseParts },
    /// `enqueue_input` was called with bytes read from the stream.
    EnqueueInput { bytes: Seq<u8> },
    /// `consume_output` was called after `count` bytes were written.
    ConsumeOutput { count: int },
    /// `authenticate_continue` was called.
    AuthenticateContinue { continuation: CommandContinuationRequest<'static> },
    /// `authenticate_finish` was called.
    AuthenticateFinish { status: Status<'static> },
    /// `progress` was called.
    Progress,
}

/// The response that an outcome of `progress` reports as sent.
pub open spec fn sent_by(outcome: ServerFlowOutcome) -> Seq<ServerFlowResponseHandle> {
    match outcome {
        ServerFlowOutcome::Event(ServerFlowEvent::ResponseSent { handle, .. }) => seq![handle],
        _ => Seq::empty(),
    }
}

/// The handles of the responses that the user enqueued, in order. The
/// responses that the server makes itself have none.
pub open spec fn handles(
    responses: Seq<(Option<ServerFlowResponseHandle>, Response<'static>)>,
) -> Seq<ServerFlowResponseHandle>
    decreases responses.len(),
{
    if responses.len() == 0 {
        Seq::empty()
    } else {
        let before = handles(responses.drop_last());
        match responses.last().0 {
            Some(handle) => before.push(handle),
            None => before,
        }
    }
}

/// The handles of two sequences of responses, one after the other, are the
/// handles of the one followed by the handles of the other.
pub proof fn lemma_handles_of_both(
    first: Seq<(Option<ServerFlowResponseHandle>, Response<'static>)>,
    second: Seq<(Option<ServerFlowResponseHandle>, Response<'static>)>,
)
    ensures
        handles(first + second) == handles(first) + handles(second),
    decreases second.len(),
{
    if second.len() == 0 {
        assert(first + second == first);
        assert(handles(first) + Seq::<ServerFlowResponseHandle>::empty() == handles(first));
    } else {
        lemma_handles_of_both(first, second.drop_last());
        assert((first + second).drop_last() == first + second.drop_last());
        assert((first + second).last() == second.last());
        match second.last().0 {
            Some(handle) => {
                assert((handles(first) + handles(second.drop_last())).push(handle) == handles(
                    first,
                ) + handles(second.drop_last()).push(handle));
            },
            None => {},
        }
    }
}

impl ServerFlowModel {
    /// The handles of the responses that wait to be reported as sent.
    pub open spec fn pending(self) -> Seq<ServerFlowResponseHandle> {
        handles(self.send.pending())
    }

    /// One step: the state after it, the handle of the response that the step
    /// reports as sent, and the handle that it issues. A step that breaks the
    /// precondition of its function changes nothing.
    pub open spec fn step(self, step: ServerFlowStep) -> (
        Self,
        Seq<ServerFlowResponseHandle>,
        Seq<ServerFlowResponseHandle>,
    ) {
        match step {
            ServerFlowStep::Enqueue { parts } => (
                self.enqueue(parts).0,
                Seq::empty(),
                seq![self.enqueue(parts).1],
            ),
            ServerFlowStep::EnqueueInput { bytes } => (
                ServerFlowModel { receive: self.receive.enqueue_input(bytes), ..self },
                Seq::empty(),
                Seq::empty(),
            ),
            ServerFlowStep::ConsumeOutput { count } => (
                if 0 <= count <= self.send.write_buffer.len() {
                    ServerFlowModel { send: self.send.consume_output(count), ..self }
                } else {
                    self
                },
                Seq::empty(),
                Seq::empty(),
            ),
            ServerFlowStep::AuthenticateContinue {
                continuation,
            } => match self.next_expected_message {
                NextExpectedMessage::AuthenticateData => (
                    self.enqueue(ResponseParts::CommandContinuationRequest(continuation)).0,
                    Seq::empty(),
                    seq![self.enqueue(ResponseParts::CommandContinuationRequest(continuation)).1],
                ),
                NextExpectedMessage::Command => (self, Seq::empty(), Seq::empty()),
            },
            ServerFlowStep::AuthenticateFinish { status } => match self.next_expected_message {
                NextExpectedMessage::AuthenticateData => {
                    let (enqueued, issued) = self.enqueue(ResponseParts::Status(status));
                    (
                        ServerFlowModel {
                            next_expected_message: NextExpectedMessage::Command,
                            receive: enqueued.receive.change_state(NextExpectedMessage::Command),
                            ..enqueued
                        },
                        Seq::empty(),
                        seq![issued],
                    )
                },
                NextExpectedMessage::Command => (self, Seq::empty(), Seq::empty()),
            },
            ServerFlowStep::Progress => (
                self.progress().0,
                sent_by(self.progress().1),
                Seq::empty(),
            ),
        }
    }

    /// A whole history: the state after the steps, the handles of the responses
    /// reported as sent, in the order of the reports, and the handles issued, in
    /// the order of enqueueing.
    pub open spec fn run(self, steps: Seq<ServerFlowStep>) -> (
        Self,
        Seq<ServerFlowResponseHandle>,
        Seq<ServerFlowResponseHandle>,
    )
        decreases steps.len(),
    {
        if steps.len() == 0 {
            (self, Seq::empty(), Seq::empty())
        } else {
            let (before, sent, issued) = self.run(steps.drop_last());
            let (after, sent_now, issued_now) = before.step(steps.last());
            (after, sent + sent_now, issued + issued_now)
        }
    }

    /// A response that is enqueued waits behind all others, and one that the
    /// server makes itself is not among the responses of the user.
    pub proof fn lemma_enqueue_keeps_order(
        self,
        key: Option<ServerFlowResponseHandle>,
        response: Response<'static>,
    )
        ensures
            handles(self.send.enqueue(key, response).pending()) == match key {
                Some(handle) => self.pending().push(handle),
                None => self.pending(),
            },
            self.send.wf() ==> self.send.enqueue(key, response).wf(),
    {
        let after = self.send.enqueue(key, response);
        assert(after.pending() == self.send.pending().push((key, response)));
        assert(after.pending().drop_last() == self.send.pending());
    }

    /// One step of sending reports at most the first pending response of the
    /// user, and says so.
    pub proof fn lemma_progress_send_keeps_order(self)
        requires
            self.send.wf(),
        ensures
            self.progress_send().0.send.wf(),
            ({
                let (after, event) = self.progress_send();
                let sent = match event {
                    Some(event) => sent_by(ServerFlowOutcome::Event(event)),
                    None => Seq::empty(),
                };
                sent + after.pending() == self.pending()
            }),
    {
        self.send.lemma_step_keeps_order(SendResponseStep::Progress);
        let (send, sent) = self.send.progress();
        let none = Seq::<(Option<ServerFlowResponseHandle>, Response<'static>)>::empty();
        assert(self.send.pending() + none == self.send.pending());
        match sent {
            Some(sent) => {
                lemma_handles_of_both(seq![sent], send.pending());
                assert(seq![sent].drop_last() == none);
                assert(handles(seq![sent].drop_last()) == Seq::<ServerFlowResponseHandle>::empty());
                match sent.0 {
                    Some(handle) => {
                        assert(Seq::<ServerFlowResponseHandle>::empty().push(handle)
                            == seq![handle]);
                    },
                    None => {
                        assert(Seq::<ServerFlowResponseHandle>::empty() + handles(send.pending())
                            == handles(send.pending()));
                    },
                }
            },
            None => {
                assert(none + send.pending() == send.pending());
                assert(Seq::<ServerFlowResponseHandle>::empty() + handles(send.pending())
                    == handles(send.pending()));
            },
        }
    }

    /// A round of receiving reports no response as sent and leaves the
    /// responses of the user as they are.
    pub proof fn lemma_progress_receive_keeps_order(self)
        requires
            self.send.wf(),
        ensures
            self.progress_receive().0.send.wf(),
            self.progress_receive().0.pending() == self.pending(),
            self.progress_receive().1 matches Some(outcome) ==> sent_by(outcome)
                == Seq::<ServerFlowResponseHandle>::empty(),
    {
        match self.receive {
            ServerReceiveModel::Command(state, spare) => {
                let (receive, event) = state.progress();
                match event {
                    Some(
                        ReceiveEvent::DecodingFailure(
                            CommandDecodeError::LiteralFound { tag, length, mode },
                        ),
                    ) => {
                        let response = self.handle_command(
                            receive,
                            spare,
                            event->Some_0,
                        ).0.send.queued.last().1;
                        self.lemma_enqueue_keeps_order(None, response);
                    },
                    _ => {},
                }
            },
            _ => {},
        }
    }

    /// A call of `progress` reports at most the first pending response of the
    /// user, and says so.
    pub proof fn lemma_progress_keeps_order(self)
        requires
            self.wf(),
        ensures
            self.progress().0.wf(),
            sent_by(self.progress().1) + self.progress().0.pending() == self.pending(),
        decreases self.receive.unseen(), self.send.pending().len(),
    {
        let none = Seq::<ServerFlowResponseHandle>::empty();
        self.lemma_progress_send_keeps_order();
        self.lemma_progress_send();
        let (sent, event) = self.progress_send();
        assert(none + sent.pending() == sent.pending());
        if event is None && sent.send.write_buffer.len() == 0 {
            if sent.send.pending().len() > 0 {
                sent.lemma_progress_keeps_order();
            } else {
                sent.lemma_progress_receive();
                sent.lemma_progress_receive_keeps_order();
                let (received, step) = sent.progress_receive();
                assert(none + received.pending() == received.pending());
                if step is None && 0 <= received.receive.unseen() < self.receive.unseen() {
                    received.lemma_progress_keeps_order();
                }
            }
        }
    }

    /// A call of `progress` that asks for a write or a read can be given up and
    /// made again: as long as nothing was written, read or enqueued meanwhile,
    /// the next call changes nothing and asks for the same. No byte and no event
    /// is lost by asking twice.
    pub proof fn lemma_progress_comes_to_rest(self)
        requires
            self.wf(),
            self.progress().1 is Output || self.progress().1 is Input,
        ensures
            self.progress().0.progress() == self.progress(),
        decreases self.receive.unseen(), self.send.pending().len(),
    {
        let (sent, event) = self.progress_send();
        self.lemma_progress_send_keeps_order();
        self.lemma_progress_send();
        if event is None {
            if sent.send.write_buffer.len() > 0 {
                self.send.lemma_progress_comes_to_rest();
            } else if sent.send.pending().len() > 0 {
                sent.lemma_progress_comes_to_rest();
            } else {
                assert(sent.progress_send() == (sent, None::<ServerFlowEvent>));
                sent.lemma_progress_receive();
                sent.lemma_progress_receive_keeps_order();
                let (received, step) = sent.progress_receive();
                match step {
                    Some(outcome) => {
                        match sent.receive {
                            ServerReceiveModel::Command(state, _) => {
                                state.lemma_progress_sees_more();
                                state.lemma_progress_comes_to_rest();
                            },
                            ServerReceiveModel::AuthenticateData(state, _) => {
                                state.lemma_progress_sees_more();
                                state.lemma_progress_comes_to_rest();
                            },
                            ServerReceiveModel::Dummy => {},
                        }
                        assert(received.send == sent.send);
                        assert(received.progress_send() == (received, None::<ServerFlowEvent>));
                    },
                    None => {
                        received.lemma_progress_comes_to_rest();
                    },
                }
            }
        }
    }

    /// Every step keeps the state well-formed, and what it reports as sent,
    /// followed by what is pending after it, is what was pending before,
    /// followed by what the step issues.
    pub proof fn lemma_step_keeps_order(self, step: ServerFlowStep)
        requires
            self.wf(),
        ensures
            self.step(step).0.wf(),
            self.step(step).1 + self.step(step).0.pending() == self.pending() + self.step(step).2,
    {
        let none = Seq::<ServerFlowResponseHandle>::empty();
        let after = self.step(step).0;
        assert(none + after.pending() == after.pending());
        assert(self.pending() + none == self.pending());
        match step {
            ServerFlowStep::Enqueue { parts } => {
                self.lemma_enqueue_keeps_order(Some(self.enqueue(parts).1), response_from(parts));
            },
            ServerFlowStep::EnqueueInput { bytes } => {},
            ServerFlowStep::ConsumeOutput { count } => {},
            ServerFlowStep::AuthenticateContinue { continuation } => {
                let parts = ResponseParts::CommandContinuationRequest(continuation);
                self.lemma_enqueue_keeps_order(Some(self.enqueue(parts).1), response_from(parts));
            },
            ServerFlowStep::AuthenticateFinish { status } => {
                let parts = ResponseParts::Status(status);
                self.lemma_enqueue_keeps_order(Some(self.enqueue(parts).1), response_from(parts));
            },
            ServerFlowStep::Progress => {
                self.lemma_progress_keeps_order();
            },
        }
    }

    /// Every response that the user enqueues at a server is reported as sent at
    /// most once, and the reports come in the order of enqueueing; the responses
    /// that the server makes itself, to ask for a literal or to refuse one, are
    /// never reported. After any history of a server that began with nothing to
    /// send, the handles reported as sent, followed by those of the responses
    /// that are still pending, are exactly the handles issued, in that order.
    /// Once nothing is pending, each response was reported as sent exactly once.
    pub proof fn lemma_responses_are_sent_in_enqueue_order(self, steps: Seq<ServerFlowStep>)
        requires
            self.wf(),
            self.send.current is None,
            self.send.queued.len() == 0,
        ensures
            self.run(steps).0.wf(),
            self.run(steps).1 + self.run(steps).0.pending() == self.run(steps).2,
        decreases steps.len(),
    {
        if steps.len() == 0 {
            assert(self.pending() == Seq::<ServerFlowResponseHandle>::empty());
        } else {
            self.lemma_responses_are_sent_in_enqueue_order(steps.drop_last());
            let (before, sent, issued) = self.run(steps.drop_last());
            before.lemma_step_keeps_order(steps.last());
            let (after, sent_now, issued_now) = before.step(steps.last());
            assert((sent + sent_now) + after.pending() == sent + (sent_now + after.pending()));
            assert(sent + (before.pending() + issued_now) == (sent + before.pending())
                + issued_now);
        }
    }
}

} // verus!
