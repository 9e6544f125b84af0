//! What holds of every history of a [`ClientFlow`](crate::client::ClientFlow).

use crate::client::{ClientFlowCommandHandle, ClientFlowEvent, ClientFlowModel, ClientFlowOutcome};
use crate::codec::{ResponseDecodeError, response_parts, status_tagged};
use crate::receive::ReceiveEvent;
use crate::send_command_laws::SendCommandStep;
use crate::types::ResponseParts;
use imap_types::auth::AuthenticateData;
use imap_types::command::Command;
use imap_types::response::Response;
use vstd::prelude::*;

verus! {

/// What can happen to a client between the greeting and now.
pub enum ClientFlowStep {
    /// `enqueue_command` was called.
    EnqueueCommand { command: Command<'static> },
    /// `enqueue_input` was called with bytes read from the stream.
    EnqueueInput { bytes: Seq<u8> },
    /// `consume_output` was called after `count` bytes were written.
    ConsumeOutput { count: int },
    /// `set_authenticate_data` was called.
    SetAuthenticateData { authenticate_data: AuthenticateData<'static> },
    /// `set_idle_done` was called.
    SetIdleDone,
    /// `progress` was called.
    Progress,
}

/// The command that an event reports as over: sent, rejected, or, for an
/// AUTHENTICATE or an IDLE, ended by the server or by `DONE`.
pub open spec fn ended_by(outcome: Option<ClientFlowOutcome>) -> Seq<ClientFlowCommandHandle> {
    match outcome {
        Some(ClientFlowOutcome::Event(event)) => match event {
            ClientFlowEvent::CommandSent { handle, .. } => seq![handle],
            ClientFlowEvent::CommandRejected { handle, .. } => seq![handle],
            ClientFlowEvent::AuthenticateAccepted { handle, .. } => seq![handle],
            ClientFlowEvent::AuthenticateRejected { handle, .. } => seq![handle],
            ClientFlowEvent::IdleRejected { handle, .. } => seq![handle],
            ClientFlowEvent::IdleDoneSent { handle } => seq![handle],
            _ => Seq::empty(),
        },
        _ => Seq::empty(),
    }
}

impl ClientFlowModel {
    /// One step: the state after it, the handle of the command that the step
    /// reports as over, and the handle that it issues. A step that breaks the
    /// precondition of its function changes nothing.
    pub open spec fn step(self, step: ClientFlowStep) -> (
        Self,
        Seq<ClientFlowCommandHandle>,
        Seq<ClientFlowCommandHandle>,
    ) {
        match step {
            ClientFlowStep::EnqueueCommand { command } => (
                self.enqueue_command(command).0,
                Seq::empty(),
                seq![self.enqueue_command(command).1],
            ),
            ClientFlowStep::EnqueueInput { bytes } => (
                ClientFlowModel { receive: self.receive.enqueue_input(bytes), ..self },
                Seq::empty(),
                Seq::empty(),
            ),
            ClientFlowStep::ConsumeOutput { count } => (
                if 0 <= count <= self.send.write_buffer.len() {
                    ClientFlowModel { send: self.send.consume_output(count), ..self }
                } else {
                    self
                },
                Seq::empty(),
                Seq::empty(),
            ),
            ClientFlowStep::SetAuthenticateData { authenticate_data } => (
                ClientFlowModel {
                    send: self.send.set_authenticate_data(authenticate_data).0,
                    ..self
                },
                Seq::empty(),
                Seq::empty(),
            ),
            ClientFlowStep::SetIdleDone => (
                ClientFlowModel { send: self.send.set_idle_done().0, ..self },
                Seq::empty(),
                Seq::empty(),
            ),
            ClientFlowStep::Progress => (
                self.progress().0,
                ended_by(Some(self.progress().1)),
                Seq::empty(),
            ),
        }
    }

    /// A whole history: the state after the steps, the handles of the commands
    /// reported as over, in the order of the reports, and the handles issued, in
    /// the order of enqueueing.
    pub open spec fn run(self, steps: Seq<ClientFlowStep>) -> (
        Self,
        Seq<ClientFlowCommandHandle>,
        Seq<ClientFlowCommandHandle>,
    )
        decreases steps.len(),
    {
        if steps.len() == 0 {
            (self, Seq::empty(), Seq::empty())
        } else {
            let (before, ended, issued) = self.run(steps.drop_last());
            let (after, ended_now, issued_now) = before.step(steps.last());
            (after, ended + ended_now, issued + issued_now)
        }
    }

    /// A response ends at most the command under way, and says so.
    pub proof fn lemma_handle_response_keeps_order(self, response: Response<'static>)
        ensures
            ({
                let (after, event) = self.handle_response(response);
                let outcome = match event {
                    Some(event) => Some(ClientFlowOutcome::Event(event)),
                    None => None,
                };
                ended_by(outcome) + after.send.pending() == self.send.pending()
            }),
    {
        let none = Seq::<ClientFlowCommandHandle>::empty();
        assert(none + self.send.pending() == self.send.pending());
        match response_parts(response) {
            ResponseParts::Status(status) => {
                self.send.lemma_step_keeps_order(
                    SendCommandStep::MaybeRemove { tagged: status_tagged(status) },
                );
                assert(self.send.pending() + none == self.send.pending());
            },
            ResponseParts::Data(_) => {},
            ResponseParts::CommandContinuationRequest(_) => {
                self.send.lemma_step_keeps_order(SendCommandStep::LiteralContinue);
                self.send.lemma_step_keeps_order(SendCommandStep::AuthenticateContinue);
                self.send.lemma_step_keeps_order(SendCommandStep::IdleContinue);
                assert(self.send.pending() + none == self.send.pending());
            },
        }
    }

    /// A round of receiving ends at most the command under way, and says so.
    pub proof fn lemma_progress_receive_keeps_order(self)
        requires
            self.wf(),
        ensures
            ended_by(self.progress_receive().1) + self.progress_receive().0.send.pending()
                == self.send.pending(),
        decreases self.unseen(),
    {
        let none = Seq::<ClientFlowCommandHandle>::empty();
        assert(none + self.send.pending() == self.send.pending());
        self.receive.lemma_progress_sees_more();
        let (receive, event) = self.receive.progress();
        match event {
            Some(ReceiveEvent::DecodingSuccess(response)) => {
                ClientFlowModel {
                    receive: receive.finish_message(),
                    ..self
                }.lemma_handle_response_keeps_order(response);
            },
            Some(ReceiveEvent::DecodingFailure(ResponseDecodeError::LiteralFound { length })) => {
                let next = ClientFlowModel { receive: receive.start_literal(length), ..self };
                if 0 <= next.unseen() < self.unseen() {
                    next.lemma_progress_receive_keeps_order();
                }
            },
            _ => {},
        }
    }

    /// A call of `progress` ends at most the command under way, and says so.
    pub proof fn lemma_progress_keeps_order(self)
        requires
            self.wf(),
        ensures
            self.progress().0.wf(),
            ended_by(Some(self.progress().1)) + self.progress().0.send.pending()
                == self.send.pending(),
        decreases self.receive.read_buffer.len(),
    {
        let none = Seq::<ClientFlowCommandHandle>::empty();
        self.lemma_event_makes_progress();
        self.send.lemma_step_keeps_order(SendCommandStep::Progress);
        assert(self.send.pending() + none == self.send.pending());
        let (sent, event) = self.progress_send();
        assert(none + sent.send.pending() == sent.send.pending());
        if event is None && sent.send.write_buffer.len() == 0 {
            sent.lemma_progress_receive();
            sent.lemma_progress_receive_keeps_order();
            let (received, step) = sent.progress_receive();
            assert(none + received.send.pending() == received.send.pending());
            if step is None && received.receive.read_buffer.len() < self.receive.read_buffer.len() {
                received.lemma_progress_keeps_order();
            }
        }
    }

    /// A round of receiving that asks for input leaves a state in which the
    /// next round changes nothing and asks for input again.
    pub proof fn lemma_progress_receive_comes_to_rest(self)
        requires
            self.wf(),
            self.progress_receive().1 == Some(ClientFlowOutcome::Input),
        ensures
            self.progress_receive().0.progress_receive() == (
                self.progress_receive().0,
                Some(ClientFlowOutcome::Input),
            ),
            self.progress_receive().0.send == self.send,
        decreases self.unseen(),
    {
        self.receive.lemma_progress_sees_more();
        let (receive, event) = self.receive.progress();
        match event {
            None => {
                self.receive.lemma_progress_comes_to_rest();
            },
            Some(ReceiveEvent::DecodingSuccess(response)) => {},
            Some(ReceiveEvent::DecodingFailure(ResponseDecodeError::LiteralFound { length })) => {
                let next = ClientFlowModel { receive: receive.start_literal(length), ..self };
                next.lemma_progress_receive_comes_to_rest();
            },
            _ => {},
        }
    }

    /// A call of `progress` that asks for a write or a read can be given up and
    /// made again: as long as nothing was written, read or enqueued meanwhile,
    /// the next call changes nothing and asks for the same. No byte and no event
    /// is lost by asking twice.
    pub proof fn lemma_progress_comes_to_rest(self)
        requires
            self.wf(),
            self.progress().1 is Output || self.progress().1 is Input,
        ensures
            self.progress().0.progress() == self.progress(),
        decreases self.receive.read_buffer.len(),
    {
        let (sent, event) = self.progress_send();
        if event is None {
            self.send.lemma_progress_comes_to_rest();
            if sent.send.write_buffer.len() > 0 {
            } else {
                sent.lemma_progress_receive();
                let (received, step) = sent.progress_receive();
                match step {
                    Some(outcome) => {
                        assert(outcome == ClientFlowOutcome::Input);
                        sent.lemma_progress_receive_comes_to_rest();
                        assert(received.progress_send() == (received, None::<ClientFlowEvent>));
                    },
                    None => {
                        received.lemma_progress_comes_to_rest();
                    },
                }
            }
        }
    }

    /// Every step keeps the state well-formed, and what it reports as over,
    /// followed by what is pending after it, is what was pending before,
    /// followed by what the step issues.
    pub proof fn lemma_step_keeps_order(self, step: ClientFlowStep)
        requires
            self.wf(),
        ensures
            self.step(step).0.wf(),
            self.step(step).1 + self.step(step).0.send.pending() == self.send.pending()
                + self.step(step).2,
    {
        let none = Seq::<ClientFlowCommandHandle>::empty();
        let after = self.step(step).0;
        assert(none + after.send.pending() == after.send.pending());
        assert(self.send.pending() + none == self.send.pending());
        match step {
            ClientFlowStep::EnqueueCommand { command } => {
                let handle = self.enqueue_command(command).1;
                self.send.lemma_step_keeps_order(SendCommandStep::Enqueue { handle, command });
            },
            ClientFlowStep::EnqueueInput { bytes } => {},
            ClientFlowStep::ConsumeOutput { count } => {},
            ClientFlowStep::SetAuthenticateData { authenticate_data } => {
                self.send.lemma_step_keeps_order(
                    SendCommandStep::SetAuthenticateData { authenticate_data },
                );
            },
            ClientFlowStep::SetIdleDone => {
                self.send.lemma_step_keeps_order(SendCommandStep::SetIdleDone);
            },
            ClientFlowStep::Progress => {
                self.lemma_progress_keeps_order();
            },
        }
    }

    /// Every command that is enqueued at a client is reported as over at most
    /// once, and the reports come in the order of enqueueing: after any history
    /// of a client that began with nothing to send, the handles reported as
    /// over, followed by those of the commands that are still pending, are
    /// exactly the handles issued, in that order. Once nothing is pending, each
    /// command was reported as over exactly once.
    pub proof fn lemma_commands_end_in_enqueue_order(self, steps: Seq<ClientFlowStep>)
        requires
            self.wf(),
            self.send.current is None,
            self.send.queued.len() == 0,
        ensures
            self.run(steps).0.wf(),
            self.run(steps).1 + self.run(steps).0.send.pending() == self.run(steps).2,
        decreases steps.len(),
    {
        if steps.len() == 0 {
            assert(self.send.pending() == Seq::<ClientFlowCommandHandle>::empty());
        } else {
            self.lemma_commands_end_in_enqueue_order(steps.drop_last());
            let (before, ended, issued) = self.run(steps.drop_last());
            before.lemma_step_keeps_order(steps.last());
            let (after, ended_now, issued_now) = before.step(steps.last());
            assert((ended + ended_now) + after.send.pending() == ended + (ended_now
                + after.send.pending()));
            assert(ended + (before.send.pending() + issued_now) == (ended
                + before.send.pending()) + issued_now);
        }
    }
}

} // verus!
