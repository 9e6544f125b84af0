//! The client side of a connection.
//!
//! A [`ClientFlow`] sends the commands that are enqueued and reports what the
//! server says. It owns no stream: [`ClientFlow::progress`] says when bytes have
//! to be written or read, and goes on when that was done.

use crate::codec::{ResponseDecodeError, response_parts, split_response, status_tagged};
use crate::handle::{HandleGenerator, RawHandle};
use crate::receive::{ReceiveEvent, ReceiveModel, ReceiveState};
use crate::send_command::{
    SendCommandEvent, SendCommandModel, SendCommandState, SendCommandTermination,
};
use crate::types::{CommandAuthenticate, ResponseParts};
use imap_codec::{AuthenticateDataCodec, CommandCodec, GreetingCodec, IdleDoneCodec, ResponseCodec};
use imap_types::auth::AuthenticateData;
use imap_types::command::Command;
use imap_types::response::{CommandContinuationRequest, Data, Greeting, Response, Status};
use vstd::prelude::*;

verus! {

/// Identifies a command that was enqueued at a [`ClientFlow`], until the event
/// that ends it.
#[derive(Clone, Copy, Debug, PartialEq, Eq, Hash, Structural)]
pub struct ClientFlowCommandHandle(pub RawHandle);

impl ClientFlowCommandHandle {
    /// The handle that stands for a raw handle.
    pub fn from_raw(raw_handle: RawHandle) -> (handle: Self)
        ensures
            handle.0 == raw_handle,
    {
        ClientFlowCommandHandle(raw_handle)
    }
}

/// How a client treats what it receives.
#[derive(Clone, Copy, Debug, PartialEq, Eq, Structural)]
pub struct ClientFlowOptions {
    /// Whether a line may end with a line feed alone.
    pub crlf_relaxed: bool,
}

impl Default for ClientFlowOptions {
    /// The options of a client that leans towards usability: a bare line feed is
    /// accepted.
    fn default() -> (options: Self)
        ensures
            options.crlf_relaxed,
    {
        ClientFlowOptions { crlf_relaxed: true }
    }
}

/// What happened at a client.
#[derive(Debug, PartialEq)]
pub enum ClientFlowEvent {
    /// A command was sent completely.
    CommandSent { handle: ClientFlowCommandHandle, command: Command<'static> },
    /// The server refused a literal of a command; the rest of the command was
    /// not sent.
    CommandRejected {
        handle: ClientFlowCommandHandle,
        command: Command<'static>,
        status: Status<'static>,
    },
    /// The line of an AUTHENTICATE was sent.
    AuthenticateStarted { handle: ClientFlowCommandHandle },
    /// The server asks for authenticate data; the answer is due through
    /// [`ClientFlow::set_authenticate_data`].
    ContinuationAuthenticateReceived {
        handle: ClientFlowCommandHandle,
        continuation: CommandContinuationRequest<'static>,
    },
    /// The server accepted the authentication.
    AuthenticateAccepted {
        handle: ClientFlowCommandHandle,
        command_authenticate: CommandAuthenticate,
        status: Status<'static>,
    },
    /// The server rejected the authentication.
    AuthenticateRejected {
        handle: ClientFlowCommandHandle,
        command_authenticate: CommandAuthenticate,
        status: Status<'static>,
    },
    /// The line of an IDLE was sent.
    IdleCommandSent { handle: ClientFlowCommandHandle },
    /// The server accepted the IDLE; it lasts until
    /// [`ClientFlow::set_idle_done`].
    IdleAccepted {
        handle: ClientFlowCommandHandle,
        continuation: CommandContinuationRequest<'static>,
    },
    /// The server refused to idle.
    IdleRejected { handle: ClientFlowCommandHandle, status: Status<'static> },
    /// `DONE` was sent; the IDLE is over.
    IdleDoneSent { handle: ClientFlowCommandHandle },
    /// The server sent data.
    DataReceived { data: Data<'static> },
    /// The server sent a status that ends no command under way.
    StatusReceived { status: Status<'static> },
    /// The server sent a continuation request that nothing was waiting for.
    ContinuationReceived { continuation: CommandContinuationRequest<'static> },
}

/// What a call of [`ClientFlow::progress`] came to.
#[derive(Debug, PartialEq)]
pub enum ClientFlowProgress {
    /// Something happened.
    Event(ClientFlowEvent),
    /// Bytes wait in [`ClientFlow::output`]. Write them, report them with
    /// [`ClientFlow::consume_output`] and call again.
    Output,
    /// Nothing more can be done with the bytes read. Read from the stream, hand
    /// the bytes to [`ClientFlow::enqueue_input`] and call again.
    Input,
}

/// What went wrong at a client. The client can go on after any of these: the
/// offending bytes are gone.
#[derive(Debug, PartialEq)]
pub enum ClientFlowError {
    /// A line ended with a bare line feed, and that is not accepted.
    ExpectedCrlfGotLf { discarded_bytes: Vec<u8> },
    /// The server sent what is no response.
    MalformedMessage { discarded_bytes: Vec<u8> },
}

/// What a call of `progress` comes to, as a mathematical value.
pub enum ClientFlowOutcome {
    Event(ClientFlowEvent),
    Output,
    Input,
    ExpectedCrlfGotLf { discarded_bytes: Seq<u8> },
    MalformedMessage { discarded_bytes: Seq<u8> },
}

/// The outcome that a result of `progress` stands for.
pub open spec fn outcome(result: Result<ClientFlowProgress, ClientFlowError>) -> ClientFlowOutcome {
    match result {
        Ok(ClientFlowProgress::Event(event)) => ClientFlowOutcome::Event(event),
        Ok(ClientFlowProgress::Output) => ClientFlowOutcome::Output,
        Ok(ClientFlowProgress::Input) => ClientFlowOutcome::Input,
        Err(ClientFlowError::ExpectedCrlfGotLf { discarded_bytes }) => ClientFlowOutcome::ExpectedCrlfGotLf {
            discarded_bytes: discarded_bytes@,
        },
        Err(ClientFlowError::MalformedMessage { discarded_bytes }) => ClientFlowOutcome::MalformedMessage {
            discarded_bytes: discarded_bytes@,
        },
    }
}

/// The outcome of `progress_receive`: `None` where sending goes on first.
pub open spec fn receive_outcome(
    result: Result<Option<ClientFlowProgress>, ClientFlowError>,
) -> Option<ClientFlowOutcome> {
    match result {
        Ok(None) => None,
        Ok(Some(progress)) => Some(outcome(Ok(progress))),
        Err(error) => Some(outcome(Err(error))),
    }
}

/// The client side of a connection, once the server has greeted.
pub struct ClientFlow {
    handle_generator: HandleGenerator,
    send_command_state: SendCommandState,
    receive_response_state: ReceiveState<ResponseCodec>,
}

/// What a [`ClientFlow`] is, as a mathematical value.
pub struct ClientFlowModel {
    pub handle_generator: HandleGenerator,
    pub send: SendCommandModel,
    pub receive: ReceiveModel<ResponseCodec>,
}

impl View for ClientFlow {
    type V = ClientFlowModel;

    closed spec fn view(&self) -> ClientFlowModel {
        ClientFlowModel {
            handle_generator: self.handle_generator,
            send: self.send_command_state@,
            receive: self.receive_response_state@,
        }
    }
}

/// The event by which a client reports an event of its sending side.
pub open spec fn event_of_sent(event: SendCommandEvent) -> ClientFlowEvent {
    match event {
        SendCommandEvent::Command { handle, command } => ClientFlowEvent::CommandSent {
            handle,
            command,
        },
        SendCommandEvent::CommandAuthenticate { handle } => ClientFlowEvent::AuthenticateStarted {
            handle,
        },
        SendCommandEvent::CommandIdle { handle } => ClientFlowEvent::IdleCommandSent { handle },
        SendCommandEvent::IdleDone { handle } => ClientFlowEvent::IdleDoneSent { handle },
    }
}

/// The event by which a client reports a status: the end of the command under
/// way where the status ends it, the plain status otherwise.
pub open spec fn event_of_status(
    termination: Option<SendCommandTermination>,
    status: Status<'static>,
) -> ClientFlowEvent {
    match termination {
        Some(SendCommandTermination::LiteralRejected { handle, command }) => ClientFlowEvent::CommandRejected {
            handle,
            command,
            status,
        },
        Some(
            SendCommandTermination::AuthenticateAccepted { handle, command_authenticate },
        ) => ClientFlowEvent::AuthenticateAccepted { handle, command_authenticate, status },
        Some(
            SendCommandTermination::AuthenticateRejected { handle, command_authenticate },
        ) => ClientFlowEvent::AuthenticateRejected { handle, command_authenticate, status },
        Some(SendCommandTermination::IdleRejected { handle }) => ClientFlowEvent::IdleRejected {
            handle,
            status,
        },
        None => ClientFlowEvent::StatusReceived { status },
    }
}

impl ClientFlowModel {
    pub open spec fn wf(self) -> bool {
        self.receive.wf()
    }

    /// The bytes read that no call of `progress` has looked at.
    pub open spec fn unseen(self) -> int {
        self.receive.read_buffer.len() - self.receive.seen_bytes
    }

    pub open spec fn enqueue_command(self, command: Command<'static>) -> (
        Self,
        ClientFlowCommandHandle,
    ) {
        let (handle_generator, raw_handle) = self.handle_generator.generated();
        let handle = ClientFlowCommandHandle(raw_handle);
        (
            ClientFlowModel {
                handle_generator,
                send: self.send.enqueue(handle, command),
                ..self
            },
            handle,
        )
    }

    /// One step of sending, and the event that reports it.
    pub open spec fn progress_send(self) -> (Self, Option<ClientFlowEvent>) {
        let (send, event) = self.send.progress();
        (
            ClientFlowModel { send, ..self },
            match event {
                Some(event) => Some(event_of_sent(event)),
                None => None,
            },
        )
    }

    /// What a response of the server does. A status may end the command under
    /// way. A continuation request goes to whoever waits for one: a literal in
    /// limbo, which is then sent without a word to the user; an AUTHENTICATE; an
    /// IDLE; or nobody.
    pub open spec fn handle_response(self, response: Response<'static>) -> (
        Self,
        Option<ClientFlowEvent>,
    ) {
        match response_parts(response) {
            ResponseParts::Status(status) => {
                let (send, termination) = self.send.maybe_remove(status_tagged(status));
                (ClientFlowModel { send, ..self }, Some(event_of_status(termination, status)))
            },
            ResponseParts::Data(data) => (self, Some(ClientFlowEvent::DataReceived { data })),
            ResponseParts::CommandContinuationRequest(continuation) => {
                if self.send.literal_continue().1 {
                    (ClientFlowModel { send: self.send.literal_continue().0, ..self }, None)
                } else if let Some(handle) = self.send.authenticate_continue().1 {
                    (
                        ClientFlowModel { send: self.send.authenticate_continue().0, ..self },
                        Some(
                            ClientFlowEvent::ContinuationAuthenticateReceived {
                                handle,
                                continuation,
                            },
                        ),
                    )
                } else if let Some(handle) = self.send.idle_continue().1 {
                    (
                        ClientFlowModel { send: self.send.idle_continue().0, ..self },
                        Some(ClientFlowEvent::IdleAccepted { handle, continuation }),
                    )
                } else {
                    (self, Some(ClientFlowEvent::ContinuationReceived { continuation }))
                }
            },
        }
    }

    /// One round of receiving: the state after it and what it came to; `None`
    /// where a literal was released and sending goes on first. A literal in a
    /// response is always taken.
    pub open spec fn progress_receive(self) -> (Self, Option<ClientFlowOutcome>)
        decreases self.unseen(),
    {
        let (receive, event) = self.receive.progress();
        match event {
            None => (ClientFlowModel { receive, ..self }, Some(ClientFlowOutcome::Input)),
            Some(ReceiveEvent::DecodingSuccess(response)) => {
                let (after, event) = ClientFlowModel {
                    receive: receive.finish_message(),
                    ..self
                }.handle_response(response);
                (
                    after,
                    match event {
                        Some(event) => Some(ClientFlowOutcome::Event(event)),
                        None => None,
                    },
                )
            },
            Some(ReceiveEvent::DecodingFailure(ResponseDecodeError::LiteralFound { length })) => {
                let next = ClientFlowModel { receive: receive.start_literal(length), ..self };
                if 0 <= next.unseen() < self.unseen() {
                    next.progress_receive()
                } else {
                    (next, Some(ClientFlowOutcome::Input))
                }
            },
            Some(ReceiveEvent::DecodingFailure(_)) => (
                ClientFlowModel { receive: receive.finish_message(), ..self },
                Some(ClientFlowOutcome::MalformedMessage { discarded_bytes: receive.seen() }),
            ),
            Some(ReceiveEvent::ExpectedCrlfGotLf) => (
                ClientFlowModel { receive: receive.finish_message(), ..self },
                Some(ClientFlowOutcome::ExpectedCrlfGotLf { discarded_bytes: receive.seen() }),
            ),
        }
    }

    /// One call of `progress`: sending comes first, then receiving, until there
    /// is something to report or something to do for the owner of the stream.
    pub open spec fn progress(self) -> (Self, ClientFlowOutcome)
        decreases self.receive.read_buffer.len(),
    {
        let (sent, event) = self.progress_send();
        match event {
            Some(event) => (sent, ClientFlowOutcome::Event(event)),
            None => if sent.send.write_buffer.len() > 0 {
                (sent, ClientFlowOutcome::Output)
            } else {
                let (received, step) = sent.progress_receive();
                match step {
                    Some(outcome) => (received, outcome),
                    None => if received.receive.read_buffer.len() < self.receive.read_buffer.len() {
                        received.progress()
                    } else {
                        (received, ClientFlowOutcome::Input)
                    },
                }
            },
        }
    }

    /// A round of receiving keeps the state well-formed, and a round that ends
    /// with an event or with the release of a literal has taken a whole message
    /// out of the bytes read.
    pub proof fn lemma_progress_receive(self)
        requires
            self.wf(),
        ensures
            self.progress_receive().0.wf(),
            self.progress_receive().0.handle_generator == self.handle_generator,
            self.progress_receive().0.receive.read_buffer.len() <= self.receive.read_buffer.len(),
            self.progress_receive().1 is None ==> self.progress_receive().0.receive.read_buffer.len()
                < self.receive.read_buffer.len(),
            self.progress_receive().1 matches Some(ClientFlowOutcome::Event(_))
                ==> self.progress_receive().0.receive.read_buffer.len()
                < self.receive.read_buffer.len(),
            self.progress_receive().1 != Some(ClientFlowOutcome::Output),
        decreases self.unseen(),
    {
        self.receive.lemma_progress_sees_more();
        let (receive, event) = self.receive.progress();
        match event {
            Some(ReceiveEvent::DecodingFailure(ResponseDecodeError::LiteralFound { length })) => {
                let next = ClientFlowModel { receive: receive.start_literal(length), ..self };
                next.lemma_progress_receive();
            },
            _ => {},
        }
    }
}

impl ClientFlowModel {
    /// Every event of `progress` takes something away that cannot come back by
    /// itself: a message from the bytes read, or a step from what the sending
    /// has left to report. So `progress` cannot report events without end while
    /// nothing is enqueued and nothing is read.
    pub proof fn lemma_event_makes_progress(self)
        requires
            self.wf(),
        ensures
            self.progress().0.wf(),
            self.progress().1 is Event ==> (self.progress().0.receive.read_buffer.len()
                < self.receive.read_buffer.len() || (self.progress().0.receive.read_buffer.len()
                == self.receive.read_buffer.len() && self.progress().0.send.rank()
                < self.send.rank())),
        decreases self.receive.read_buffer.len(),
    {
        self.send.lemma_event_lowers_rank();
        let (sent, event) = self.progress_send();
        if event is None && sent.send.write_buffer.len() == 0 {
            sent.lemma_progress_receive();
            let (received, step) = sent.progress_receive();
            if step is None {
                received.lemma_event_makes_progress();
            }
        }
    }
}

impl ClientFlow {
    /// Looks for the greeting of the server among the bytes read. `Ok(Ok(..))`
    /// holds the client and the greeting; `Ok(Err(..))` hands the state back
    /// because more bytes are needed.
    pub fn receive_greeting(
        receive_greeting_state: ReceiveState<GreetingCodec>,
        generator_id: u64,
    ) -> (result: Result<
        Result<(ClientFlow, Greeting<'static>), ReceiveState<GreetingCodec>>,
        ClientFlowError,
    >)
        requires
            receive_greeting_state@.wf(),
        ensures
            match receive_greeting_state@.progress() {
                (receive, None) => result matches Ok(Err(state)) && state@ == receive && state@.wf(),
                (receive, Some(ReceiveEvent::DecodingSuccess(greeting))) => result matches Ok(
                    Ok((flow, received)),
                ) && received == greeting && flow@.wf() && flow@.handle_generator
                    == HandleGenerator::new_spec(generator_id) && flow@.send.queued.len() == 0
                    && flow@.send.current is None && flow@.send.write_buffer.len() == 0
                    && flow@.receive.crlf_relaxed == receive.crlf_relaxed
                    && flow@.receive.read_buffer == receive.finish_message().read_buffer
                    && flow@.receive.seen_bytes == 0
                    && flow@.receive.next_fragment == receive.finish_message().next_fragment,
                (receive, Some(ReceiveEvent::DecodingFailure(_))) => result matches Err(
                    ClientFlowError::MalformedMessage { discarded_bytes },
                ) && discarded_bytes@ == receive.seen(),
                (receive, Some(ReceiveEvent::ExpectedCrlfGotLf)) => result matches Err(
                    ClientFlowError::ExpectedCrlfGotLf { discarded_bytes },
                ) && discarded_bytes@ == receive.seen(),
            },
    {
        let mut receive_greeting_state = receive_greeting_state;
        proof {
            receive_greeting_state@.lemma_progress_sees_more();
        }
        let greeting = match receive_greeting_state.progress() {
            None => {
                return Ok(Err(receive_greeting_state));
            },
            Some(ReceiveEvent::DecodingSuccess(greeting)) => {
                receive_greeting_state.finish_message();
                greeting
            },
            Some(ReceiveEvent::DecodingFailure(_)) => {
                let discarded_bytes = receive_greeting_state.discard_message();
                return Err(ClientFlowError::MalformedMessage { discarded_bytes });
            },
            Some(ReceiveEvent::ExpectedCrlfGotLf) => {
                let discarded_bytes = receive_greeting_state.discard_message();
                return Err(ClientFlowError::ExpectedCrlfGotLf { discarded_bytes });
            },
        };
        // The greeting is there: the client begins.
        let write_buffer = crate::buffer::buffer_new();
        let send_command_state = SendCommandState::new(
            CommandCodec::new(),
            AuthenticateDataCodec::new(),
            IdleDoneCodec::new(),
            write_buffer,
        );
        let (receive_response_state, _) = receive_greeting_state.change_codec(
            ResponseCodec::new(),
        );
        let flow = ClientFlow {
            handle_generator: HandleGenerator::new(generator_id),
            send_command_state,
            receive_response_state,
        };
        Ok(Ok((flow, greeting)))
    }

    /// Enqueues a command. It is sent by the next calls of [`Self::progress`],
    /// after the commands enqueued before it.
    pub fn enqueue_command(&mut self, command: Command<'static>) -> (handle: ClientFlowCommandHandle)
        ensures
            (final(self)@, handle) == old(self)@.enqueue_command(command),
            old(self)@.wf() ==> final(self)@.wf(),
    {
        let handle = ClientFlowCommandHandle::from_raw(self.handle_generator.generate());
        self.send_command_state.enqueue(handle, command);
        handle
    }

    /// Takes bytes that were read from the stream.
    pub fn enqueue_input(&mut self, bytes: &[u8])
        requires
            old(self)@.wf(),
        ensures
            final(self)@ == (ClientFlowModel {
                receive: old(self)@.receive.enqueue_input(bytes@),
                ..old(self)@
            }),
            final(self)@.wf(),
    {
        self.receive_response_state.enqueue_input(bytes);
    }

    /// The bytes that wait to be written to the stream.
    pub fn output(&self) -> (bytes: &[u8])
        ensures
            bytes@ == self@.send.write_buffer,
    {
        self.send_command_state.output()
    }

    /// Records that the first `count` bytes of [`Self::output`] were written.
    pub fn consume_output(&mut self, count: usize)
        requires
            count <= old(self)@.send.write_buffer.len(),
        ensures
            final(self)@ == (ClientFlowModel {
                send: old(self)@.send.consume_output(count as int),
                ..old(self)@
            }),
    {
        self.send_command_state.consume_output(count);
    }

    /// Provides the authenticate data that the server asked for. Data that
    /// nobody asked for comes back.
    pub fn set_authenticate_data(&mut self, authenticate_data: AuthenticateData<'static>) -> (result:
        Result<ClientFlowCommandHandle, AuthenticateData<'static>>)
        ensures
            final(self)@ == (ClientFlowModel {
                send: old(self)@.send.set_authenticate_data(authenticate_data).0,
                ..old(self)@
            }),
            result == old(self)@.send.set_authenticate_data(authenticate_data).1,
    {
        self.send_command_state.set_authenticate_data(authenticate_data)
    }

    /// Ends the IDLE that the server accepted.
    pub fn set_idle_done(&mut self) -> (handle: Option<ClientFlowCommandHandle>)
        ensures
            final(self)@ == (ClientFlowModel {
                send: old(self)@.send.set_idle_done().0,
                ..old(self)@
            }),
            handle == old(self)@.send.set_idle_done().1,
    {
        self.send_command_state.set_idle_done()
    }

    /// Drives the client until something happened or the owner of the stream
    /// has to write or read.
    pub fn progress(&mut self) -> (result: Result<ClientFlowProgress, ClientFlowError>)
        requires
            old(self)@.wf(),
        ensures
            (final(self)@, outcome(result)) == old(self)@.progress(),
            final(self)@.wf(),
    {
        loop
            invariant
                self@.wf(),
                self@.progress() == old(self)@.progress(),
            decreases self@.receive.read_buffer.len(),
        {
            match self.progress_send() {
                Some(event) => {
                    return Ok(ClientFlowProgress::Event(event));
                },
                None => {},
            }
            if self.send_command_state.has_output() {
                return Ok(ClientFlowProgress::Output);
            }
            proof {
                self@.lemma_progress_receive();
            }
            match self.progress_receive() {
                Ok(None) => {},
                Ok(Some(progress)) => {
                    return Ok(progress);
                },
                Err(error) => {
                    return Err(error);
                },
            }
        }
    }

    /// One step of sending.
    pub fn progress_send(&mut self) -> (event: Option<ClientFlowEvent>)
        ensures
            (final(self)@, event) == old(self)@.progress_send(),
    {
        match self.send_command_state.progress() {
            Some(SendCommandEvent::Command { handle, command }) => Some(
                ClientFlowEvent::CommandSent { handle, command },
            ),
            Some(SendCommandEvent::CommandAuthenticate { handle }) => Some(
                ClientFlowEvent::AuthenticateStarted { handle },
            ),
            Some(SendCommandEvent::CommandIdle { handle }) => Some(
                ClientFlowEvent::IdleCommandSent { handle },
            ),
            Some(SendCommandEvent::IdleDone { handle }) => Some(
                ClientFlowEvent::IdleDoneSent { handle },
            ),
            None => None,
        }
    }

    /// One round of receiving. `Ok(None)` says that a literal was released and
    /// sending goes on first.
    pub fn progress_receive(&mut self) -> (result: Result<
        Option<ClientFlowProgress>,
        ClientFlowError,
    >)
        requires
            old(self)@.wf(),
        ensures
            (final(self)@, receive_outcome(result)) == old(self)@.progress_receive(),
            final(self)@.wf(),
    {
        loop
            invariant
                self@.wf(),
                self@.progress_receive() == old(self)@.progress_receive(),
            decreases self@.unseen(),
        {
            proof {
                self@.receive.lemma_progress_sees_more();
            }
            let response = match self.receive_response_state.progress() {
                None => {
                    return Ok(Some(ClientFlowProgress::Input));
                },
                Some(ReceiveEvent::DecodingSuccess(response)) => {
                    self.receive_response_state.finish_message();
                    response
                },
                Some(ReceiveEvent::DecodingFailure(ResponseDecodeError::LiteralFound { length })) => {
                    // A client has to take the literal in any case.
                    self.receive_response_state.start_literal(length);
                    continue ;
                },
                Some(ReceiveEvent::DecodingFailure(_)) => {
                    let discarded_bytes = self.receive_response_state.discard_message();
                    return Err(ClientFlowError::MalformedMessage { discarded_bytes });
                },
                Some(ReceiveEvent::ExpectedCrlfGotLf) => {
                    let discarded_bytes = self.receive_response_state.discard_message();
                    return Err(ClientFlowError::ExpectedCrlfGotLf { discarded_bytes });
                },
            };
            return match self.handle_response(response) {
                Some(event) => Ok(Some(ClientFlowProgress::Event(event))),
                None => Ok(None),
            };
        }
    }

    /// Reacts to a response of the server.
    pub fn handle_response(&mut self, response: Response<'static>) -> (event: Option<
        ClientFlowEvent,
    >)
        ensures
            (final(self)@, event) == old(self)@.handle_response(response),
    {
        match split_response(response) {
            ResponseParts::Status(status) => {
                let event = match self.send_command_state.maybe_remove(&status) {
                    Some(SendCommandTermination::LiteralRejected { handle, command }) => ClientFlowEvent::CommandRejected {
                        handle,
                        command,
                        status,
                    },
                    Some(
                        SendCommandTermination::AuthenticateAccepted { handle, command_authenticate },
                    ) => ClientFlowEvent::AuthenticateAccepted {
                        handle,
                        command_authenticate,
                        status,
                    },
                    Some(
                        SendCommandTermination::AuthenticateRejected { handle, command_authenticate },
                    ) => ClientFlowEvent::AuthenticateRejected {
                        handle,
                        command_authenticate,
                        status,
                    },
                    Some(SendCommandTermination::IdleRejected { handle }) => ClientFlowEvent::IdleRejected {
                        handle,
                        status,
                    },
                    None => ClientFlowEvent::StatusReceived { status },
                };
                Some(event)
            },
            ResponseParts::Data(data) => Some(ClientFlowEvent::DataReceived { data }),
            ResponseParts::CommandContinuationRequest(continuation) => {
                if self.send_command_state.literal_continue() {
                    // The continuation request was needed to go on sending.
                    return None;
                }
                match self.send_command_state.authenticate_continue() {
                    Some(handle) => {
                        return Some(
                            ClientFlowEvent::ContinuationAuthenticateReceived {
                                handle,
                                continuation,
                            },
                        );
                    },
                    None => {},
                }
                match self.send_command_state.idle_continue() {
                    Some(handle) => Some(ClientFlowEvent::IdleAccepted { handle, continuation }),
                    None => Some(ClientFlowEvent::ContinuationReceived { continuation }),
                }
            },
        }
    }
}

} // verus!
