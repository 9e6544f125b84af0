//! The server side of a connection.
//!
//! A [`ServerFlow`] sends the responses that are enqueued and reports the
//! commands of the client. It decides on every literal before the client sends
//! it: one that is too long is refused with a `NO`, any other is asked for. It
//! owns no stream: [`ServerFlow::progress`] says when bytes have to be written
//! or read, and goes on when that was done.

use crate::codec::{
    CommandDecodeError, basic_continuation, command_parts, continuation_basic, response_from,
    response_of, split_command, status_no, tagged_no, text_of, text_unvalidated,
};
use crate::handle::{HandleGenerator, RawHandle};
use crate::receive::{ReceiveEvent, ReceiveModel, ReceiveState};
use crate::send::{SendResponseModel, SendResponseState};
use crate::types::{CommandAuthenticate, CommandParts, ResponseParts};
use imap_codec::{AuthenticateDataCodec, CommandCodec, GreetingCodec, ResponseCodec};
use imap_types::auth::AuthenticateData;
use imap_types::command::Command;
use imap_types::response::{CommandContinuationRequest, Data, Greeting, Response, Status};
use vstd::pervasive::unreached;
use vstd::prelude::*;

verus! {

/// `std::mem::replace`: moves `src` into `dest` and returns what `dest` held.
pub assume_specification<T>[ std::mem::replace::<T> ](dest: &mut T, src: T) -> (previous: T)
    ensures
        previous == *old(dest),
        *final(dest) == src,
;

/// How a server treats what it receives.
#[derive(Debug, PartialEq)]
pub struct ServerFlowOptions {
    /// Whether a line may end with a line feed alone.
    pub crlf_relaxed: bool,
    /// The length of the longest literal that the server takes.
    pub max_literal_size: u32,
    /// The text of the continuation request that asks for a literal.
    pub literal_accept_text: imap_types::core::Text<'static>,
    /// The text of the `NO` that refuses a literal.
    pub literal_reject_text: imap_types::core::Text<'static>,
}

impl ServerFlowOptions {
    /// Whether a server can work with these options: the text for accepting a
    /// literal has to make a continuation request.
    pub open spec fn valid(&self) -> bool {
        basic_continuation(self.literal_accept_text) is Some
    }

    /// Tests whether a server can work with these options.
    pub fn validate(&self) -> (valid: bool)
        ensures
            valid == self.valid(),
    {
        continuation_basic(&self.literal_accept_text).is_some()
    }
}

impl Default for ServerFlowOptions {
    /// The options of a server that leans towards usability: a bare line feed is
    /// accepted, a literal may have up to 25 MiB, a common limit for the size of
    /// a mail, and both texts are `...`.
    fn default() -> (options: Self)
        ensures
            options.crlf_relaxed,
            options.max_literal_size == 25 * 1024 * 1024,
            options.literal_accept_text == text_of("..."@),
            options.literal_reject_text == text_of("..."@),
    {
        proof {
            reveal_strlit("...");
        }
        ServerFlowOptions {
            crlf_relaxed: true,
            max_literal_size: 25 * 1024 * 1024,
            literal_accept_text: text_unvalidated("..."),
            literal_reject_text: text_unvalidated("..."),
        }
    }
}

/// Identifies a response that was enqueued at a [`ServerFlow`], until the event
/// that reports it as sent.
#[derive(Clone, Copy, Debug, PartialEq, Eq, Hash, Structural)]
pub struct ServerFlowResponseHandle(pub RawHandle);

impl ServerFlowResponseHandle {
    /// The handle that stands for a raw handle.
    pub fn from_raw(raw_handle: RawHandle) -> (handle: Self)
        ensures
            handle.0 == raw_handle,
    {
        ServerFlowResponseHandle(raw_handle)
    }
}

/// What happened at a server.
#[derive(Debug, PartialEq)]
pub enum ServerFlowEvent {
    /// A response that was enqueued was sent.
    ResponseSent { handle: ServerFlowResponseHandle, response: Response<'static> },
    /// The client sent a command.
    CommandReceived { command: Command<'static> },
    /// The client sent an AUTHENTICATE. The answer is due through
    /// [`ServerFlow::authenticate_continue`] or
    /// [`ServerFlow::authenticate_finish`].
    CommandAuthenticateReceived { command_authenticate: CommandAuthenticate },
    /// The client sent authenticate data. The answer is due through
    /// [`ServerFlow::authenticate_continue`] or
    /// [`ServerFlow::authenticate_finish`].
    AuthenticateDataReceived { authenticate_data: AuthenticateData<'static> },
}

/// What a call of [`ServerFlow::progress`] came to.
#[derive(Debug, PartialEq)]
pub enum ServerFlowProgress {
    /// Something happened.
    Event(ServerFlowEvent),
    /// Bytes wait in [`ServerFlow::output`]. Write them, report them with
    /// [`ServerFlow::consume_output`] and call again.
    Output,
    /// Nothing more can be done with the bytes read. Read from the stream, hand
    /// the bytes to [`ServerFlow::enqueue_input`] and call again.
    Input,
}

/// What went wrong at a server. The server can go on after any of these: the
/// offending bytes are gone.
#[derive(Debug, PartialEq)]
pub enum ServerFlowError {
    /// A line ended with a bare line feed, and that is not accepted.
    ExpectedCrlfGotLf { discarded_bytes: Vec<u8> },
    /// The client sent what is no command.
    MalformedMessage { discarded_bytes: Vec<u8> },
    /// The client announced a literal that is too long. It was refused.
    LiteralTooLong { discarded_bytes: Vec<u8> },
}

/// What a call of `progress` comes to, as a mathematical value.
pub enum ServerFlowOutcome {
    Event(ServerFlowEvent),
    Output,
    Input,
    ExpectedCrlfGotLf { discarded_bytes: Seq<u8> },
    MalformedMessage { discarded_bytes: Seq<u8> },
    LiteralTooLong { discarded_bytes: Seq<u8> },
}

/// The outcome that a result of `progress` stands for.
pub open spec fn outcome(result: Result<ServerFlowProgress, ServerFlowError>) -> ServerFlowOutcome {
    match result {
        Ok(ServerFlowProgress::Event(event)) => ServerFlowOutcome::Event(event),
        Ok(ServerFlowProgress::Output) => ServerFlowOutcome::Output,
        Ok(ServerFlowProgress::Input) => ServerFlowOutcome::Input,
        Err(ServerFlowError::ExpectedCrlfGotLf { discarded_bytes }) => ServerFlowOutcome::ExpectedCrlfGotLf {
            discarded_bytes: discarded_bytes@,
        },
        Err(ServerFlowError::MalformedMessage { discarded_bytes }) => ServerFlowOutcome::MalformedMessage {
            discarded_bytes: discarded_bytes@,
        },
        Err(ServerFlowError::LiteralTooLong { discarded_bytes }) => ServerFlowOutcome::LiteralTooLong {
            discarded_bytes: discarded_bytes@,
        },
    }
}

/// The outcome of `progress_receive`: `None` where a literal was asked for and
/// sending goes on first.
pub open spec fn receive_outcome(
    result: Result<Option<ServerFlowProgress>, ServerFlowError>,
) -> Option<ServerFlowOutcome> {
    match result {
        Ok(None) => None,
        Ok(Some(progress)) => Some(outcome(Ok(progress))),
        Err(error) => Some(outcome(Err(error))),
    }
}

/// The kind of message that the client sends next.
#[derive(Clone, Copy, Debug, PartialEq, Eq, Structural)]
pub enum NextExpectedMessage {
    Command,
    AuthenticateData,
}

/// The receiving side of a server, with the codec for the kind of message that
/// is expected, and the codec of the other kind kept for later.
pub enum ServerReceiveState {
    Command(ReceiveState<CommandCodec>, AuthenticateDataCodec),
    AuthenticateData(ReceiveState<AuthenticateDataCodec>, CommandCodec),
    /// Stands in while the state is being changed, and never longer.
    Dummy,
}

pub enum ServerReceiveModel {
    Command(ReceiveModel<CommandCodec>, AuthenticateDataCodec),
    AuthenticateData(ReceiveModel<AuthenticateDataCodec>, CommandCodec),
    Dummy,
}

impl View for ServerReceiveState {
    type V = ServerReceiveModel;

    open spec fn view(&self) -> ServerReceiveModel {
        match *self {
            ServerReceiveState::Command(state, spare) => ServerReceiveModel::Command(state@, spare),
            ServerReceiveState::AuthenticateData(state, spare) => ServerReceiveModel::AuthenticateData(
                state@,
                spare,
            ),
            ServerReceiveState::Dummy => ServerReceiveModel::Dummy,
        }
    }
}

impl ServerReceiveModel {
    pub open spec fn wf(self) -> bool {
        match self {
            ServerReceiveModel::Command(state, _) => state.wf(),
            ServerReceiveModel::AuthenticateData(state, _) => state.wf(),
            ServerReceiveModel::Dummy => false,
        }
    }

    /// The kind of message that this state decodes.
    pub open spec fn expects(self) -> NextExpectedMessage {
        match self {
            ServerReceiveModel::AuthenticateData(_, _) => NextExpectedMessage::AuthenticateData,
            _ => NextExpectedMessage::Command,
        }
    }

    /// The bytes read that no call of `progress` has looked at.
    pub open spec fn unseen(self) -> int {
        match self {
            ServerReceiveModel::Command(state, _) => state.read_buffer.len() - state.seen_bytes,
            ServerReceiveModel::AuthenticateData(state, _) => state.read_buffer.len()
                - state.seen_bytes,
            ServerReceiveModel::Dummy => 0,
        }
    }

    pub open spec fn enqueue_input(self, bytes: Seq<u8>) -> Self {
        match self {
            ServerReceiveModel::Command(state, spare) => ServerReceiveModel::Command(
                state.enqueue_input(bytes),
                spare,
            ),
            ServerReceiveModel::AuthenticateData(state, spare) => ServerReceiveModel::AuthenticateData(
                state.enqueue_input(bytes),
                spare,
            ),
            ServerReceiveModel::Dummy => self,
        }
    }

    /// The state that decodes the kind of message expected next. The codecs
    /// change places; the bytes read stay.
    pub open spec fn change_state(self, next_expected_message: NextExpectedMessage) -> Self {
        match (next_expected_message, self) {
            (
                NextExpectedMessage::Command,
                ServerReceiveModel::AuthenticateData(state, spare),
            ) => ServerReceiveModel::Command(state.change_codec(spare), state.codec),
            (
                NextExpectedMessage::AuthenticateData,
                ServerReceiveModel::Command(state, spare),
            ) => ServerReceiveModel::AuthenticateData(state.change_codec(spare), state.codec),
            _ => self,
        }
    }
}

impl ServerReceiveState {
    /// Changes the state to the one that decodes the kind of message expected
    /// next.
    pub fn change_state(&mut self, next_expected_message: NextExpectedMessage)
        requires
            old(self)@.wf(),
        ensures
            final(self)@ == old(self)@.change_state(next_expected_message),
            final(self)@.wf(),
    {
        let old_state = std::mem::replace(self, ServerReceiveState::Dummy);
        let new_state = match next_expected_message {
            NextExpectedMessage::Command => match old_state {
                ServerReceiveState::Command(state, spare) => ServerReceiveState::Command(
                    state,
                    spare,
                ),
                ServerReceiveState::AuthenticateData(state, spare) => {
                    let (state, spare) = state.change_codec(spare);
                    ServerReceiveState::Command(state, spare)
                },
                ServerReceiveState::Dummy => unreached(),
            },
            NextExpectedMessage::AuthenticateData => match old_state {
                ServerReceiveState::Command(state, spare) => {
                    let (state, spare) = state.change_codec(spare);
                    ServerReceiveState::AuthenticateData(state, spare)
                },
                ServerReceiveState::AuthenticateData(state, spare) => ServerReceiveState::AuthenticateData(
                    state,
                    spare,
                ),
                ServerReceiveState::Dummy => unreached(),
            },
        };
        *self = new_state;
    }
}

/// The server side of a connection, once the greeting was sent.
pub struct ServerFlow {
    options: ServerFlowOptions,
    handle_generator: HandleGenerator,
    send_response_state: SendResponseState<ResponseCodec, Option<ServerFlowResponseHandle>>,
    next_expected_message: NextExpectedMessage,
    receive_command_state: ServerReceiveState,
}

/// What a [`ServerFlow`] is, as a mathematical value.
pub struct ServerFlowModel {
    pub options: ServerFlowOptions,
    pub handle_generator: HandleGenerator,
    pub send: SendResponseModel<ResponseCodec, Option<ServerFlowResponseHandle>>,
    pub next_expected_message: NextExpectedMessage,
    pub receive: ServerReceiveModel,
}

impl View for ServerFlow {
    type V = ServerFlowModel;

    closed spec fn view(&self) -> ServerFlowModel {
        ServerFlowModel {
            options: self.options,
            handle_generator: self.handle_generator,
            send: self.send_response_state@,
            next_expected_message: self.next_expected_message,
            receive: self.receive_command_state@,
        }
    }
}

impl ServerFlowModel {
    pub open spec fn wf(self) -> bool {
        &&& self.options.valid()
        &&& self.send.wf()
        &&& self.receive.wf()
        &&& self.next_expected_message == self.receive.expects()
    }

    /// A response is enqueued under a new handle.
    pub open spec fn enqueue(self, parts: ResponseParts) -> (Self, ServerFlowResponseHandle) {
        let (handle_generator, raw_handle) = self.handle_generator.generated();
        let handle = ServerFlowResponseHandle(raw_handle);
        (
            ServerFlowModel {
                handle_generator,
                send: self.send.enqueue(Some(handle), response_from(parts)),
                ..self
            },
            handle,
        )
    }

    /// One step of sending. A response that the server made itself is sent
    /// without a word to the user.
    pub open spec fn progress_send(self) -> (Self, Option<ServerFlowEvent>) {
        let (send, sent) = self.send.progress();
        (
            ServerFlowModel { send, ..self },
            match sent {
                Some((Some(handle), response)) => Some(
                    ServerFlowEvent::ResponseSent { handle, response },
                ),
                _ => None,
            },
        )
    }

    /// What the server makes of what the command decoder found.
    pub open spec fn handle_command(
        self,
        receive: ReceiveModel<CommandCodec>,
        spare: AuthenticateDataCodec,
        event: ReceiveEvent<CommandCodec>,
    ) -> (Self, Option<ServerFlowOutcome>) {
        match event {
            ReceiveEvent::DecodingSuccess(command) => match command_parts(command) {
                CommandParts::Authenticate { command_authenticate } => (
                    ServerFlowModel {
                        next_expected_message: NextExpectedMessage::AuthenticateData,
                        receive: ServerReceiveModel::Command(
                            receive.finish_message(),
                            spare,
                        ).change_state(NextExpectedMessage::AuthenticateData),
                        ..self
                    },
                    Some(
                        ServerFlowOutcome::Event(
                            ServerFlowEvent::CommandAuthenticateReceived { command_authenticate },
                        ),
                    ),
                ),
                CommandParts::Idle { command } => (
                    ServerFlowModel {
                        receive: ServerReceiveModel::Command(receive.finish_message(), spare),
                        ..self
                    },
                    Some(ServerFlowOutcome::Event(ServerFlowEvent::CommandReceived { command })),
                ),
                CommandParts::Regular { command } => (
                    ServerFlowModel {
                        receive: ServerReceiveModel::Command(receive.finish_message(), spare),
                        ..self
                    },
                    Some(ServerFlowOutcome::Event(ServerFlowEvent::CommandReceived { command })),
                ),
            },
            ReceiveEvent::DecodingFailure(CommandDecodeError::LiteralFound { tag, length, mode }) => {
                if length > self.options.max_literal_size {
                    // The literal is refused: the message ends here, and the
                    // client is told.
                    (
                        ServerFlowModel {
                            receive: ServerReceiveModel::Command(receive.finish_message(), spare),
                            send: self.send.enqueue(
                                None,
                                response_from(
                                    ResponseParts::Status(
                                        tagged_no(tag, self.options.literal_reject_text),
                                    ),
                                ),
                            ),
                            ..self
                        },
                        Some(ServerFlowOutcome::LiteralTooLong { discarded_bytes: receive.seen() }),
                    )
                } else {
                    // The literal is asked for.
                    (
                        ServerFlowModel {
                            receive: ServerReceiveModel::Command(
                                receive.start_literal(length),
                                spare,
                            ),
                            send: self.send.enqueue(
                                None,
                                response_from(
                                    ResponseParts::CommandContinuationRequest(
                                        basic_continuation(
                                            self.options.literal_accept_text,
                                        )->Some_0,
                                    ),
                                ),
                            ),
                            ..self
                        },
                        None,
                    )
                }
            },
            ReceiveEvent::DecodingFailure(_) => (
                ServerFlowModel {
                    receive: ServerReceiveModel::Command(receive.finish_message(), spare),
                    ..self
                },
                Some(ServerFlowOutcome::MalformedMessage { discarded_bytes: receive.seen() }),
            ),
            ReceiveEvent::ExpectedCrlfGotLf => (
                ServerFlowModel {
                    receive: ServerReceiveModel::Command(receive.finish_message(), spare),
                    ..self
                },
                Some(ServerFlowOutcome::ExpectedCrlfGotLf { discarded_bytes: receive.seen() }),
            ),
        }
    }

    /// What the server makes of what the authenticate data decoder found.
    pub open spec fn handle_authenticate_data(
        self,
        receive: ReceiveModel<AuthenticateDataCodec>,
        spare: CommandCodec,
        event: ReceiveEvent<AuthenticateDataCodec>,
    ) -> (Self, Option<ServerFlowOutcome>) {
        let finished = ServerFlowModel {
            receive: ServerReceiveModel::AuthenticateData(receive.finish_message(), spare),
            ..self
        };
        match event {
            ReceiveEvent::DecodingSuccess(authenticate_data) => (
                finished,
                Some(
                    ServerFlowOutcome::Event(
                        ServerFlowEvent::AuthenticateDataReceived { authenticate_data },
                    ),
                ),
            ),
            ReceiveEvent::DecodingFailure(_) => (
                finished,
                Some(ServerFlowOutcome::MalformedMessage { discarded_bytes: receive.seen() }),
            ),
            ReceiveEvent::ExpectedCrlfGotLf => (
                finished,
                Some(ServerFlowOutcome::ExpectedCrlfGotLf { discarded_bytes: receive.seen() }),
            ),
        }
    }

    /// One round of receiving: the state after it and what it came to; `None`
    /// where a literal was asked for and sending goes on first.
    pub open spec fn progress_receive(self) -> (Self, Option<ServerFlowOutcome>) {
        match self.receive {
            ServerReceiveModel::Command(state, spare) => {
                let (receive, event) = state.progress();
                match event {
                    None => (
                        ServerFlowModel {
                            receive: ServerReceiveModel::Command(receive, spare),
                            ..self
                        },
                        Some(ServerFlowOutcome::Input),
                    ),
                    Some(event) => self.handle_command(receive, spare, event),
                }
            },
            ServerReceiveModel::AuthenticateData(state, spare) => {
                let (receive, event) = state.progress();
                match event {
                    None => (
                        ServerFlowModel {
                            receive: ServerReceiveModel::AuthenticateData(receive, spare),
                            ..self
                        },
                        Some(ServerFlowOutcome::Input),
                    ),
                    Some(event) => self.handle_authenticate_data(receive, spare, event),
                }
            },
            ServerReceiveModel::Dummy => (self, Some(ServerFlowOutcome::Input)),
        }
    }

    /// One call of `progress`: first the responses that wait are sent, one
    /// after the other; then a command is looked for; and so on until there is
    /// something to report or something to do for the owner of the stream.
    pub open spec fn progress(self) -> (Self, ServerFlowOutcome)
        decreases self.receive.unseen(), self.send.pending().len(),
    {
        let (sent, event) = self.progress_send();
        match event {
            Some(event) => (sent, ServerFlowOutcome::Event(event)),
            None => if sent.send.write_buffer.len() > 0 {
                (sent, ServerFlowOutcome::Output)
            } else if sent.send.pending().len() > 0 {
                // A response of the server's own was sent, and others wait.
                if sent.receive.unseen() == self.receive.unseen() && sent.send.pending().len()
                    < self.send.pending().len() {
                    sent.progress()
                } else {
                    (sent, ServerFlowOutcome::Output)
                }
            } else {
                let (received, step) = sent.progress_receive();
                match step {
                    Some(outcome) => (received, outcome),
                    None => if 0 <= received.receive.unseen() < self.receive.unseen() {
                        received.progress()
                    } else {
                        (received, ServerFlowOutcome::Input)
                    },
                }
            },
        }
    }

    /// A step of sending that reports nothing and leaves nothing to write has
    /// sent a response of the server's own, if a response was pending at all.
    pub proof fn lemma_progress_send(self)
        requires
            self.send.wf(),
        ensures
            self.progress_send().0.send.wf(),
            self.progress_send().0.receive == self.receive,
            self.progress_send().0.options == self.options,
            self.progress_send().0.next_expected_message == self.next_expected_message,
            self.progress_send().0.send.pending().len() <= self.send.pending().len(),
            (self.progress_send().1 is None && self.progress_send().0.send.write_buffer.len() == 0
                && self.send.pending().len() > 0) ==> self.progress_send().0.send.pending().len()
                < self.send.pending().len(),
    {
        let started = self.send.started();
        if self.send.current is None && self.send.queued.len() > 0 {
            assert(started.pending() == seq![self.send.queued.first()]
                + self.send.queued.drop_first());
            assert(self.send.queued == seq![self.send.queued.first()]
                + self.send.queued.drop_first());
        }
        assert(started.pending().len() == self.send.pending().len());
    }

    /// A round of receiving keeps what it does not touch, and a round that ends
    /// with a literal asked for has seen more of the bytes read.
    pub proof fn lemma_progress_receive(self)
        requires
            self.receive.wf(),
        ensures
            self.progress_receive().0.receive.wf(),
            self.progress_receive().0.options == self.options,
            self.progress_receive().0.handle_generator == self.handle_generator,
            self.next_expected_message == self.receive.expects()
                ==> self.progress_receive().0.next_expected_message
                == self.progress_receive().0.receive.expects(),
            self.progress_receive().1 is None ==> 0 <= self.progress_receive().0.receive.unseen()
                < self.receive.unseen(),
    {
        match self.receive {
            ServerReceiveModel::Command(state, spare) => {
                state.lemma_progress_sees_more();
            },
            ServerReceiveModel::AuthenticateData(state, spare) => {
                state.lemma_progress_sees_more();
            },
            ServerReceiveModel::Dummy => {},
        }
    }

    /// A literal that is too long is refused before the client sends it. Where
    /// the command decoder finds a literal of more than `max_literal_size` bytes,
    /// the round of receiving ends with `LiteralTooLong`, which hands out the
    /// bytes of the command so far. A `NO` with the tag of the command and the
    /// text for refusing is enqueued behind the responses that wait. No byte of
    /// the literal is awaited: the server expects a line again, and what follows
    /// the refused bytes is decoded as the next command.
    pub proof fn lemma_literal_too_long(
        self,
        state: ReceiveModel<CommandCodec>,
        spare: AuthenticateDataCodec,
        tag: imap_types::core::Tag<'static>,
        length: u32,
        mode: crate::types::LiteralMode,
    )
        requires
            self.receive == ServerReceiveModel::Command(state, spare),
            state.wf(),
            state.progress().1 == Some(
                ReceiveEvent::<CommandCodec>::DecodingFailure(
                    CommandDecodeError::LiteralFound { tag, length, mode },
                ),
            ),
            length > self.options.max_literal_size,
        ensures
            self.progress_receive().1 == Some(
                ServerFlowOutcome::LiteralTooLong { discarded_bytes: state.progress().0.seen() },
            ),
            self.progress_receive().0.receive == ServerReceiveModel::Command(
                ReceiveModel::initial(
                    state.codec,
                    state.crlf_relaxed,
                    state.read_buffer.skip(state.progress().0.seen_bytes as int),
                ),
                spare,
            ),
            self.progress_receive().0.send == self.send.enqueue(
                None,
                response_from(
                    ResponseParts::Status(tagged_no(tag, self.options.literal_reject_text)),
                ),
            ),
    {
        state.lemma_progress_sees_more();
    }
}

impl ServerFlow {
    /// What every server keeps: its options are valid, its parts are
    /// well-formed, and it decodes the kind of message that it expects.
    pub closed spec fn wf(&self) -> bool {
        self@.wf() && self.send_response_state.wf()
    }

    /// A server that is well-formed is well-formed as a mathematical value:
    /// what is proved of well-formed models holds of every server.
    pub proof fn lemma_wf(&self)
        requires
            self.wf(),
        ensures
            self@.wf(),
    {
    }

    /// Sends the greeting: the first thing that a server does. The greeting has
    /// to be enqueued in `send_greeting_state`. `Ok` holds the server and the
    /// greeting once the whole greeting was written; `Err` hands everything back
    /// while bytes of it wait in the output of the state.
    pub fn send_greeting(
        send_greeting_state: SendResponseState<GreetingCodec, ()>,
        options: ServerFlowOptions,
        generator_id: u64,
    ) -> (result: Result<
        (ServerFlow, Greeting<'static>),
        (SendResponseState<GreetingCodec, ()>, ServerFlowOptions),
    >)
        requires
            send_greeting_state.wf(),
            options.valid(),
        ensures
            match send_greeting_state@.progress() {
                (_, Some((_, greeting))) => result matches Ok((flow, sent)) && sent == greeting
                    && flow.wf() && flow@.wf() && flow@.options == options && flow@.handle_generator
                    == HandleGenerator::new_spec(generator_id) && flow@.send
                    == SendResponseModel::<ResponseCodec, Option<ServerFlowResponseHandle>>::initial(
                    flow@.send.codec,
                ) && flow@.next_expected_message == NextExpectedMessage::Command && (
                flow@.receive matches ServerReceiveModel::Command(receive, _) && receive
                    == ReceiveModel::initial(receive.codec, options.crlf_relaxed, Seq::empty())),
                (state, None) => result matches Err((pending, handed_back)) && pending@ == state
                    && pending.wf() && handed_back == options,
            },
    {
        let mut send_greeting_state = send_greeting_state;
        let greeting = match send_greeting_state.progress() {
            Some((_, greeting)) => greeting,
            None => {
                return Err((send_greeting_state, options));
            },
        };
        // The greeting was sent: the server begins.
        let write_buffer = send_greeting_state.finish();
        let send_response_state = SendResponseState::new(ResponseCodec::new(), write_buffer);
        let read_buffer = crate::buffer::buffer_new();
        let receive_command_state = ReceiveState::new(
            CommandCodec::new(),
            options.crlf_relaxed,
            read_buffer,
        );
        let server_flow = ServerFlow {
            options,
            handle_generator: HandleGenerator::new(generator_id),
            send_response_state,
            next_expected_message: NextExpectedMessage::Command,
            receive_command_state: ServerReceiveState::Command(
                receive_command_state,
                AuthenticateDataCodec::new(),
            ),
        };
        Ok((server_flow, greeting))
    }

    /// Enqueues a response of any kind under a new handle.
    fn enqueue(&mut self, parts: ResponseParts) -> (handle: ServerFlowResponseHandle)
        requires
            old(self).wf(),
        ensures
            (final(self)@, handle) == old(self)@.enqueue(parts),
            final(self).wf(),
            final(self)@.wf(),
    {
        let handle = ServerFlowResponseHandle::from_raw(self.handle_generator.generate());
        self.send_response_state.enqueue(Some(handle), response_of(parts));
        handle
    }

    /// Enqueues data. It is sent by the next calls of [`Self::progress`], after
    /// the responses enqueued before it.
    pub fn enqueue_data(&mut self, data: Data<'static>) -> (handle: ServerFlowResponseHandle)
        requires
            old(self).wf(),
        ensures
            (final(self)@, handle) == old(self)@.enqueue(ResponseParts::Data(data)),
            final(self).wf(),
            final(self)@.wf(),
    {
        self.enqueue(ResponseParts::Data(data))
    }

    /// Enqueues a status. It is sent by the next calls of [`Self::progress`],
    /// after the responses enqueued before it.
    pub fn enqueue_status(&mut self, status: Status<'static>) -> (handle: ServerFlowResponseHandle)
        requires
            old(self).wf(),
        ensures
            (final(self)@, handle) == old(self)@.enqueue(ResponseParts::Status(status)),
            final(self).wf(),
            final(self)@.wf(),
    {
        self.enqueue(ResponseParts::Status(status))
    }

    /// Enqueues a continuation request. It is sent by the next calls of
    /// [`Self::progress`], after the responses enqueued before it.
    pub fn enqueue_continuation(&mut self, continuation: CommandContinuationRequest<'static>) -> (handle:
        ServerFlowResponseHandle)
        requires
            old(self).wf(),
        ensures
            (final(self)@, handle) == old(self)@.enqueue(
                ResponseParts::CommandContinuationRequest(continuation),
            ),
            final(self).wf(),
            final(self)@.wf(),
    {
        self.enqueue(ResponseParts::CommandContinuationRequest(continuation))
    }

    /// Takes bytes that were read from the stream.
    pub fn enqueue_input(&mut self, bytes: &[u8])
        requires
            old(self).wf(),
        ensures
            final(self)@ == (ServerFlowModel {
                receive: old(self)@.receive.enqueue_input(bytes@),
                ..old(self)@
            }),
            final(self).wf(),
            final(self)@.wf(),
    {
        match std::mem::replace(&mut self.receive_command_state, ServerReceiveState::Dummy) {
            ServerReceiveState::Command(state, spare) => {
                let mut state = state;
                state.enqueue_input(bytes);
                self.receive_command_state = ServerReceiveState::Command(state, spare);
            },
            ServerReceiveState::AuthenticateData(state, spare) => {
                let mut state = state;
                state.enqueue_input(bytes);
                self.receive_command_state = ServerReceiveState::AuthenticateData(state, spare);
            },
            ServerReceiveState::Dummy => {},
        }
    }

    /// The bytes that wait to be written to the stream.
    pub fn output(&self) -> (bytes: &[u8])
        ensures
            bytes@ == self@.send.write_buffer,
    {
        self.send_response_state.output()
    }

    /// Records that the first `count` bytes of [`Self::output`] were written.
    pub fn consume_output(&mut self, count: usize)
        requires
            old(self).wf(),
            count <= old(self)@.send.write_buffer.len(),
        ensures
            final(self)@ == (ServerFlowModel {
                send: old(self)@.send.consume_output(count as int),
                ..old(self)@
            }),
            final(self).wf(),
            final(self)@.wf(),
    {
        self.send_response_state.consume_output(count);
    }

    /// Drives the server until something happened or the owner of the stream
    /// has to write or read. Sending comes first: it ends soon, while the next
    /// command may never come.
    pub fn progress(&mut self) -> (result: Result<ServerFlowProgress, ServerFlowError>)
        requires
            old(self).wf(),
        ensures
            (final(self)@, outcome(result)) == old(self)@.progress(),
            final(self).wf(),
            final(self)@.wf(),
    {
        loop
            invariant
                self.wf(),
                self@.progress() == old(self)@.progress(),
            decreases self@.receive.unseen(), self@.send.pending().len(),
        {
            proof {
                self@.lemma_progress_send();
            }
            match self.progress_send() {
                Some(event) => {
                    return Ok(ServerFlowProgress::Event(event));
                },
                None => {},
            }
            if self.send_response_state.has_output() {
                return Ok(ServerFlowProgress::Output);
            }
            if self.send_response_state.has_pending() {
                // A response of the server's own was sent; the next one
                // follows.
                continue ;
            }
            proof {
                self@.lemma_progress_receive();
            }
            match self.progress_receive() {
                Ok(None) => {},
                Ok(Some(progress)) => {
                    return Ok(progress);
                },
                Err(error) => {
                    return Err(error);
                },
            }
        }
    }

    /// One step of sending.
    pub fn progress_send(&mut self) -> (event: Option<ServerFlowEvent>)
        requires
            old(self).wf(),
        ensures
            (final(self)@, event) == old(self)@.progress_send(),
            final(self).wf(),
            final(self)@.wf(),
    {
        match self.send_response_state.progress() {
            Some((Some(handle), response)) => {
                // A response was sent: the user is told.
                Some(ServerFlowEvent::ResponseSent { handle, response })
            },
            Some((None, _)) => {
                // A response of the server's own was sent: nobody is told.
                None
            },
            None => None,
        }
    }

    /// One round of receiving. `Ok(None)` says that a literal was asked for and
    /// sending goes on first.
    pub fn progress_receive(&mut self) -> (result: Result<
        Option<ServerFlowProgress>,
        ServerFlowError,
    >)
        requires
            old(self).wf(),
        ensures
            (final(self)@, receive_outcome(result)) == old(self)@.progress_receive(),
            final(self).wf(),
            final(self)@.wf(),
    {
        proof {
            self@.lemma_progress_receive();
        }
        match std::mem::replace(&mut self.receive_command_state, ServerReceiveState::Dummy) {
            ServerReceiveState::Command(state, spare) => {
                let mut state = state;
                proof {
                    state@.lemma_progress_sees_more();
                }
                match state.progress() {
                    None => {
                        self.receive_command_state = ServerReceiveState::Command(state, spare);
                        Ok(Some(ServerFlowProgress::Input))
                    },
                    Some(ReceiveEvent::DecodingSuccess(command)) => {
                        state.finish_message();
                        self.receive_command_state = ServerReceiveState::Command(state, spare);
                        match split_command(command) {
                            CommandParts::Authenticate { command_authenticate } => {
                                self.next_expected_message = NextExpectedMessage::AuthenticateData;
                                self.receive_command_state.change_state(self.next_expected_message);
                                Ok(
                                    Some(
                                        ServerFlowProgress::Event(
                                            ServerFlowEvent::CommandAuthenticateReceived {
                                                command_authenticate,
                                            },
                                        ),
                                    ),
                                )
                            },
                            CommandParts::Idle { command } => Ok(
                                Some(
                                    ServerFlowProgress::Event(
                                        ServerFlowEvent::CommandReceived { command },
                                    ),
                                ),
                            ),
                            CommandParts::Regular { command } => Ok(
                                Some(
                                    ServerFlowProgress::Event(
                                        ServerFlowEvent::CommandReceived { command },
                                    ),
                                ),
                            ),
                        }
                    },
                    Some(
                        ReceiveEvent::DecodingFailure(
                            CommandDecodeError::LiteralFound { tag, length, mode: _mode },
                        ),
                    ) => {
                        if length > self.options.max_literal_size {
                            let discarded_bytes = state.discard_message();
                            self.receive_command_state = ServerReceiveState::Command(state, spare);
                            // Tell the client that the literal was refused.
                            let status = status_no(tag, &self.options.literal_reject_text);
                            self.send_response_state.enqueue(
                                None,
                                response_of(ResponseParts::Status(status)),
                            );
                            Err(ServerFlowError::LiteralTooLong { discarded_bytes })
                        } else {
                            state.start_literal(length);
                            self.receive_command_state = ServerReceiveState::Command(state, spare);
                            // Tell the client that the literal is wanted.
                            let continuation = match continuation_basic(
                                &self.options.literal_accept_text,
                            ) {
                                Some(continuation) => continuation,
                                None => unreached(),
                            };
                            self.send_response_state.enqueue(
                                None,
                                response_of(ResponseParts::CommandContinuationRequest(continuation)),
                            );
                            Ok(None)
                        }
                    },
                    Some(ReceiveEvent::DecodingFailure(_)) => {
                        let discarded_bytes = state.discard_message();
                        self.receive_command_state = ServerReceiveState::Command(state, spare);
                        Err(ServerFlowError::MalformedMessage { discarded_bytes })
                    },
                    Some(ReceiveEvent::ExpectedCrlfGotLf) => {
                        let discarded_bytes = state.discard_message();
                        self.receive_command_state = ServerReceiveState::Command(state, spare);
                        Err(ServerFlowError::ExpectedCrlfGotLf { discarded_bytes })
                    },
                }
            },
            ServerReceiveState::AuthenticateData(state, spare) => {
                let mut state = state;
                proof {
                    state@.lemma_progress_sees_more();
                }
                match state.progress() {
                    None => {
                        self.receive_command_state = ServerReceiveState::AuthenticateData(
                            state,
                            spare,
                        );
                        Ok(Some(ServerFlowProgress::Input))
                    },
                    Some(ReceiveEvent::DecodingSuccess(authenticate_data)) => {
                        state.finish_message();
                        self.receive_command_state = ServerReceiveState::AuthenticateData(
                            state,
                            spare,
                        );
                        Ok(
                            Some(
                                ServerFlowProgress::Event(
                                    ServerFlowEvent::AuthenticateDataReceived { authenticate_data },
                                ),
                            ),
                        )
                    },
                    Some(ReceiveEvent::DecodingFailure(_)) => {
                        let discarded_bytes = state.discard_message();
                        self.receive_command_state = ServerReceiveState::AuthenticateData(
                            state,
                            spare,
                        );
                        Err(ServerFlowError::MalformedMessage { discarded_bytes })
                    },
                    Some(ReceiveEvent::ExpectedCrlfGotLf) => {
                        let discarded_bytes = state.discard_message();
                        self.receive_command_state = ServerReceiveState::AuthenticateData(
                            state,
                            spare,
                        );
                        Err(ServerFlowError::ExpectedCrlfGotLf { discarded_bytes })
                    },
                }
            },
            ServerReceiveState::Dummy => unreached(),
        }
    }

    /// Asks the client for more authenticate data. `Err` says that no
    /// authentication is going on; nothing was done then.
    pub fn authenticate_continue(&mut self, continuation: CommandContinuationRequest<'static>) -> (result:
        Result<ServerFlowResponseHandle, ()>)
        requires
            old(self).wf(),
        ensures
            final(self).wf(),
            final(self)@.wf(),
            match old(self)@.next_expected_message {
                NextExpectedMessage::AuthenticateData => result matches Ok(handle) && (
                    final(self)@,
                    handle,
                ) == old(self)@.enqueue(ResponseParts::CommandContinuationRequest(continuation)),
                NextExpectedMessage::Command => result is Err && final(self)@ == old(self)@,
            },
    {
        match self.next_expected_message {
            NextExpectedMessage::AuthenticateData => {
                let handle = self.enqueue_continuation(continuation);
                Ok(handle)
            },
            NextExpectedMessage::Command => Err(()),
        }
    }

    /// Ends the authentication with a status; the server expects commands
    /// again. `Err` says that no authentication is going on; nothing was done
    /// then.
    pub fn authenticate_finish(&mut self, status: Status<'static>) -> (result: Result<
        ServerFlowResponseHandle,
        (),
    >)
        requires
            old(self).wf(),
        ensures
            final(self).wf(),
            final(self)@.wf(),
            match old(self)@.next_expected_message {
                NextExpectedMessage::AuthenticateData => result matches Ok(handle) && ({
                    let (enqueued, issued) = old(self)@.enqueue(ResponseParts::Status(status));
                    handle == issued && final(self)@ == (ServerFlowModel {
                        next_expected_message: NextExpectedMessage::Command,
                        receive: enqueued.receive.change_state(NextExpectedMessage::Command),
                        ..enqueued
                    })
                }),
                NextExpectedMessage::Command => result is Err && final(self)@ == old(self)@,
            },
    {
        match self.next_expected_message {
            NextExpectedMessage::AuthenticateData => {
                let handle = self.enqueue_status(status);
                self.next_expected_message = NextExpectedMessage::Command;
                self.receive_command_state.change_state(self.next_expected_message);
                Ok(handle)
            },
            NextExpectedMessage::Command => Err(()),
        }
    }
}

} // verus!
