//! Sending with keys: the engines in the form that hands every message back
//! under the key it was enqueued with.

use crate::buffer::{
    buffer_advance, buffer_as_slice, buffer_bytes, buffer_clear, buffer_extend, buffer_len, is_empty,
};
use crate::codec::{
    Encode, authenticate_data_bytes, command_fragments, command_parts, encode_authenticate_data,
    encode_command, split_command,
};
use crate::send_command::push_until_sync_literal;
use crate::send_response::push_fragments;
use crate::types::{
    CommandAuthenticate, CommandParts, Fragment, FragmentView, concat_data, first_sync_literal,
    fragment_views, lemma_first_sync_literal,
};
use bytes::BytesMut;
use imap_codec::{AuthenticateDataCodec, CommandCodec};
use imap_types::auth::AuthenticateData;
use imap_types::command::Command;
use std::collections::VecDeque;
use vstd::prelude::*;

verus! {

/// A command was sent, or its first part.
pub enum SendCommandEvent<K> {
    /// A command was sent completely.
    CommandSent { key: K, command: Command<'static> },
    /// The line of an AUTHENTICATE was sent; the exchange begins.
    CommandAuthenticateStarted { key: K },
}

/// A command, told apart by how it is sent.
#[derive(Debug, PartialEq)]
pub enum SendCommandKind {
    /// A command that is over once it was sent.
    Regular { command: Command<'static> },
    /// An AUTHENTICATE: it goes on until the server ends it. `started` says
    /// whether its line was sent.
    Authenticate { command_authenticate: CommandAuthenticate, started: bool },
}

/// The kind of a command.
pub open spec fn kind_of(command: Command<'static>) -> SendCommandKind {
    match command_parts(command) {
        CommandParts::Authenticate { command_authenticate } => SendCommandKind::Authenticate {
            command_authenticate,
            started: false,
        },
        CommandParts::Idle { command } => SendCommandKind::Regular { command },
        CommandParts::Regular { command } => SendCommandKind::Regular { command },
    }
}

/// A command that is queued, with its encoding.
pub struct SendCommandQueueEntry<K> {
    pub key: K,
    pub kind: SendCommandKind,
    pub fragments: VecDeque<Fragment>,
}

/// What the command under way waits for before it sends on.
#[derive(Debug)]
#[allow(inconsistent_fields)]
pub enum SendCommandBlockedReason {
    /// The bytes of a synchronizing literal wait for the server to ask for them.
    WaitForLiteralAck { data: Vec<u8>, received_continue: bool },
    /// The server has to ask for authenticate data, and the user has to provide
    /// it.
    WaitForAuthenticateData { received_continue: bool, data: Option<AuthenticateData<'static>> },
}

#[allow(inconsistent_fields)]
pub enum SendCommandBlockedView {
    WaitForLiteralAck { data: Seq<u8>, received_continue: bool },
    WaitForAuthenticateData { received_continue: bool, data: Option<AuthenticateData<'static>> },
}

impl View for SendCommandBlockedReason {
    type V = SendCommandBlockedView;

    open spec fn view(&self) -> SendCommandBlockedView {
        match *self {
            SendCommandBlockedReason::WaitForLiteralAck { data, received_continue } => SendCommandBlockedView::WaitForLiteralAck {
                data: data@,
                received_continue,
            },
            SendCommandBlockedReason::WaitForAuthenticateData { received_continue, data } => SendCommandBlockedView::WaitForAuthenticateData {
                received_continue,
                data,
            },
        }
    }
}

/// The command that is being sent.
pub struct SendCommandProgress<K> {
    pub key: K,
    pub kind: SendCommandKind,
    /// What has to happen before `next_fragments` are sent.
    pub blocked_reason: Option<SendCommandBlockedReason>,
    /// The fragments that were not pushed yet.
    pub next_fragments: VecDeque<Fragment>,
}

pub struct SendCommandProgressView<K> {
    pub key: K,
    pub kind: SendCommandKind,
    pub blocked_reason: Option<SendCommandBlockedView>,
    pub next_fragments: Seq<FragmentView>,
}

impl<K> View for SendCommandProgress<K> {
    type V = SendCommandProgressView<K>;

    open spec fn view(&self) -> SendCommandProgressView<K> {
        SendCommandProgressView {
            key: self.key,
            kind: self.kind,
            blocked_reason: match self.blocked_reason {
                Some(reason) => Some(reason@),
                None => None,
            },
            next_fragments: fragment_views(self.next_fragments@),
        }
    }
}

impl<K> SendCommandProgressView<K> {
    /// Authenticate data is provided only after the server asked for it.
    pub open spec fn wf(self) -> bool {
        self.blocked_reason matches Some(
            SendCommandBlockedView::WaitForAuthenticateData { received_continue, data: Some(_) },
        ) ==> received_continue
    }
}

/// A queued command as a mathematical value.
pub struct SendCommandQueuedView<K> {
    pub key: K,
    pub kind: SendCommandKind,
    pub fragments: Seq<FragmentView>,
}

/// The sending side of a client, with a key for every command.
pub struct SendCommandState<K: Copy> {
    command_codec: CommandCodec,
    authenticate_data_codec: AuthenticateDataCodec,
    /// The commands that are sent next, first in, first out.
    send_queue: VecDeque<SendCommandQueueEntry<K>>,
    /// The command that is being sent.
    send_progress: Option<SendCommandProgress<K>>,
    /// The bytes that are not written yet.
    write_buffer: BytesMut,
}

/// What a [`SendCommandState`] is, as a mathematical value.
pub struct SendCommandModel<K> {
    pub command_codec: CommandCodec,
    pub authenticate_data_codec: AuthenticateDataCodec,
    pub queued: Seq<SendCommandQueuedView<K>>,
    pub current: Option<SendCommandProgressView<K>>,
    pub write_buffer: Seq<u8>,
}

impl<K: Copy> View for SendCommandState<K> {
    type V = SendCommandModel<K>;

    closed spec fn view(&self) -> SendCommandModel<K> {
        SendCommandModel {
            command_codec: self.command_codec,
            authenticate_data_codec: self.authenticate_data_codec,
            queued: self.send_queue@.map_values(
                |entry: SendCommandQueueEntry<K>|
                    SendCommandQueuedView {
                        key: entry.key,
                        kind: entry.kind,
                        fragments: fragment_views(entry.fragments@),
                    },
            ),
            current: match self.send_progress {
                Some(progress) => Some(progress@),
                None => None,
            },
            write_buffer: buffer_bytes(self.write_buffer),
        }
    }
}

impl<K> SendCommandModel<K> {
    pub open spec fn wf(self) -> bool {
        self.current matches Some(progress) ==> progress.wf()
    }

    pub open spec fn enqueue(self, key: K, command: Command<'static>) -> Self {
        SendCommandModel {
            queued: self.queued.push(
                SendCommandQueuedView {
                    key,
                    kind: kind_of(command),
                    fragments: command_fragments(self.command_codec, command),
                },
            ),
            ..self
        }
    }

    /// The command under way, if there is one.
    pub open spec fn command_in_progress(self) -> Option<SendCommandKind> {
        match self.current {
            Some(progress) => Some(progress.kind),
            None => None,
        }
    }

    /// The command under way is given up, and with it the bytes that wait to be
    /// written.
    pub open spec fn remove_command_in_progress(self) -> (Self, Option<(K, SendCommandKind)>) {
        (
            SendCommandModel { current: None, write_buffer: Seq::empty(), ..self },
            match self.current {
                Some(progress) => Some((progress.key, progress.kind)),
                None => None,
            },
        )
    }

    /// A continuation request arrived. It releases the literal that waits, if
    /// one does and was not released before.
    pub open spec fn continue_literal(self) -> (Self, bool) {
        match self.current {
            Some(progress) => match progress.blocked_reason {
                Some(
                    SendCommandBlockedView::WaitForLiteralAck { data, received_continue: false },
                ) => (
                    SendCommandModel {
                        current: Some(
                            SendCommandProgressView {
                                blocked_reason: Some(
                                    SendCommandBlockedView::WaitForLiteralAck {
                                        data,
                                        received_continue: true,
                                    },
                                ),
                                ..progress
                            },
                        ),
                        ..self
                    },
                    true,
                ),
                _ => (self, false),
            },
            None => (self, false),
        }
    }

    /// A continuation request arrived. It asks for authenticate data, if an
    /// AUTHENTICATE waits and was not asked before.
    pub open spec fn continue_authenticate(self) -> (Self, Option<K>) {
        match self.current {
            Some(progress) => match progress.blocked_reason {
                Some(
                    SendCommandBlockedView::WaitForAuthenticateData { received_continue: false, data },
                ) => (
                    SendCommandModel {
                        current: Some(
                            SendCommandProgressView {
                                blocked_reason: Some(
                                    SendCommandBlockedView::WaitForAuthenticateData {
                                        received_continue: true,
                                        data,
                                    },
                                ),
                                ..progress
                            },
                        ),
                        ..self
                    },
                    Some(progress.key),
                ),
                _ => (self, None),
            },
            None => (self, None),
        }
    }

    /// The user provides the authenticate data that the server asked for.
    pub open spec fn continue_authenticate_with_data(
        self,
        authenticate_data: AuthenticateData<'static>,
    ) -> (Self, Result<K, AuthenticateData<'static>>) {
        match self.current {
            Some(progress) => match progress.blocked_reason {
                Some(
                    SendCommandBlockedView::WaitForAuthenticateData {
                        received_continue: true,
                        data: None,
                    },
                ) => (
                    SendCommandModel {
                        current: Some(
                            SendCommandProgressView {
                                blocked_reason: Some(
                                    SendCommandBlockedView::WaitForAuthenticateData {
                                        received_continue: true,
                                        data: Some(authenticate_data),
                                    },
                                ),
                                ..progress
                            },
                        ),
                        ..self
                    },
                    Ok(progress.key),
                ),
                _ => (self, Err(authenticate_data)),
            },
            None => (self, Err(authenticate_data)),
        }
    }

    /// The state once the next queued command, if any, has been taken up.
    pub open spec fn started(self) -> Self {
        if self.current is Some || self.queued.len() == 0 {
            self
        } else {
            SendCommandModel {
                queued: self.queued.drop_first(),
                current: Some(
                    SendCommandProgressView {
                        key: self.queued.first().key,
                        kind: self.queued.first().kind,
                        blocked_reason: None,
                        next_fragments: self.queued.first().fragments,
                    },
                ),
                ..self
            }
        }
    }

    /// The command under way pushes `first` and then its fragments up to the
    /// first synchronizing literal, which it holds back until the server asks
    /// for it. A non-synchronizing literal follows its line without waiting.
    /// Once everything was pushed and written, a regular command is over, and an
    /// AUTHENTICATE waits for the server.
    pub open spec fn push(self, progress: SendCommandProgressView<K>, first: Seq<u8>) -> (
        Self,
        Option<SendCommandEvent<K>>,
    ) {
        let stop = first_sync_literal(progress.next_fragments, 0);
        let write_buffer = self.write_buffer + (first + concat_data(
            progress.next_fragments.take(stop),
        ));
        if stop < progress.next_fragments.len() {
            (
                SendCommandModel {
                    current: Some(
                        SendCommandProgressView {
                            blocked_reason: Some(
                                SendCommandBlockedView::WaitForLiteralAck {
                                    data: progress.next_fragments[stop].data(),
                                    received_continue: false,
                                },
                            ),
                            next_fragments: progress.next_fragments.skip(stop + 1),
                            ..progress
                        },
                    ),
                    write_buffer,
                    ..self
                },
                None,
            )
        } else if write_buffer.len() > 0 {
            (
                SendCommandModel {
                    current: Some(
                        SendCommandProgressView {
                            blocked_reason: None,
                            next_fragments: Seq::empty(),
                            ..progress
                        },
                    ),
                    write_buffer,
                    ..self
                },
                None,
            )
        } else {
            match progress.kind {
                SendCommandKind::Regular { command } => (
                    SendCommandModel { current: None, write_buffer, ..self },
                    Some(SendCommandEvent::CommandSent { key: progress.key, command }),
                ),
                SendCommandKind::Authenticate { command_authenticate, started } => (
                    SendCommandModel {
                        current: Some(
                            SendCommandProgressView {
                                key: progress.key,
                                kind: SendCommandKind::Authenticate {
                                    command_authenticate,
                                    started: true,
                                },
                                blocked_reason: Some(
                                    SendCommandBlockedView::WaitForAuthenticateData {
                                        received_continue: false,
                                        data: None,
                                    },
                                ),
                                next_fragments: Seq::empty(),
                            },
                        ),
                        write_buffer,
                        ..self
                    },
                    if started {
                        None
                    } else {
                        Some(SendCommandEvent::CommandAuthenticateStarted { key: progress.key })
                    },
                ),
            }
        }
    }

    /// One call of `progress`: the state after it and the event it reports.
    /// What the command under way waits for comes first: a literal that the
    /// server has asked for is pushed, authenticate data that the user has
    /// provided is pushed; while either is missing, nothing happens.
    pub open spec fn progress(self) -> (Self, Option<SendCommandEvent<K>>) {
        let started = self.started();
        match started.current {
            None => (started, None),
            Some(progress) => {
                let unblocked = SendCommandProgressView { blocked_reason: None, ..progress };
                match progress.blocked_reason {
                    None => started.push(unblocked, Seq::empty()),
                    Some(
                        SendCommandBlockedView::WaitForLiteralAck { data, received_continue },
                    ) => if received_continue {
                        started.push(unblocked, data)
                    } else {
                        (started, None)
                    },
                    Some(
                        SendCommandBlockedView::WaitForAuthenticateData { data: Some(data), .. },
                    ) => started.push(
                        unblocked,
                        authenticate_data_bytes(started.authenticate_data_codec, data),
                    ),
                    Some(SendCommandBlockedView::WaitForAuthenticateData { data: None, .. }) => (
                        started,
                        None,
                    ),
                }
            },
        }
    }

    /// The state after `count` bytes of the write buffer were written out.
    pub open spec fn consume_output(self, count: int) -> Self {
        SendCommandModel { write_buffer: self.write_buffer.skip(count), ..self }
    }
}

impl<K> SendCommandModel<K> {
    /// A command without synchronizing literals needs no continuation request:
    /// all its fragments, non-synchronizing literals included, are pushed in one
    /// go, each literal behind the line that announces it, and nothing is held
    /// back for the server to ask for.
    pub proof fn lemma_non_sync_literals_do_not_wait(
        self,
        progress: SendCommandProgressView<K>,
        first: Seq<u8>,
    )
        requires
            forall|i: int|
                0 <= i < progress.next_fragments.len() ==> !(
                #[trigger] progress.next_fragments[i]).is_sync_literal(),
        ensures
            self.push(progress, first).0.write_buffer == self.write_buffer + (first + concat_data(
                progress.next_fragments,
            )),
            self.push(progress, first).0.current matches Some(after)
                ==> !(after.blocked_reason matches Some(
                SendCommandBlockedView::WaitForLiteralAck { .. },
            )),
    {
        lemma_first_sync_literal(progress.next_fragments, 0);
        let stop = first_sync_literal(progress.next_fragments, 0);
        assert(progress.next_fragments.take(stop) == progress.next_fragments);
    }

    /// A regular command without synchronizing literals that is enqueued where
    /// nothing else waits is written whole by the first call of `progress`, and
    /// is reported as sent as soon as the stream has taken the bytes; where it
    /// has no bytes at all, at once. `continue_literal` is never needed.
    pub proof fn lemma_command_without_sync_literals_is_sent(self, key: K, command: Command<'static>)
        requires
            self.current is None,
            self.queued.len() == 0,
            self.write_buffer.len() == 0,
            kind_of(command) == (SendCommandKind::Regular { command }),
            forall|i: int|
                0 <= i < command_fragments(self.command_codec, command).len() ==> !(
                #[trigger] command_fragments(self.command_codec, command)[i]).is_sync_literal(),
        ensures
            ({
                let bytes = concat_data(command_fragments(self.command_codec, command));
                let (pushed, event) = self.enqueue(key, command).progress();
                let sent = Some(SendCommandEvent::CommandSent { key, command });
                &&& pushed.write_buffer == bytes
                &&& pushed.queued.len() == 0
                &&& bytes.len() == 0 ==> event == sent && pushed.current is None
                &&& bytes.len() > 0 ==> event is None && pushed.consume_output(
                    bytes.len() as int,
                ).progress().1 == sent
            }),
    {
        let fragments = command_fragments(self.command_codec, command);
        let bytes = concat_data(fragments);
        let enqueued = self.enqueue(key, command);
        let started = enqueued.started();
        let progress = started.current->Some_0;
        assert(enqueued.queued.first().fragments == fragments);
        assert(enqueued.queued.drop_first().len() == 0);
        started.lemma_non_sync_literals_do_not_wait(progress, Seq::empty());
        lemma_first_sync_literal(fragments, 0);
        assert(Seq::<u8>::empty() + bytes == bytes);
        assert(started.write_buffer + bytes == bytes);
        let (pushed, event) = enqueued.progress();
        if bytes.len() > 0 {
            let written = pushed.consume_output(bytes.len() as int);
            assert(written.write_buffer == Seq::<u8>::empty());
            assert(written.started() == written);
            let rest = written.current->Some_0;
            lemma_first_sync_literal(rest.next_fragments, 0);
            assert(rest.next_fragments.take(0) == Seq::<FragmentView>::empty());
            assert(concat_data(Seq::<FragmentView>::empty()) == Seq::<u8>::empty());
            assert(written.write_buffer + (Seq::<u8>::empty() + Seq::<u8>::empty())
                == Seq::<u8>::empty());
        }
    }

    /// The bytes of a synchronizing literal wait for the server: while the
    /// command under way holds a literal back and no continuation request has
    /// released it, `progress` writes nothing and reports nothing. A continuation
    /// request releases the literal, and the next call of `progress` pushes its
    /// bytes before anything else.
    pub proof fn lemma_sync_literal_waits(self, progress: SendCommandProgressView<K>, data: Seq<u8>)
        requires
            self.current == Some(progress),
            progress.blocked_reason == Some(
                SendCommandBlockedView::WaitForLiteralAck { data, received_continue: false },
            ),
        ensures
            self.progress() == (self, None::<SendCommandEvent<K>>),
            self.continue_literal().1,
            ({
                let released = self.continue_literal().0;
                let unblocked = SendCommandProgressView { blocked_reason: None, ..progress };
                released.progress() == released.push(unblocked, data)
            }),
            self.write_buffer.is_prefix_of(self.continue_literal().0.progress().0.write_buffer),
            (self.write_buffer + data).is_prefix_of(
                self.continue_literal().0.progress().0.write_buffer,
            ),
    {
        let released = self.continue_literal().0;
        let unblocked = SendCommandProgressView { blocked_reason: None, ..progress };
        assert(self.started() == self);
        assert(released.started() == released);
        let stop = first_sync_literal(progress.next_fragments, 0);
        let rest = concat_data(progress.next_fragments.take(stop));
        let after = released.progress().0.write_buffer;
        assert(after == self.write_buffer + (data + rest));
        assert(after.subrange(0, self.write_buffer.len() as int) == self.write_buffer);
        assert(after.subrange(0, (self.write_buffer + data).len() as int) == self.write_buffer
            + data);
    }
}

impl<K: Copy> SendCommandState<K> {
    /// A state with nothing queued. Bytes already in `write_buffer` are written
    /// before anything else.
    pub fn new(
        command_codec: CommandCodec,
        authenticate_data_codec: AuthenticateDataCodec,
        write_buffer: BytesMut,
    ) -> (state: Self)
        ensures
            state@ == (SendCommandModel::<K> {
                command_codec,
                authenticate_data_codec,
                queued: Seq::empty(),
                current: None,
                write_buffer: buffer_bytes(write_buffer),
            }),
            state@.wf(),
    {
        let state = SendCommandState {
            command_codec,
            authenticate_data_codec,
            send_queue: VecDeque::new(),
            send_progress: None,
            write_buffer,
        };
        assert(state@.queued == Seq::<SendCommandQueuedView<K>>::empty());
        state
    }

    /// Encodes a command and queues it behind those already queued.
    pub fn enqueue(&mut self, key: K, command: Command<'static>)
        ensures
            final(self)@ == old(self)@.enqueue(key, command),
            old(self)@.wf() ==> final(self)@.wf(),
    {
        let fragments = encode_command(&self.command_codec, &command);
        let kind = match split_command(command) {
            CommandParts::Authenticate { command_authenticate } => SendCommandKind::Authenticate {
                command_authenticate,
                started: false,
            },
            CommandParts::Idle { command } => SendCommandKind::Regular { command },
            CommandParts::Regular { command } => SendCommandKind::Regular { command },
        };
        self.send_queue.push_back(SendCommandQueueEntry { key, kind, fragments });
        proof {
            assert(self@.queued == old(self)@.enqueue(key, command).queued);
        }
    }

    /// The command that is being sent.
    pub fn command_in_progress(&self) -> (kind: Option<&SendCommandKind>)
        ensures
            match kind {
                Some(kind) => self@.command_in_progress() == Some(*kind),
                None => self@.command_in_progress() is None,
            },
    {
        match &self.send_progress {
            Some(progress) => Some(&progress.kind),
            None => None,
        }
    }

    /// Gives up the command that is being sent, and the bytes of it that wait
    /// to be written.
    pub fn remove_command_in_progress(&mut self) -> (removed: Option<(K, SendCommandKind)>)
        ensures
            (final(self)@, removed) == old(self)@.remove_command_in_progress(),
            final(self)@.wf(),
    {
        buffer_clear(&mut self.write_buffer);
        match self.send_progress.take() {
            Some(progress) => Some((progress.key, progress.kind)),
            None => None,
        }
    }

    /// Takes the continuation request for a literal. `true` says that a literal
    /// was waiting and is now free to be sent.
    pub fn continue_literal(&mut self) -> (continued: bool)
        ensures
            (final(self)@, continued) == old(self)@.continue_literal(),
            old(self)@.wf() ==> final(self)@.wf(),
    {
        let progress = match self.send_progress.take() {
            Some(progress) => progress,
            None => {
                return false;
            },
        };
        match progress.blocked_reason {
            Some(SendCommandBlockedReason::WaitForLiteralAck { data, received_continue }) => {
                self.send_progress = Some(
                    SendCommandProgress {
                        key: progress.key,
                        kind: progress.kind,
                        blocked_reason: Some(
                            SendCommandBlockedReason::WaitForLiteralAck {
                                data,
                                received_continue: true,
                            },
                        ),
                        next_fragments: progress.next_fragments,
                    },
                );
                !received_continue
            },
            blocked_reason => {
                self.send_progress = Some(
                    SendCommandProgress {
                        key: progress.key,
                        kind: progress.kind,
                        blocked_reason,
                        next_fragments: progress.next_fragments,
                    },
                );
                false
            },
        }
    }

    /// Takes the continuation request for authenticate data. The key says that
    /// an AUTHENTICATE was waiting and now waits for
    /// [`Self::continue_authenticate_with_data`].
    pub fn continue_authenticate(&mut self) -> (key: Option<K>)
        ensures
            (final(self)@, key) == old(self)@.continue_authenticate(),
            old(self)@.wf() ==> final(self)@.wf(),
    {
        let progress = match self.send_progress.take() {
            Some(progress) => progress,
            None => {
                return None;
            },
        };
        let key = progress.key;
        match progress.blocked_reason {
            Some(SendCommandBlockedReason::WaitForAuthenticateData { received_continue, data }) => {
                self.send_progress = Some(
                    SendCommandProgress {
                        key: progress.key,
                        kind: progress.kind,
                        blocked_reason: Some(
                            SendCommandBlockedReason::WaitForAuthenticateData {
                                received_continue: true,
                                data,
                            },
                        ),
                        next_fragments: progress.next_fragments,
                    },
                );
                if received_continue {
                    None
                } else {
                    Some(key)
                }
            },
            blocked_reason => {
                self.send_progress = Some(
                    SendCommandProgress {
                        key: progress.key,
                        kind: progress.kind,
                        blocked_reason,
                        next_fragments: progress.next_fragments,
                    },
                );
                None
            },
        }
    }

    /// Takes the authenticate data that the server asked for; it is sent by the
    /// next calls of [`Self::progress`]. Data that nobody asked for comes back.
    pub fn continue_authenticate_with_data(&mut self, authenticate_data: AuthenticateData<'static>) -> (result:
        Result<K, AuthenticateData<'static>>)
        ensures
            (final(self)@, result) == old(self)@.continue_authenticate_with_data(authenticate_data),
            old(self)@.wf() ==> final(self)@.wf(),
    {
        let progress = match self.send_progress.take() {
            Some(progress) => progress,
            None => {
                return Err(authenticate_data);
            },
        };
        let key = progress.key;
        match progress.blocked_reason {
            Some(
                SendCommandBlockedReason::WaitForAuthenticateData {
                    received_continue: true,
                    data: None,
                },
            ) => {
                self.send_progress = Some(
                    SendCommandProgress {
                        key: progress.key,
                        kind: progress.kind,
                        blocked_reason: Some(
                            SendCommandBlockedReason::WaitForAuthenticateData {
                                received_continue: true,
                                data: Some(authenticate_data),
                            },
                        ),
                        next_fragments: progress.next_fragments,
                    },
                );
                Ok(key)
            },
            blocked_reason => {
                self.send_progress = Some(
                    SendCommandProgress {
                        key: progress.key,
                        kind: progress.kind,
                        blocked_reason,
                        next_fragments: progress.next_fragments,
                    },
                );
                Err(authenticate_data)
            },
        }
    }

    /// The bytes that wait to be written to the stream.
    pub fn output(&self) -> (bytes: &[u8])
        ensures
            bytes@ == self@.write_buffer,
    {
        buffer_as_slice(&self.write_buffer)
    }

    /// Whether bytes wait to be written to the stream.
    pub fn has_output(&self) -> (waiting: bool)
        ensures
            waiting == (self@.write_buffer.len() > 0),
    {
        buffer_len(&self.write_buffer) > 0
    }

    /// Records that the first `count` bytes of [`Self::output`] were written.
    pub fn consume_output(&mut self, count: usize)
        requires
            count <= old(self)@.write_buffer.len(),
        ensures
            final(self)@ == old(self)@.consume_output(count as int),
            old(self)@.wf() ==> final(self)@.wf(),
    {
        buffer_advance(&mut self.write_buffer, count);
    }

    /// Drives the sending one step. Takes up the next command if none is under
    /// way and pushes what may be sent now. While bytes wait in
    /// [`Self::output`], they have to be written first; then the command moves on
    /// and may report an event.
    pub fn progress(&mut self) -> (event: Option<SendCommandEvent<K>>)
        requires
            old(self)@.wf(),
        ensures
            (final(self)@, event) == old(self)@.progress(),
            final(self)@.wf(),
    {
        let progress = match self.send_progress.take() {
            Some(progress) => progress,
            None => match self.send_queue.pop_front() {
                Some(entry) => {
                    proof {
                        assert(self@.queued == old(self)@.queued.drop_first());
                    }
                    // Start sending the next command.
                    SendCommandProgress {
                        key: entry.key,
                        kind: entry.kind,
                        blocked_reason: None,
                        next_fragments: entry.fragments,
                    }
                },
                None => {
                    // Nothing to send.
                    return None;
                },
            },
        };
        let key = progress.key;
        let kind = progress.kind;
        let mut next_fragments = progress.next_fragments;
        let ghost before = buffer_bytes(self.write_buffer);
        let ghost head: Seq<u8>;
        // What the command waits for comes first.
        match progress.blocked_reason {
            None => {
                proof {
                    head = Seq::empty();
                }
            },
            Some(SendCommandBlockedReason::WaitForLiteralAck { data, received_continue }) => {
                if received_continue {
                    // The server asked for the literal.
                    buffer_extend(&mut self.write_buffer, data.as_slice());
                    proof {
                        head = data@;
                    }
                } else {
                    // The server has not asked yet.
                    self.send_progress = Some(
                        SendCommandProgress {
                            key,
                            kind,
                            blocked_reason: Some(
                                SendCommandBlockedReason::WaitForLiteralAck {
                                    data,
                                    received_continue,
                                },
                            ),
                            next_fragments,
                        },
                    );
                    return None;
                }
            },
            Some(SendCommandBlockedReason::WaitForAuthenticateData { received_continue, data }) => {
                match data {
                    Some(data) => {
                        // The server asked and the user answered.
                        let line = encode_authenticate_data(&self.authenticate_data_codec, &data);
                        buffer_extend(&mut self.write_buffer, line.as_slice());
                        proof {
                            head = line@;
                        }
                    },
                    None => {
                        // The user has not answered yet.
                        self.send_progress = Some(
                            SendCommandProgress {
                                key,
                                kind,
                                blocked_reason: Some(
                                    SendCommandBlockedReason::WaitForAuthenticateData {
                                        received_continue,
                                        data,
                                    },
                                ),
                                next_fragments,
                            },
                        );
                        return None;
                    },
                }
            },
        }
        let ghost whole = fragment_views(next_fragments@);
        proof {
            assert(buffer_bytes(self.write_buffer) == before + head);
        }
        // What is left, up to the next literal that needs the server's consent.
        let literal = push_until_sync_literal(&mut next_fragments, &mut self.write_buffer);
        proof {
            let stop = first_sync_literal(whole, 0);
            assert((before + head) + concat_data(whole.take(stop)) == before + (head
                + concat_data(whole.take(stop))));
        }
        match literal {
            Some(data) => {
                self.send_progress = Some(
                    SendCommandProgress {
                        key,
                        kind,
                        blocked_reason: Some(
                            SendCommandBlockedReason::WaitForLiteralAck {
                                data,
                                received_continue: false,
                            },
                        ),
                        next_fragments,
                    },
                );
                return None;
            },
            None => {},
        }
        if buffer_len(&self.write_buffer) > 0 {
            // The stream has to take these bytes first.
            self.send_progress = Some(
                SendCommandProgress { key, kind, blocked_reason: None, next_fragments },
            );
            return None;
        }
        match kind {
            SendCommandKind::Regular { command } => {
                // The command was sent completely.
                Some(SendCommandEvent::CommandSent { key, command })
            },
            SendCommandKind::Authenticate { command_authenticate, started } => {
                // An AUTHENTICATE is over only when the server says so.
                self.send_progress = Some(
                    SendCommandProgress {
                        key,
                        kind: SendCommandKind::Authenticate { command_authenticate, started: true },
                        blocked_reason: Some(
                            SendCommandBlockedReason::WaitForAuthenticateData {
                                received_continue: false,
                                data: None,
                            },
                        ),
                        next_fragments,
                    },
                );
                if started {
                    None
                } else {
                    Some(SendCommandEvent::CommandAuthenticateStarted { key })
                }
            },
        }
    }
}

/// A response that is queued, with its encoding.
pub struct SendResponseQueueEntry<C: Encode, K> {
    pub key: K,
    pub response: C::Message,
    pub fragments: Vec<Fragment>,
}

/// The response that is being sent.
pub struct SendResponseProgress<C: Encode, K> {
    pub key: K,
    pub response: C::Message,
}

/// The sending side of a server.
pub struct SendResponseState<C: Encode, K> {
    codec: C,
    /// The responses that are sent next, first in, first out.
    send_queue: VecDeque<SendResponseQueueEntry<C, K>>,
    /// The response that is being sent.
    send_progress: Option<SendResponseProgress<C, K>>,
    /// The bytes of the current response that are not written yet.
    write_buffer: BytesMut,
}

/// What a [`SendResponseState`] is, as a mathematical value.
pub struct SendResponseModel<C: Encode, K> {
    pub codec: C,
    pub queued: Seq<(K, C::Message)>,
    pub current: Option<(K, C::Message)>,
    pub write_buffer: Seq<u8>,
}

impl<C: Encode, K> SendResponseModel<C, K> {
    /// While no response is under way, nothing waits to be written.
    pub open spec fn wf(self) -> bool {
        self.current is None ==> self.write_buffer.len() == 0
    }

    /// The state that `new` gives.
    pub open spec fn initial(codec: C) -> Self {
        SendResponseModel { codec, queued: Seq::empty(), current: None, write_buffer: Seq::empty() }
    }

    pub open spec fn enqueue(self, key: K, response: C::Message) -> Self {
        SendResponseModel { queued: self.queued.push((key, response)), ..self }
    }

    /// The state once the next queued response, if any, has been taken up: its
    /// whole encoding stands in the write buffer.
    pub open spec fn started(self) -> Self {
        if self.current is Some || self.queued.len() == 0 {
            self
        } else {
            SendResponseModel {
                codec: self.codec,
                queued: self.queued.drop_first(),
                current: Some(self.queued.first()),
                write_buffer: self.write_buffer + concat_data(
                    self.codec.fragments(&self.queued.first().1),
                ),
            }
        }
    }

    /// One call of `progress`: the state after it and the response it reports
    /// as sent.
    pub open spec fn progress(self) -> (Self, Option<(K, C::Message)>) {
        let started = self.started();
        match started.current {
            Some(current) if started.write_buffer.len() == 0 => (
                SendResponseModel { current: None, ..started },
                Some(current),
            ),
            _ => (started, None),
        }
    }

    /// The state after `count` bytes of the write buffer were written out.
    pub open spec fn consume_output(self, count: int) -> Self {
        SendResponseModel { write_buffer: self.write_buffer.skip(count), ..self }
    }

    /// The responses that were enqueued and are not reported as sent: the one
    /// under way, then the queue.
    pub open spec fn pending(self) -> Seq<(K, C::Message)> {
        match self.current {
            Some(current) => seq![current] + self.queued,
            None => self.queued,
        }
    }
}

/// What can happen to a [`SendResponseState`] between its creation and now.
pub enum SendResponseStep<C: Encode, K> {
    /// `enqueue` was called.
    Enqueue { key: K, response: C::Message },
    /// `progress` was called.
    Progress,
    /// `consume_output` was called after `count` bytes were written.
    ConsumeOutput { count: int },
}

impl<C: Encode, K> SendResponseModel<C, K> {
    /// One step: the state after it and the response it hands back. A step that
    /// breaks the precondition of its function changes nothing.
    pub open spec fn step(self, step: SendResponseStep<C, K>) -> (Self, Seq<(K, C::Message)>) {
        match step {
            SendResponseStep::Enqueue { key, response } => (
                self.enqueue(key, response),
                Seq::empty(),
            ),
            SendResponseStep::Progress => (
                self.progress().0,
                match self.progress().1 {
                    Some(sent) => seq![sent],
                    None => Seq::empty(),
                },
            ),
            SendResponseStep::ConsumeOutput { count } => if 0 <= count <= self.write_buffer.len() {
                (self.consume_output(count), Seq::empty())
            } else {
                (self, Seq::empty())
            },
        }
    }

    /// A whole history: the state after the steps and the responses handed back
    /// as sent, in order.
    pub open spec fn run(self, steps: Seq<SendResponseStep<C, K>>) -> (Self, Seq<(K, C::Message)>)
        decreases steps.len(),
    {
        if steps.len() == 0 {
            (self, Seq::empty())
        } else {
            let (before, sent) = self.run(steps.drop_last());
            let (after, sent_now) = before.step(steps.last());
            (after, sent + sent_now)
        }
    }

    /// The responses that a history enqueued, in order.
    pub open spec fn enqueued(steps: Seq<SendResponseStep<C, K>>) -> Seq<(K, C::Message)>
        decreases steps.len(),
    {
        if steps.len() == 0 {
            Seq::empty()
        } else {
            let before = Self::enqueued(steps.drop_last());
            match steps.last() {
                SendResponseStep::Enqueue { key, response } => before.push((key, response)),
                _ => before,
            }
        }
    }

    /// A step keeps the state well-formed, and what it hands back as sent,
    /// followed by what is pending after it, is what was pending before,
    /// followed by what the step enqueues.
    pub proof fn lemma_step_keeps_order(self, step: SendResponseStep<C, K>)
        requires
            self.wf(),
        ensures
            self.step(step).0.wf(),
            ({
                let (after, sent_now) = self.step(step);
                let enqueued_now = match step {
                    SendResponseStep::Enqueue { key, response } => seq![(key, response)],
                    _ => Seq::empty(),
                };
                sent_now + after.pending() == self.pending() + enqueued_now
            }),
    {
        let (after, sent_now) = self.step(step);
        let none = Seq::<(K, C::Message)>::empty();
        assert(none + after.pending() == after.pending());
        assert(self.pending() + none == self.pending());
        match step {
            SendResponseStep::Enqueue { key, response } => {
                assert(after.pending() == self.pending().push((key, response)));
            },
            SendResponseStep::Progress => {
                let started = self.started();
                if self.current is None && self.queued.len() > 0 {
                    assert(self.queued == seq![self.queued.first()] + self.queued.drop_first());
                }
                assert(started.pending() == self.pending());
            },
            SendResponseStep::ConsumeOutput { count } => {},
        }
    }

    /// A call of `progress` that hands nothing back leaves a state in which
    /// the next call changes nothing and hands nothing back, until something else
    /// happens: giving up on a write and coming back later loses no byte and no
    /// response.
    pub proof fn lemma_progress_comes_to_rest(self)
        requires
            self.wf(),
            self.progress().1 is None,
        ensures
            self.progress().0.progress() == (self.progress().0, None::<(K, C::Message)>),
    {
    }

    /// Writing the output in two parts leaves the same state as writing it at
    /// once.
    pub proof fn lemma_partial_writes_compose(self, first: int, second: int)
        requires
            0 <= first,
            0 <= second,
            first + second <= self.write_buffer.len(),
        ensures
            self.consume_output(first).consume_output(second) == self.consume_output(
                first + second,
            ),
    {
        assert(self.write_buffer.skip(first).skip(second) == self.write_buffer.skip(first + second));
    }

    /// Every response is handed back as sent at most once and in the order of
    /// enqueueing: after any history, the responses handed back, followed by
    /// those still pending, are exactly the responses enqueued, in that order.
    /// Once nothing is pending, each enqueued response was handed back exactly
    /// once.
    pub proof fn lemma_sent_in_enqueue_order(codec: C, steps: Seq<SendResponseStep<C, K>>)
        ensures
            Self::initial(codec).run(steps).0.wf(),
            ({
                let (state, sent) = Self::initial(codec).run(steps);
                sent + state.pending() == Self::enqueued(steps)
            }),
        decreases steps.len(),
    {
        let initial = Self::initial(codec);
        if steps.len() == 0 {
            assert(initial.pending() == Seq::<(K, C::Message)>::empty());
        } else {
            Self::lemma_sent_in_enqueue_order(codec, steps.drop_last());
            let (before, sent) = initial.run(steps.drop_last());
            before.lemma_step_keeps_order(steps.last());
            let (after, sent_now) = before.step(steps.last());
            let enqueued_now = match steps.last() {
                SendResponseStep::Enqueue { key, response } => seq![(key, response)],
                _ => Seq::empty(),
            };
            assert(Self::enqueued(steps) == Self::enqueued(steps.drop_last()) + enqueued_now);
            assert((sent + sent_now) + after.pending() == sent + (sent_now + after.pending()));
            assert(sent + (before.pending() + enqueued_now) == (sent + before.pending())
                + enqueued_now);
        }
    }
}

impl<C: Encode, K> SendResponseState<C, K> {
    /// The entries of the queue as pairs of key and response.
    pub closed spec fn queued(&self) -> Seq<(K, C::Message)> {
        self.send_queue@.map_values(|entry: SendResponseQueueEntry<C, K>| (entry.key, entry.response))
    }

    /// Every queued response is queued with its own encoding.
    pub closed spec fn encoded(&self) -> bool {
        forall|i: int|
            0 <= i < self.send_queue@.len() ==> fragment_views(
                (#[trigger] self.send_queue@[i]).fragments@,
            ) == self.codec.fragments(&self.send_queue@[i].response)
    }

    pub open spec fn wf(&self) -> bool {
        self@.wf() && self.encoded()
    }
}

impl<C: Encode, K> View for SendResponseState<C, K> {
    type V = SendResponseModel<C, K>;

    closed spec fn view(&self) -> SendResponseModel<C, K> {
        SendResponseModel {
            codec: self.codec,
            queued: self.queued(),
            current: match self.send_progress {
                Some(progress) => Some((progress.key, progress.response)),
                None => None,
            },
            write_buffer: buffer_bytes(self.write_buffer),
        }
    }
}

impl<C: Encode, K> SendResponseState<C, K> {
    /// A state with nothing queued. The write buffer handed in must be empty.
    pub fn new(codec: C, write_buffer: BytesMut) -> (state: Self)
        requires
            buffer_bytes(write_buffer).len() == 0,
        ensures
            state.wf(),
            state@ == SendResponseModel::<C, K>::initial(codec),
    {
        let state = SendResponseState {
            codec,
            send_queue: VecDeque::new(),
            send_progress: None,
            write_buffer,
        };
        assert(state@.queued == Seq::<(K, C::Message)>::empty());
        assert(state@.write_buffer == Seq::<u8>::empty());
        state
    }

    /// A state with nothing queued, where the write buffer handed in is empty.
    /// A buffer that holds bytes comes back untouched, together with the codec.
    pub fn try_new(codec: C, write_buffer: BytesMut) -> (result: Result<Self, (C, BytesMut)>)
        ensures
            match result {
                Ok(state) => buffer_bytes(write_buffer).len() == 0 && state.wf() && state@
                    == SendResponseModel::<C, K>::initial(codec),
                Err((codec_back, buffer_back)) => buffer_bytes(write_buffer).len() > 0
                    && codec_back == codec && buffer_back == write_buffer,
            },
    {
        if is_empty(&write_buffer) {
            Ok(Self::new(codec, write_buffer))
        } else {
            Err((codec, write_buffer))
        }
    }

    /// Encodes a response and queues it behind those already queued.
    pub fn enqueue(&mut self, key: K, response: C::Message)
        requires
            old(self).wf(),
        ensures
            final(self)@ == old(self)@.enqueue(key, response),
            final(self).wf(),
    {
        let fragments = self.codec.encode(&response);
        let entry = SendResponseQueueEntry { key, response, fragments };
        self.send_queue.push_back(entry);
        proof {
            assert(self.queued() == old(self).queued().push((key, response)));
        }
    }

    /// Gives the write buffer back, emptied.
    pub fn finish(self) -> (write_buffer: BytesMut)
        ensures
            buffer_bytes(write_buffer).len() == 0,
    {
        let mut write_buffer = self.write_buffer;
        buffer_clear(&mut write_buffer);
        write_buffer
    }

    /// The bytes that wait to be written to the stream.
    pub fn output(&self) -> (bytes: &[u8])
        ensures
            bytes@ == self@.write_buffer,
    {
        buffer_as_slice(&self.write_buffer)
    }

    /// Whether bytes wait to be written to the stream.
    pub fn has_output(&self) -> (waiting: bool)
        ensures
            waiting == (self@.write_buffer.len() > 0),
    {
        buffer_len(&self.write_buffer) > 0
    }

    /// Whether a response waits to be handed back as sent.
    pub fn has_pending(&self) -> (waiting: bool)
        ensures
            waiting == (self@.pending().len() > 0),
    {
        proof {
            assert(self@.queued.len() == self.send_queue@.len());
        }
        self.send_progress.is_some() || self.send_queue.len() > 0
    }

    /// Records that the first `count` bytes of [`Self::output`] were written.
    pub fn consume_output(&mut self, count: usize)
        requires
            old(self).wf(),
            count <= old(self)@.write_buffer.len(),
        ensures
            final(self)@ == old(self)@.consume_output(count as int),
            final(self).wf(),
    {
        buffer_advance(&mut self.write_buffer, count);
    }

    /// Takes up the next response if none is under way, and hands the current
    /// one back once all its bytes were written. While bytes wait in
    /// [`Self::output`], nothing is handed back.
    pub fn progress(&mut self) -> (sent: Option<(K, C::Message)>)
        requires
            old(self).wf(),
        ensures
            (final(self)@, sent) == old(self)@.progress(),
            final(self).wf(),
    {
        if self.send_progress.is_none() {
            match self.send_queue.pop_front() {
                None => {
                    return None;
                },
                Some(entry) => {
                    proof {
                        assert(entry == old(self).send_queue@[0]);
                        assert(self.queued() == old(self).queued().drop_first());
                        assert(old(self).queued()[0] == (entry.key, entry.response));
                        assert forall|i: int| 0 <= i < self.send_queue@.len() implies fragment_views(
                            (#[trigger] self.send_queue@[i]).fragments@,
                        ) == self.codec.fragments(&self.send_queue@[i].response) by {
                            assert(self.send_queue@[i] == old(self).send_queue@[i + 1]);
                        }
                    }
                    // Push the whole response to the write buffer.
                    push_fragments(&mut self.write_buffer, &entry.fragments);
                    self.send_progress = Some(
                        SendResponseProgress { key: entry.key, response: entry.response },
                    );
                },
            }
        }
        if buffer_len(&self.write_buffer) > 0 {
            return None;
        }
        // The response was sent completely.
        match self.send_progress.take() {
            Some(progress) => Some((progress.key, progress.response)),
            None => None,
        }
    }
}

} // verus!
