//! Sending commands: a queue, one command under way, one write buffer.
//!
//! A command is sent in pieces. A synchronizing literal waits until the server
//! asks for it; AUTHENTICATE and IDLE go on for several turns. The command under
//! way remembers where it stands, so that `progress` can be called again at any
//! time.

use crate::buffer::{buffer_advance, buffer_as_slice, buffer_bytes, buffer_extend, buffer_len};
use crate::client::ClientFlowCommandHandle;
use crate::codec::{
    authenticate_data_bytes, command_fragments, command_parts, command_tag,
    encode_authenticate_data, encode_command, encode_idle_done, idle_done_bytes, split_command,
    status_tagged, tag_of_command, tagged_status,
};
use crate::types::{
    CommandAuthenticate, CommandParts, Fragment, FragmentView, LiteralMode, StatusKind,
    concat_data, first_sync_literal, fragment_views,
};
use bytes::BytesMut;
use imap_codec::{AuthenticateDataCodec, CommandCodec, IdleDoneCodec};
use imap_types::auth::AuthenticateData;
use imap_types::command::Command;
use imap_types::response::Status;
use std::collections::VecDeque;
use vstd::prelude::*;

verus! {

/// Whether two byte strings are the same.
pub fn bytes_equal(a: &Vec<u8>, b: &Vec<u8>) -> (equal: bool)
    ensures
        equal == (a@ == b@),
{
    if a.len() != b.len() {
        return false;
    }
    let mut i: usize = 0;
    while i < a.len()
        invariant
            i <= a.len(),
            a.len() == b.len(),
            forall|j: int| 0 <= j < i ==> a@[j] == b@[j],
        decreases a.len() - i,
    {
        if a[i] != b[i] {
            return false;
        }
        i += 1;
    }
    assert(a@ =~= b@);
    true
}

/// All bytes of the fragments, in order.
pub fn concat_fragments(fragments: &VecDeque<Fragment>) -> (bytes: Vec<u8>)
    ensures
        bytes@ == concat_data(fragment_views(fragments@)),
{
    let ghost views = fragment_views(fragments@);
    let mut bytes: Vec<u8> = Vec::new();
    let mut i: usize = 0;
    while i < fragments.len()
        invariant
            i <= fragments.len(),
            views == fragment_views(fragments@),
            bytes@ == concat_data(views.take(i as int)),
        decreases fragments.len() - i,
    {
        proof {
            assert(views.take(i + 1).drop_last() == views.take(i as int));
            assert(views.take(i + 1).last() == fragments@[i as int]@);
        }
        match &fragments[i] {
            Fragment::Line { data } => bytes.extend_from_slice(data.as_slice()),
            Fragment::Literal { data, .. } => bytes.extend_from_slice(data.as_slice()),
        }
        i += 1;
    }
    proof {
        assert(views.take(i as int) == views);
    }
    bytes
}

/// Pushes the fragments up to the first synchronizing literal to the buffer and
/// takes them from the queue: lines and non-synchronizing literals, which need
/// no consent. The synchronizing literal, if there is one, is taken from the
/// queue too and handed out: its bytes wait for the server.
pub(crate) fn push_until_sync_literal(fragments: &mut VecDeque<Fragment>, write_buffer: &mut BytesMut) -> (literal:
    Option<Vec<u8>>)
    ensures
        ({
            let whole = fragment_views(old(fragments)@);
            let stop = first_sync_literal(whole, 0);
            &&& 0 <= stop <= whole.len()
            &&& buffer_bytes(*final(write_buffer)) == buffer_bytes(*old(write_buffer))
                + concat_data(whole.take(stop))
            &&& stop < whole.len() ==> (fragment_views(final(fragments)@) == whole.skip(stop + 1)
                && optional_bytes(literal) == Some(whole[stop].data()))
            &&& stop == whole.len() ==> (fragment_views(final(fragments)@)
                == Seq::<FragmentView>::empty() && literal is None)
        }),
{
    let ghost whole = fragment_views(fragments@);
    let ghost mut pushed: int = 0;
    let mut literal: Option<Vec<u8>> = None;
    proof {
        assert(concat_data(whole.take(0)) == Seq::<u8>::empty());
        assert(whole.skip(0) == whole);
        assert(buffer_bytes(*write_buffer) == buffer_bytes(*old(write_buffer))
            + Seq::<u8>::empty());
    }
    loop
        invariant_except_break
            0 <= pushed <= whole.len(),
            literal is None,
            fragment_views(fragments@) == whole.skip(pushed),
            first_sync_literal(whole, 0) == first_sync_literal(whole, pushed),
            buffer_bytes(*write_buffer) == buffer_bytes(*old(write_buffer)) + concat_data(
                whole.take(pushed),
            ),
        ensures
            pushed == first_sync_literal(whole, 0),
            0 <= pushed <= whole.len(),
            buffer_bytes(*write_buffer) == buffer_bytes(*old(write_buffer)) + concat_data(
                whole.take(pushed),
            ),
            pushed < whole.len() ==> (fragment_views(fragments@) == whole.skip(pushed + 1)
                && optional_bytes(literal) == Some(whole[pushed].data())),
            pushed == whole.len() ==> (fragment_views(fragments@) == Seq::<FragmentView>::empty()
                && literal is None),
        decreases whole.len() - pushed,
    {
        let ghost before = fragments@;
        match fragments.pop_front() {
            Some(fragment) => {
                proof {
                    assert(fragment@ == whole[pushed]) by {
                        assert(fragment == before[0]);
                        assert(fragment_views(before).len() == before.len());
                        assert(fragment_views(before)[0] == before[0]@);
                        assert(whole.skip(pushed)[0] == whole[pushed]);
                    }
                    assert(fragment_views(fragments@) == whole.skip(pushed + 1)) by {
                        assert(fragment_views(fragments@) =~= fragment_views(before).skip(1));
                        assert(whole.skip(pushed).skip(1) =~= whole.skip(pushed + 1));
                    }
                    assert(whole.take(pushed + 1).drop_last() == whole.take(pushed));
                    assert(whole.take(pushed + 1).last() == whole[pushed]);
                }
                match fragment {
                    Fragment::Line { data } => {
                        buffer_extend(write_buffer, data.as_slice());
                        proof {
                            pushed = pushed + 1;
                        }
                    },
                    Fragment::Literal { data, mode } => match mode {
                        LiteralMode::NonSync => {
                            buffer_extend(write_buffer, data.as_slice());
                            proof {
                                pushed = pushed + 1;
                            }
                        },
                        LiteralMode::Sync => {
                            // The server has to ask for this literal first.
                            literal = Some(data);
                            break ;
                        },
                    },
                }
            },
            None => {
                proof {
                    assert(whole.skip(pushed).len() == 0);
                    assert(whole.take(pushed) == whole);
                }
                break ;
            },
        }
    }
    literal
}

/// A command was sent, or one of its parts.
#[derive(Debug, PartialEq)]
pub enum SendCommandEvent {
    /// A command was sent completely.
    Command { handle: ClientFlowCommandHandle, command: Command<'static> },
    /// The line of an AUTHENTICATE was sent; the exchange begins.
    CommandAuthenticate { handle: ClientFlowCommandHandle },
    /// The line of an IDLE was sent.
    CommandIdle { handle: ClientFlowCommandHandle },
    /// `DONE` was sent; the IDLE is over.
    IdleDone { handle: ClientFlowCommandHandle },
}

/// A command was ended by a status of the server.
#[derive(Debug, PartialEq)]
pub enum SendCommandTermination {
    /// The server refused a literal of the command.
    LiteralRejected { handle: ClientFlowCommandHandle, command: Command<'static> },
    /// The server accepted the authentication.
    AuthenticateAccepted {
        handle: ClientFlowCommandHandle,
        command_authenticate: CommandAuthenticate,
    },
    /// The server rejected the authentication.
    AuthenticateRejected {
        handle: ClientFlowCommandHandle,
        command_authenticate: CommandAuthenticate,
    },
    /// The server refused to idle.
    IdleRejected { handle: ClientFlowCommandHandle },
}

/// A command that is queued and not sent yet.
#[derive(Debug)]
pub struct QueuedCommand {
    pub handle: ClientFlowCommandHandle,
    pub command: Command<'static>,
}

/// What `finish_sending` makes of a state once all bytes were written.
#[allow(inconsistent_fields)]
pub enum FinishSendingResult<S> {
    /// The command goes on.
    Uncompleted { state: S, event: Option<SendCommandEvent> },
    /// The command was sent completely.
    Completed { event: SendCommandEvent },
}

/// Where a regular command stands.
#[derive(Debug)]
#[allow(inconsistent_fields)]
pub enum CommandActivity {
    /// Fragments go to the write buffer, behind the literal that the server
    /// accepted, if there is one.
    PushingFragments { accepted_literal: Option<Vec<u8>> },
    /// The fragments pushed are being written. A literal that needs the server's
    /// consent waits in limbo.
    WaitingForFragmentsSent { limbo_literal: Option<Vec<u8>> },
    /// Everything before the literal was written; the server has to accept or
    /// reject it.
    WaitingForLiteralAccepted { limbo_literal: Vec<u8> },
}

#[allow(inconsistent_fields)]
pub enum CommandActivityView {
    PushingFragments { accepted_literal: Option<Seq<u8>> },
    WaitingForFragmentsSent { limbo_literal: Option<Seq<u8>> },
    WaitingForLiteralAccepted { limbo_literal: Seq<u8> },
}

/// The bytes of an optional byte string.
pub open spec fn optional_bytes(bytes: Option<Vec<u8>>) -> Option<Seq<u8>> {
    match bytes {
        Some(bytes) => Some(bytes@),
        None => None,
    }
}

impl View for CommandActivity {
    type V = CommandActivityView;

    open spec fn view(&self) -> CommandActivityView {
        match *self {
            CommandActivity::PushingFragments { accepted_literal } => CommandActivityView::PushingFragments {
                accepted_literal: optional_bytes(accepted_literal),
            },
            CommandActivity::WaitingForFragmentsSent { limbo_literal } => CommandActivityView::WaitingForFragmentsSent {
                limbo_literal: optional_bytes(limbo_literal),
            },
            CommandActivity::WaitingForLiteralAccepted { limbo_literal } => CommandActivityView::WaitingForLiteralAccepted {
                limbo_literal: limbo_literal@,
            },
        }
    }
}

/// A regular command under way.
#[derive(Debug)]
pub struct CommandState {
    pub handle: ClientFlowCommandHandle,
    pub command: Command<'static>,
    /// The text of the tag of the command.
    pub tag: Vec<u8>,
    /// The fragments that were not pushed yet.
    pub fragments: VecDeque<Fragment>,
    pub activity: CommandActivity,
}

pub struct CommandStateView {
    pub handle: ClientFlowCommandHandle,
    pub command: Command<'static>,
    pub tag: Seq<u8>,
    pub fragments: Seq<FragmentView>,
    pub activity: CommandActivityView,
}

impl View for CommandState {
    type V = CommandStateView;

    open spec fn view(&self) -> CommandStateView {
        CommandStateView {
            handle: self.handle,
            command: self.command,
            tag: self.tag@,
            fragments: fragment_views(self.fragments@),
            activity: self.activity@,
        }
    }
}

impl CommandStateView {
    /// The bytes that go to the write buffer next, and the state after that:
    /// the accepted literal, then every fragment up to the first synchronizing
    /// literal, whose bytes are held back.
    pub open spec fn push_to_buffer(self) -> (Seq<u8>, CommandStateView) {
        match self.activity {
            CommandActivityView::PushingFragments { accepted_literal } => {
                let accepted = match accepted_literal {
                    Some(data) => data,
                    None => Seq::empty(),
                };
                let stop = first_sync_literal(self.fragments, 0);
                let bytes = accepted + concat_data(self.fragments.take(stop));
                if stop < self.fragments.len() {
                    (
                        bytes,
                        CommandStateView {
                            fragments: self.fragments.skip(stop + 1),
                            activity: CommandActivityView::WaitingForFragmentsSent {
                                limbo_literal: Some(self.fragments[stop].data()),
                            },
                            ..self
                        },
                    )
                } else {
                    (
                        bytes,
                        CommandStateView {
                            fragments: Seq::empty(),
                            activity: CommandActivityView::WaitingForFragmentsSent {
                                limbo_literal: None,
                            },
                            ..self
                        },
                    )
                }
            },
            _ => (Seq::empty(), self),
        }
    }

    /// What becomes of the command once the write buffer is empty.
    pub open spec fn finish_sending(self) -> FinishSendingResult<CommandStateView> {
        match self.activity {
            CommandActivityView::WaitingForFragmentsSent { limbo_literal: Some(limbo_literal) } => FinishSendingResult::Uncompleted {
                state: CommandStateView {
                    activity: CommandActivityView::WaitingForLiteralAccepted { limbo_literal },
                    ..self
                },
                event: None,
            },
            CommandActivityView::WaitingForFragmentsSent { limbo_literal: None } => FinishSendingResult::Completed {
                event: SendCommandEvent::Command { handle: self.handle, command: self.command },
            },
            _ => FinishSendingResult::Uncompleted { state: self, event: None },
        }
    }
}

impl CommandState {
    /// Pushes as many bytes of the command as may be sent now.
    pub fn push_to_buffer(self, write_buffer: &mut BytesMut) -> (state: CommandState)
        ensures
            buffer_bytes(*final(write_buffer)) == buffer_bytes(*old(write_buffer))
                + self@.push_to_buffer().0,
            state@ == self@.push_to_buffer().1,
    {
        let mut fragments = self.fragments;
        let activity = match self.activity {
            CommandActivity::PushingFragments { accepted_literal } => {
                let ghost accepted = match optional_bytes(accepted_literal) {
                    Some(data) => data,
                    None => Seq::empty(),
                };
                // First the literal that the server accepted.
                match &accepted_literal {
                    Some(data) => buffer_extend(write_buffer, data.as_slice()),
                    None => {
                        assert(buffer_bytes(*write_buffer) == buffer_bytes(*old(write_buffer))
                            + Seq::<u8>::empty());
                    },
                }
                let ghost whole = fragment_views(fragments@);
                // Then as many fragments as possible.
                let limbo_literal = push_until_sync_literal(&mut fragments, write_buffer);
                proof {
                    let stop = first_sync_literal(whole, 0);
                    assert((buffer_bytes(*old(write_buffer)) + accepted) + concat_data(
                        whole.take(stop),
                    ) == buffer_bytes(*old(write_buffer)) + (accepted + concat_data(
                        whole.take(stop),
                    )));
                }
                CommandActivity::WaitingForFragmentsSent { limbo_literal }
            },
            activity => {
                assert(buffer_bytes(*write_buffer) == buffer_bytes(*old(write_buffer))
                    + Seq::<u8>::empty());
                activity
            },
        };
        CommandState { handle: self.handle, command: self.command, tag: self.tag, fragments, activity }
    }

    /// Tells the command that all bytes pushed so far were written.
    pub fn finish_sending(self) -> (result: FinishSendingResult<CommandState>)
        ensures
            match result {
                FinishSendingResult::Uncompleted { state, event } => self@.finish_sending()
                    == (FinishSendingResult::Uncompleted { state: state@, event }),
                FinishSendingResult::Completed { event } => self@.finish_sending()
                    == (FinishSendingResult::<CommandStateView>::Completed { event }),
            },
    {
        match self.activity {
            CommandActivity::WaitingForFragmentsSent { limbo_literal } => match limbo_literal {
                Some(limbo_literal) => FinishSendingResult::Uncompleted {
                    state: CommandState {
                        handle: self.handle,
                        command: self.command,
                        tag: self.tag,
                        fragments: self.fragments,
                        activity: CommandActivity::WaitingForLiteralAccepted { limbo_literal },
                    },
                    event: None,
                },
                None => FinishSendingResult::Completed {
                    event: SendCommandEvent::Command { handle: self.handle, command: self.command },
                },
            },
            activity => FinishSendingResult::Uncompleted {
                state: CommandState {
                    handle: self.handle,
                    command: self.command,
                    tag: self.tag,
                    fragments: self.fragments,
                    activity,
                },
                event: None,
            },
        }
    }
}

/// Where an AUTHENTICATE stands.
#[derive(Debug)]
pub enum AuthenticateActivity {
    /// The line of the command goes to the write buffer.
    PushingAuthenticate { authenticate: Vec<u8> },
    /// The line of the command is being written.
    WaitingForAuthenticateSent,
    /// The server has to ask for data, or to accept or reject.
    WaitingForAuthenticateResponse,
    /// The server asked for data; the user of the client has to provide it.
    WaitingForAuthenticateDataSet,
    /// A data line goes to the write buffer.
    PushingAuthenticateData { authenticate_data: Vec<u8> },
    /// The data line is being written.
    WaitingForAuthenticateDataSent,
}

pub enum AuthenticateActivityView {
    PushingAuthenticate { authenticate: Seq<u8> },
    WaitingForAuthenticateSent,
    WaitingForAuthenticateResponse,
    WaitingForAuthenticateDataSet,
    PushingAuthenticateData { authenticate_data: Seq<u8> },
    WaitingForAuthenticateDataSent,
}

impl View for AuthenticateActivity {
    type V = AuthenticateActivityView;

    open spec fn view(&self) -> AuthenticateActivityView {
        match *self {
            AuthenticateActivity::PushingAuthenticate { authenticate } => AuthenticateActivityView::PushingAuthenticate {
                authenticate: authenticate@,
            },
            AuthenticateActivity::WaitingForAuthenticateSent => AuthenticateActivityView::WaitingForAuthenticateSent,
            AuthenticateActivity::WaitingForAuthenticateResponse => AuthenticateActivityView::WaitingForAuthenticateResponse,
            AuthenticateActivity::WaitingForAuthenticateDataSet => AuthenticateActivityView::WaitingForAuthenticateDataSet,
            AuthenticateActivity::PushingAuthenticateData { authenticate_data } => AuthenticateActivityView::PushingAuthenticateData {
                authenticate_data: authenticate_data@,
            },
            AuthenticateActivity::WaitingForAuthenticateDataSent => AuthenticateActivityView::WaitingForAuthenticateDataSent,
        }
    }
}

/// An AUTHENTICATE under way.
#[derive(Debug)]
pub struct AuthenticateState {
    pub handle: ClientFlowCommandHandle,
    pub command_authenticate: CommandAuthenticate,
    /// The text of the tag of the command.
    pub tag: Vec<u8>,
    pub activity: AuthenticateActivity,
}

pub struct AuthenticateStateView {
    pub handle: ClientFlowCommandHandle,
    pub command_authenticate: CommandAuthenticate,
    pub tag: Seq<u8>,
    pub activity: AuthenticateActivityView,
}

impl View for AuthenticateState {
    type V = AuthenticateStateView;

    open spec fn view(&self) -> AuthenticateStateView {
        AuthenticateStateView {
            handle: self.handle,
            command_authenticate: self.command_authenticate,
            tag: self.tag@,
            activity: self.activity@,
        }
    }
}

impl AuthenticateStateView {
    /// The bytes that go to the write buffer next, and the state after that.
    pub open spec fn push_to_buffer(self) -> (Seq<u8>, AuthenticateStateView) {
        match self.activity {
            AuthenticateActivityView::PushingAuthenticate { authenticate } => (
                authenticate,
                AuthenticateStateView {
                    activity: AuthenticateActivityView::WaitingForAuthenticateSent,
                    ..self
                },
            ),
            AuthenticateActivityView::PushingAuthenticateData { authenticate_data } => (
                authenticate_data,
                AuthenticateStateView {
                    activity: AuthenticateActivityView::WaitingForAuthenticateDataSent,
                    ..self
                },
            ),
            _ => (Seq::empty(), self),
        }
    }

    /// What becomes of the command once the write buffer is empty. An
    /// AUTHENTICATE never ends by being sent: the server ends it.
    pub open spec fn finish_sending(self) -> FinishSendingResult<AuthenticateStateView> {
        match self.activity {
            AuthenticateActivityView::WaitingForAuthenticateSent => FinishSendingResult::Uncompleted {
                state: AuthenticateStateView {
                    activity: AuthenticateActivityView::WaitingForAuthenticateResponse,
                    ..self
                },
                event: Some(SendCommandEvent::CommandAuthenticate { handle: self.handle }),
            },
            AuthenticateActivityView::WaitingForAuthenticateDataSent => FinishSendingResult::Uncompleted {
                state: AuthenticateStateView {
                    activity: AuthenticateActivityView::WaitingForAuthenticateResponse,
                    ..self
                },
                event: None,
            },
            _ => FinishSendingResult::Uncompleted { state: self, event: None },
        }
    }
}

impl AuthenticateState {
    /// Pushes the line that waits, if one does.
    pub fn push_to_buffer(self, write_buffer: &mut BytesMut) -> (state: AuthenticateState)
        ensures
            buffer_bytes(*final(write_buffer)) == buffer_bytes(*old(write_buffer))
                + self@.push_to_buffer().0,
            state@ == self@.push_to_buffer().1,
    {
        let activity = match self.activity {
            AuthenticateActivity::PushingAuthenticate { authenticate } => {
                buffer_extend(write_buffer, authenticate.as_slice());
                AuthenticateActivity::WaitingForAuthenticateSent
            },
            AuthenticateActivity::PushingAuthenticateData { authenticate_data } => {
                buffer_extend(write_buffer, authenticate_data.as_slice());
                AuthenticateActivity::WaitingForAuthenticateDataSent
            },
            activity => {
                assert(buffer_bytes(*write_buffer) == buffer_bytes(*old(write_buffer))
                    + Seq::<u8>::empty());
                activity
            },
        };
        AuthenticateState {
            handle: self.handle,
            command_authenticate: self.command_authenticate,
            tag: self.tag,
            activity,
        }
    }

    /// Tells the command that all bytes pushed so far were written.
    pub fn finish_sending(self) -> (result: FinishSendingResult<AuthenticateState>)
        ensures
            match result {
                FinishSendingResult::Uncompleted { state, event } => self@.finish_sending()
                    == (FinishSendingResult::Uncompleted { state: state@, event }),
                FinishSendingResult::Completed { event } => self@.finish_sending()
                    == (FinishSendingResult::<AuthenticateStateView>::Completed { event }),
            },
    {
        let handle = self.handle;
        match self.activity {
            AuthenticateActivity::WaitingForAuthenticateSent => FinishSendingResult::Uncompleted {
                state: AuthenticateState {
                    handle: self.handle,
                    command_authenticate: self.command_authenticate,
                    tag: self.tag,
                    activity: AuthenticateActivity::WaitingForAuthenticateResponse,
                },
                event: Some(SendCommandEvent::CommandAuthenticate { handle }),
            },
            AuthenticateActivity::WaitingForAuthenticateDataSent => FinishSendingResult::Uncompleted {
                state: AuthenticateState {
                    handle: self.handle,
                    command_authenticate: self.command_authenticate,
                    tag: self.tag,
                    activity: AuthenticateActivity::WaitingForAuthenticateResponse,
                },
                event: None,
            },
            activity => FinishSendingResult::Uncompleted {
                state: AuthenticateState {
                    handle: self.handle,
                    command_authenticate: self.command_authenticate,
                    tag: self.tag,
                    activity,
                },
                event: None,
            },
        }
    }
}

/// Where an IDLE stands.
#[derive(Debug)]
pub enum IdleActivity {
    /// The line of the command goes to the write buffer.
    PushingIdle { idle: Vec<u8> },
    /// The line of the command is being written.
    WaitingForIdleSent,
    /// The server has to accept or reject.
    WaitingForIdleResponse,
    /// The server accepted; the user of the client ends the IDLE when it likes.
    WaitingForIdleDoneSet,
    /// `DONE` goes to the write buffer.
    PushingIdleDone { idle_done: Vec<u8> },
    /// `DONE` is being written.
    WaitingForIdleDoneSent,
}

pub enum IdleActivityView {
    PushingIdle { idle: Seq<u8> },
    WaitingForIdleSent,
    WaitingForIdleResponse,
    WaitingForIdleDoneSet,
    PushingIdleDone { idle_done: Seq<u8> },
    WaitingForIdleDoneSent,
}

impl View for IdleActivity {
    type V = IdleActivityView;

    open spec fn view(&self) -> IdleActivityView {
        match *self {
            IdleActivity::PushingIdle { idle } => IdleActivityView::PushingIdle { idle: idle@ },
            IdleActivity::WaitingForIdleSent => IdleActivityView::WaitingForIdleSent,
            IdleActivity::WaitingForIdleResponse => IdleActivityView::WaitingForIdleResponse,
            IdleActivity::WaitingForIdleDoneSet => IdleActivityView::WaitingForIdleDoneSet,
            IdleActivity::PushingIdleDone { idle_done } => IdleActivityView::PushingIdleDone {
                idle_done: idle_done@,
            },
            IdleActivity::WaitingForIdleDoneSent => IdleActivityView::WaitingForIdleDoneSent,
        }
    }
}

impl IdleActivityView {
    /// Whether the server has not answered the IDLE yet.
    pub open spec fn before_continuation(self) -> bool {
        self is PushingIdle || self is WaitingForIdleSent || self is WaitingForIdleResponse
    }
}

/// An IDLE under way.
#[derive(Debug)]
pub struct IdleState {
    pub handle: ClientFlowCommandHandle,
    /// The text of the tag of the command.
    pub tag: Vec<u8>,
    pub activity: IdleActivity,
}

pub struct IdleStateView {
    pub handle: ClientFlowCommandHandle,
    pub tag: Seq<u8>,
    pub activity: IdleActivityView,
}

impl View for IdleState {
    type V = IdleStateView;

    open spec fn view(&self) -> IdleStateView {
        IdleStateView { handle: self.handle, tag: self.tag@, activity: self.activity@ }
    }
}

impl IdleStateView {
    /// The bytes that go to the write buffer next, and the state after that.
    pub open spec fn push_to_buffer(self) -> (Seq<u8>, IdleStateView) {
        match self.activity {
            IdleActivityView::PushingIdle { idle } => (
                idle,
                IdleStateView { activity: IdleActivityView::WaitingForIdleSent, ..self },
            ),
            IdleActivityView::PushingIdleDone { idle_done } => (
                idle_done,
                IdleStateView { activity: IdleActivityView::WaitingForIdleDoneSent, ..self },
            ),
            _ => (Seq::empty(), self),
        }
    }

    /// What becomes of the command once the write buffer is empty.
    pub open spec fn finish_sending(self) -> FinishSendingResult<IdleStateView> {
        match self.activity {
            IdleActivityView::WaitingForIdleSent => FinishSendingResult::Uncompleted {
                state: IdleStateView { activity: IdleActivityView::WaitingForIdleResponse, ..self },
                event: Some(SendCommandEvent::CommandIdle { handle: self.handle }),
            },
            IdleActivityView::WaitingForIdleDoneSent => FinishSendingResult::Completed {
                event: SendCommandEvent::IdleDone { handle: self.handle },
            },
            _ => FinishSendingResult::Uncompleted { state: self, event: None },
        }
    }
}

impl IdleState {
    /// Pushes the line that waits, if one does.
    pub fn push_to_buffer(self, write_buffer: &mut BytesMut) -> (state: IdleState)
        ensures
            buffer_bytes(*final(write_buffer)) == buffer_bytes(*old(write_buffer))
                + self@.push_to_buffer().0,
            state@ == self@.push_to_buffer().1,
    {
        let activity = match self.activity {
            IdleActivity::PushingIdle { idle } => {
                buffer_extend(write_buffer, idle.as_slice());
                IdleActivity::WaitingForIdleSent
            },
            IdleActivity::PushingIdleDone { idle_done } => {
                buffer_extend(write_buffer, idle_done.as_slice());
                IdleActivity::WaitingForIdleDoneSent
            },
            activity => {
                assert(buffer_bytes(*write_buffer) == buffer_bytes(*old(write_buffer))
                    + Seq::<u8>::empty());
                activity
            },
        };
        IdleState { handle: self.handle, tag: self.tag, activity }
    }

    /// Tells the command that all bytes pushed so far were written.
    pub fn finish_sending(self) -> (result: FinishSendingResult<IdleState>)
        ensures
            match result {
                FinishSendingResult::Uncompleted { state, event } => self@.finish_sending()
                    == (FinishSendingResult::Uncompleted { state: state@, event }),
                FinishSendingResult::Completed { event } => self@.finish_sending()
                    == (FinishSendingResult::<IdleStateView>::Completed { event }),
            },
    {
        let handle = self.handle;
        match self.activity {
            IdleActivity::WaitingForIdleSent => FinishSendingResult::Uncompleted {
                state: IdleState {
                    handle: self.handle,
                    tag: self.tag,
                    activity: IdleActivity::WaitingForIdleResponse,
                },
                event: Some(SendCommandEvent::CommandIdle { handle }),
            },
            IdleActivity::WaitingForIdleDoneSent => FinishSendingResult::Completed {
                event: SendCommandEvent::IdleDone { handle },
            },
            activity => FinishSendingResult::Uncompleted {
                state: IdleState { handle: self.handle, tag: self.tag, activity },
                event: None,
            },
        }
    }
}

impl<S> FinishSendingResult<S> {
    /// The same result with the state, if there is one, turned into another.
    pub fn map_state<T, F: FnOnce(S) -> T>(self, f: F) -> (result: FinishSendingResult<T>)
        requires
            self matches FinishSendingResult::Uncompleted { state, .. } ==> call_requires(
                f,
                (state,),
            ),
        ensures
            match self {
                FinishSendingResult::Uncompleted { state, event } => result matches FinishSendingResult::Uncompleted {
                    state: mapped,
                    event: mapped_event,
                } && mapped_event == event && call_ensures(f, (state,), mapped),
                FinishSendingResult::Completed { event } => result
                    == (FinishSendingResult::<T>::Completed { event }),
            },
    {
        match self {
            FinishSendingResult::Uncompleted { state, event } => FinishSendingResult::Uncompleted {
                state: f(state),
                event,
            },
            FinishSendingResult::Completed { event } => FinishSendingResult::Completed { event },
        }
    }
}

/// The command that is being sent.
#[derive(Debug)]
pub enum CurrentCommand {
    /// A regular command.
    Command(CommandState),
    /// An AUTHENTICATE.
    Authenticate(AuthenticateState),
    /// An IDLE.
    Idle(IdleState),
}

pub enum CurrentCommandView {
    Command(CommandStateView),
    Authenticate(AuthenticateStateView),
    Idle(IdleStateView),
}

impl View for CurrentCommand {
    type V = CurrentCommandView;

    open spec fn view(&self) -> CurrentCommandView {
        match *self {
            CurrentCommand::Command(state) => CurrentCommandView::Command(state@),
            CurrentCommand::Authenticate(state) => CurrentCommandView::Authenticate(state@),
            CurrentCommand::Idle(state) => CurrentCommandView::Idle(state@),
        }
    }
}

impl CurrentCommandView {
    /// The handle under which the command was enqueued.
    pub open spec fn handle(self) -> ClientFlowCommandHandle {
        match self {
            CurrentCommandView::Command(state) => state.handle,
            CurrentCommandView::Authenticate(state) => state.handle,
            CurrentCommandView::Idle(state) => state.handle,
        }
    }

    /// The bytes that go to the write buffer next, and the state after that.
    pub open spec fn push_to_buffer(self) -> (Seq<u8>, CurrentCommandView) {
        match self {
            CurrentCommandView::Command(state) => (
                state.push_to_buffer().0,
                CurrentCommandView::Command(state.push_to_buffer().1),
            ),
            CurrentCommandView::Authenticate(state) => (
                state.push_to_buffer().0,
                CurrentCommandView::Authenticate(state.push_to_buffer().1),
            ),
            CurrentCommandView::Idle(state) => (
                state.push_to_buffer().0,
                CurrentCommandView::Idle(state.push_to_buffer().1),
            ),
        }
    }

    /// What becomes of the command once the write buffer is empty.
    pub open spec fn finish_sending(self) -> FinishSendingResult<CurrentCommandView> {
        match self {
            CurrentCommandView::Command(state) => match state.finish_sending() {
                FinishSendingResult::Uncompleted { state, event } => FinishSendingResult::Uncompleted {
                    state: CurrentCommandView::Command(state),
                    event,
                },
                FinishSendingResult::Completed { event } => FinishSendingResult::Completed { event },
            },
            CurrentCommandView::Authenticate(state) => match state.finish_sending() {
                FinishSendingResult::Uncompleted { state, event } => FinishSendingResult::Uncompleted {
                    state: CurrentCommandView::Authenticate(state),
                    event,
                },
                FinishSendingResult::Completed { event } => FinishSendingResult::Completed { event },
            },
            CurrentCommandView::Idle(state) => match state.finish_sending() {
                FinishSendingResult::Uncompleted { state, event } => FinishSendingResult::Uncompleted {
                    state: CurrentCommandView::Idle(state),
                    event,
                },
                FinishSendingResult::Completed { event } => FinishSendingResult::Completed { event },
            },
        }
    }

    /// The command with which the sending of a queued command begins.
    pub open spec fn start(codec: CommandCodec, queued: QueuedCommand) -> CurrentCommandView {
        let fragments = command_fragments(codec, queued.command);
        let tag = command_tag(queued.command);
        match command_parts(queued.command) {
            CommandParts::Authenticate { command_authenticate } => CurrentCommandView::Authenticate(
                AuthenticateStateView {
                    handle: queued.handle,
                    command_authenticate,
                    tag,
                    activity: AuthenticateActivityView::PushingAuthenticate {
                        authenticate: concat_data(fragments),
                    },
                },
            ),
            CommandParts::Idle { .. } => CurrentCommandView::Idle(
                IdleStateView {
                    handle: queued.handle,
                    tag,
                    activity: IdleActivityView::PushingIdle { idle: concat_data(fragments) },
                },
            ),
            CommandParts::Regular { command } => CurrentCommandView::Command(
                CommandStateView {
                    handle: queued.handle,
                    command,
                    tag,
                    fragments,
                    activity: CommandActivityView::PushingFragments { accepted_literal: None },
                },
            ),
        }
    }
}

impl CurrentCommand {
    /// Pushes as many bytes of the command as may be sent now.
    pub fn push_to_buffer(self, write_buffer: &mut BytesMut) -> (current: CurrentCommand)
        ensures
            buffer_bytes(*final(write_buffer)) == buffer_bytes(*old(write_buffer))
                + self@.push_to_buffer().0,
            current@ == self@.push_to_buffer().1,
    {
        match self {
            CurrentCommand::Command(state) => CurrentCommand::Command(
                state.push_to_buffer(write_buffer),
            ),
            CurrentCommand::Authenticate(state) => CurrentCommand::Authenticate(
                state.push_to_buffer(write_buffer),
            ),
            CurrentCommand::Idle(state) => CurrentCommand::Idle(state.push_to_buffer(write_buffer)),
        }
    }

    /// Tells the command that all bytes pushed so far were written.
    pub fn finish_sending(self) -> (result: FinishSendingResult<CurrentCommand>)
        ensures
            match result {
                FinishSendingResult::Uncompleted { state, event } => self@.finish_sending()
                    == (FinishSendingResult::Uncompleted { state: state@, event }),
                FinishSendingResult::Completed { event } => self@.finish_sending()
                    == (FinishSendingResult::<CurrentCommandView>::Completed { event }),
            },
    {
        match self {
            CurrentCommand::Command(state) => state.finish_sending().map_state(
                CurrentCommand::from_command,
            ),
            CurrentCommand::Authenticate(state) => state.finish_sending().map_state(
                CurrentCommand::from_authenticate,
            ),
            CurrentCommand::Idle(state) => state.finish_sending().map_state(
                CurrentCommand::from_idle,
            ),
        }
    }

    fn from_command(state: CommandState) -> (current: CurrentCommand)
        ensures
            current == CurrentCommand::Command(state),
    {
        CurrentCommand::Command(state)
    }

    fn from_authenticate(state: AuthenticateState) -> (current: CurrentCommand)
        ensures
            current == CurrentCommand::Authenticate(state),
    {
        CurrentCommand::Authenticate(state)
    }

    fn from_idle(state: IdleState) -> (current: CurrentCommand)
        ensures
            current == CurrentCommand::Idle(state),
    {
        CurrentCommand::Idle(state)
    }
}

impl QueuedCommand {
    /// Starts the sending of this command.
    pub fn start(self, codec: &CommandCodec) -> (current: CurrentCommand)
        ensures
            current@ == CurrentCommandView::start(*codec, self),
    {
        let handle = self.handle;
        let command = self.command;
        let fragments = encode_command(codec, &command);
        let tag = tag_of_command(&command);
        match split_command(command) {
            CommandParts::Authenticate { command_authenticate } => {
                // An AUTHENTICATE is a single line.
                let authenticate = concat_fragments(&fragments);
                CurrentCommand::Authenticate(
                    AuthenticateState {
                        handle,
                        command_authenticate,
                        tag,
                        activity: AuthenticateActivity::PushingAuthenticate { authenticate },
                    },
                )
            },
            CommandParts::Idle { .. } => {
                // An IDLE is a single line.
                let idle = concat_fragments(&fragments);
                CurrentCommand::Idle(
                    IdleState { handle, tag, activity: IdleActivity::PushingIdle { idle } },
                )
            },
            CommandParts::Regular { command } => CurrentCommand::Command(
                CommandState {
                    handle,
                    command,
                    tag,
                    fragments,
                    activity: CommandActivity::PushingFragments { accepted_literal: None },
                },
            ),
        }
    }
}

/// The sending side of a client.
#[derive(Debug)]
pub struct SendCommandState {
    command_codec: CommandCodec,
    authenticate_data_codec: AuthenticateDataCodec,
    idle_done_codec: IdleDoneCodec,
    /// The commands that are sent next, first in, first out.
    queued_commands: VecDeque<QueuedCommand>,
    /// The command that is being sent.
    current_command: Option<CurrentCommand>,
    /// The bytes that are not written yet. They may outlive their command: a
    /// command can be ended by the server while bytes of it still wait here, and
    /// what was begun is always written to its end.
    write_buffer: BytesMut,
}

/// What a [`SendCommandState`] is, as a mathematical value.
pub struct SendCommandModel {
    pub command_codec: CommandCodec,
    pub authenticate_data_codec: AuthenticateDataCodec,
    pub idle_done_codec: IdleDoneCodec,
    pub queued: Seq<QueuedCommand>,
    pub current: Option<CurrentCommandView>,
    pub write_buffer: Seq<u8>,
}

impl View for SendCommandState {
    type V = SendCommandModel;

    closed spec fn view(&self) -> SendCommandModel {
        SendCommandModel {
            command_codec: self.command_codec,
            authenticate_data_codec: self.authenticate_data_codec,
            idle_done_codec: self.idle_done_codec,
            queued: self.queued_commands@,
            current: match self.current_command {
                Some(current) => Some(current@),
                None => None,
            },
            write_buffer: buffer_bytes(self.write_buffer),
        }
    }
}

impl SendCommandModel {
    pub open spec fn enqueue(self, handle: ClientFlowCommandHandle, command: Command<'static>) -> Self {
        SendCommandModel { queued: self.queued.push(QueuedCommand { handle, command }), ..self }
    }

    /// What a status of the server ends: `tagged` is the tag and the kind of the
    /// status, if it has a tag. A regular command ends by a `BAD` with its tag;
    /// an AUTHENTICATE by any status with its tag; an IDLE by any status with its
    /// tag for as long as the server has not accepted it.
    pub open spec fn maybe_remove(self, tagged: Option<(Seq<u8>, StatusKind)>) -> (
        Self,
        Option<SendCommandTermination>,
    ) {
        match (self.current, tagged) {
            (Some(CurrentCommandView::Command(state)), Some((tag, StatusKind::Bad))) if tag
                == state.tag => (
                SendCommandModel { current: None, ..self },
                Some(
                    SendCommandTermination::LiteralRejected {
                        handle: state.handle,
                        command: state.command,
                    },
                ),
            ),
            (Some(CurrentCommandView::Authenticate(state)), Some((tag, kind))) if tag
                == state.tag => (
                SendCommandModel { current: None, ..self },
                Some(
                    if kind == StatusKind::Okay {
                        SendCommandTermination::AuthenticateAccepted {
                            handle: state.handle,
                            command_authenticate: state.command_authenticate,
                        }
                    } else {
                        SendCommandTermination::AuthenticateRejected {
                            handle: state.handle,
                            command_authenticate: state.command_authenticate,
                        }
                    },
                ),
            ),
            (Some(CurrentCommandView::Idle(state)), Some((tag, _))) if tag == state.tag
                && state.activity.before_continuation() => (
                SendCommandModel { current: None, ..self },
                Some(SendCommandTermination::IdleRejected { handle: state.handle }),
            ),
            _ => (self, None),
        }
    }

    /// A continuation request arrived. It releases the literal in limbo, if one
    /// waits for the server.
    pub open spec fn literal_continue(self) -> (Self, bool) {
        match self.current {
            Some(
                CurrentCommandView::Command(
                    CommandStateView {
                        handle,
                        command,
                        tag,
                        fragments,
                        activity: CommandActivityView::WaitingForLiteralAccepted { limbo_literal },
                    },
                ),
            ) => (
                SendCommandModel {
                    current: Some(
                        CurrentCommandView::Command(
                            CommandStateView {
                                handle,
                                command,
                                tag,
                                fragments,
                                activity: CommandActivityView::PushingFragments {
                                    accepted_literal: Some(limbo_literal),
                                },
                            },
                        ),
                    ),
                    ..self
                },
                true,
            ),
            _ => (self, false),
        }
    }

    /// A continuation request arrived. It asks for authenticate data, if an
    /// AUTHENTICATE waits for the server.
    pub open spec fn authenticate_continue(self) -> (Self, Option<ClientFlowCommandHandle>) {
        match self.current {
            Some(CurrentCommandView::Authenticate(state)) if state.activity is WaitingForAuthenticateResponse => (
                SendCommandModel {
                    current: Some(
                        CurrentCommandView::Authenticate(
                            AuthenticateStateView {
                                activity: AuthenticateActivityView::WaitingForAuthenticateDataSet,
                                ..state
                            },
                        ),
                    ),
                    ..self
                },
                Some(state.handle),
            ),
            _ => (self, None),
        }
    }

    /// The user provides the authenticate data that the server asked for.
    pub open spec fn set_authenticate_data(self, authenticate_data: AuthenticateData<'static>) -> (
        Self,
        Result<ClientFlowCommandHandle, AuthenticateData<'static>>,
    ) {
        match self.current {
            Some(CurrentCommandView::Authenticate(state)) if state.activity is WaitingForAuthenticateDataSet => (
                SendCommandModel {
                    current: Some(
                        CurrentCommandView::Authenticate(
                            AuthenticateStateView {
                                activity: AuthenticateActivityView::PushingAuthenticateData {
                                    authenticate_data: authenticate_data_bytes(
                                        self.authenticate_data_codec,
                                        authenticate_data,
                                    ),
                                },
                                ..state
                            },
                        ),
                    ),
                    ..self
                },
                Ok(state.handle),
            ),
            _ => (self, Err(authenticate_data)),
        }
    }

    /// A continuation request arrived. It accepts the IDLE, if one waits for the
    /// server.
    pub open spec fn idle_continue(self) -> (Self, Option<ClientFlowCommandHandle>) {
        match self.current {
            Some(CurrentCommandView::Idle(state)) if state.activity is WaitingForIdleResponse => (
                SendCommandModel {
                    current: Some(
                        CurrentCommandView::Idle(
                            IdleStateView {
                                activity: IdleActivityView::WaitingForIdleDoneSet,
                                ..state
                            },
                        ),
                    ),
                    ..self
                },
                Some(state.handle),
            ),
            _ => (self, None),
        }
    }

    /// The user ends the IDLE that the server accepted.
    pub open spec fn set_idle_done(self) -> (Self, Option<ClientFlowCommandHandle>) {
        match self.current {
            Some(CurrentCommandView::Idle(state)) if state.activity is WaitingForIdleDoneSet => (
                SendCommandModel {
                    current: Some(
                        CurrentCommandView::Idle(
                            IdleStateView {
                                activity: IdleActivityView::PushingIdleDone {
                                    idle_done: idle_done_bytes(),
                                },
                                ..state
                            },
                        ),
                    ),
                    ..self
                },
                Some(state.handle),
            ),
            _ => (self, None),
        }
    }

    /// The state once the next queued command, if any, has been taken up.
    pub open spec fn started(self) -> Self {
        if self.current is Some || self.queued.len() == 0 {
            self
        } else {
            SendCommandModel {
                queued: self.queued.drop_first(),
                current: Some(CurrentCommandView::start(self.command_codec, self.queued.first())),
                ..self
            }
        }
    }

    /// One call of `progress`: the state after it and the event it reports. The
    /// command under way pushes what it may send now. While bytes wait to be
    /// written nothing else happens; once the write buffer is empty the command
    /// is told so and moves on.
    pub open spec fn progress(self) -> (Self, Option<SendCommandEvent>) {
        let started = self.started();
        match started.current {
            None => (started, None),
            Some(current) => {
                let (bytes, pushed) = current.push_to_buffer();
                let write_buffer = started.write_buffer + bytes;
                if write_buffer.len() > 0 {
                    (SendCommandModel { current: Some(pushed), write_buffer, ..started }, None)
                } else {
                    match pushed.finish_sending() {
                        FinishSendingResult::Uncompleted { state, event } => (
                            SendCommandModel { current: Some(state), write_buffer, ..started },
                            event,
                        ),
                        FinishSendingResult::Completed { event } => (
                            SendCommandModel { current: None, write_buffer, ..started },
                            Some(event),
                        ),
                    }
                }
            },
        }
    }

    /// The state after `count` bytes of the write buffer were written out.
    pub open spec fn consume_output(self, count: int) -> Self {
        SendCommandModel { write_buffer: self.write_buffer.skip(count), ..self }
    }
}

impl SendCommandState {
    /// A state with nothing queued. Bytes already in `write_buffer` are written
    /// before anything else.
    pub fn new(
        command_codec: CommandCodec,
        authenticate_data_codec: AuthenticateDataCodec,
        idle_done_codec: IdleDoneCodec,
        write_buffer: BytesMut,
    ) -> (state: Self)
        ensures
            state@ == (SendCommandModel {
                command_codec,
                authenticate_data_codec,
                idle_done_codec,
                queued: Seq::empty(),
                current: None,
                write_buffer: buffer_bytes(write_buffer),
            }),
    {
        SendCommandState {
            command_codec,
            authenticate_data_codec,
            idle_done_codec,
            queued_commands: VecDeque::new(),
            current_command: None,
            write_buffer,
        }
    }

    /// Queues a command behind those already queued.
    pub fn enqueue(&mut self, handle: ClientFlowCommandHandle, command: Command<'static>)
        ensures
            final(self)@ == old(self)@.enqueue(handle, command),
    {
        self.queued_commands.push_back(QueuedCommand { handle, command });
    }

    /// Ends the command under way where the status says so.
    pub fn maybe_remove(&mut self, status: &Status<'static>) -> (termination: Option<
        SendCommandTermination,
    >)
        ensures
            (final(self)@, termination) == old(self)@.maybe_remove(status_tagged(*status)),
    {
        let (tag, kind) = match tagged_status(status) {
            Some(tagged) => tagged,
            None => {
                return None;
            },
        };
        let current_command = match self.current_command.take() {
            Some(current_command) => current_command,
            None => {
                return None;
            },
        };
        match current_command {
            CurrentCommand::Command(state) => {
                if bytes_equal(&tag, &state.tag) {
                    match kind {
                        StatusKind::Bad => {
                            // The server refused a literal.
                            return Some(
                                SendCommandTermination::LiteralRejected {
                                    handle: state.handle,
                                    command: state.command,
                                },
                            );
                        },
                        _ => {},
                    }
                }
                self.current_command = Some(CurrentCommand::Command(state));
            },
            CurrentCommand::Authenticate(state) => {
                if bytes_equal(&tag, &state.tag) {
                    match kind {
                        StatusKind::Okay => {
                            return Some(
                                SendCommandTermination::AuthenticateAccepted {
                                    handle: state.handle,
                                    command_authenticate: state.command_authenticate,
                                },
                            );
                        },
                        StatusKind::No | StatusKind::Bad => {
                            return Some(
                                SendCommandTermination::AuthenticateRejected {
                                    handle: state.handle,
                                    command_authenticate: state.command_authenticate,
                                },
                            );
                        },
                    }
                }
                self.current_command = Some(CurrentCommand::Authenticate(state));
            },
            CurrentCommand::Idle(state) => {
                let before_continuation = match &state.activity {
                    IdleActivity::PushingIdle { .. } => true,
                    IdleActivity::WaitingForIdleSent => true,
                    IdleActivity::WaitingForIdleResponse => true,
                    _ => false,
                };
                if before_continuation && bytes_equal(&tag, &state.tag) {
                    return Some(SendCommandTermination::IdleRejected { handle: state.handle });
                }
                self.current_command = Some(CurrentCommand::Idle(state));
            },
        }
        None
    }

    /// Takes the continuation request for a literal. `true` says that a literal
    /// was waiting and is now free to be sent.
    pub fn literal_continue(&mut self) -> (continued: bool)
        ensures
            (final(self)@, continued) == old(self)@.literal_continue(),
    {
        let current_command = match self.current_command.take() {
            Some(current_command) => current_command,
            None => {
                return false;
            },
        };
        match current_command {
            CurrentCommand::Command(state) => match state.activity {
                CommandActivity::WaitingForLiteralAccepted { limbo_literal } => {
                    self.current_command = Some(
                        CurrentCommand::Command(
                            CommandState {
                                handle: state.handle,
                                command: state.command,
                                tag: state.tag,
                                fragments: state.fragments,
                                activity: CommandActivity::PushingFragments {
                                    accepted_literal: Some(limbo_literal),
                                },
                            },
                        ),
                    );
                    true
                },
                activity => {
                    self.current_command = Some(
                        CurrentCommand::Command(
                            CommandState {
                                handle: state.handle,
                                command: state.command,
                                tag: state.tag,
                                fragments: state.fragments,
                                activity,
                            },
                        ),
                    );
                    false
                },
            },
            current_command => {
                self.current_command = Some(current_command);
                false
            },
        }
    }

    /// Takes the continuation request for authenticate data. The handle says
    /// that an AUTHENTICATE was waiting and now waits for
    /// [`Self::set_authenticate_data`].
    pub fn authenticate_continue(&mut self) -> (handle: Option<ClientFlowCommandHandle>)
        ensures
            (final(self)@, handle) == old(self)@.authenticate_continue(),
    {
        let current_command = match self.current_command.take() {
            Some(current_command) => current_command,
            None => {
                return None;
            },
        };
        match current_command {
            CurrentCommand::Authenticate(state) => match state.activity {
                AuthenticateActivity::WaitingForAuthenticateResponse => {
                    let handle = state.handle;
                    self.current_command = Some(
                        CurrentCommand::Authenticate(
                            AuthenticateState {
                                handle: state.handle,
                                command_authenticate: state.command_authenticate,
                                tag: state.tag,
                                activity: AuthenticateActivity::WaitingForAuthenticateDataSet,
                            },
                        ),
                    );
                    Some(handle)
                },
                activity => {
                    self.current_command = Some(
                        CurrentCommand::Authenticate(
                            AuthenticateState {
                                handle: state.handle,
                                command_authenticate: state.command_authenticate,
                                tag: state.tag,
                                activity,
                            },
                        ),
                    );
                    None
                },
            },
            current_command => {
                self.current_command = Some(current_command);
                None
            },
        }
    }

    /// Takes the authenticate data that the server asked for; it is sent by the
    /// next calls of [`Self::progress`]. Data that nobody asked for comes back.
    pub fn set_authenticate_data(&mut self, authenticate_data: AuthenticateData<'static>) -> (result:
        Result<ClientFlowCommandHandle, AuthenticateData<'static>>)
        ensures
            (final(self)@, result) == old(self)@.set_authenticate_data(authenticate_data),
    {
        let current_command = match self.current_command.take() {
            Some(current_command) => current_command,
            None => {
                return Err(authenticate_data);
            },
        };
        match current_command {
            CurrentCommand::Authenticate(state) => match state.activity {
                AuthenticateActivity::WaitingForAuthenticateDataSet => {
                    // Authenticate data is a single line.
                    let line = encode_authenticate_data(
                        &self.authenticate_data_codec,
                        &authenticate_data,
                    );
                    let handle = state.handle;
                    self.current_command = Some(
                        CurrentCommand::Authenticate(
                            AuthenticateState {
                                handle: state.handle,
                                command_authenticate: state.command_authenticate,
                                tag: state.tag,
                                activity: AuthenticateActivity::PushingAuthenticateData {
                                    authenticate_data: line,
                                },
                            },
                        ),
                    );
                    Ok(handle)
                },
                activity => {
                    self.current_command = Some(
                        CurrentCommand::Authenticate(
                            AuthenticateState {
                                handle: state.handle,
                                command_authenticate: state.command_authenticate,
                                tag: state.tag,
                                activity,
                            },
                        ),
                    );
                    Err(authenticate_data)
                },
            },
            current_command => {
                self.current_command = Some(current_command);
                Err(authenticate_data)
            },
        }
    }

    /// Takes the continuation request that accepts an IDLE. The handle says that
    /// an IDLE was waiting and now waits for [`Self::set_idle_done`].
    pub fn idle_continue(&mut self) -> (handle: Option<ClientFlowCommandHandle>)
        ensures
            (final(self)@, handle) == old(self)@.idle_continue(),
    {
        let current_command = match self.current_command.take() {
            Some(current_command) => current_command,
            None => {
                return None;
            },
        };
        match current_command {
            CurrentCommand::Idle(state) => match state.activity {
                IdleActivity::WaitingForIdleResponse => {
                    let handle = state.handle;
                    self.current_command = Some(
                        CurrentCommand::Idle(
                            IdleState {
                                handle: state.handle,
                                tag: state.tag,
                                activity: IdleActivity::WaitingForIdleDoneSet,
                            },
                        ),
                    );
                    Some(handle)
                },
                activity => {
                    self.current_command = Some(
                        CurrentCommand::Idle(
                            IdleState { handle: state.handle, tag: state.tag, activity },
                        ),
                    );
                    None
                },
            },
            current_command => {
                self.current_command = Some(current_command);
                None
            },
        }
    }

    /// Ends the IDLE: `DONE` is sent by the next calls of [`Self::progress`].
    pub fn set_idle_done(&mut self) -> (handle: Option<ClientFlowCommandHandle>)
        ensures
            (final(self)@, handle) == old(self)@.set_idle_done(),
    {
        let current_command = match self.current_command.take() {
            Some(current_command) => current_command,
            None => {
                return None;
            },
        };
        match current_command {
            CurrentCommand::Idle(state) => match state.activity {
                IdleActivity::WaitingForIdleDoneSet => {
                    // `DONE` is a single line.
                    let idle_done = encode_idle_done(&self.idle_done_codec);
                    let handle = state.handle;
                    self.current_command = Some(
                        CurrentCommand::Idle(
                            IdleState {
                                handle: state.handle,
                                tag: state.tag,
                                activity: IdleActivity::PushingIdleDone { idle_done },
                            },
                        ),
                    );
                    Some(handle)
                },
                activity => {
                    self.current_command = Some(
                        CurrentCommand::Idle(
                            IdleState { handle: state.handle, tag: state.tag, activity },
                        ),
                    );
                    None
                },
            },
            current_command => {
                self.current_command = Some(current_command);
                None
            },
        }
    }

    /// The bytes that wait to be written to the stream.
    pub fn output(&self) -> (bytes: &[u8])
        ensures
            bytes@ == self@.write_buffer,
    {
        buffer_as_slice(&self.write_buffer)
    }

    /// Whether bytes wait to be written to the stream.
    pub fn has_output(&self) -> (waiting: bool)
        ensures
            waiting == (self@.write_buffer.len() > 0),
    {
        buffer_len(&self.write_buffer) > 0
    }

    /// Records that the first `count` bytes of [`Self::output`] were written.
    pub fn consume_output(&mut self, count: usize)
        requires
            count <= old(self)@.write_buffer.len(),
        ensures
            final(self)@ == old(self)@.consume_output(count as int),
    {
        buffer_advance(&mut self.write_buffer, count);
    }

    /// Drives the sending one step. Takes up the next command if none is under
    /// way and pushes what may be sent now. While bytes wait in
    /// [`Self::output`], they have to be written first; then the command moves on
    /// and may report an event.
    pub fn progress(&mut self) -> (event: Option<SendCommandEvent>)
        ensures
            (final(self)@, event) == old(self)@.progress(),
    {
        let current_command = match self.current_command.take() {
            Some(current_command) => current_command,
            None => match self.queued_commands.pop_front() {
                Some(queued_command) => queued_command.start(&self.command_codec),
                None => {
                    // Nothing to send.
                    return None;
                },
            },
        };
        // Push as many bytes of the command as possible.
        let current_command = current_command.push_to_buffer(&mut self.write_buffer);
        if buffer_len(&self.write_buffer) > 0 {
            // The stream has to take these bytes first.
            self.current_command = Some(current_command);
            return None;
        }
        // All bytes were written.
        match current_command.finish_sending() {
            FinishSendingResult::Uncompleted { state, event } => {
                self.current_command = Some(state);
                event
            },
            FinishSendingResult::Completed { event } => Some(event),
        }
    }
}

} // verus!
