//! What holds of every history of a [`SendCommandState`].

use crate::client::ClientFlowCommandHandle;
use crate::send_command::{
    CommandActivityView, CommandStateView, CurrentCommandView, FinishSendingResult, QueuedCommand,
    SendCommandEvent, SendCommandModel, SendCommandTermination,
};
use crate::types::{FragmentView, StatusKind, concat_data, first_sync_literal, lemma_first_sync_literal};
use imap_types::auth::AuthenticateData;
use imap_types::command::Command;
use vstd::prelude::*;

verus! {

/// What can happen to a [`SendCommandState`] between its creation and now.
pub enum SendCommandStep {
    /// `enqueue` was called.
    Enqueue { handle: ClientFlowCommandHandle, command: Command<'static> },
    /// `maybe_remove` was called with a status; `tagged` is its tag and kind.
    MaybeRemove { tagged: Option<(Seq<u8>, StatusKind)> },
    /// `literal_continue` was called.
    LiteralContinue,
    /// `authenticate_continue` was called.
    AuthenticateContinue,
    /// `set_authenticate_data` was called.
    SetAuthenticateData { authenticate_data: AuthenticateData<'static> },
    /// `idle_continue` was called.
    IdleContinue,
    /// `set_idle_done` was called.
    SetIdleDone,
    /// `progress` was called.
    Progress,
    /// `consume_output` was called after `count` bytes were written.
    ConsumeOutput { count: int },
}

/// The command that an event of `progress` reports as over.
pub open spec fn ended_by_event(event: Option<SendCommandEvent>) -> Seq<ClientFlowCommandHandle> {
    match event {
        Some(SendCommandEvent::Command { handle, .. }) => seq![handle],
        Some(SendCommandEvent::IdleDone { handle }) => seq![handle],
        _ => Seq::empty(),
    }
}

/// The command that `maybe_remove` reports as over.
pub open spec fn ended_by_termination(termination: Option<SendCommandTermination>) -> Seq<
    ClientFlowCommandHandle,
> {
    match termination {
        Some(SendCommandTermination::LiteralRejected { handle, .. }) => seq![handle],
        Some(SendCommandTermination::AuthenticateAccepted { handle, .. }) => seq![handle],
        Some(SendCommandTermination::AuthenticateRejected { handle, .. }) => seq![handle],
        Some(SendCommandTermination::IdleRejected { handle }) => seq![handle],
        None => Seq::empty(),
    }
}

impl SendCommandModel {
    /// The handles of the commands that were enqueued and are not over: the one
    /// under way, then the queue.
    pub open spec fn pending(self) -> Seq<ClientFlowCommandHandle> {
        let queued = self.queued.map_values(|queued: QueuedCommand| queued.handle);
        match self.current {
            Some(current) => seq![current.handle()] + queued,
            None => queued,
        }
    }

    /// One step: the state after it and the handle of the command that the step
    /// reports as over, if it reports one. A step that breaks the precondition of
    /// its function changes nothing.
    pub open spec fn step(self, step: SendCommandStep) -> (Self, Seq<ClientFlowCommandHandle>) {
        match step {
            SendCommandStep::Enqueue { handle, command } => (
                self.enqueue(handle, command),
                Seq::empty(),
            ),
            SendCommandStep::MaybeRemove { tagged } => (
                self.maybe_remove(tagged).0,
                ended_by_termination(self.maybe_remove(tagged).1),
            ),
            SendCommandStep::LiteralContinue => (self.literal_continue().0, Seq::empty()),
            SendCommandStep::AuthenticateContinue => (self.authenticate_continue().0, Seq::empty()),
            SendCommandStep::SetAuthenticateData { authenticate_data } => (
                self.set_authenticate_data(authenticate_data).0,
                Seq::empty(),
            ),
            SendCommandStep::IdleContinue => (self.idle_continue().0, Seq::empty()),
            SendCommandStep::SetIdleDone => (self.set_idle_done().0, Seq::empty()),
            SendCommandStep::Progress => (self.progress().0, ended_by_event(self.progress().1)),
            SendCommandStep::ConsumeOutput { count } => if 0 <= count <= self.write_buffer.len() {
                (self.consume_output(count), Seq::empty())
            } else {
                (self, Seq::empty())
            },
        }
    }

    /// A whole history: the state after the steps and the handles of the
    /// commands reported as over, in the order of the reports.
    pub open spec fn run(self, steps: Seq<SendCommandStep>) -> (Self, Seq<ClientFlowCommandHandle>)
        decreases steps.len(),
    {
        if steps.len() == 0 {
            (self, Seq::empty())
        } else {
            let (before, ended) = self.run(steps.drop_last());
            let (after, ended_now) = before.step(steps.last());
            (after, ended + ended_now)
        }
    }

    /// The handles that a history enqueued, in order.
    pub open spec fn enqueued(steps: Seq<SendCommandStep>) -> Seq<ClientFlowCommandHandle>
        decreases steps.len(),
    {
        if steps.len() == 0 {
            Seq::empty()
        } else {
            let before = Self::enqueued(steps.drop_last());
            match steps.last() {
                SendCommandStep::Enqueue { handle, .. } => before.push(handle),
                _ => before,
            }
        }
    }

    /// Starting the next command leaves the pending handles as they are.
    pub proof fn lemma_started_keeps_pending(self)
        ensures
            self.started().pending() == self.pending(),
    {
        let f = |queued: QueuedCommand| queued.handle;
        if self.current is None && self.queued.len() > 0 {
            assert(self.queued.map_values(f) == seq![f(self.queued.first())]
                + self.queued.drop_first().map_values(f));
        }
    }

    /// What a step reports as over, followed by what is pending after it, is
    /// what was pending before, followed by what the step enqueues.
    pub proof fn lemma_step_keeps_order(self, step: SendCommandStep)
        ensures
            ({
                let (after, ended_now) = self.step(step);
                let enqueued_now = match step {
                    SendCommandStep::Enqueue { handle, .. } => seq![handle],
                    _ => Seq::empty(),
                };
                ended_now + after.pending() == self.pending() + enqueued_now
            }),
    {
        let (after, ended_now) = self.step(step);
        let f = |queued: QueuedCommand| queued.handle;
        let none = Seq::<ClientFlowCommandHandle>::empty();
        assert(none + after.pending() == after.pending());
        assert(self.pending() + none == self.pending());
        match step {
            SendCommandStep::Enqueue { handle, command } => {
                assert(after.queued.map_values(f) == self.queued.map_values(f).push(handle));
            },
            SendCommandStep::Progress => {
                self.lemma_started_keeps_pending();
            },
            _ => {},
        }
    }

    /// Every command is reported as over at most once and in the order of
    /// enqueueing: after any history, the handles reported as over, followed by
    /// those still pending, are exactly the handles enqueued, in that order. Once
    /// nothing is pending, each enqueued command was reported as over exactly
    /// once.
    pub proof fn lemma_ended_in_enqueue_order(self, steps: Seq<SendCommandStep>)
        requires
            self.current is None,
            self.queued.len() == 0,
        ensures
            ({
                let (state, ended) = self.run(steps);
                ended + state.pending() == Self::enqueued(steps)
            }),
        decreases steps.len(),
    {
        if steps.len() == 0 {
            assert(self.pending() == Seq::<ClientFlowCommandHandle>::empty());
        } else {
            self.lemma_ended_in_enqueue_order(steps.drop_last());
            let (before, ended) = self.run(steps.drop_last());
            before.lemma_step_keeps_order(steps.last());
            let (after, ended_now) = before.step(steps.last());
            let enqueued_now = match steps.last() {
                SendCommandStep::Enqueue { handle, .. } => seq![handle],
                _ => Seq::empty(),
            };
            assert(Self::enqueued(steps) == Self::enqueued(steps.drop_last()) + enqueued_now);
            assert((ended + ended_now) + after.pending() == ended + (ended_now + after.pending()));
            assert(ended + (before.pending() + enqueued_now) == (ended + before.pending())
                + enqueued_now);
        }
    }
}

/// How many synchronizing literals a sequence of fragments holds.
pub open spec fn sync_literals(fragments: Seq<FragmentView>) -> nat
    decreases fragments.len(),
{
    let stop = first_sync_literal(fragments, 0);
    if 0 <= stop < fragments.len() {
        1 + sync_literals(fragments.skip(stop + 1))
    } else {
        0
    }
}

/// The bytes of the fragments that may be sent once the server has asked for
/// `continues` literals: everything before the synchronizing literal that comes
/// after those.
pub open spec fn released(fragments: Seq<FragmentView>, continues: nat) -> Seq<u8>
    decreases fragments.len(),
{
    let stop = first_sync_literal(fragments, 0);
    if 0 <= stop < fragments.len() {
        if continues == 0 {
            concat_data(fragments.take(stop))
        } else {
            concat_data(fragments.take(stop + 1)) + released(
                fragments.skip(stop + 1),
                (continues - 1) as nat,
            )
        }
    } else {
        concat_data(fragments)
    }
}

impl CommandStateView {
    /// The state after a continuation request, as `literal_continue` leaves it.
    pub open spec fn literal_continue(self) -> CommandStateView {
        match self.activity {
            CommandActivityView::WaitingForLiteralAccepted { limbo_literal } => CommandStateView {
                activity: CommandActivityView::PushingFragments {
                    accepted_literal: Some(limbo_literal),
                },
                ..self
            },
            _ => self,
        }
    }

    /// A whole exchange: the bytes that the command writes, and what becomes of
    /// it, while the stream takes every byte and the server sends `continues`
    /// continuation requests, each as soon as the command waits for one.
    pub open spec fn send(self, continues: nat) -> (Seq<u8>, FinishSendingResult<CommandStateView>)
        decreases continues,
    {
        let (bytes, pushed) = self.push_to_buffer();
        match pushed.finish_sending() {
            FinishSendingResult::Completed { event } => (
                bytes,
                FinishSendingResult::Completed { event },
            ),
            FinishSendingResult::Uncompleted { state, event } => if continues == 0 {
                (bytes, FinishSendingResult::Uncompleted { state, event })
            } else {
                let (more, result) = state.literal_continue().send((continues - 1) as nat);
                (bytes + more, result)
            },
        }
    }

    /// A command with `k` synchronizing literals needs `k` continuation
    /// requests, and no byte of a literal is written before the server asked for
    /// it. After `continues` requests the command has written the accepted
    /// literal it began with and exactly the fragments before the synchronizing
    /// literal that no request has covered yet. It is reported as sent if and
    /// only if every synchronizing literal was asked for; until then it waits for
    /// the server with the next literal in limbo.
    pub proof fn lemma_sync_literals_wait(self, continues: nat)
        requires
            self.activity is PushingFragments,
        ensures
            ({
                let accepted = match self.activity->accepted_literal {
                    Some(data) => data,
                    None => Seq::empty(),
                };
                self.send(continues).0 == accepted + released(self.fragments, continues)
            }),
            sync_literals(self.fragments) <= continues ==> self.send(continues).1
                == (FinishSendingResult::<CommandStateView>::Completed {
                event: SendCommandEvent::Command { handle: self.handle, command: self.command },
            }),
            sync_literals(self.fragments) > continues ==> (self.send(continues).1 matches FinishSendingResult::Uncompleted {
                state,
                event,
            } && event is None && state.activity is WaitingForLiteralAccepted),
        decreases continues,
    {
        let accepted = match self.activity->accepted_literal {
            Some(data) => data,
            None => Seq::empty(),
        };
        let stop = first_sync_literal(self.fragments, 0);
        lemma_first_sync_literal(self.fragments, 0);
        let (bytes, pushed) = self.push_to_buffer();
        if stop < self.fragments.len() {
            let state = pushed.finish_sending()->Uncompleted_state;
            if continues > 0 {
                let next = state.literal_continue();
                next.lemma_sync_literals_wait((continues - 1) as nat);
                assert(self.fragments.take(stop + 1).drop_last() == self.fragments.take(stop));
                assert(self.fragments.take(stop + 1).last() == self.fragments[stop]);
                let rest = released(self.fragments.skip(stop + 1), (continues - 1) as nat);
                assert((accepted + concat_data(self.fragments.take(stop)))
                    + (self.fragments[stop].data() + rest) == accepted + ((concat_data(
                    self.fragments.take(stop),
                ) + self.fragments[stop].data()) + rest));
            }
        } else {
            assert(self.fragments.take(stop) == self.fragments);
        }
    }

    /// A command without synchronizing literals is written in one go, its
    /// non-synchronizing literals included, and is then reported as sent; no
    /// continuation request is needed.
    pub proof fn lemma_non_sync_literals_do_not_wait(self)
        requires
            self.activity == (CommandActivityView::PushingFragments { accepted_literal: None }),
            forall|i: int|
                0 <= i < self.fragments.len() ==> !(#[trigger] self.fragments[i]).is_sync_literal(),
        ensures
            self.push_to_buffer().0 == concat_data(self.fragments),
            self.push_to_buffer().1.finish_sending()
                == (FinishSendingResult::<CommandStateView>::Completed {
                event: SendCommandEvent::Command { handle: self.handle, command: self.command },
            }),
    {
        lemma_first_sync_literal(self.fragments, 0);
        let stop = first_sync_literal(self.fragments, 0);
        assert(self.fragments.take(stop) == self.fragments);
        assert(Seq::<u8>::empty() + concat_data(self.fragments) == concat_data(self.fragments));
    }
}

impl CurrentCommandView {
    /// Pushing twice pushes nothing the second time.
    pub proof fn lemma_push_to_buffer_once(self)
        ensures
            self.push_to_buffer().1.push_to_buffer() == (
                Seq::<u8>::empty(),
                self.push_to_buffer().1,
            ),
    {
    }
}

impl SendCommandModel {
    /// While bytes wait to be written, `progress` changes nothing and reports
    /// nothing, however often it is called: giving up on a write and coming back
    /// later loses no byte and no event.
    pub proof fn lemma_progress_waits_for_output(self)
        requires
            self.progress().0.write_buffer.len() > 0,
        ensures
            self.progress().1 is None,
            self.progress().0.progress() == (self.progress().0, None::<SendCommandEvent>),
    {
        let started = self.started();
        match started.current {
            None => {},
            Some(current) => {
                current.lemma_push_to_buffer_once();
                let after = self.progress().0;
                assert(after.started() == after);
                assert(after.write_buffer + Seq::<u8>::empty() == after.write_buffer);
            },
        }
    }

    /// What was pushed is written to its end: whatever happens to the state,
    /// short of the stream taking bytes, leaves the bytes that wait to be written
    /// where they are and adds at most more behind them. A command that the
    /// server ends is no exception.
    pub proof fn lemma_output_is_never_dropped(self, step: SendCommandStep)
        requires
            !(step is ConsumeOutput),
        ensures
            self.write_buffer.is_prefix_of(self.step(step).0.write_buffer),
    {
        let after = self.step(step).0;
        match step {
            SendCommandStep::Progress => {
                let started = self.started();
                match started.current {
                    Some(current) => {
                        let bytes = current.push_to_buffer().0;
                        assert(after.write_buffer == self.write_buffer + bytes);
                        assert((self.write_buffer + bytes).subrange(
                            0,
                            self.write_buffer.len() as int,
                        ) == self.write_buffer);
                    },
                    None => {},
                }
            },
            _ => {},
        }
        assert(after.write_buffer.subrange(0, self.write_buffer.len() as int)
            == self.write_buffer);
    }

    /// A call of `progress` that reports nothing leaves a state in which the
    /// next call changes nothing and reports nothing, until something else
    /// happens.
    pub proof fn lemma_progress_comes_to_rest(self)
        requires
            self.progress().1 is None,
        ensures
            self.progress().0.progress() == (self.progress().0, None::<SendCommandEvent>),
    {
        let started = self.started();
        let after = self.progress().0;
        match started.current {
            None => {},
            Some(current) => {
                current.lemma_push_to_buffer_once();
                assert(after.started() == after);
                assert(after.write_buffer + Seq::<u8>::empty() == after.write_buffer);
            },
        }
    }

    /// Writing the output in two parts leaves the same state as writing it at
    /// once.
    pub proof fn lemma_partial_writes_compose(self, first: int, second: int)
        requires
            0 <= first,
            0 <= second,
            first + second <= self.write_buffer.len(),
        ensures
            self.consume_output(first).consume_output(second) == self.consume_output(
                first + second,
            ),
    {
        assert(self.write_buffer.skip(first).skip(second) == self.write_buffer.skip(first + second));
    }
}

impl SendCommandModel {
    /// How far the sending is from having nothing left to report: two for
    /// every command that is not over, less one once the command under way has
    /// had its line reported as sent.
    pub open spec fn rank(self) -> int {
        let announced: int = match self.current {
            Some(CurrentCommandView::Authenticate(state)) => if state.activity is PushingAuthenticate
                || state.activity is WaitingForAuthenticateSent {
                0
            } else {
                1
            },
            Some(CurrentCommandView::Idle(state)) => if state.activity is PushingIdle
                || state.activity is WaitingForIdleSent {
                0
            } else {
                1
            },
            _ => 0,
        };
        2 * self.pending().len() - announced
    }

    /// Authenticate data brings the sending no further from its end.
    pub proof fn lemma_authenticate_data_keeps_rank(self, authenticate_data: AuthenticateData<'static>)
        ensures
            self.set_authenticate_data(authenticate_data).0.rank() == self.rank(),
    {
    }

    /// Every event of `progress` brings the sending nearer to its end: no
    /// history of calls reports events without end.
    pub proof fn lemma_event_lowers_rank(self)
        ensures
            0 <= self.rank(),
            self.progress().1 is Some ==> self.progress().0.rank() < self.rank(),
    {
        self.lemma_started_keeps_pending();
    }
}

impl SendCommandModel {
    /// A call of `progress`, the stream taking every byte that waits, and the
    /// call of `progress` that tells the command so: the state after that, the
    /// bytes written, and the event reported.
    pub open spec fn progress_and_write(self) -> (Self, Seq<u8>, Option<SendCommandEvent>) {
        let (pushed, event) = self.progress();
        if pushed.write_buffer.len() > 0 {
            let written = pushed.consume_output(pushed.write_buffer.len() as int);
            (written.progress().0, pushed.write_buffer, written.progress().1)
        } else {
            (pushed, Seq::empty(), event)
        }
    }

    /// A whole exchange for the command under way: `progress` and the stream
    /// take turns, and the server sends `continues` continuation requests, each
    /// as soon as the command waits for one. The state after that, all bytes
    /// written, and the event that reports the command as sent, if it came to
    /// that.
    pub open spec fn exchange(self, continues: nat) -> (Self, Seq<u8>, Option<SendCommandEvent>)
        decreases continues,
    {
        let (after, written, event) = self.progress_and_write();
        if event is Some || continues == 0 {
            (after, written, event)
        } else {
            let (end, more, event) = after.literal_continue().0.exchange((continues - 1) as nat);
            (end, written + more, event)
        }
    }

    /// With a regular command under way and nothing left to write from before,
    /// the sending does what the command does: it writes what the command
    /// pushes, and goes on as the command says once that is written.
    pub proof fn lemma_progress_and_write(self, command: CommandStateView)
        requires
            self.current == Some(CurrentCommandView::Command(command)),
            self.write_buffer.len() == 0,
        ensures
            self.progress_and_write().1 == command.push_to_buffer().0,
            self.progress_and_write().0.write_buffer.len() == 0,
            match command.push_to_buffer().1.finish_sending() {
                FinishSendingResult::Uncompleted { state, event } => self.progress_and_write().0.current
                    == Some(CurrentCommandView::Command(state)) && self.progress_and_write().2
                    == event,
                FinishSendingResult::Completed { event } => self.progress_and_write().0.current
                    is None && self.progress_and_write().2 == Some(event),
            },
    {
        let (bytes, pushed) = command.push_to_buffer();
        assert(self.started() == self);
        assert(self.write_buffer + bytes == bytes);
        let (after, event) = self.progress();
        if after.write_buffer.len() > 0 {
            let written = after.consume_output(after.write_buffer.len() as int);
            CurrentCommandView::Command(command).lemma_push_to_buffer_once();
            assert(written.write_buffer == Seq::<u8>::empty());
            assert(written.started() == written);
            assert(written.write_buffer + Seq::<u8>::empty() == written.write_buffer);
        }
    }

    /// A command with `k` synchronizing literals is sent in `k + 1` parts, with
    /// one continuation request of the server before each part but the first.
    /// After `continues` requests, the bytes written are exactly those of the
    /// fragments before the synchronizing literal that no request has covered
    /// yet: no byte of a literal is written before the server asked for it. The
    /// command is reported as sent if and only if every synchronizing literal
    /// was asked for.
    pub proof fn lemma_exchange(self, command: CommandStateView, continues: nat)
        requires
            self.current == Some(CurrentCommandView::Command(command)),
            self.write_buffer.len() == 0,
            command.activity is PushingFragments,
        ensures
            self.exchange(continues).1 == command.send(continues).0,
            ({
                let accepted = match command.activity->accepted_literal {
                    Some(data) => data,
                    None => Seq::empty(),
                };
                self.exchange(continues).1 == accepted + released(command.fragments, continues)
            }),
            sync_literals(command.fragments) <= continues ==> self.exchange(continues).2 == Some(
                SendCommandEvent::Command { handle: command.handle, command: command.command },
            ),
            sync_literals(command.fragments) > continues ==> self.exchange(continues).2 is None,
        decreases continues,
    {
        self.lemma_progress_and_write(command);
        command.lemma_sync_literals_wait(continues);
        lemma_first_sync_literal(command.fragments, 0);
        let (after, written, event) = self.progress_and_write();
        match command.push_to_buffer().1.finish_sending() {
            FinishSendingResult::Uncompleted { state, event } => {
                if continues > 0 {
                    let next = state.literal_continue();
                    assert(after.literal_continue().0.current == Some(
                        CurrentCommandView::Command(next),
                    ));
                    after.literal_continue().0.lemma_exchange(next, (continues - 1) as nat);
                    next.lemma_sync_literals_wait((continues - 1) as nat);
                }
            },
            FinishSendingResult::Completed { event } => {},
        }
    }
}

} // verus!
