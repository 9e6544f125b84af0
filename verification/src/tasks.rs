//! Tasks: commands together with what is done with the answers.
//!
//! A [`Scheduler`] owns a client, tags the command of every task, and hands
//! each response of the server to the task that it belongs to. What belongs to
//! no task in particular trickles down the tasks that were sent, oldest first.

use crate::client::{
    ClientFlow, ClientFlowCommandHandle, ClientFlowError, ClientFlowEvent, ClientFlowModel,
    ClientFlowOutcome, ClientFlowProgress,
};
use crate::codec::{
    command_from, command_of, command_tag, response_from, response_of, split_status, status_from,
    status_of, status_parts, status_tagged, tag_of_command, tagged_status,
};
use crate::send_command::bytes_equal;
use crate::types::{ResponseParts, StatusParts};
use imap_types::auth::AuthenticateData;
use imap_types::command::CommandBody;
use imap_types::response::{Bye, CommandContinuationRequest, Data, Response, Status, StatusBody};
use std::marker::PhantomData;
use vstd::pervasive::unreached;
use vstd::prelude::*;

verus! {

/// Something that a value can be offered to: it takes the value, or hands one
/// back for the next in line.
pub trait Consumer<V>: Sized {
    /// What may become of the consumer and the value when `value` is offered:
    /// whether the consumer may end up as `after` and hand `back`. A consumer
    /// that says nothing of itself may do anything.
    open spec fn consumes(&self, value: V, after: &Self, back: Option<V>) -> bool {
        true
    }

    /// Offers a value to the consumer.
    fn offer(&mut self, value: V) -> (back: Option<V>)
        ensures
            old(self).consumes(value, final(self), back),
    ;
}

/// The value that is in hand after `trickle` was offered to the first
/// `offered` consumers, one after the other, and each handed a value back:
/// whether that value may be `value`, with the consumers ending up as in
/// `after`.
pub open spec fn handed_on<V, C: Consumer<V>>(
    before: Seq<C>,
    after: Seq<C>,
    trickle: V,
    offered: int,
    value: V,
) -> bool
    decreases offered,
{
    if offered <= 0 {
        value == trickle
    } else {
        exists|previous: V|
            handed_on(before, after, trickle, offered - 1, previous) && (
            #[trigger] before[offered - 1].consumes(previous, &after[offered - 1], Some(value)))
    }
}

/// What `trickle_down` does: the value goes from consumer to consumer, in the
/// order of the sequence, until one does not hand it back. The consumers behind
/// that one are not touched. Where all hand a value back, the last such value is
/// what is left.
pub open spec fn trickled<V, C: Consumer<V>>(
    before: Seq<C>,
    after: Seq<C>,
    trickle: V,
    rest: Option<V>,
) -> bool {
    &&& after.len() == before.len()
    &&& match rest {
        Some(value) => handed_on(before, after, trickle, before.len() as int, value),
        None => exists|taker: int, previous: V|
            0 <= taker < before.len() && handed_on(before, after, trickle, taker, previous) && (
            #[trigger] before[taker].consumes(previous, &after[taker], None))
                && forall|i: int| taker < i < before.len() ==> after[i] == before[i],
    }
}

/// What [`handed_on`] says of the first consumers does not depend on the
/// others.
pub proof fn lemma_handed_on_first<V, C: Consumer<V>>(
    before: Seq<C>,
    after: Seq<C>,
    other: Seq<C>,
    trickle: V,
    offered: int,
    value: V,
)
    requires
        handed_on(before, after, trickle, offered, value),
        0 <= offered <= after.len(),
        offered <= other.len(),
        forall|i: int| 0 <= i < offered ==> other[i] == after[i],
    ensures
        handed_on(before, other, trickle, offered, value),
    decreases offered,
{
    if offered > 0 {
        let previous = choose|previous: V|
            handed_on(before, after, trickle, offered - 1, previous) && (
            #[trigger] before[offered - 1].consumes(previous, &after[offered - 1], Some(value)));
        lemma_handed_on_first(before, after, other, trickle, offered - 1, previous);
        assert(before[offered - 1].consumes(previous, &other[offered - 1], Some(value)));
    }
}

/// Moves `trickle` from consumer to consumer until the first that does not hand
/// it back. If no consumer takes it, it comes back.
pub fn trickle_down<V, C: Consumer<V>>(trickle: V, consumers: &mut Vec<C>) -> (rest: Option<V>)
    ensures
        trickled(old(consumers)@, final(consumers)@, trickle, rest),
{
    let mut value = trickle;
    let mut i: usize = 0;
    while i < consumers.len()
        invariant
            i <= consumers.len(),
            consumers@.len() == old(consumers)@.len(),
            handed_on(old(consumers)@, consumers@, trickle, i as int, value),
            forall|j: int| i <= j < consumers@.len() ==> consumers@[j] == old(consumers)@[j],
        decreases consumers.len() - i,
    {
        let ghost previous = value;
        let ghost before_offer = consumers@;
        let back = consumers[i].offer(value);
        proof {
            assert(before_offer[i as int] == old(consumers)@[i as int]);
            lemma_handed_on_first(
                old(consumers)@,
                before_offer,
                consumers@,
                trickle,
                i as int,
                previous,
            );
        }
        match back {
            Some(next) => {
                proof {
                    assert(old(consumers)@[i as int].consumes(
                        previous,
                        &consumers@[i as int],
                        Some(next),
                    ));
                    let offered = i + 1;
                    assert(handed_on(old(consumers)@, consumers@, trickle, offered - 1, previous));
                    assert(old(consumers)@[offered - 1].consumes(
                        previous,
                        &consumers@[offered - 1],
                        Some(next),
                    ));
                    assert(handed_on(old(consumers)@, consumers@, trickle, offered, next));
                }
                value = next;
            },
            None => {
                proof {
                    assert(old(consumers)@[i as int].consumes(
                        previous,
                        &consumers@[i as int],
                        None,
                    ));
                }
                return None;
            },
        }
        i += 1;
    }
    Some(value)
}

/// A command and what is done with the answers to it.
///
/// Each `process_` method is offered a response and either takes it or hands it
/// back; what comes back goes to the next task. Every method comes with a
/// specification function that says what the method may do, and the method does
/// nothing else. A task that leaves out the specification of a method may do
/// anything there. A method that is not interested in what it is offered hands
/// it back as it is.
pub trait Task: Sized {
    /// What the task comes to.
    type Output;

    /// What the body of the command of the task may be.
    open spec fn commands(&self, body: CommandBody<'static>) -> bool {
        true
    }

    /// The body of the command of the task. The scheduler adds the tag.
    fn command_body(&self) -> (body: CommandBody<'static>)
        ensures
            self.commands(body),
    ;

    /// What `process_data` may do.
    open spec fn processes_data(
        &self,
        data: Data<'static>,
        after: &Self,
        back: Option<Data<'static>>,
    ) -> bool {
        true
    }

    /// Offers data to the task.
    fn process_data(&mut self, data: Data<'static>) -> (back: Option<Data<'static>>)
        ensures
            old(self).processes_data(data, final(self), back),
    ;

    /// What `process_untagged` may do.
    open spec fn processes_untagged(
        &self,
        status_body: StatusBody<'static>,
        after: &Self,
        back: Option<StatusBody<'static>>,
    ) -> bool {
        true
    }

    /// Offers an untagged status to the task.
    fn process_untagged(&mut self, status_body: StatusBody<'static>) -> (back: Option<
        StatusBody<'static>,
    >)
        ensures
            old(self).processes_untagged(status_body, final(self), back),
    ;

    /// What `process_continuation` may do.
    open spec fn processes_continuation(
        &self,
        continuation: CommandContinuationRequest<'static>,
        after: &Self,
        back: Option<CommandContinuationRequest<'static>>,
    ) -> bool {
        true
    }

    /// Offers a continuation request to the task.
    fn process_continuation(&mut self, continuation: CommandContinuationRequest<'static>) -> (back:
        Option<CommandContinuationRequest<'static>>)
        ensures
            old(self).processes_continuation(continuation, final(self), back),
    ;

    /// What `process_continuation_authenticate` may do.
    open spec fn processes_continuation_authenticate(
        &self,
        continuation: CommandContinuationRequest<'static>,
        after: &Self,
        answer: Result<AuthenticateData<'static>, CommandContinuationRequest<'static>>,
    ) -> bool {
        true
    }

    /// Offers the task the continuation request that asks for its authenticate
    /// data. `Ok` holds the data, `Err` hands the request back.
    fn process_continuation_authenticate(
        &mut self,
        continuation: CommandContinuationRequest<'static>,
    ) -> (answer: Result<AuthenticateData<'static>, CommandContinuationRequest<'static>>)
        ensures
            old(self).processes_continuation_authenticate(continuation, final(self), answer),
    ;

    /// What `process_bye` may do.
    open spec fn processes_bye(
        &self,
        bye: Bye<'static>,
        after: &Self,
        back: Option<Bye<'static>>,
    ) -> bool {
        true
    }

    /// Offers a BYE to the task.
    fn process_bye(&mut self, bye: Bye<'static>) -> (back: Option<Bye<'static>>)
        ensures
            old(self).processes_bye(bye, final(self), back),
    ;

    /// What `process_tagged` may come to.
    open spec fn processes_tagged(
        &self,
        status_body: StatusBody<'static>,
        output: Self::Output,
    ) -> bool {
        true
    }

    /// Ends the task with the result of its command. The scheduler has chosen
    /// the status by its tag.
    fn process_tagged(self, status_body: StatusBody<'static>) -> (output: Self::Output)
        ensures
            self.processes_tagged(status_body, output),
    ;
}

/// A task with the handle and the tag of its command.
pub struct TaskEntry<T: Task> {
    pub handle: ClientFlowCommandHandle,
    /// The text of the tag of the command.
    pub tag: Vec<u8>,
    pub task: T,
}

impl<T: Task> TaskEntry<T> {
    /// The same entry with the task in another state.
    pub open spec fn same_but_task(&self, after: &Self) -> bool {
        after.handle == self.handle && after.tag == self.tag
    }
}

impl<T: Task> Consumer<Data<'static>> for TaskEntry<T> {
    open spec fn consumes(
        &self,
        value: Data<'static>,
        after: &Self,
        back: Option<Data<'static>>,
    ) -> bool {
        self.same_but_task(after) && self.task.processes_data(value, &after.task, back)
    }

    fn offer(&mut self, value: Data<'static>) -> (back: Option<Data<'static>>) {
        self.task.process_data(value)
    }
}

impl<T: Task> Consumer<StatusBody<'static>> for TaskEntry<T> {
    open spec fn consumes(
        &self,
        value: StatusBody<'static>,
        after: &Self,
        back: Option<StatusBody<'static>>,
    ) -> bool {
        self.same_but_task(after) && self.task.processes_untagged(value, &after.task, back)
    }

    fn offer(&mut self, value: StatusBody<'static>) -> (back: Option<StatusBody<'static>>) {
        self.task.process_untagged(value)
    }
}

impl<T: Task> Consumer<CommandContinuationRequest<'static>> for TaskEntry<T> {
    open spec fn consumes(
        &self,
        value: CommandContinuationRequest<'static>,
        after: &Self,
        back: Option<CommandContinuationRequest<'static>>,
    ) -> bool {
        self.same_but_task(after) && self.task.processes_continuation(value, &after.task, back)
    }

    fn offer(&mut self, value: CommandContinuationRequest<'static>) -> (back: Option<
        CommandContinuationRequest<'static>,
    >) {
        self.task.process_continuation(value)
    }
}

impl<T: Task> Consumer<Bye<'static>> for TaskEntry<T> {
    open spec fn consumes(
        &self,
        value: Bye<'static>,
        after: &Self,
        back: Option<Bye<'static>>,
    ) -> bool {
        self.same_but_task(after) && self.task.processes_bye(value, &after.task, back)
    }

    fn offer(&mut self, value: Bye<'static>) -> (back: Option<Bye<'static>>) {
        self.task.process_bye(value)
    }
}

/// The position of the first entry with a handle, at or behind `from`.
pub open spec fn position_by_handle<T: Task>(
    entries: Seq<TaskEntry<T>>,
    handle: ClientFlowCommandHandle,
    from: int,
) -> Option<int>
    decreases entries.len() - from,
{
    if from < 0 || from >= entries.len() {
        None
    } else if entries[from].handle == handle {
        Some(from)
    } else {
        position_by_handle(entries, handle, from + 1)
    }
}

/// The position of the first entry with a tag, at or behind `from`.
pub open spec fn position_by_tag<T: Task>(entries: Seq<TaskEntry<T>>, tag: Seq<u8>, from: int) -> Option<
    int,
>
    decreases entries.len() - from,
{
    if from < 0 || from >= entries.len() {
        None
    } else if entries[from].tag@ == tag {
        Some(from)
    } else {
        position_by_tag(entries, tag, from + 1)
    }
}

/// [`position_by_handle`] finds an entry with the handle that no other
/// precedes, and finds none only where there is none.
pub proof fn lemma_position_by_handle<T: Task>(
    entries: Seq<TaskEntry<T>>,
    handle: ClientFlowCommandHandle,
    from: int,
)
    requires
        0 <= from,
    ensures
        match position_by_handle(entries, handle, from) {
            Some(at) => from <= at < entries.len() && entries[at].handle == handle && forall|i: int|
                from <= i < at ==> entries[i].handle != handle,
            None => forall|i: int| from <= i < entries.len() ==> entries[i].handle != handle,
        },
    decreases entries.len() - from,
{
    if from < entries.len() && entries[from].handle != handle {
        lemma_position_by_handle(entries, handle, from + 1);
    }
}

/// [`position_by_tag`] finds an entry with the tag that no other precedes, and
/// finds none only where there is none.
pub proof fn lemma_position_by_tag<T: Task>(entries: Seq<TaskEntry<T>>, tag: Seq<u8>, from: int)
    requires
        0 <= from,
    ensures
        match position_by_tag(entries, tag, from) {
            Some(at) => from <= at < entries.len() && entries[at].tag@ == tag && forall|i: int|
                from <= i < at ==> entries[i].tag@ != tag,
            None => forall|i: int| from <= i < entries.len() ==> entries[i].tag@ != tag,
        },
    decreases entries.len() - from,
{
    if from < entries.len() && entries[from].tag@ != tag {
        lemma_position_by_tag(entries, tag, from + 1);
    }
}

/// Tasks in the order in which they came.
pub struct TaskMap<T: Task> {
    pub tasks: Vec<TaskEntry<T>>,
}

impl<T: Task> TaskMap<T> {
    /// No tasks.
    pub fn new() -> (map: Self)
        ensures
            map.tasks@ == Seq::<TaskEntry<T>>::empty(),
    {
        TaskMap { tasks: Vec::new() }
    }

    /// Adds a task behind the others.
    pub fn push_back(&mut self, handle: ClientFlowCommandHandle, tag: Vec<u8>, task: T)
        ensures
            final(self).tasks@ == old(self).tasks@.push(TaskEntry { handle, tag, task }),
    {
        self.tasks.push(TaskEntry { handle, tag, task });
    }

    /// Where the first task with a handle stands.
    pub fn position_by_handle(&self, handle: ClientFlowCommandHandle) -> (position: Option<usize>)
        ensures
            match position {
                Some(at) => position_by_handle(self.tasks@, handle, 0) == Some(at as int) && at
                    < self.tasks@.len(),
                None => position_by_handle(self.tasks@, handle, 0) is None,
            },
    {
        let mut i: usize = 0;
        while i < self.tasks.len()
            invariant
                position_by_handle(self.tasks@, handle, 0) == position_by_handle(
                    self.tasks@,
                    handle,
                    i as int,
                ),
            decreases self.tasks.len() - i,
        {
            if self.tasks[i].handle == handle {
                return Some(i);
            }
            i += 1;
        }
        None
    }

    /// Where the first task with a tag stands.
    pub fn position_by_tag(&self, tag: &Vec<u8>) -> (position: Option<usize>)
        ensures
            match position {
                Some(at) => position_by_tag(self.tasks@, tag@, 0) == Some(at as int) && at
                    < self.tasks@.len(),
                None => position_by_tag(self.tasks@, tag@, 0) is None,
            },
    {
        let mut i: usize = 0;
        while i < self.tasks.len()
            invariant
                position_by_tag(self.tasks@, tag@, 0) == position_by_tag(self.tasks@, tag@, i as int),
            decreases self.tasks.len() - i,
        {
            if bytes_equal(&self.tasks[i].tag, tag) {
                return Some(i);
            }
            i += 1;
        }
        None
    }

    /// Takes out the first task with a handle.
    pub fn remove_by_handle(&mut self, handle: ClientFlowCommandHandle) -> (removed: Option<
        TaskEntry<T>,
    >)
        ensures
            match position_by_handle(old(self).tasks@, handle, 0) {
                Some(at) => removed == Some(old(self).tasks@[at]) && final(self).tasks@ == old(self).tasks@.remove(at),
                None => removed is None && final(self).tasks@ == old(self).tasks@,
            },
    {
        match self.position_by_handle(handle) {
            Some(index) => Some(self.tasks.remove(index)),
            None => None,
        }
    }

    /// Takes out the first task with a tag.
    pub fn remove_by_tag(&mut self, tag: &Vec<u8>) -> (removed: Option<TaskEntry<T>>)
        ensures
            match position_by_tag(old(self).tasks@, tag@, 0) {
                Some(at) => removed == Some(old(self).tasks@[at]) && final(self).tasks@ == old(self).tasks@.remove(at),
                None => removed is None && final(self).tasks@ == old(self).tasks@,
            },
    {
        match self.position_by_tag(tag) {
            Some(index) => Some(self.tasks.remove(index)),
            None => None,
        }
    }
}

/// What a finished task came to. The handle of the task resolves it.
pub struct TaskToken<T: Task> {
    pub handle: ClientFlowCommandHandle,
    pub output: Option<T::Output>,
}

/// Identifies a task that was enqueued at a [`Scheduler`].
pub struct TaskHandle<T: Task> {
    pub handle: ClientFlowCommandHandle,
    pub _t: PhantomData<T>,
}

impl<T: Task> Clone for TaskHandle<T> {
    fn clone(&self) -> (copy: Self)
        ensures
            copy == *self,
    {
        *self
    }
}

impl<T: Task> Copy for TaskHandle<T> {

}

impl<T: Task> PartialEq for TaskHandle<T> {
    fn eq(&self, other: &Self) -> (equal: bool) {
        self.handle == other.handle
    }
}

impl<T: Task> Eq for TaskHandle<T> {

}

impl<T: Task> vstd::std_specs::cmp::PartialEqSpecImpl for TaskHandle<T> {
    open spec fn obeys_eq_spec() -> bool {
        true
    }

    open spec fn eq_spec(&self, other: &Self) -> bool {
        self.handle == other.handle
    }
}

impl<T: Task> TaskHandle<T> {
    /// The handle of the task whose command has this handle.
    pub fn new(handle: ClientFlowCommandHandle) -> (task_handle: Self)
        ensures
            task_handle.handle == handle,
    {
        TaskHandle { handle, _t: PhantomData }
    }

    /// Takes the output out of the token, if the token is the one of the task
    /// and still holds it. The token is emptied if and only if the output is
    /// handed out.
    pub fn resolve(&self, token: &mut TaskToken<T>) -> (output: Option<T::Output>)
        ensures
            final(token).handle == old(token).handle,
            old(token).handle == self.handle ==> output == old(token).output && final(token).output is None,
            old(token).handle != self.handle ==> output is None && final(token).output == old(token).output,
    {
        if token.handle != self.handle {
            return None;
        }
        token.output.take()
    }
}

/// What happened at a scheduler.
pub enum SchedulerEvent<T: Task> {
    /// A task is over; the token holds what it came to.
    TaskFinished(TaskToken<T>),
    /// The server sent what no task took.
    Unsolicited(Response<'static>),
}

/// What a call of [`Scheduler::progress`] came to.
pub enum SchedulerProgress<T: Task> {
    /// Something happened.
    Event(SchedulerEvent<T>),
    /// Bytes wait in [`Scheduler::output`]. Write them, report them with
    /// [`Scheduler::consume_output`] and call again.
    Output,
    /// Nothing more can be done with the bytes read. Read from the stream, hand
    /// the bytes to [`Scheduler::enqueue_input`] and call again.
    Input,
}

/// What went wrong at a scheduler.
#[derive(Debug, PartialEq)]
pub enum SchedulerError {
    /// The client reported an error.
    Flow(ClientFlowError),
    /// The server sent the result of a command that no task has sent. Whatever
    /// the cause, the tasks and the server no longer agree; it is better to stop.
    UnexpectedTaggedResponse {
        tag: imap_types::core::Tag<'static>,
        body: StatusBody<'static>,
    },
}

/// Enqueued tasks and the client that sends their commands.
pub struct Scheduler<T: Task> {
    flow: ClientFlow,
    /// The tasks whose commands were not sent yet.
    waiting_tasks: TaskMap<T>,
    /// The tasks whose commands were sent and whose results are due.
    active_tasks: TaskMap<T>,
    tag_generator: imap_types::core::TagGenerator,
}

/// What a [`Scheduler`] is, as a mathematical value.
pub struct SchedulerModel<T: Task> {
    pub flow: ClientFlowModel,
    pub waiting: Seq<TaskEntry<T>>,
    pub active: Seq<TaskEntry<T>>,
}

impl<T: Task> View for Scheduler<T> {
    type V = SchedulerModel<T>;

    closed spec fn view(&self) -> SchedulerModel<T> {
        SchedulerModel {
            flow: self.flow@,
            waiting: self.waiting_tasks.tasks@,
            active: self.active_tasks.tasks@,
        }
    }
}

/// The event for a response that no task took, or nothing where one took it.
pub open spec fn unsolicited<T: Task>(rest: Option<ResponseParts>) -> Option<SchedulerEvent<T>> {
    match rest {
        Some(parts) => Some(SchedulerEvent::Unsolicited(response_from(parts))),
        None => None,
    }
}

impl<T: Task> SchedulerModel<T> {
    pub open spec fn wf(self) -> bool {
        self.flow.wf()
    }

    /// A task with its command tagged `tag` is enqueued: whether the scheduler
    /// is `after` then, with the task waiting under `handle`.
    pub open spec fn enqueued(
        self,
        task: T,
        tag: imap_types::core::Tag<'static>,
        body: CommandBody<'static>,
        after: Self,
        handle: ClientFlowCommandHandle,
    ) -> bool {
        let command = command_from(tag, body);
        &&& (after.flow, handle) == self.flow.enqueue_command(command)
        &&& after.active == self.active
        &&& after.waiting.len() == self.waiting.len() + 1
        &&& after.waiting.drop_last() == self.waiting
        &&& after.waiting.last().handle == handle
        &&& after.waiting.last().tag@ == command_tag(command)
        &&& after.waiting.last().task == task
    }

    /// The command of a task was sent: the task goes from the waiting to the
    /// active, behind those that are active already.
    pub open spec fn activate(self, handle: ClientFlowCommandHandle) -> Self {
        match position_by_handle(self.waiting, handle, 0) {
            Some(at) => SchedulerModel {
                waiting: self.waiting.remove(at),
                active: self.active.push(self.waiting[at]),
                ..self
            },
            None => self,
        }
    }

    /// The task that the end of a command ends, taken out: an active one first,
    /// else a waiting one, whose command was given up before it was sent.
    pub open spec fn take_out(self, handle: ClientFlowCommandHandle) -> Option<(Self, TaskEntry<T>)> {
        match position_by_handle(self.active, handle, 0) {
            Some(at) => Some(
                (SchedulerModel { active: self.active.remove(at), ..self }, self.active[at]),
            ),
            None => match position_by_handle(self.waiting, handle, 0) {
                Some(at) => Some(
                    (SchedulerModel { waiting: self.waiting.remove(at), ..self }, self.waiting[at]),
                ),
                None => None,
            },
        }
    }

    /// What the end of the command of a task may come to. The result of the
    /// command goes to the task, and the task is over. A status without a tag,
    /// or one for a command of no task, is handed on as unsolicited.
    pub open spec fn finished(
        self,
        handle: ClientFlowCommandHandle,
        status: Status<'static>,
        after: Self,
        result: Result<Option<SchedulerEvent<T>>, SchedulerError>,
    ) -> bool {
        match (status_tagged(status), status_parts(status), self.take_out(handle)) {
            (Some(_), StatusParts::Tagged { body, .. }, Some((taken, entry))) => {
                &&& after == taken
                &&& result matches Ok(Some(SchedulerEvent::TaskFinished(token)))
                &&& token.handle == handle
                &&& token.output matches Some(output)
                &&& entry.task.processes_tagged(body, output)
            },
            _ => after == self && result == Ok::<Option<SchedulerEvent<T>>, SchedulerError>(
                Some(SchedulerEvent::Unsolicited(response_from(ResponseParts::Status(status)))),
            ),
        }
    }

    /// What the answer of the task at `at` to a request for authenticate data
    /// comes to. Data goes to the client; a request that the task hands back is
    /// handed on as unsolicited. No other task is touched.
    pub open spec fn answered(
        self,
        at: int,
        continuation: CommandContinuationRequest<'static>,
        answer: Result<AuthenticateData<'static>, CommandContinuationRequest<'static>>,
        after: Self,
        result: Result<Option<SchedulerEvent<T>>, SchedulerError>,
    ) -> bool {
        &&& after.waiting == self.waiting
        &&& after.active.len() == self.active.len()
        &&& forall|i: int|
            0 <= i < self.active.len() && i != at ==> after.active[i] == self.active[i]
        &&& self.active[at].same_but_task(&after.active[at])
        &&& self.active[at].task.processes_continuation_authenticate(
            continuation,
            &after.active[at].task,
            answer,
        )
        &&& match answer {
            Ok(data) => after.flow == (ClientFlowModel {
                send: self.flow.send.set_authenticate_data(data).0,
                ..self.flow
            }) && result == Ok::<Option<SchedulerEvent<T>>, SchedulerError>(None),
            Err(back) => after.flow == self.flow && result == Ok::<
                Option<SchedulerEvent<T>>,
                SchedulerError,
            >(unsolicited(Some(ResponseParts::CommandContinuationRequest(back)))),
        }
    }

    /// What the request for authenticate data may come to. It goes to the
    /// active task with the handle; where there is none, it is handed on as
    /// unsolicited.
    pub open spec fn asked_for_data(
        self,
        handle: ClientFlowCommandHandle,
        continuation: CommandContinuationRequest<'static>,
        after: Self,
        result: Result<Option<SchedulerEvent<T>>, SchedulerError>,
    ) -> bool {
        match position_by_handle(self.active, handle, 0) {
            Some(at) => exists|
                answer: Result<AuthenticateData<'static>, CommandContinuationRequest<'static>>,
            | #[trigger] self.answered(at, continuation, answer, after, result),
            None => after == self && result == Ok::<Option<SchedulerEvent<T>>, SchedulerError>(
                unsolicited(Some(ResponseParts::CommandContinuationRequest(continuation))),
            ),
        }
    }

    /// The answer of the first active task with the handle is what the request
    /// for authenticate data comes to.
    pub proof fn lemma_answered(
        self,
        handle: ClientFlowCommandHandle,
        at: int,
        continuation: CommandContinuationRequest<'static>,
        answer: Result<AuthenticateData<'static>, CommandContinuationRequest<'static>>,
        after: Self,
        result: Result<Option<SchedulerEvent<T>>, SchedulerError>,
    )
        requires
            position_by_handle(self.active, handle, 0) == Some(at),
            self.answered(at, continuation, answer, after, result),
        ensures
            self.asked_for_data(handle, continuation, after, result),
    {
        assert(exists|
            answer: Result<AuthenticateData<'static>, CommandContinuationRequest<'static>>,
        | #[trigger] self.answered(at, continuation, answer, after, result));
        let position = position_by_handle(self.active, handle, 0);
        assert(position->0 == at);
        assert(self.answered(position->0, continuation, answer, after, result));
        assert(exists|
            answer: Result<AuthenticateData<'static>, CommandContinuationRequest<'static>>,
        | #[trigger] self.answered(position->0, continuation, answer, after, result));
    }

    /// Asking a task for authenticate data brings the sending no further from
    /// its end.
    pub proof fn lemma_asked_keeps_rank(
        self,
        handle: ClientFlowCommandHandle,
        continuation: CommandContinuationRequest<'static>,
        after: Self,
        result: Result<Option<SchedulerEvent<T>>, SchedulerError>,
    )
        requires
            self.asked_for_data(handle, continuation, after, result),
        ensures
            after.flow.send.rank() == self.flow.send.rank(),
            after.flow.receive == self.flow.receive,
    {
        match position_by_handle(self.active, handle, 0) {
            Some(at) => {
                let answer = choose|
                    answer: Result<AuthenticateData<'static>, CommandContinuationRequest<'static>>,
                | #[trigger] self.answered(at, continuation, answer, after, result);
                match answer {
                    Ok(data) => {
                        self.flow.send.lemma_authenticate_data_keeps_rank(data);
                    },
                    Err(_) => {},
                }
            },
            None => {},
        }
    }

    /// What a status that ends no command under way may come to. An untagged
    /// status and a BYE trickle down the active tasks. A tagged status ends the
    /// first active task with its tag; where there is none, that is an error.
    pub open spec fn status_received(
        self,
        status: Status<'static>,
        after: Self,
        result: Result<Option<SchedulerEvent<T>>, SchedulerError>,
    ) -> bool {
        match status_parts(status) {
            StatusParts::Untagged(body) => after.flow == self.flow && after.waiting
                == self.waiting && exists|rest: Option<StatusBody<'static>>|
                #[trigger] trickled(self.active, after.active, body, rest) && result == Ok::<
                    Option<SchedulerEvent<T>>,
                    SchedulerError,
                >(
                    match rest {
                        Some(body) => unsolicited(
                            Some(ResponseParts::Status(status_from(StatusParts::Untagged(body)))),
                        ),
                        None => None,
                    },
                ),
            StatusParts::Bye(bye) => after.flow == self.flow && after.waiting == self.waiting
                && exists|rest: Option<Bye<'static>>|
                #[trigger] trickled(self.active, after.active, bye, rest) && result == Ok::<
                    Option<SchedulerEvent<T>>,
                    SchedulerError,
                >(
                    match rest {
                        Some(bye) => unsolicited(
                            Some(ResponseParts::Status(status_from(StatusParts::Bye(bye)))),
                        ),
                        None => None,
                    },
                ),
            StatusParts::Tagged { tag, body } => match status_tagged(status) {
                Some((tag_text, _)) => match position_by_tag(self.active, tag_text, 0) {
                    Some(at) => {
                        &&& after == (SchedulerModel { active: self.active.remove(at), ..self })
                        &&& result matches Ok(Some(SchedulerEvent::TaskFinished(token)))
                        &&& token.handle == self.active[at].handle
                        &&& token.output matches Some(output)
                        &&& self.active[at].task.processes_tagged(body, output)
                    },
                    None => after == self && result == Err::<
                        Option<SchedulerEvent<T>>,
                        SchedulerError,
                    >(SchedulerError::UnexpectedTaggedResponse { tag, body }),
                },
                None => after == self && result == Ok::<Option<SchedulerEvent<T>>, SchedulerError>(
                    unsolicited(Some(ResponseParts::Status(status))),
                ),
            },
        }
    }

    /// What an event of the client may come to: the state of the scheduler
    /// after it, and the event of the scheduler, if there is one.
    pub open spec fn handled(
        self,
        event: ClientFlowEvent,
        after: Self,
        result: Result<Option<SchedulerEvent<T>>, SchedulerError>,
    ) -> bool {
        match event {
            ClientFlowEvent::CommandSent { handle, .. } => after == self.activate(handle)
                && result == Ok::<Option<SchedulerEvent<T>>, SchedulerError>(None),
            ClientFlowEvent::AuthenticateStarted { handle } => after == self.activate(handle)
                && result == Ok::<Option<SchedulerEvent<T>>, SchedulerError>(None),
            ClientFlowEvent::IdleCommandSent { handle } => after == self.activate(handle)
                && result == Ok::<Option<SchedulerEvent<T>>, SchedulerError>(None),
            ClientFlowEvent::IdleDoneSent { .. } => after == self && result == Ok::<
                Option<SchedulerEvent<T>>,
                SchedulerError,
            >(None),
            ClientFlowEvent::CommandRejected { handle, status, .. } => self.finished(
                handle,
                status,
                after,
                result,
            ),
            ClientFlowEvent::AuthenticateAccepted { handle, status, .. } => self.finished(
                handle,
                status,
                after,
                result,
            ),
            ClientFlowEvent::AuthenticateRejected { handle, status, .. } => self.finished(
                handle,
                status,
                after,
                result,
            ),
            ClientFlowEvent::IdleRejected { handle, status } => self.finished(
                handle,
                status,
                after,
                result,
            ),
            ClientFlowEvent::ContinuationAuthenticateReceived {
                handle,
                continuation,
            } => self.asked_for_data(handle, continuation, after, result),
            ClientFlowEvent::IdleAccepted { continuation, .. } => self.continuation_received(
                continuation,
                after,
                result,
            ),
            ClientFlowEvent::ContinuationReceived { continuation } => self.continuation_received(
                continuation,
                after,
                result,
            ),
            ClientFlowEvent::DataReceived { data } => self.data_received(data, after, result),
            ClientFlowEvent::StatusReceived { status } => self.status_received(
                status,
                after,
                result,
            ),
        }
    }

    /// What data may come to: it trickles down the active tasks.
    pub open spec fn data_received(
        self,
        data: Data<'static>,
        after: Self,
        result: Result<Option<SchedulerEvent<T>>, SchedulerError>,
    ) -> bool {
        after.flow == self.flow && after.waiting == self.waiting && exists|
            rest: Option<Data<'static>>,
        |
            #[trigger] trickled(self.active, after.active, data, rest) && result == Ok::<
                Option<SchedulerEvent<T>>,
                SchedulerError,
            >(
                match rest {
                    Some(data) => unsolicited(Some(ResponseParts::Data(data))),
                    None => None,
                },
            )
    }

    /// What a continuation request that nothing under way asked for may come
    /// to: it trickles down the active tasks.
    pub open spec fn continuation_received(
        self,
        continuation: CommandContinuationRequest<'static>,
        after: Self,
        result: Result<Option<SchedulerEvent<T>>, SchedulerError>,
    ) -> bool {
        after.flow == self.flow && after.waiting == self.waiting && exists|
            rest: Option<CommandContinuationRequest<'static>>,
        |
            #[trigger] trickled(self.active, after.active, continuation, rest) && result == Ok::<
                Option<SchedulerEvent<T>>,
                SchedulerError,
            >(
                match rest {
                    Some(continuation) => unsolicited(
                        Some(ResponseParts::CommandContinuationRequest(continuation)),
                    ),
                    None => None,
                },
            )
    }
}

impl<T: Task> SchedulerModel<T> {
    /// What one round of `progress` may come to: the client is driven once, and
    /// an event of the client is handled. `Ok(None)` says that there is nothing
    /// to report yet.
    pub open spec fn round(
        self,
        after: Self,
        step: Result<Option<SchedulerProgress<T>>, SchedulerError>,
    ) -> bool {
        let (flow, outcome) = self.flow.progress();
        let flowed = SchedulerModel { flow, ..self };
        match outcome {
            ClientFlowOutcome::Output => after == flowed && step == Ok::<
                Option<SchedulerProgress<T>>,
                SchedulerError,
            >(Some(SchedulerProgress::Output)),
            ClientFlowOutcome::Input => after == flowed && step == Ok::<
                Option<SchedulerProgress<T>>,
                SchedulerError,
            >(Some(SchedulerProgress::Input)),
            ClientFlowOutcome::ExpectedCrlfGotLf { discarded_bytes } => {
                &&& after == flowed
                &&& step matches Err(
                    SchedulerError::Flow(ClientFlowError::ExpectedCrlfGotLf { discarded_bytes: bytes }),
                )
                &&& bytes@ == discarded_bytes
            },
            ClientFlowOutcome::MalformedMessage { discarded_bytes } => {
                &&& after == flowed
                &&& step matches Err(
                    SchedulerError::Flow(ClientFlowError::MalformedMessage { discarded_bytes: bytes }),
                )
                &&& bytes@ == discarded_bytes
            },
            ClientFlowOutcome::Event(event) => exists|
                result: Result<Option<SchedulerEvent<T>>, SchedulerError>,
            | #[trigger]
                flowed.handled(event, after, result) && step == match result {
                    Ok(Some(event)) => Ok::<Option<SchedulerProgress<T>>, SchedulerError>(
                        Some(SchedulerProgress::Event(event)),
                    ),
                    Ok(None) => Ok(None),
                    Err(error) => Err(error),
                },
        }
    }

    /// What a call of `progress` may come to within `rounds` more rounds than
    /// the one that ends it: round follows round until one has something to
    /// report.
    pub open spec fn progressed(
        self,
        after: Self,
        result: Result<SchedulerProgress<T>, SchedulerError>,
        rounds: nat,
    ) -> bool
        decreases rounds,
    {
        exists|between: Self, step: Result<Option<SchedulerProgress<T>>, SchedulerError>| #[trigger]
            self.round(between, step) && match step {
                Ok(None) => rounds > 0 && between.progressed(after, result, (rounds - 1) as nat),
                Ok(Some(progress)) => after == between && result == Ok::<
                    SchedulerProgress<T>,
                    SchedulerError,
                >(progress),
                Err(error) => after == between && result == Err::<
                    SchedulerProgress<T>,
                    SchedulerError,
                >(error),
            }
    }
}

impl<T: Task> Scheduler<T> {
    /// A scheduler without tasks.
    pub fn new(flow: ClientFlow) -> (scheduler: Self)
        ensures
            scheduler@ == (SchedulerModel::<T> {
                flow: flow@,
                waiting: Seq::empty(),
                active: Seq::empty(),
            }),
    {
        Scheduler {
            flow,
            waiting_tasks: TaskMap::new(),
            active_tasks: TaskMap::new(),
            tag_generator: imap_types::core::TagGenerator::new(),
        }
    }

    /// Enqueues a task: the body that the task provides gets a new tag, and the
    /// command waits to be sent.
    pub fn enqueue_task(&mut self, task: T) -> (handle: TaskHandle<T>)
        ensures
            exists|tag: imap_types::core::Tag<'static>, body: CommandBody<'static>|
                task.commands(body) && #[trigger] old(self)@.enqueued(
                    task,
                    tag,
                    body,
                    final(self)@,
                    handle.handle,
                ),
            old(self)@.wf() ==> final(self)@.wf(),
    {
        let tag = self.tag_generator.generate();
        let body = task.command_body();
        self.enqueue_tagged(task, tag, body)
    }

    /// Enqueues a task with the tag and the body of its command.
    pub fn enqueue_tagged(
        &mut self,
        task: T,
        tag: imap_types::core::Tag<'static>,
        body: CommandBody<'static>,
    ) -> (handle: TaskHandle<T>)
        ensures
            old(self)@.enqueued(task, tag, body, final(self)@, handle.handle),
            old(self)@.wf() ==> final(self)@.wf(),
    {
        let command = command_of(tag, body);
        let tag = tag_of_command(&command);
        let handle = self.flow.enqueue_command(command);
        self.waiting_tasks.push_back(handle, tag, task);
        proof {
            assert(self@.waiting.drop_last() == old(self)@.waiting);
        }
        TaskHandle::new(handle)
    }

    /// Takes bytes that were read from the stream.
    pub fn enqueue_input(&mut self, bytes: &[u8])
        requires
            old(self)@.wf(),
        ensures
            final(self)@ == (SchedulerModel {
                flow: ClientFlowModel {
                    receive: old(self)@.flow.receive.enqueue_input(bytes@),
                    ..old(self)@.flow
                },
                ..old(self)@
            }),
            final(self)@.wf(),
    {
        self.flow.enqueue_input(bytes);
    }

    /// The bytes that wait to be written to the stream.
    pub fn output(&self) -> (bytes: &[u8])
        ensures
            bytes@ == self@.flow.send.write_buffer,
    {
        self.flow.output()
    }

    /// Records that the first `count` bytes of [`Self::output`] were written.
    pub fn consume_output(&mut self, count: usize)
        requires
            count <= old(self)@.flow.send.write_buffer.len(),
        ensures
            final(self)@ == (SchedulerModel {
                flow: ClientFlowModel {
                    send: old(self)@.flow.send.consume_output(count as int),
                    ..old(self)@.flow
                },
                ..old(self)@
            }),
    {
        self.flow.consume_output(count);
    }

    /// Ends the IDLE that the server accepted.
    pub fn set_idle_done(&mut self) -> (handle: Option<ClientFlowCommandHandle>)
        ensures
            final(self)@ == (SchedulerModel {
                flow: ClientFlowModel {
                    send: old(self)@.flow.send.set_idle_done().0,
                    ..old(self)@.flow
                },
                ..old(self)@
            }),
            handle == old(self)@.flow.send.set_idle_done().1,
    {
        self.flow.set_idle_done()
    }

    /// Drives the client and the tasks until something happened or the owner
    /// of the stream has to write or read.
    pub fn progress(&mut self) -> (result: Result<SchedulerProgress<T>, SchedulerError>)
        requires
            old(self)@.wf(),
        ensures
            final(self)@.wf(),
            exists|rounds: nat| #[trigger] old(self)@.progressed(final(self)@, result, rounds),
    {
        loop
            invariant
                self@.wf(),
                forall|
                    after: SchedulerModel<T>,
                    result: Result<SchedulerProgress<T>, SchedulerError>,
                    rounds: nat,
                | #[trigger]
                    self@.progressed(after, result, rounds) ==> exists|more: nat| #[trigger]
                        old(self)@.progressed(after, result, more),
            decreases self@.flow.receive.read_buffer.len(), self@.flow.send.rank(),
        {
            let ghost before = self@;
            let step = self.round();
            match step {
                Ok(None) => {
                    proof {
                        assert forall|
                            after: SchedulerModel<T>,
                            result: Result<SchedulerProgress<T>, SchedulerError>,
                            rounds: nat,
                        | #[trigger] self@.progressed(after, result, rounds) implies exists|
                            more: nat,
                        | #[trigger] old(self)@.progressed(after, result, more) by {
                            assert(before.round(self@, step));
                            assert(before.progressed(after, result, rounds + 1));
                        }
                    }
                },
                Ok(Some(progress)) => {
                    proof {
                        assert(before.round(self@, step));
                        assert(before.progressed(self@, Ok(progress), 0));
                    }
                    return Ok(progress);
                },
                Err(error) => {
                    proof {
                        assert(before.round(self@, step));
                        assert(before.progressed(self@, Err(error), 0));
                    }
                    return Err(error);
                },
            }
        }
    }

    /// One round of [`Self::progress`]: drives the client once and handles the
    /// event that it reports. `Ok(None)` says that there is nothing to report
    /// yet.
    pub fn round(&mut self) -> (step: Result<Option<SchedulerProgress<T>>, SchedulerError>)
        requires
            old(self)@.wf(),
        ensures
            final(self)@.wf(),
            old(self)@.round(final(self)@, step),
            step matches Ok(None) ==> (final(self)@.flow.receive.read_buffer.len() < old(self)@.flow.receive.read_buffer.len() || (final(self)@.flow.receive.read_buffer.len()
                == old(self)@.flow.receive.read_buffer.len() && 0 <= final(self)@.flow.send.rank()
                < old(self)@.flow.send.rank())),
    {
        proof {
            self@.flow.lemma_event_makes_progress();
        }
        let event = match self.flow.progress() {
            Ok(ClientFlowProgress::Event(event)) => event,
            Ok(ClientFlowProgress::Output) => {
                return Ok(Some(SchedulerProgress::Output));
            },
            Ok(ClientFlowProgress::Input) => {
                return Ok(Some(SchedulerProgress::Input));
            },
            Err(error) => {
                return Err(SchedulerError::Flow(error));
            },
        };
        let ghost flowed = self@;
        let ghost reported = event;
        let result = self.handle_event(event);
        proof {
            assert(flowed.handled(reported, self@, result));
            flowed.flow.send.lemma_event_lowers_rank();
            match reported {
                ClientFlowEvent::ContinuationAuthenticateReceived { handle, continuation } => {
                    flowed.lemma_asked_keeps_rank(handle, continuation, self@, result);
                },
                _ => {},
            }
            self@.flow.send.lemma_event_lowers_rank();
        }
        match result {
            Ok(Some(event)) => Ok(Some(SchedulerProgress::Event(event))),
            Ok(None) => Ok(None),
            Err(error) => Err(error),
        }
    }

    /// Moves the task with a handle from the waiting to the active.
    fn activate(&mut self, handle: ClientFlowCommandHandle)
        ensures
            final(self)@ == old(self)@.activate(handle),
    {
        match self.waiting_tasks.remove_by_handle(handle) {
            Some(entry) => {
                self.active_tasks.push_back(entry.handle, entry.tag, entry.task);
            },
            None => {},
        }
    }

    /// Ends the task with a handle by the result of its command.
    fn finish(&mut self, handle: ClientFlowCommandHandle, status: Status<'static>) -> (result:
        Result<Option<SchedulerEvent<T>>, SchedulerError>)
        ensures
            old(self)@.finished(handle, status, final(self)@, result),
    {
        if tagged_status(&status).is_none() {
            return Ok(
                Some(SchedulerEvent::Unsolicited(response_of(ResponseParts::Status(status)))),
            );
        }
        let on_active = self.active_tasks.position_by_handle(handle).is_some();
        let on_waiting = self.waiting_tasks.position_by_handle(handle).is_some();
        if !on_active && !on_waiting {
            return Ok(
                Some(SchedulerEvent::Unsolicited(response_of(ResponseParts::Status(status)))),
            );
        }
        let removed = if on_active {
            self.active_tasks.remove_by_handle(handle)
        } else {
            self.waiting_tasks.remove_by_handle(handle)
        };
        let entry = match removed {
            Some(entry) => entry,
            None => unreached(),
        };
        let body = match split_status(status) {
            StatusParts::Tagged { body, .. } => body,
            _ => unreached(),
        };
        let output = Some(entry.task.process_tagged(body));
        Ok(Some(SchedulerEvent::TaskFinished(TaskToken { handle, output })))
    }

    /// Reacts to an event of the client.
    pub fn handle_event(&mut self, event: ClientFlowEvent) -> (result: Result<
        Option<SchedulerEvent<T>>,
        SchedulerError,
    >)
        ensures
            old(self)@.handled(event, final(self)@, result),
            final(self)@.flow.receive == old(self)@.flow.receive,
            !(event is ContinuationAuthenticateReceived) ==> final(self)@.flow == old(self)@.flow,
    {
        match event {
            ClientFlowEvent::CommandSent { handle, .. } => {
                self.activate(handle);
                Ok(None)
            },
            ClientFlowEvent::AuthenticateStarted { handle } => {
                self.activate(handle);
                Ok(None)
            },
            ClientFlowEvent::IdleCommandSent { handle } => {
                self.activate(handle);
                Ok(None)
            },
            ClientFlowEvent::IdleDoneSent { .. } => Ok(None),
            ClientFlowEvent::CommandRejected { handle, status, .. } => self.finish(handle, status),
            ClientFlowEvent::AuthenticateAccepted { handle, status, .. } => self.finish(
                handle,
                status,
            ),
            ClientFlowEvent::AuthenticateRejected { handle, status, .. } => self.finish(
                handle,
                status,
            ),
            ClientFlowEvent::IdleRejected { handle, status } => self.finish(handle, status),
            ClientFlowEvent::ContinuationAuthenticateReceived {
                handle,
                continuation,
            } => self.ask_for_data(handle, continuation),
            ClientFlowEvent::IdleAccepted { continuation, .. } => self.trickle_continuation(
                continuation,
            ),
            ClientFlowEvent::ContinuationReceived { continuation } => self.trickle_continuation(
                continuation,
            ),
            ClientFlowEvent::DataReceived { data } => self.trickle_data(data),
            ClientFlowEvent::StatusReceived { status } => self.status_received(status),
        }
    }

    /// Asks the active task with a handle for its authenticate data.
    fn ask_for_data(
        &mut self,
        handle: ClientFlowCommandHandle,
        continuation: CommandContinuationRequest<'static>,
    ) -> (result: Result<Option<SchedulerEvent<T>>, SchedulerError>)
        ensures
            old(self)@.asked_for_data(handle, continuation, final(self)@, result),
            final(self)@.flow.receive == old(self)@.flow.receive,
    {
        let index = match self.active_tasks.position_by_handle(handle) {
            Some(index) => index,
            None => {
                return Ok(
                    Some(
                        SchedulerEvent::Unsolicited(
                            response_of(
                                ResponseParts::CommandContinuationRequest(continuation),
                            ),
                        ),
                    ),
                );
            },
        };
        let answer = self.active_tasks.tasks[index].task.process_continuation_authenticate(
            continuation,
        );
        let ghost answered = answer;
        let ghost called = self@;
        let result = match answer {
            Ok(authenticate_data) => {
                let _ = self.flow.set_authenticate_data(authenticate_data);
                Ok(None)
            },
            Err(continuation) => Ok(
                Some(
                    SchedulerEvent::Unsolicited(
                        response_of(ResponseParts::CommandContinuationRequest(continuation)),
                    ),
                ),
            ),
        };
        proof {
            assert(self@.active == called.active);
            assert(old(self)@.answered(
                index as int,
                continuation,
                answered,
                self@,
                result,
            ));
            old(self)@.lemma_answered(
                handle,
                index as int,
                continuation,
                answered,
                self@,
                result,
            );
        }
        result
    }

    /// Lets data trickle down the active tasks.
    fn trickle_data(&mut self, data: Data<'static>) -> (result: Result<
        Option<SchedulerEvent<T>>,
        SchedulerError,
    >)
        ensures
            old(self)@.data_received(data, final(self)@, result),
            final(self)@.flow == old(self)@.flow,
    {
        let rest = trickle_down(data, &mut self.active_tasks.tasks);
        proof {
            assert(trickled(old(self)@.active, self@.active, data, rest));
        }
        match rest {
            Some(data) => Ok(
                Some(SchedulerEvent::Unsolicited(response_of(ResponseParts::Data(data)))),
            ),
            None => Ok(None),
        }
    }

    /// Lets a continuation request trickle down the active tasks.
    fn trickle_continuation(&mut self, continuation: CommandContinuationRequest<'static>) -> (result:
        Result<Option<SchedulerEvent<T>>, SchedulerError>)
        ensures
            old(self)@.continuation_received(continuation, final(self)@, result),
            final(self)@.flow == old(self)@.flow,
    {
        let rest = trickle_down(continuation, &mut self.active_tasks.tasks);
        proof {
            assert(trickled(old(self)@.active, self@.active, continuation, rest));
        }
        match rest {
            Some(continuation) => Ok(
                Some(
                    SchedulerEvent::Unsolicited(
                        response_of(ResponseParts::CommandContinuationRequest(continuation)),
                    ),
                ),
            ),
            None => Ok(None),
        }
    }

    /// Reacts to a status that ends no command under way.
    fn status_received(&mut self, status: Status<'static>) -> (result: Result<
        Option<SchedulerEvent<T>>,
        SchedulerError,
    >)
        ensures
            old(self)@.status_received(status, final(self)@, result),
            final(self)@.flow == old(self)@.flow,
    {
        let tagged = tagged_status(&status);
        match split_status(status) {
            StatusParts::Untagged(body) => {
                let rest = trickle_down(body, &mut self.active_tasks.tasks);
                proof {
                    assert(trickled(old(self)@.active, self@.active, body, rest));
                }
                match rest {
                    Some(body) => Ok(
                        Some(
                            SchedulerEvent::Unsolicited(
                                response_of(
                                    ResponseParts::Status(status_of(StatusParts::Untagged(body))),
                                ),
                            ),
                        ),
                    ),
                    None => Ok(None),
                }
            },
            StatusParts::Bye(bye) => {
                let rest = trickle_down(bye, &mut self.active_tasks.tasks);
                proof {
                    assert(trickled(old(self)@.active, self@.active, bye, rest));
                }
                match rest {
                    Some(bye) => Ok(
                        Some(
                            SchedulerEvent::Unsolicited(
                                response_of(ResponseParts::Status(status_of(StatusParts::Bye(bye)))),
                            ),
                        ),
                    ),
                    None => Ok(None),
                }
            },
            StatusParts::Tagged { tag, body } => {
                let tag_text = match tagged {
                    Some((tag_text, _)) => tag_text,
                    None => unreached(),
                };
                match self.active_tasks.remove_by_tag(&tag_text) {
                    Some(entry) => {
                        let handle = entry.handle;
                        let output = Some(entry.task.process_tagged(body));
                        Ok(Some(SchedulerEvent::TaskFinished(TaskToken { handle, output })))
                    },
                    None => Err(SchedulerError::UnexpectedTaggedResponse { tag, body }),
                }
            },
        }
    }
}

} // verus!
