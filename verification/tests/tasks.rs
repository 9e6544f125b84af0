use bytes::BytesMut;
use imap_codec::decode::Decoder;
use imap_codec::{GreetingCodec, ResponseCodec};
use imap_flow::client::ClientFlow;
use imap_flow::receive::ReceiveState;
use imap_flow::tasks::{
    trickle_down, Consumer, Scheduler, SchedulerError, SchedulerEvent, SchedulerProgress, Task,
    TaskHandle, TaskToken,
};
use imap_types::auth::{AuthMechanism, AuthenticateData};
use imap_types::command::CommandBody;
use imap_types::response::{
    Bye, CommandContinuationRequest, Data, Response, Status, StatusBody, StatusKind,
};
use imap_types::secret::Secret;
use std::borrow::Cow;

/// Takes every value that is a multiple of its number.
struct Divisor {
    number: u32,
    taken: Vec<u32>,
}

impl Consumer<u32> for Divisor {
    fn offer(&mut self, value: u32) -> Option<u32> {
        if value % self.number == 0 {
            self.taken.push(value);
            None
        } else {
            Some(value)
        }
    }
}

fn divisors() -> Vec<Divisor> {
    vec![
        Divisor { number: 2, taken: Vec::new() },
        Divisor { number: 3, taken: Vec::new() },
        Divisor { number: 6, taken: Vec::new() },
    ]
}

#[test]
fn trickle_down_first_consumer_wins() {
    let mut consumers = divisors();
    assert_eq!(trickle_down(6, &mut consumers), None);
    assert_eq!(consumers[0].taken, vec![6]);
    assert!(consumers[1].taken.is_empty());
    assert!(consumers[2].taken.is_empty());
}

#[test]
fn trickle_down_hands_back_what_nobody_takes() {
    let mut consumers = divisors();
    assert_eq!(trickle_down(7, &mut consumers), Some(7));
    assert!(consumers.iter().all(|consumer| consumer.taken.is_empty()));
}

/// Counts the messages of a mailbox: takes every EXISTS and hands everything
/// else back, and comes to the last count together with the kind of the result.
struct Count {
    exists: Option<u32>,
}

impl Task for Count {
    type Output = (StatusKind, Option<u32>);

    fn command_body(&self) -> CommandBody<'static> {
        CommandBody::Noop
    }

    fn process_data(&mut self, data: Data<'static>) -> Option<Data<'static>> {
        match data {
            Data::Exists(exists) => {
                self.exists = Some(exists);
                None
            }
            data => Some(data),
        }
    }

    fn process_untagged(&mut self, status_body: StatusBody<'static>) -> Option<StatusBody<'static>> {
        Some(status_body)
    }

    fn process_continuation(
        &mut self,
        continuation: CommandContinuationRequest<'static>,
    ) -> Option<CommandContinuationRequest<'static>> {
        Some(continuation)
    }

    fn process_continuation_authenticate(
        &mut self,
        continuation: CommandContinuationRequest<'static>,
    ) -> Result<AuthenticateData<'static>, CommandContinuationRequest<'static>> {
        Err(continuation)
    }

    fn process_bye(&mut self, bye: Bye<'static>) -> Option<Bye<'static>> {
        Some(bye)
    }

    fn process_tagged(self, status_body: StatusBody<'static>) -> Self::Output {
        (status_body.kind, self.exists)
    }
}

/// Takes everything and answers every request for authenticate data.
struct Everything {
    seen: Vec<String>,
}

impl Task for Everything {
    type Output = Vec<String>;

    fn command_body(&self) -> CommandBody<'static> {
        CommandBody::authenticate(AuthMechanism::Login)
    }

    fn process_data(&mut self, data: Data<'static>) -> Option<Data<'static>> {
        self.seen.push(format!("{data:?}"));
        None
    }

    fn process_untagged(&mut self, status_body: StatusBody<'static>) -> Option<StatusBody<'static>> {
        self.seen.push(format!("untagged {:?}", status_body.kind));
        None
    }

    fn process_continuation(
        &mut self,
        _: CommandContinuationRequest<'static>,
    ) -> Option<CommandContinuationRequest<'static>> {
        self.seen.push(format!("continuation"));
        None
    }

    fn process_continuation_authenticate(
        &mut self,
        _: CommandContinuationRequest<'static>,
    ) -> Result<AuthenticateData<'static>, CommandContinuationRequest<'static>> {
        self.seen.push(format!("asked"));
        Ok(AuthenticateData::Continue(Secret::new(Cow::Owned(b"alice".to_vec()))))
    }

    fn process_bye(&mut self, _: Bye<'static>) -> Option<Bye<'static>> {
        self.seen.push(format!("bye"));
        None
    }

    fn process_tagged(mut self, status_body: StatusBody<'static>) -> Self::Output {
        self.seen.push(format!("tagged {:?}", status_body.kind));
        self.seen
    }
}

fn scheduler<T: Task>() -> Scheduler<T> {
    let mut state = ReceiveState::new(GreetingCodec::default(), true, BytesMut::new());
    state.enqueue_input(b"* OK Hello\r\n");
    match ClientFlow::receive_greeting(state, 0) {
        Ok(Ok((flow, _))) => Scheduler::new(flow),
        _ => panic!("no greeting"),
    }
}

fn parsed(bytes: &[u8]) -> Response<'static> {
    ResponseCodec::default().decode_static(bytes).unwrap().1
}

fn tag(text: &str) -> imap_types::core::Tag<'static> {
    imap_types::core::Tag::try_from(text.to_owned()).unwrap()
}

fn step<T: Task>(
    scheduler: &mut Scheduler<T>,
) -> (Vec<u8>, Result<SchedulerProgress<T>, SchedulerError>) {
    let mut wire = Vec::new();
    loop {
        match scheduler.progress() {
            Ok(SchedulerProgress::Output) => {
                let count = scheduler.output().len();
                wire.extend_from_slice(scheduler.output());
                scheduler.consume_output(count);
            }
            other => return (wire, other),
        }
    }
}

fn finished<T: Task>(scheduler: &mut Scheduler<T>) -> TaskToken<T> {
    match step(scheduler) {
        (_, Ok(SchedulerProgress::Event(SchedulerEvent::TaskFinished(token)))) => token,
        (_, Ok(SchedulerProgress::Event(SchedulerEvent::Unsolicited(response)))) => {
            panic!("unsolicited: {response:?}")
        }
        (_, Ok(_)) => panic!("no task has finished"),
        (_, Err(error)) => panic!("{error:?}"),
    }
}

fn unsolicited<T: Task>(scheduler: &mut Scheduler<T>) -> Response<'static> {
    match step(scheduler) {
        (_, Ok(SchedulerProgress::Event(SchedulerEvent::Unsolicited(response)))) => response,
        (_, Ok(_)) => panic!("nothing unsolicited"),
        (_, Err(error)) => panic!("{error:?}"),
    }
}

fn idle<T: Task>(scheduler: &mut Scheduler<T>) -> Vec<u8> {
    match step(scheduler) {
        (wire, Ok(SchedulerProgress::Input)) => wire,
        (_, Ok(_)) => panic!("the scheduler does not wait for input"),
        (_, Err(error)) => panic!("{error:?}"),
    }
}

#[test]
fn a_task_gets_its_data_and_its_result() {
    let mut scheduler = scheduler();
    let handle = scheduler.enqueue_tagged(Count { exists: None }, tag("T1"), CommandBody::Noop);
    assert_eq!(idle(&mut scheduler), b"T1 NOOP\r\n");

    scheduler.enqueue_input(b"* 3 EXISTS\r\n* 4 EXISTS\r\nT1 OK done\r\n");
    let mut token = finished(&mut scheduler);
    assert_eq!(handle.resolve(&mut token), Some((StatusKind::Ok, Some(4))));
    // A token is resolved once.
    assert_eq!(handle.resolve(&mut token), None);
}

#[test]
fn enqueue_task_tags_the_command_of_the_task() {
    let mut scheduler = scheduler();
    let handle = scheduler.enqueue_task(Count { exists: None });
    let wire = idle(&mut scheduler);
    assert!(wire.ends_with(b" NOOP\r\n"));
    let tag = &wire[..wire.len() - b" NOOP\r\n".len()];
    assert!(!tag.is_empty());

    let mut answer = tag.to_vec();
    answer.extend_from_slice(b" NO no\r\n");
    scheduler.enqueue_input(&answer);
    let mut token = finished(&mut scheduler);
    assert_eq!(handle.resolve(&mut token), Some((StatusKind::No, None)));
}

#[test]
fn two_tasks_get_different_tags() {
    let mut scheduler = scheduler();
    scheduler.enqueue_task(Count { exists: None });
    scheduler.enqueue_task(Count { exists: None });
    let wire = idle(&mut scheduler);
    let lines: Vec<&[u8]> = wire.split(|byte| *byte == b'\n').collect();
    assert_eq!(lines.len(), 3);
    assert_ne!(lines[0], lines[1]);
}

#[test]
fn a_handle_resolves_only_its_own_token() {
    let mut scheduler = scheduler();
    let first = scheduler.enqueue_tagged(Count { exists: None }, tag("T1"), CommandBody::Noop);
    let second = scheduler.enqueue_tagged(Count { exists: None }, tag("T2"), CommandBody::Noop);
    assert!(first != second);
    assert!(first == TaskHandle::new(first.handle));
    let copy = first;
    assert!(copy == first.clone());
    idle(&mut scheduler);
    // The results may come in any order.
    scheduler.enqueue_input(b"T2 BAD bad\r\nT1 OK done\r\n");
    let mut token = finished(&mut scheduler);
    assert_eq!(first.resolve(&mut token), None);
    assert_eq!(second.resolve(&mut token), Some((StatusKind::Bad, None)));
    let mut token = finished(&mut scheduler);
    assert_eq!(second.resolve(&mut token), None);
    assert_eq!(first.resolve(&mut token), Some((StatusKind::Ok, None)));
}

#[test]
fn what_no_task_takes_is_unsolicited() {
    let mut scheduler = scheduler::<Count>();
    scheduler.enqueue_input(b"* 1 EXISTS\r\n");
    // No task is active yet.
    assert_eq!(unsolicited(&mut scheduler), parsed(b"* 1 EXISTS\r\n"));

    scheduler.enqueue_tagged(Count { exists: None }, tag("T1"), CommandBody::Noop);
    idle(&mut scheduler);
    scheduler.enqueue_input(b"* 1 RECENT\r\n* OK hm\r\n+ go on\r\n* BYE bye\r\n");
    assert_eq!(unsolicited(&mut scheduler), parsed(b"* 1 RECENT\r\n"));
    assert_eq!(unsolicited(&mut scheduler), parsed(b"* OK hm\r\n"));
    assert_eq!(unsolicited(&mut scheduler), parsed(b"+ go on\r\n"));
    assert_eq!(unsolicited(&mut scheduler), parsed(b"* BYE bye\r\n"));
}

#[test]
fn data_goes_to_the_first_active_task_that_takes_it() {
    let mut scheduler = scheduler();
    let first = scheduler.enqueue_tagged(Count { exists: None }, tag("T1"), CommandBody::Noop);
    let second = scheduler.enqueue_tagged(Count { exists: None }, tag("T2"), CommandBody::Noop);
    idle(&mut scheduler);
    scheduler.enqueue_input(b"* 7 EXISTS\r\nT1 OK done\r\n* 8 EXISTS\r\nT2 OK done\r\n");
    let mut token = finished(&mut scheduler);
    assert_eq!(first.resolve(&mut token), Some((StatusKind::Ok, Some(7))));
    let mut token = finished(&mut scheduler);
    assert_eq!(second.resolve(&mut token), Some((StatusKind::Ok, Some(8))));
}

#[test]
fn a_waiting_task_gets_nothing() {
    let mut scheduler = scheduler();
    scheduler.enqueue_tagged(Count { exists: None }, tag("T1"), CommandBody::Noop);
    // The command was not sent: the task is not active.
    scheduler.enqueue_input(b"* 7 EXISTS\r\n");
    match scheduler.progress() {
        Ok(SchedulerProgress::Output) => {}
        _ => panic!("the command waits to be written"),
    }
    scheduler.consume_output(3);
    match scheduler.progress() {
        Ok(SchedulerProgress::Output) => {}
        _ => panic!("the command still waits to be written"),
    }
    assert_eq!(scheduler.output(), b"NOOP\r\n");
    scheduler.consume_output(6);
    // Now it is, and the data is for it.
    scheduler.enqueue_input(b"T1 OK done\r\n");
    let token = finished(&mut scheduler);
    assert_eq!(token.output, Some((StatusKind::Ok, Some(7))));
}

#[test]
fn a_result_for_no_task_is_an_error() {
    let mut scheduler = scheduler::<Count>();
    scheduler.enqueue_tagged(Count { exists: None }, tag("T1"), CommandBody::Noop);
    idle(&mut scheduler);
    scheduler.enqueue_input(b"T9 OK done\r\n");
    match step(&mut scheduler) {
        (_, Err(SchedulerError::UnexpectedTaggedResponse { tag, body })) => {
            assert_eq!(tag.inner(), "T9");
            assert_eq!(body.kind, StatusKind::Ok);
        }
        _ => panic!("a result for no task was taken"),
    }
}

#[test]
fn an_error_of_the_client_is_handed_on() {
    let mut scheduler = scheduler::<Count>();
    scheduler.enqueue_input(b"???\r\n");
    match step(&mut scheduler) {
        (_, Err(SchedulerError::Flow(error))) => {
            assert_eq!(
                error,
                imap_flow::client::ClientFlowError::MalformedMessage {
                    discarded_bytes: b"???\r\n".to_vec(),
                }
            )
        }
        _ => panic!("no error"),
    }
}

#[test]
fn a_task_answers_the_request_for_authenticate_data() {
    let mut scheduler = scheduler();
    let handle = scheduler.enqueue_tagged(
        Everything { seen: Vec::new() },
        tag("T1"),
        CommandBody::authenticate(AuthMechanism::Login),
    );
    assert_eq!(idle(&mut scheduler), b"T1 AUTHENTICATE LOGIN\r\n");
    scheduler.enqueue_input(b"+ VXNlcm5hbWU6\r\n");
    assert_eq!(idle(&mut scheduler), b"YWxpY2U=\r\n");
    scheduler.enqueue_input(b"* 1 EXISTS\r\n* OK hm\r\n* BYE bye\r\nT1 OK done\r\n");
    let mut token = finished(&mut scheduler);
    assert_eq!(
        handle.resolve(&mut token),
        Some(vec![
            "asked".to_owned(),
            "Exists(1)".to_owned(),
            "untagged Ok".to_owned(),
            "bye".to_owned(),
            "tagged Ok".to_owned(),
        ])
    );
}

#[test]
fn a_task_that_has_no_authenticate_data_hands_the_request_back() {
    let mut scheduler = scheduler();
    scheduler.enqueue_tagged(
        Count { exists: None },
        tag("T1"),
        CommandBody::authenticate(AuthMechanism::Login),
    );
    idle(&mut scheduler);
    scheduler.enqueue_input(b"+ VXNlcm5hbWU6\r\n");
    assert_eq!(unsolicited(&mut scheduler), parsed(b"+ VXNlcm5hbWU6\r\n"));
}

#[test]
fn a_rejected_literal_ends_the_task() {
    let mut scheduler = scheduler();
    let login = CommandBody::login(
        imap_types::core::Literal::try_from("alice").unwrap(),
        imap_types::core::Literal::try_from("password").unwrap(),
    )
    .unwrap();
    let handle = scheduler.enqueue_tagged(Count { exists: None }, tag("T1"), login);
    assert_eq!(idle(&mut scheduler), b"T1 LOGIN {5}\r\n");
    scheduler.enqueue_input(b"T1 BAD too big\r\n");
    let mut token = finished(&mut scheduler);
    assert_eq!(handle.resolve(&mut token), Some((StatusKind::Bad, None)));
    assert!(idle(&mut scheduler).is_empty());
}

#[test]
fn an_idle_task() {
    let mut scheduler = scheduler();
    let handle = scheduler.enqueue_tagged(Count { exists: None }, tag("T1"), CommandBody::Idle);
    assert_eq!(idle(&mut scheduler), b"T1 IDLE\r\n");
    scheduler.enqueue_input(b"+ idling\r\n* 2 EXISTS\r\n");
    // The task does not take the continuation request.
    assert_eq!(unsolicited(&mut scheduler), parsed(b"+ idling\r\n"));
    assert!(idle(&mut scheduler).is_empty());
    assert!(scheduler.set_idle_done().is_some());
    assert_eq!(idle(&mut scheduler), b"DONE\r\n");
    scheduler.enqueue_input(b"T1 OK done\r\n");
    let mut token = finished(&mut scheduler);
    assert_eq!(handle.resolve(&mut token), Some((StatusKind::Ok, Some(2))));
}

#[test]
fn a_rejected_idle_ends_the_task() {
    let mut scheduler = scheduler();
    let handle = scheduler.enqueue_tagged(Count { exists: None }, tag("T1"), CommandBody::Idle);
    idle(&mut scheduler);
    scheduler.enqueue_input(b"T1 NO no\r\n");
    let mut token = finished(&mut scheduler);
    assert_eq!(handle.resolve(&mut token), Some((StatusKind::No, None)));
}

#[test]
fn round_reports_nothing_where_a_task_took_the_data() {
    let mut scheduler = scheduler();
    scheduler.enqueue_tagged(Count { exists: None }, tag("T1"), CommandBody::Noop);
    idle(&mut scheduler);
    scheduler.enqueue_input(b"* 3 EXISTS\r\n");
    assert!(matches!(scheduler.round(), Ok(None)));
    assert!(matches!(scheduler.round(), Ok(Some(SchedulerProgress::Input))));
    let status: Status<'static> = Status::ok(Some(tag("T1")), None, "done").unwrap();
    match scheduler.handle_event(imap_flow::client::ClientFlowEvent::StatusReceived { status }) {
        Ok(Some(SchedulerEvent::TaskFinished(token))) => {
            assert_eq!(token.output, Some((StatusKind::Ok, Some(3))))
        }
        _ => panic!("the task has not finished"),
    }
}
