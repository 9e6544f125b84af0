use bytes::BytesMut;
use imap_codec::decode::Decoder;
use imap_codec::{AuthenticateDataCodec, CommandCodec, IdleDoneCodec, ResponseCodec};
use imap_flow::buffer::{empty_buffer, is_empty};
use imap_flow::client::ClientFlowCommandHandle;
use imap_flow::handle::HandleGenerator;
use imap_flow::send::{
    SendCommandEvent as KeyedEvent, SendCommandKind, SendCommandState as KeyedState,
    SendResponseState as KeyedResponses,
};
use imap_flow::send_command::{
    bytes_equal, concat_fragments, SendCommandEvent, SendCommandState, SendCommandTermination,
};
use imap_flow::send_response::SendResponseState;
use imap_flow::server::ServerFlowResponseHandle;
use imap_flow::types::{Fragment, LiteralMode};
use imap_types::auth::{AuthMechanism, AuthenticateData};
use imap_types::command::{Command, CommandBody};
use imap_types::response::{Response, Status};
use imap_types::secret::Secret;
use std::borrow::Cow;
use std::collections::VecDeque;

fn a_command(bytes: &[u8]) -> Command<'static> {
    CommandCodec::default().decode_static(bytes).unwrap().1
}

fn a_response(bytes: &[u8]) -> Response<'static> {
    ResponseCodec::default().decode_static(bytes).unwrap().1
}

fn a_status(bytes: &[u8]) -> Status<'static> {
    match a_response(bytes) {
        Response::Status(status) => status,
        other => panic!("no status: {other:?}"),
    }
}

fn command_handles() -> (ClientFlowCommandHandle, ClientFlowCommandHandle) {
    let mut generator = HandleGenerator::new(0);
    (
        ClientFlowCommandHandle::from_raw(generator.generate()),
        ClientFlowCommandHandle::from_raw(generator.generate()),
    )
}

fn send_command_state() -> SendCommandState {
    SendCommandState::new(
        CommandCodec::default(),
        AuthenticateDataCodec::default(),
        IdleDoneCodec::default(),
        BytesMut::new(),
    )
}

/// Writes everything that waits and returns it.
fn flush(state: &mut SendCommandState) -> Vec<u8> {
    let wire = state.output().to_vec();
    state.consume_output(wire.len());
    wire
}

#[test]
fn bytes_equal_compares_byte_for_byte() {
    assert!(bytes_equal(&b"A1".to_vec(), &b"A1".to_vec()));
    assert!(bytes_equal(&Vec::new(), &Vec::new()));
    assert!(!bytes_equal(&b"A1".to_vec(), &b"A2".to_vec()));
    assert!(!bytes_equal(&b"A1".to_vec(), &b"A10".to_vec()));
    assert!(!bytes_equal(&b"a1".to_vec(), &b"A1".to_vec()));
}

#[test]
fn concat_fragments_joins_all_bytes() {
    let fragments = VecDeque::from(vec![
        Fragment::Line { data: b"A1 LOGIN {5}\r\n".to_vec() },
        Fragment::Literal { data: b"alice".to_vec(), mode: LiteralMode::Sync },
        Fragment::Line { data: b" {4+}\r\n".to_vec() },
        Fragment::Literal { data: b"pass".to_vec(), mode: LiteralMode::NonSync },
        Fragment::Line { data: b"\r\n".to_vec() },
    ]);
    assert_eq!(concat_fragments(&fragments), b"A1 LOGIN {5}\r\nalice {4+}\r\npass\r\n");
    assert_eq!(concat_fragments(&VecDeque::new()), b"");
}

#[test]
fn nothing_to_send() {
    let mut state = send_command_state();
    assert_eq!(state.progress(), None);
    assert!(!state.has_output());
    assert_eq!(state.output(), b"");
    assert!(!state.literal_continue());
    assert_eq!(state.authenticate_continue(), None);
    assert_eq!(state.idle_continue(), None);
    assert_eq!(state.set_idle_done(), None);
    assert!(state.maybe_remove(&a_status(b"A1 BAD no\r\n")).is_none());
}

#[test]
fn bytes_in_the_buffer_handed_in_are_written_first() {
    let mut state = SendCommandState::new(
        CommandCodec::default(),
        AuthenticateDataCodec::default(),
        IdleDoneCodec::default(),
        BytesMut::from(&b"left over "[..]),
    );
    let (handle, _) = command_handles();
    state.enqueue(handle, a_command(b"A1 NOOP\r\n"));
    assert_eq!(state.progress(), None);
    assert_eq!(flush(&mut state), b"left over A1 NOOP\r\n");
}

#[test]
fn a_command_is_sent_once_its_bytes_are_written() {
    let mut state = send_command_state();
    let (handle, _) = command_handles();
    state.enqueue(handle, a_command(b"A1 NOOP\r\n"));
    assert_eq!(state.progress(), None);
    assert!(state.has_output());
    assert_eq!(state.progress(), None);
    assert_eq!(flush(&mut state), b"A1 NOOP\r\n");
    assert_eq!(
        state.progress(),
        Some(SendCommandEvent::Command { handle, command: a_command(b"A1 NOOP\r\n") })
    );
    assert_eq!(state.progress(), None);
}

#[test]
fn a_continuation_request_releases_one_literal() {
    let mut state = send_command_state();
    let (handle, _) = command_handles();
    let login = b"A1 LOGIN {5}\r\nalice {8}\r\npassword\r\n";
    state.enqueue(handle, a_command(login));

    // Too early: nothing waits for the server yet.
    assert!(!state.literal_continue());
    assert_eq!(state.progress(), None);
    assert_eq!(flush(&mut state), b"A1 LOGIN {5}\r\n");
    // Still too early: the command has to learn that its bytes were written.
    assert!(!state.literal_continue());
    assert_eq!(state.progress(), None);
    assert!(!state.has_output());

    assert!(state.literal_continue());
    // One request is for one literal.
    assert!(!state.literal_continue());
    assert_eq!(state.progress(), None);
    assert_eq!(flush(&mut state), b"alice {8}\r\n");
    assert_eq!(state.progress(), None);

    assert!(state.literal_continue());
    assert_eq!(state.progress(), None);
    assert_eq!(flush(&mut state), b"password\r\n");
    assert_eq!(state.progress(), Some(SendCommandEvent::Command { handle, command: a_command(login) }));
}

#[test]
fn maybe_remove_ends_a_command_by_a_bad_with_its_tag() {
    let mut state = send_command_state();
    let (handle, next) = command_handles();
    let login = b"A1 LOGIN {5}\r\nalice {8}\r\npassword\r\n";
    state.enqueue(handle, a_command(login));
    state.enqueue(next, a_command(b"A2 NOOP\r\n"));
    state.progress();
    flush(&mut state);
    state.progress();

    assert!(state.maybe_remove(&a_status(b"* BAD what\r\n")).is_none());
    assert!(state.maybe_remove(&a_status(b"* BYE bye\r\n")).is_none());
    assert!(state.maybe_remove(&a_status(b"A2 BAD what\r\n")).is_none());
    assert!(state.maybe_remove(&a_status(b"A1 OK fine\r\n")).is_none());
    assert!(state.maybe_remove(&a_status(b"A1 NO no\r\n")).is_none());
    assert_eq!(
        state.maybe_remove(&a_status(b"A1 BAD too big\r\n")),
        Some(SendCommandTermination::LiteralRejected { handle, command: a_command(login) })
    );
    // The command is gone, and the next one begins.
    assert!(state.maybe_remove(&a_status(b"A1 BAD too big\r\n")).is_none());
    assert!(!state.literal_continue());
    state.progress();
    assert_eq!(flush(&mut state), b"A2 NOOP\r\n");
}

#[test]
fn authenticate_goes_on_until_the_server_ends_it() {
    let mut state = send_command_state();
    let (handle, _) = command_handles();
    state.enqueue(handle, Command::new("A1", CommandBody::authenticate(AuthMechanism::Plain)).unwrap());
    let data = AuthenticateData::Continue(Secret::new(Cow::Owned(b"\0alice\0pass".to_vec())));

    assert_eq!(state.progress(), None);
    assert_eq!(state.authenticate_continue(), None);
    assert_eq!(flush(&mut state), b"A1 AUTHENTICATE PLAIN\r\n");
    assert_eq!(state.progress(), Some(SendCommandEvent::CommandAuthenticate { handle }));
    assert_eq!(state.progress(), None);

    assert_eq!(state.set_authenticate_data(data.clone()), Err(data.clone()));
    assert_eq!(state.authenticate_continue(), Some(handle));
    assert_eq!(state.authenticate_continue(), None);
    assert_eq!(state.set_authenticate_data(data.clone()), Ok(handle));
    assert_eq!(state.set_authenticate_data(data.clone()), Err(data.clone()));
    assert_eq!(state.progress(), None);
    assert_eq!(flush(&mut state), b"AGFsaWNlAHBhc3M=\r\n");
    assert_eq!(state.progress(), None);

    // The server may ask again.
    assert_eq!(state.authenticate_continue(), Some(handle));
    assert!(state.maybe_remove(&a_status(b"A2 OK fine\r\n")).is_none());
    assert!(matches!(
        state.maybe_remove(&a_status(b"A1 OK fine\r\n")),
        Some(SendCommandTermination::AuthenticateAccepted { handle: accepted, .. }) if accepted == handle
    ));
    assert_eq!(state.authenticate_continue(), None);
}

#[test]
fn authenticate_is_rejected_by_no_and_bad() {
    for refusal in [&b"A1 NO no\r\n"[..], &b"A1 BAD bad\r\n"[..]] {
        let mut state = send_command_state();
        let (handle, _) = command_handles();
        state.enqueue(handle, Command::new("A1", CommandBody::authenticate(AuthMechanism::Plain)).unwrap());
        state.progress();
        flush(&mut state);
        state.progress();
        assert!(matches!(
            state.maybe_remove(&a_status(refusal)),
            Some(SendCommandTermination::AuthenticateRejected { handle: rejected, .. }) if rejected == handle
        ));
    }
}

#[test]
fn idle_lasts_until_done() {
    let mut state = send_command_state();
    let (handle, _) = command_handles();
    state.enqueue(handle, a_command(b"A1 IDLE\r\n"));
    assert_eq!(state.progress(), None);
    assert_eq!(flush(&mut state), b"A1 IDLE\r\n");
    assert_eq!(state.idle_continue(), None);
    assert_eq!(state.progress(), Some(SendCommandEvent::CommandIdle { handle }));
    assert_eq!(state.set_idle_done(), None);
    assert_eq!(state.idle_continue(), Some(handle));
    assert_eq!(state.idle_continue(), None);
    assert_eq!(state.progress(), None);
    assert_eq!(state.set_idle_done(), Some(handle));
    assert_eq!(state.set_idle_done(), None);
    assert_eq!(state.progress(), None);
    assert_eq!(flush(&mut state), b"DONE\r\n");
    assert_eq!(state.progress(), Some(SendCommandEvent::IdleDone { handle }));
    assert_eq!(state.progress(), None);
}

#[test]
fn idle_is_rejected_by_any_status_with_its_tag_before_it_is_accepted() {
    for refusal in [&b"A1 NO no\r\n"[..], &b"A1 BAD bad\r\n"[..], &b"A1 OK odd\r\n"[..]] {
        let mut state = send_command_state();
        let (handle, _) = command_handles();
        state.enqueue(handle, a_command(b"A1 IDLE\r\n"));
        state.progress();
        flush(&mut state);
        state.progress();
        assert!(state.maybe_remove(&a_status(b"A2 NO no\r\n")).is_none());
        assert_eq!(
            state.maybe_remove(&a_status(refusal)),
            Some(SendCommandTermination::IdleRejected { handle })
        );
    }
}

#[test]
fn idle_is_not_rejected_after_it_was_accepted() {
    let mut state = send_command_state();
    let (handle, _) = command_handles();
    state.enqueue(handle, a_command(b"A1 IDLE\r\n"));
    state.progress();
    flush(&mut state);
    state.progress();
    assert_eq!(state.idle_continue(), Some(handle));
    assert!(state.maybe_remove(&a_status(b"A1 NO no\r\n")).is_none());
    assert_eq!(state.set_idle_done(), Some(handle));
    assert!(state.maybe_remove(&a_status(b"A1 OK done\r\n")).is_none());
}

fn response_handle(number: u64) -> ServerFlowResponseHandle {
    let mut generator = HandleGenerator::new(0);
    let mut handle = generator.generate();
    for _ in 0..number {
        handle = generator.generate();
    }
    ServerFlowResponseHandle::from_raw(handle)
}

#[test]
fn responses_are_reported_in_the_order_of_enqueueing() {
    let mut state = SendResponseState::new(ResponseCodec::default(), BytesMut::new());
    assert!(state.progress().is_none());
    state.enqueue(Some(response_handle(0)), a_response(b"* 1 EXISTS\r\n"));
    state.enqueue(None, a_response(b"+ ...\r\n"));
    state.enqueue(Some(response_handle(1)), a_response(b"A1 OK done\r\n"));

    let mut wire = Vec::new();
    let mut reported = Vec::new();
    for _ in 0..10 {
        match state.progress() {
            Some(event) => reported.push((event.handle, event.response)),
            None => {
                // One byte at a time.
                if !state.output().is_empty() {
                    wire.push(state.output()[0]);
                    state.consume_output(1);
                }
                while !state.output().is_empty() && state.progress().is_none() {
                    wire.push(state.output()[0]);
                    state.consume_output(1);
                }
            }
        }
    }
    assert_eq!(wire, b"* 1 EXISTS\r\n+ ...\r\nA1 OK done\r\n");
    assert_eq!(
        reported,
        vec![
            (Some(response_handle(0)), a_response(b"* 1 EXISTS\r\n")),
            (None, a_response(b"+ ...\r\n")),
            (Some(response_handle(1)), a_response(b"A1 OK done\r\n")),
        ]
    );
}

#[test]
fn finish_gives_the_buffer_back_empty() {
    let mut state = SendResponseState::new(ResponseCodec::default(), BytesMut::new());
    state.enqueue(None, a_response(b"* 1 EXISTS\r\n"));
    assert!(state.progress().is_none());
    assert_eq!(state.output(), b"* 1 EXISTS\r\n");
    assert!(state.finish().is_empty());
}

fn keyed() -> KeyedState<u32> {
    KeyedState::new(CommandCodec::default(), AuthenticateDataCodec::default(), BytesMut::new())
}

fn flush_keyed(state: &mut KeyedState<u32>) -> Vec<u8> {
    let wire = state.output().to_vec();
    state.consume_output(wire.len());
    wire
}

fn sent(event: Option<KeyedEvent<u32>>) -> Option<(u32, Option<Command<'static>>)> {
    match event {
        Some(KeyedEvent::CommandSent { key, command }) => Some((key, Some(command))),
        Some(KeyedEvent::CommandAuthenticateStarted { key }) => Some((key, None)),
        None => None,
    }
}

#[test]
fn keyed_commands_come_back_under_their_keys() {
    let mut state = keyed();
    assert_eq!(sent(state.progress()), None);
    assert!(state.command_in_progress().is_none());
    state.enqueue(10, a_command(b"A1 NOOP\r\n"));
    state.enqueue(20, a_command(b"A2 IDLE\r\n"));
    assert_eq!(sent(state.progress()), None);
    assert_eq!(
        state.command_in_progress(),
        Some(&SendCommandKind::Regular { command: a_command(b"A1 NOOP\r\n") })
    );
    assert_eq!(flush_keyed(&mut state), b"A1 NOOP\r\n");
    assert_eq!(sent(state.progress()), Some((10, Some(a_command(b"A1 NOOP\r\n")))));
    assert!(state.command_in_progress().is_none());
    assert_eq!(sent(state.progress()), None);
    assert_eq!(flush_keyed(&mut state), b"A2 IDLE\r\n");
    assert_eq!(sent(state.progress()), Some((20, Some(a_command(b"A2 IDLE\r\n")))));
}

#[test]
fn keyed_sync_literals_wait_and_non_sync_literals_do_not() {
    let mut state = keyed();
    let login = b"A1 LOGIN {5+}\r\nalice {8}\r\npassword\r\n";
    state.enqueue(1, a_command(login));
    assert!(!state.continue_literal());
    assert_eq!(sent(state.progress()), None);
    assert!(state.has_output());
    // The non-synchronizing literal follows its line; the synchronizing one
    // is announced and held back.
    assert_eq!(flush_keyed(&mut state), b"A1 LOGIN {5+}\r\nalice {8}\r\n");
    assert_eq!(sent(state.progress()), None);
    assert!(!state.has_output());
    assert_eq!(sent(state.progress()), None);
    assert!(!state.has_output());
    assert!(state.continue_literal());
    assert!(!state.continue_literal());
    assert_eq!(sent(state.progress()), None);
    assert_eq!(flush_keyed(&mut state), b"password\r\n");
    assert_eq!(sent(state.progress()), Some((1, Some(a_command(login)))));
}

#[test]
fn keyed_non_sync_literals_need_no_continuation_request() {
    let mut state = keyed();
    let login = b"A1 LOGIN {5+}\r\nalice {8+}\r\npassword\r\n";
    state.enqueue(1, a_command(login));
    assert_eq!(sent(state.progress()), None);
    assert_eq!(flush_keyed(&mut state), login);
    assert!(!state.continue_literal());
    assert_eq!(sent(state.progress()), Some((1, Some(a_command(login)))));
}

#[test]
fn keyed_sync_literals_wait_one_by_one() {
    let mut state = keyed();
    let login = b"A1 LOGIN {5}\r\nalice {8}\r\npassword\r\n";
    state.enqueue(1, a_command(login));
    assert_eq!(sent(state.progress()), None);
    assert_eq!(flush_keyed(&mut state), b"A1 LOGIN {5}\r\n");
    assert_eq!(sent(state.progress()), None);
    assert!(!state.has_output());
    assert!(state.continue_literal());
    assert_eq!(sent(state.progress()), None);
    assert_eq!(flush_keyed(&mut state), b"alice {8}\r\n");
    assert_eq!(sent(state.progress()), None);
    assert!(!state.has_output());
    assert!(state.continue_literal());
    assert_eq!(sent(state.progress()), None);
    assert_eq!(flush_keyed(&mut state), b"password\r\n");
    assert_eq!(sent(state.progress()), Some((1, Some(a_command(login)))));
}

#[test]
fn keyed_authenticate() {
    let mut state = keyed();
    state.enqueue(5, Command::new("A1", CommandBody::authenticate(AuthMechanism::Login)).unwrap());
    let data = AuthenticateData::Continue(Secret::new(Cow::Owned(b"alice".to_vec())));
    assert_eq!(state.continue_authenticate(), None);
    assert_eq!(sent(state.progress()), None);
    assert!(matches!(
        state.command_in_progress(),
        Some(SendCommandKind::Authenticate { started: false, .. })
    ));
    assert_eq!(flush_keyed(&mut state), b"A1 AUTHENTICATE LOGIN\r\n");
    assert_eq!(sent(state.progress()), Some((5, None)));
    assert!(matches!(
        state.command_in_progress(),
        Some(SendCommandKind::Authenticate { started: true, .. })
    ));
    assert_eq!(sent(state.progress()), None);

    assert_eq!(state.continue_authenticate_with_data(data.clone()), Err(data.clone()));
    assert_eq!(state.continue_authenticate(), Some(5));
    assert_eq!(state.continue_authenticate(), None);
    assert!(!state.continue_literal());
    assert_eq!(state.continue_authenticate_with_data(data.clone()), Ok(5));
    assert_eq!(state.continue_authenticate_with_data(data.clone()), Err(data.clone()));
    assert_eq!(sent(state.progress()), None);
    assert_eq!(flush_keyed(&mut state), b"YWxpY2U=\r\n");
    // No second start is reported.
    assert_eq!(sent(state.progress()), None);
    assert_eq!(state.continue_authenticate(), Some(5));

    // The server ended the authentication: the user removes the command.
    match state.remove_command_in_progress() {
        Some((5, SendCommandKind::Authenticate { command_authenticate, started: true })) => {
            assert_eq!(command_authenticate.tag.inner(), "A1");
        }
        other => panic!("no authenticate under way: {other:?}"),
    }
    assert!(state.command_in_progress().is_none());
    assert!(state.remove_command_in_progress().is_none());
}

#[test]
fn remove_command_in_progress_drops_what_waits_to_be_written() {
    let mut state = keyed();
    state.enqueue(1, a_command(b"A1 NOOP\r\n"));
    state.enqueue(2, a_command(b"A2 NOOP\r\n"));
    assert_eq!(sent(state.progress()), None);
    state.consume_output(3);
    assert_eq!(state.output(), b"NOOP\r\n");
    assert!(matches!(state.remove_command_in_progress(), Some((1, SendCommandKind::Regular { .. }))));
    assert_eq!(state.output(), b"");
    assert_eq!(sent(state.progress()), None);
    assert_eq!(flush_keyed(&mut state), b"A2 NOOP\r\n");
    assert_eq!(sent(state.progress()), Some((2, Some(a_command(b"A2 NOOP\r\n")))));
}

#[test]
fn an_empty_buffer_is_empty() {
    assert!(is_empty(&empty_buffer()));
    assert_eq!(empty_buffer().len(), 0);
    assert!(!is_empty(&BytesMut::from(&b"x"[..])));
}

#[test]
fn try_new_takes_an_empty_buffer_only() {
    let mut state = match SendResponseState::try_new(ResponseCodec::default(), empty_buffer()) {
        Ok(state) => state,
        Err(_) => panic!("the buffer is empty"),
    };
    state.enqueue(None, a_response(b"* 1 EXISTS\r\n"));
    assert!(state.progress().is_none());
    assert_eq!(state.output(), b"* 1 EXISTS\r\n");

    match SendResponseState::try_new(ResponseCodec::default(), BytesMut::from(&b"left"[..])) {
        Err((_, buffer)) => assert_eq!(&buffer[..], b"left"),
        Ok(_) => panic!("the buffer is not empty"),
    }
}

#[test]
fn keyed_try_new_takes_an_empty_buffer_only() {
    let state = KeyedResponses::<ResponseCodec, u8>::try_new(ResponseCodec::default(), empty_buffer());
    let mut state = match state {
        Ok(state) => state,
        Err(_) => panic!("the buffer is empty"),
    };
    state.enqueue(4, a_response(b"* 1 EXISTS\r\n"));
    assert!(state.has_pending());
    assert!(state.progress().is_none());
    assert_eq!(state.output(), b"* 1 EXISTS\r\n");
    state.consume_output(12);
    assert_eq!(state.progress(), Some((4, a_response(b"* 1 EXISTS\r\n"))));
    assert!(!state.has_pending());

    let refused = KeyedResponses::<ResponseCodec, u8>::try_new(
        ResponseCodec::default(),
        BytesMut::from(&b"left"[..]),
    );
    match refused {
        Err((_, buffer)) => assert_eq!(&buffer[..], b"left"),
        Ok(_) => panic!("the buffer is not empty"),
    }
}
