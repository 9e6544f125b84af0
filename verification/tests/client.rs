use bytes::BytesMut;
use imap_codec::decode::Decoder;
use imap_codec::{CommandCodec, GreetingCodec, ResponseCodec};
use imap_flow::client::{
    ClientFlow, ClientFlowCommandHandle, ClientFlowError, ClientFlowEvent, ClientFlowOptions,
    ClientFlowProgress,
};
use imap_flow::receive::ReceiveState;
use imap_types::auth::{AuthMechanism, AuthenticateData};
use imap_types::command::{Command, CommandBody};
use imap_types::response::{CommandContinuationRequest, Data, Greeting, Response, Status};
use imap_types::secret::Secret;
use std::borrow::Cow;

fn command(bytes: &[u8]) -> Command<'static> {
    let (rest, command) = CommandCodec::default().decode_static(bytes).unwrap();
    assert!(rest.is_empty());
    command
}

fn response(bytes: &[u8]) -> Response<'static> {
    let (rest, response) = ResponseCodec::default().decode_static(bytes).unwrap();
    assert!(rest.is_empty());
    response
}

fn status(bytes: &[u8]) -> Status<'static> {
    match response(bytes) {
        Response::Status(status) => status,
        other => panic!("no status: {other:?}"),
    }
}

fn data(bytes: &[u8]) -> Data<'static> {
    match response(bytes) {
        Response::Data(data) => data,
        other => panic!("no data: {other:?}"),
    }
}

fn continuation(bytes: &[u8]) -> CommandContinuationRequest<'static> {
    match response(bytes) {
        Response::CommandContinuationRequest(continuation) => continuation,
        other => panic!("no continuation request: {other:?}"),
    }
}

fn greeting(bytes: &[u8]) -> Greeting<'static> {
    let (rest, greeting) = GreetingCodec::default().decode_static(bytes).unwrap();
    assert!(rest.is_empty());
    greeting
}

fn authenticate_data(bytes: &[u8]) -> AuthenticateData<'static> {
    AuthenticateData::Continue(Secret::new(Cow::Owned(bytes.to_vec())))
}

fn greeted_with(options: ClientFlowOptions, bytes: &[u8]) -> (ClientFlow, Greeting<'static>) {
    let mut state = ReceiveState::new(GreetingCodec::default(), options.crlf_relaxed, BytesMut::new());
    state.enqueue_input(bytes);
    match ClientFlow::receive_greeting(state, 7) {
        Ok(Ok(greeted)) => greeted,
        Ok(Err(_)) => panic!("the greeting is not complete"),
        Err(error) => panic!("no greeting: {error:?}"),
    }
}

fn greeted() -> ClientFlow {
    greeted_with(ClientFlowOptions::default(), b"* OK Hello\r\n").0
}

/// Drives the client until it reports something else than output, and returns
/// that together with all bytes written meanwhile.
fn drive(client: &mut ClientFlow) -> (Vec<u8>, Result<ClientFlowProgress, ClientFlowError>) {
    let mut wire = Vec::new();
    loop {
        match client.progress() {
            Ok(ClientFlowProgress::Output) => {
                let count = client.output().len();
                wire.extend_from_slice(client.output());
                client.consume_output(count);
            }
            other => return (wire, other),
        }
    }
}

fn event(client: &mut ClientFlow) -> (Vec<u8>, ClientFlowEvent) {
    match drive(client) {
        (wire, Ok(ClientFlowProgress::Event(event))) => (wire, event),
        (_, other) => panic!("no event: {other:?}"),
    }
}

fn waits_for_input(client: &mut ClientFlow) -> Vec<u8> {
    match drive(client) {
        (wire, Ok(ClientFlowProgress::Input)) => wire,
        (_, other) => panic!("the client does not wait for input: {other:?}"),
    }
}

#[test]
fn simple_exchange() {
    let (mut client, received) = greeted_with(ClientFlowOptions::default(), b"* OK Hello\r\n");
    assert_eq!(received, greeting(b"* OK Hello\r\n"));

    let handle = client.enqueue_command(command(b"A1 NOOP\r\n"));
    let (wire, sent) = event(&mut client);
    assert_eq!(wire, b"A1 NOOP\r\n");
    assert_eq!(sent, ClientFlowEvent::CommandSent { handle, command: command(b"A1 NOOP\r\n") });

    client.enqueue_input(b"A1 OK done\r\n");
    let (wire, received) = event(&mut client);
    assert!(wire.is_empty());
    assert_eq!(received, ClientFlowEvent::StatusReceived { status: status(b"A1 OK done\r\n") });
    assert!(waits_for_input(&mut client).is_empty());
}

#[test]
fn greeting_needs_all_its_bytes() {
    let mut state = ReceiveState::new(GreetingCodec::default(), true, BytesMut::new());
    state.enqueue_input(b"* OK He");
    let mut state = match ClientFlow::receive_greeting(state, 0) {
        Ok(Err(state)) => state,
        _ => panic!("half a greeting is no greeting"),
    };
    state.enqueue_input(b"llo\r\n* 1 EXISTS\r\n");
    let (mut client, received) = match ClientFlow::receive_greeting(state, 0) {
        Ok(Ok(greeted)) => greeted,
        _ => panic!("the greeting is complete"),
    };
    assert_eq!(received, greeting(b"* OK Hello\r\n"));
    // What followed the greeting was kept.
    let (_, received) = event(&mut client);
    assert_eq!(received, ClientFlowEvent::DataReceived { data: data(b"* 1 EXISTS\r\n") });
}

#[test]
fn malformed_greeting() {
    let mut state = ReceiveState::new(GreetingCodec::default(), true, BytesMut::new());
    state.enqueue_input(b"A1 NOOP\r\n");
    match ClientFlow::receive_greeting(state, 0) {
        Err(ClientFlowError::MalformedMessage { discarded_bytes }) => {
            assert_eq!(discarded_bytes, b"A1 NOOP\r\n")
        }
        _ => panic!("a command is no greeting"),
    }
}

#[test]
fn greeting_with_bare_line_feed() {
    let mut state = ReceiveState::new(GreetingCodec::default(), false, BytesMut::new());
    state.enqueue_input(b"* OK Hello\n");
    match ClientFlow::receive_greeting(state, 0) {
        Err(ClientFlowError::ExpectedCrlfGotLf { discarded_bytes }) => {
            assert_eq!(discarded_bytes, b"* OK Hello\n")
        }
        _ => panic!("a bare line feed is not accepted"),
    }
}

#[test]
fn default_options_accept_a_bare_line_feed() {
    assert!(ClientFlowOptions::default().crlf_relaxed);
    let mut client = greeted_with(ClientFlowOptions::default(), b"* OK Hello\n").0;
    client.enqueue_input(b"* 1 EXISTS\n");
    let (_, received) = event(&mut client);
    assert_eq!(received, ClientFlowEvent::DataReceived { data: data(b"* 1 EXISTS\r\n") });
}

#[test]
fn sync_literal() {
    let mut client = greeted();
    let login = b"A1 LOGIN {5}\r\nalice {8}\r\npassword\r\n";
    let handle = client.enqueue_command(command(login));

    // Up to the first literal, and no further.
    assert_eq!(waits_for_input(&mut client), b"A1 LOGIN {5}\r\n");
    client.enqueue_input(b"+ ...\r\n");
    assert_eq!(waits_for_input(&mut client), b"alice {8}\r\n");
    client.enqueue_input(b"+ ...\r\n");
    let (wire, sent) = event(&mut client);
    assert_eq!(wire, b"password\r\n");
    assert_eq!(sent, ClientFlowEvent::CommandSent { handle, command: command(login) });

    client.enqueue_input(b"A1 OK done\r\n");
    let (_, received) = event(&mut client);
    assert_eq!(received, ClientFlowEvent::StatusReceived { status: status(b"A1 OK done\r\n") });
}

#[test]
fn non_sync_literal_does_not_wait() {
    let mut client = greeted();
    let login = b"A1 LOGIN {5+}\r\nalice {8+}\r\npassword\r\n";
    let handle = client.enqueue_command(command(login));
    let (wire, sent) = event(&mut client);
    assert_eq!(wire, login);
    assert_eq!(sent, ClientFlowEvent::CommandSent { handle, command: command(login) });
}

#[test]
fn literal_rejected() {
    let mut client = greeted();
    let login = b"A1 LOGIN {5}\r\nalice {8}\r\npassword\r\n";
    let handle = client.enqueue_command(command(login));
    assert_eq!(waits_for_input(&mut client), b"A1 LOGIN {5}\r\n");

    client.enqueue_input(b"A1 BAD too big\r\n");
    let (wire, rejected) = event(&mut client);
    // No byte of the literal was sent.
    assert!(wire.is_empty());
    assert_eq!(
        rejected,
        ClientFlowEvent::CommandRejected {
            handle,
            command: command(login),
            status: status(b"A1 BAD too big\r\n"),
        }
    );
    assert!(waits_for_input(&mut client).is_empty());
}

#[test]
fn a_no_rejects_no_literal() {
    let mut client = greeted();
    client.enqueue_command(command(b"A1 LOGIN {5}\r\nalice {8}\r\npassword\r\n"));
    assert_eq!(waits_for_input(&mut client), b"A1 LOGIN {5}\r\n");
    client.enqueue_input(b"A1 NO not now\r\n");
    let (_, received) = event(&mut client);
    assert_eq!(received, ClientFlowEvent::StatusReceived { status: status(b"A1 NO not now\r\n") });
    // The literal still waits for its continuation request.
    client.enqueue_input(b"+ ...\r\n");
    assert_eq!(waits_for_input(&mut client), b"alice {8}\r\n");
}

#[test]
fn a_bad_with_another_tag_rejects_no_literal() {
    let mut client = greeted();
    client.enqueue_command(command(b"A1 LOGIN {5}\r\nalice {8}\r\npassword\r\n"));
    assert_eq!(waits_for_input(&mut client), b"A1 LOGIN {5}\r\n");
    client.enqueue_input(b"A2 BAD what\r\n");
    let (_, received) = event(&mut client);
    assert_eq!(received, ClientFlowEvent::StatusReceived { status: status(b"A2 BAD what\r\n") });
}

#[test]
fn authenticate_login() {
    let mut client = greeted();
    let authenticate = Command::new("A1", CommandBody::authenticate(AuthMechanism::Login)).unwrap();
    let handle = client.enqueue_command(authenticate);

    let (wire, started) = event(&mut client);
    assert_eq!(wire, b"A1 AUTHENTICATE LOGIN\r\n");
    assert_eq!(started, ClientFlowEvent::AuthenticateStarted { handle });

    client.enqueue_input(b"+ VXNlcm5hbWU6\r\n");
    let (_, asked) = event(&mut client);
    assert_eq!(
        asked,
        ClientFlowEvent::ContinuationAuthenticateReceived {
            handle,
            continuation: continuation(b"+ VXNlcm5hbWU6\r\n"),
        }
    );
    assert_eq!(client.set_authenticate_data(authenticate_data(b"alice")), Ok(handle));
    assert_eq!(waits_for_input(&mut client), b"YWxpY2U=\r\n");

    client.enqueue_input(b"+ UGFzc3dvcmQ6\r\n");
    let (_, asked) = event(&mut client);
    assert!(matches!(asked, ClientFlowEvent::ContinuationAuthenticateReceived { .. }));
    assert_eq!(client.set_authenticate_data(authenticate_data(b"password")), Ok(handle));
    assert_eq!(waits_for_input(&mut client), b"cGFzc3dvcmQ=\r\n");

    client.enqueue_input(b"A1 OK done\r\n");
    let (_, accepted) = event(&mut client);
    match accepted {
        ClientFlowEvent::AuthenticateAccepted { handle: accepted, command_authenticate, status: sent } => {
            assert_eq!(accepted, handle);
            assert_eq!(command_authenticate.tag.inner(), "A1");
            assert_eq!(command_authenticate.mechanism, AuthMechanism::Login);
            assert_eq!(command_authenticate.initial_response, None);
            assert_eq!(sent, status(b"A1 OK done\r\n"));
        }
        other => panic!("not accepted: {other:?}"),
    }
}

#[test]
fn authenticate_rejected() {
    let mut client = greeted();
    let authenticate = Command::new("A1", CommandBody::authenticate(AuthMechanism::Plain)).unwrap();
    let handle = client.enqueue_command(authenticate);
    let (_, started) = event(&mut client);
    assert_eq!(started, ClientFlowEvent::AuthenticateStarted { handle });
    client.enqueue_input(b"A1 NO no way\r\n");
    let (_, rejected) = event(&mut client);
    assert!(matches!(
        rejected,
        ClientFlowEvent::AuthenticateRejected { handle: rejected, .. } if rejected == handle
    ));
}

#[test]
fn authenticate_cancel() {
    let mut client = greeted();
    let authenticate = Command::new("A1", CommandBody::authenticate(AuthMechanism::Login)).unwrap();
    let handle = client.enqueue_command(authenticate);
    event(&mut client);
    client.enqueue_input(b"+ VXNlcm5hbWU6\r\n");
    event(&mut client);
    assert_eq!(client.set_authenticate_data(AuthenticateData::Cancel), Ok(handle));
    assert_eq!(waits_for_input(&mut client), b"*\r\n");
    client.enqueue_input(b"A1 BAD cancelled\r\n");
    let (_, rejected) = event(&mut client);
    assert!(matches!(rejected, ClientFlowEvent::AuthenticateRejected { .. }));
}

#[test]
fn authenticate_data_that_nobody_asked_for_comes_back() {
    let mut client = greeted();
    assert_eq!(
        client.set_authenticate_data(authenticate_data(b"alice")),
        Err(authenticate_data(b"alice"))
    );
    let authenticate = Command::new("A1", CommandBody::authenticate(AuthMechanism::Login)).unwrap();
    client.enqueue_command(authenticate);
    event(&mut client);
    // The server has not asked yet.
    assert_eq!(
        client.set_authenticate_data(authenticate_data(b"alice")),
        Err(authenticate_data(b"alice"))
    );
}

#[test]
fn idle() {
    let mut client = greeted();
    let handle = client.enqueue_command(command(b"A1 IDLE\r\n"));

    let (wire, sent) = event(&mut client);
    assert_eq!(wire, b"A1 IDLE\r\n");
    assert_eq!(sent, ClientFlowEvent::IdleCommandSent { handle });

    // Too early: the server has not accepted yet.
    assert_eq!(client.set_idle_done(), None);

    client.enqueue_input(b"+ idling\r\n* 1 EXISTS\r\n");
    let (_, accepted) = event(&mut client);
    assert_eq!(
        accepted,
        ClientFlowEvent::IdleAccepted { handle, continuation: continuation(b"+ idling\r\n") }
    );
    let (_, received) = event(&mut client);
    assert_eq!(received, ClientFlowEvent::DataReceived { data: data(b"* 1 EXISTS\r\n") });

    assert_eq!(client.set_idle_done(), Some(handle));
    let (wire, done) = event(&mut client);
    assert_eq!(wire, b"DONE\r\n");
    assert_eq!(done, ClientFlowEvent::IdleDoneSent { handle });

    client.enqueue_input(b"A1 OK done\r\n");
    let (_, received) = event(&mut client);
    assert_eq!(received, ClientFlowEvent::StatusReceived { status: status(b"A1 OK done\r\n") });
}

#[test]
fn idle_rejected() {
    let mut client = greeted();
    let handle = client.enqueue_command(command(b"A1 IDLE\r\n"));
    event(&mut client);
    client.enqueue_input(b"A1 NO not here\r\n");
    let (_, rejected) = event(&mut client);
    assert_eq!(
        rejected,
        ClientFlowEvent::IdleRejected { handle, status: status(b"A1 NO not here\r\n") }
    );
    assert_eq!(client.set_idle_done(), None);
}

#[test]
fn a_status_after_idle_was_accepted_is_no_rejection() {
    let mut client = greeted();
    let handle = client.enqueue_command(command(b"A1 IDLE\r\n"));
    event(&mut client);
    client.enqueue_input(b"+ idling\r\n");
    event(&mut client);
    client.enqueue_input(b"A1 OK done\r\n");
    let (_, received) = event(&mut client);
    assert_eq!(received, ClientFlowEvent::StatusReceived { status: status(b"A1 OK done\r\n") });
    // The idle can still be ended.
    assert_eq!(client.set_idle_done(), Some(handle));
}

#[test]
fn malformed_message() {
    let mut client = greeted();
    client.enqueue_input(b"\xffnotvalid\r\n* 1 EXISTS\r\n");
    match drive(&mut client) {
        (_, Err(ClientFlowError::MalformedMessage { discarded_bytes })) => {
            assert_eq!(discarded_bytes, b"\xffnotvalid\r\n")
        }
        (_, other) => panic!("not malformed: {other:?}"),
    }
    // The client goes on with what follows.
    let (_, received) = event(&mut client);
    assert_eq!(received, ClientFlowEvent::DataReceived { data: data(b"* 1 EXISTS\r\n") });
}

#[test]
fn bare_line_feed_is_an_error_where_not_accepted() {
    let mut client = greeted_with(ClientFlowOptions { crlf_relaxed: false }, b"* OK Hello\r\n").0;
    client.enqueue_input(b"* 1 EXISTS\n* 2 EXISTS\r\n");
    match drive(&mut client) {
        (_, Err(ClientFlowError::ExpectedCrlfGotLf { discarded_bytes })) => {
            assert_eq!(discarded_bytes, b"* 1 EXISTS\n")
        }
        (_, other) => panic!("a bare line feed was accepted: {other:?}"),
    }
    let (_, received) = event(&mut client);
    assert_eq!(received, ClientFlowEvent::DataReceived { data: data(b"* 2 EXISTS\r\n") });
}

#[test]
fn a_literal_in_a_response_is_taken() {
    let mut client = greeted();
    let fetch = b"* 1 FETCH (BODY[] {5}\r\nhel\nl)\r\n";
    client.enqueue_input(fetch);
    let (_, received) = event(&mut client);
    assert_eq!(received, ClientFlowEvent::DataReceived { data: data(fetch) });
}

#[test]
fn input_may_come_in_any_pieces() {
    let mut client = greeted();
    let fetch = b"* 1 FETCH (BODY[] {5}\r\nhello)\r\n";
    for byte in &fetch[..fetch.len() - 1] {
        client.enqueue_input(&[*byte]);
        assert!(waits_for_input(&mut client).is_empty());
    }
    client.enqueue_input(b"\n");
    let (_, received) = event(&mut client);
    assert_eq!(received, ClientFlowEvent::DataReceived { data: data(fetch) });
}

#[test]
fn a_continuation_request_that_nobody_waits_for() {
    let mut client = greeted();
    client.enqueue_input(b"+ hello\r\n");
    let (_, received) = event(&mut client);
    assert_eq!(
        received,
        ClientFlowEvent::ContinuationReceived { continuation: continuation(b"+ hello\r\n") }
    );
}

#[test]
fn commands_are_sent_in_the_order_of_enqueueing() {
    let mut client = greeted();
    let first = client.enqueue_command(command(b"A1 NOOP\r\n"));
    let second = client.enqueue_command(command(b"A2 CAPABILITY\r\n"));
    let third = client.enqueue_command(command(b"A3 NOOP\r\n"));
    assert!(first != second && second != third && first != third);

    let (wire, sent) = event(&mut client);
    assert_eq!(wire, b"A1 NOOP\r\n");
    assert!(matches!(sent, ClientFlowEvent::CommandSent { handle, .. } if handle == first));
    let (wire, sent) = event(&mut client);
    assert_eq!(wire, b"A2 CAPABILITY\r\n");
    assert!(matches!(sent, ClientFlowEvent::CommandSent { handle, .. } if handle == second));
    let (wire, sent) = event(&mut client);
    assert_eq!(wire, b"A3 NOOP\r\n");
    assert!(matches!(sent, ClientFlowEvent::CommandSent { handle, .. } if handle == third));
    assert!(waits_for_input(&mut client).is_empty());
}

#[test]
fn handles_carry_the_generator_and_count_up() {
    let mut client = greeted();
    let first: ClientFlowCommandHandle = client.enqueue_command(command(b"A1 NOOP\r\n"));
    let second = client.enqueue_command(command(b"A2 NOOP\r\n"));
    assert_eq!(first.0.generator_id(), 7);
    assert_eq!(first.0.handle_id(), 0);
    assert_eq!(second.0.generator_id(), 7);
    assert_eq!(second.0.handle_id(), 1);
}

#[test]
fn a_write_may_be_given_up_and_taken_up_again() {
    let mut client = greeted();
    let handle = client.enqueue_command(command(b"A1 NOOP\r\n"));
    assert_eq!(client.progress(), Ok(ClientFlowProgress::Output));
    assert_eq!(client.output(), b"A1 NOOP\r\n");
    client.consume_output(3);
    // The rest is still there, however often the client is asked.
    assert_eq!(client.progress(), Ok(ClientFlowProgress::Output));
    assert_eq!(client.progress(), Ok(ClientFlowProgress::Output));
    assert_eq!(client.output(), b"NOOP\r\n");
    client.consume_output(0);
    assert_eq!(client.output(), b"NOOP\r\n");
    client.consume_output(6);
    assert_eq!(client.output(), b"");
    assert_eq!(
        client.progress(),
        Ok(ClientFlowProgress::Event(ClientFlowEvent::CommandSent {
            handle,
            command: command(b"A1 NOOP\r\n"),
        }))
    );
}

#[test]
fn what_was_pushed_is_written_even_if_the_command_is_rejected() {
    let mut client = greeted();
    client.enqueue_command(command(b"A1 LOGIN {5}\r\nalice {8}\r\npassword\r\n"));
    client.enqueue_command(command(b"A2 NOOP\r\n"));
    assert_eq!(client.progress(), Ok(ClientFlowProgress::Output));
    client.consume_output(4);
    assert_eq!(client.output(), b"OGIN {5}\r\n");
    // The rest of the line is written before the next command begins.
    let (wire, sent) = {
        client.enqueue_input(b"A1 BAD no\r\n");
        let mut wire = client.output().to_vec();
        let count = wire.len();
        client.consume_output(count);
        let (more, rejected) = event(&mut client);
        wire.extend_from_slice(&more);
        assert!(matches!(rejected, ClientFlowEvent::CommandRejected { .. }));
        let (more, sent) = event(&mut client);
        wire.extend_from_slice(&more);
        (wire, sent)
    };
    assert_eq!(wire, b"OGIN {5}\r\nA2 NOOP\r\n");
    assert!(matches!(sent, ClientFlowEvent::CommandSent { .. }));
}

#[test]
fn authenticate_with_an_initial_response() {
    let mut client = greeted();
    let authenticate = Command::new(
        "A1",
        CommandBody::authenticate_with_ir(AuthMechanism::Plain, b"\0alice\0pass".to_vec()),
    )
    .unwrap();
    let handle = client.enqueue_command(authenticate);
    let (wire, started) = event(&mut client);
    assert_eq!(wire, b"A1 AUTHENTICATE PLAIN AGFsaWNlAHBhc3M=\r\n");
    assert_eq!(started, ClientFlowEvent::AuthenticateStarted { handle });
    client.enqueue_input(b"A1 OK done\r\n");
    let (_, accepted) = event(&mut client);
    match accepted {
        ClientFlowEvent::AuthenticateAccepted { command_authenticate, .. } => {
            assert_eq!(
                command_authenticate.initial_response,
                Some(Secret::new(Cow::Owned(b"\0alice\0pass".to_vec())))
            );
        }
        other => panic!("not accepted: {other:?}"),
    }
}

#[test]
fn the_next_command_waits_for_the_literals_of_the_one_before() {
    let mut client = greeted();
    let first = client.enqueue_command(command(b"A1 LOGIN {5}\r\nalice pass\r\n"));
    let second = client.enqueue_command(command(b"A2 NOOP\r\n"));
    assert_eq!(waits_for_input(&mut client), b"A1 LOGIN {5}\r\n");
    client.enqueue_input(b"+ ...\r\n");
    let (wire, sent) = event(&mut client);
    assert_eq!(wire, b"alice pass\r\n");
    assert!(matches!(sent, ClientFlowEvent::CommandSent { handle, .. } if handle == first));
    let (wire, sent) = event(&mut client);
    assert_eq!(wire, b"A2 NOOP\r\n");
    assert!(matches!(sent, ClientFlowEvent::CommandSent { handle, .. } if handle == second));
}

#[test]
fn an_empty_literal_waits_like_any_other() {
    let mut client = greeted();
    let login = b"A1 LOGIN {0}\r\n pass\r\n";
    let handle = client.enqueue_command(command(login));
    assert_eq!(waits_for_input(&mut client), b"A1 LOGIN {0}\r\n");
    client.enqueue_input(b"+ ...\r\n");
    let (wire, sent) = event(&mut client);
    assert_eq!(wire, b" pass\r\n");
    assert_eq!(sent, ClientFlowEvent::CommandSent { handle, command: command(login) });
}

#[test]
fn events_come_one_per_call() {
    let mut client = greeted();
    client.enqueue_input(b"* 1 EXISTS\r\n* 2 EXISTS\r\n* OK hm\r\n");
    let (_, first) = event(&mut client);
    let (_, second) = event(&mut client);
    let (_, third) = event(&mut client);
    assert_eq!(first, ClientFlowEvent::DataReceived { data: data(b"* 1 EXISTS\r\n") });
    assert_eq!(second, ClientFlowEvent::DataReceived { data: data(b"* 2 EXISTS\r\n") });
    assert_eq!(third, ClientFlowEvent::StatusReceived { status: status(b"* OK hm\r\n") });
    assert!(waits_for_input(&mut client).is_empty());
}
