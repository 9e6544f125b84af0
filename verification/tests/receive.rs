use bytes::BytesMut;
use imap_codec::decode::Decoder;
use imap_codec::{AuthenticateDataCodec, CommandCodec, ResponseCodec};
use imap_flow::codec::{CommandDecodeError, ResponseDecodeError};
use imap_flow::receive::{find_crlf_inclusive, ReceiveEvent, ReceiveState, CR, LF};
use imap_flow::types::LiteralMode;
use imap_types::auth::AuthenticateData;
use imap_types::command::Command;

fn noop() -> Command<'static> {
    CommandCodec::default().decode_static(b"A1 NOOP\r\n").unwrap().1
}

#[test]
fn line_ends() {
    assert_eq!((CR, LF), (b'\r', b'\n'));
}

#[test]
fn find_crlf_inclusive_finds_the_first_line_feed() {
    let found = find_crlf_inclusive(0, b"ab\r\ncd\r\n").unwrap();
    assert_eq!(found.lf_position, 3);
    assert!(!found.expected_crlf_got_lf);
}

#[test]
fn find_crlf_inclusive_skips() {
    let found = find_crlf_inclusive(4, b"ab\r\ncd\r\n").unwrap();
    assert_eq!(found.lf_position, 7);
    assert!(!found.expected_crlf_got_lf);
    // The line feed at the start of the search counts.
    let found = find_crlf_inclusive(3, b"ab\r\ncd\r\n").unwrap();
    assert_eq!(found.lf_position, 3);
}

#[test]
fn find_crlf_inclusive_tells_a_bare_line_feed() {
    let found = find_crlf_inclusive(0, b"ab\ncd\r\n").unwrap();
    assert_eq!(found.lf_position, 2);
    assert!(found.expected_crlf_got_lf);
    // A line feed at the very start has no carriage return before it.
    let found = find_crlf_inclusive(0, b"\n").unwrap();
    assert_eq!(found.lf_position, 0);
    assert!(found.expected_crlf_got_lf);
    // The carriage return may lie before the start of the search.
    let found = find_crlf_inclusive(3, b"ab\r\n").unwrap();
    assert!(!found.expected_crlf_got_lf);
}

#[test]
fn find_crlf_inclusive_finds_nothing() {
    assert!(find_crlf_inclusive(0, b"").is_none());
    assert!(find_crlf_inclusive(0, b"abc\r").is_none());
    assert!(find_crlf_inclusive(4, b"ab\r\ncd").is_none());
    assert!(find_crlf_inclusive(9, b"ab\r\n").is_none());
}

#[test]
fn one_message_per_call() {
    let mut state = ReceiveState::new(CommandCodec::default(), false, BytesMut::new());
    assert!(state.progress().is_none());
    state.enqueue_input(b"A1 NOOP\r\nA1 NOOP\r\n");
    assert!(matches!(state.progress(), Some(ReceiveEvent::DecodingSuccess(command)) if command == noop()));
    state.finish_message();
    assert!(matches!(state.progress(), Some(ReceiveEvent::DecodingSuccess(command)) if command == noop()));
    state.finish_message();
    assert!(state.progress().is_none());
}

#[test]
fn bytes_in_the_buffer_handed_in_count_as_read() {
    let mut state = ReceiveState::new(CommandCodec::default(), false, BytesMut::from(&b"A1 NOOP\r\n"[..]));
    assert!(matches!(state.progress(), Some(ReceiveEvent::DecodingSuccess(command)) if command == noop()));
}

#[test]
fn the_server_decides_on_a_literal() {
    let mut state = ReceiveState::new(CommandCodec::default(), false, BytesMut::new());
    state.enqueue_input(b"A1 LOGIN {3}\r\n");
    match state.progress() {
        Some(ReceiveEvent::DecodingFailure(CommandDecodeError::LiteralFound { tag, length, mode })) => {
            assert_eq!(tag.inner(), "A1");
            assert_eq!(length, 3);
            assert_eq!(mode, LiteralMode::Sync);
        }
        _ => panic!("no literal found"),
    }
    state.start_literal(3);
    // The bytes of the literal are passed over, line feeds and all.
    state.enqueue_input(b"a\n");
    assert!(state.progress().is_none());
    state.enqueue_input(b"\n pass\r\n");
    let login = CommandCodec::default().decode_static(b"A1 LOGIN {3}\r\na\n\n pass\r\n").unwrap().1;
    assert!(matches!(state.progress(), Some(ReceiveEvent::DecodingSuccess(command)) if command == login));
}

#[test]
fn a_non_sync_literal_is_found_as_such() {
    let mut state = ReceiveState::new(CommandCodec::default(), false, BytesMut::new());
    state.enqueue_input(b"A1 LOGIN {3+}\r\n");
    assert!(matches!(
        state.progress(),
        Some(ReceiveEvent::DecodingFailure(CommandDecodeError::LiteralFound {
            length: 3,
            mode: LiteralMode::NonSync,
            ..
        }))
    ));
}

#[test]
fn discard_message_hands_out_what_was_seen_and_keeps_the_rest() {
    let mut state = ReceiveState::new(CommandCodec::default(), false, BytesMut::new());
    state.enqueue_input(b"A1 LOGIN {3}\r\nA1 NOOP\r\n");
    assert!(matches!(state.progress(), Some(ReceiveEvent::DecodingFailure(_))));
    assert_eq!(state.discard_message(), b"A1 LOGIN {3}\r\n");
    assert!(matches!(state.progress(), Some(ReceiveEvent::DecodingSuccess(command)) if command == noop()));
    assert_eq!(state.discard_message(), b"A1 NOOP\r\n");
    assert_eq!(state.discard_message(), b"");
}

#[test]
fn a_failed_decoding() {
    let mut state = ReceiveState::new(CommandCodec::default(), false, BytesMut::new());
    state.enqueue_input(b"??\r\n");
    assert!(matches!(
        state.progress(),
        Some(ReceiveEvent::DecodingFailure(CommandDecodeError::Failed))
    ));
    let mut state = ReceiveState::new(ResponseCodec::default(), false, BytesMut::new());
    state.enqueue_input(b"??\r\n");
    assert!(matches!(
        state.progress(),
        Some(ReceiveEvent::DecodingFailure(ResponseDecodeError::Failed))
    ));
}

#[test]
fn a_literal_in_a_response_is_found() {
    let mut state = ReceiveState::new(ResponseCodec::default(), false, BytesMut::new());
    state.enqueue_input(b"* 1 FETCH (BODY[] {5}\r\n");
    assert!(matches!(
        state.progress(),
        Some(ReceiveEvent::DecodingFailure(ResponseDecodeError::LiteralFound { length: 5 }))
    ));
}

#[test]
fn a_bare_line_feed() {
    let mut strict = ReceiveState::new(CommandCodec::default(), false, BytesMut::new());
    strict.enqueue_input(b"A1 NOOP\n");
    assert!(matches!(strict.progress(), Some(ReceiveEvent::ExpectedCrlfGotLf)));
    let mut relaxed = ReceiveState::new(CommandCodec::default(), true, BytesMut::new());
    relaxed.enqueue_input(b"A1 NOOP\n");
    assert!(matches!(relaxed.progress(), Some(ReceiveEvent::DecodingSuccess(command)) if command == noop()));
}

#[test]
fn change_codec_keeps_the_bytes_read() {
    let mut state = ReceiveState::new(CommandCodec::default(), false, BytesMut::new());
    state.enqueue_input(b"A1 NOOP\r\n*\r\nA1 NOOP\r\n");
    assert!(matches!(state.progress(), Some(ReceiveEvent::DecodingSuccess(_))));
    state.finish_message();
    let (mut state, _) = state.change_codec(AuthenticateDataCodec::default());
    assert!(matches!(
        state.progress(),
        Some(ReceiveEvent::DecodingSuccess(AuthenticateData::Cancel))
    ));
    state.finish_message();
    let (mut state, _) = state.change_codec(CommandCodec::default());
    assert!(matches!(state.progress(), Some(ReceiveEvent::DecodingSuccess(command)) if command == noop()));
}
