use imap_codec::decode::Decoder;
use imap_codec::{AuthenticateDataCodec, CommandCodec, GreetingCodec, ResponseCodec};
use imap_flow::codec::{
    AuthenticateDataDecodeError, CommandDecodeError, Decode, Encode, GreetingDecodeError,
    ResponseDecodeError,
};
use imap_flow::types::{Fragment, LiteralMode};
use imap_types::auth::AuthenticateData;
use imap_types::response::{Greeting, Response};

#[test]
fn a_decoded_command_is_the_one_that_the_codec_decodes() {
    let bytes = b"A1 LOGIN alice password\r\n";
    let expected = CommandCodec::default().decode_static(bytes).unwrap().1;
    assert_eq!(Decode::decode(&CommandCodec::default(), bytes), Ok(expected));
}

#[test]
fn command_decode_errors() {
    let codec = CommandCodec::default();
    assert_eq!(Decode::decode(&codec, b"A1 NOO"), Err(CommandDecodeError::Incomplete));
    assert_eq!(Decode::decode(&codec, b""), Err(CommandDecodeError::Incomplete));
    assert_eq!(Decode::decode(&codec, b"A1 WHAT\r\n"), Err(CommandDecodeError::Failed));
    match Decode::decode(&codec, b"T LOGIN {7+}\r\n") {
        Err(CommandDecodeError::LiteralFound { tag, length, mode }) => {
            assert_eq!(tag.inner(), "T");
            assert_eq!(length, 7);
            assert_eq!(mode, LiteralMode::NonSync);
        }
        other => panic!("no literal found: {other:?}"),
    }
}

#[test]
fn bytes_that_hold_a_message_and_more_are_no_message() {
    assert_eq!(
        Decode::decode(&CommandCodec::default(), b"A1 NOOP\r\nA2"),
        Err(CommandDecodeError::Failed)
    );
    assert_eq!(
        Decode::decode(&ResponseCodec::default(), b"* 1 EXISTS\r\n*"),
        Err(ResponseDecodeError::Failed)
    );
    assert_eq!(
        Decode::decode(&GreetingCodec::default(), b"* OK hi\r\n*"),
        Err(GreetingDecodeError::Failed)
    );
    assert_eq!(
        Decode::decode(&AuthenticateDataCodec::default(), b"*\r\n*"),
        Err(AuthenticateDataDecodeError::Failed)
    );
}

#[test]
fn response_decode_errors() {
    let codec = ResponseCodec::default();
    assert_eq!(Decode::decode(&codec, b"* 1 EXI"), Err(ResponseDecodeError::Incomplete));
    assert_eq!(Decode::decode(&codec, b"what\r\n"), Err(ResponseDecodeError::Failed));
    assert_eq!(
        Decode::decode(&codec, b"* 1 FETCH (BODY[] {12}\r\n"),
        Err(ResponseDecodeError::LiteralFound { length: 12 })
    );
    let expected = codec.decode_static(b"* 1 EXISTS\r\n").unwrap().1;
    assert_eq!(Decode::decode(&codec, b"* 1 EXISTS\r\n"), Ok(expected));
}

#[test]
fn greeting_decode_errors() {
    let codec = GreetingCodec::default();
    assert_eq!(Decode::decode(&codec, b"* OK h"), Err(GreetingDecodeError::Incomplete));
    assert_eq!(Decode::decode(&codec, b"A1 NOOP\r\n"), Err(GreetingDecodeError::Failed));
    assert_eq!(Decode::decode(&codec, b"* OK hi\r\n"), Ok(Greeting::ok(None, "hi").unwrap()));
}

#[test]
fn authenticate_data_decode_errors() {
    let codec = AuthenticateDataCodec::default();
    assert_eq!(Decode::decode(&codec, b"YWxp"), Err(AuthenticateDataDecodeError::Incomplete));
    assert_eq!(Decode::decode(&codec, b"!!\r\n"), Err(AuthenticateDataDecodeError::Failed));
    assert_eq!(Decode::decode(&codec, b"*\r\n"), Ok(AuthenticateData::Cancel));
}

#[test]
fn a_response_is_encoded_into_lines_and_literals() {
    let codec = ResponseCodec::default();
    let response: Response<'static> =
        codec.decode_static(b"* 1 FETCH (BODY[] {5}\r\nhello)\r\n").unwrap().1;
    assert_eq!(
        Encode::encode(&codec, &response),
        vec![
            Fragment::Line { data: b"* 1 FETCH (BODY[] {5}\r\n".to_vec() },
            Fragment::Literal { data: b"hello".to_vec(), mode: LiteralMode::Sync },
            Fragment::Line { data: b")\r\n".to_vec() },
        ]
    );
    let response: Response<'static> = codec.decode_static(b"* 1 EXISTS\r\n").unwrap().1;
    assert_eq!(
        Encode::encode(&codec, &response),
        vec![Fragment::Line { data: b"* 1 EXISTS\r\n".to_vec() }]
    );
}

#[test]
fn a_greeting_is_encoded_into_one_line() {
    assert_eq!(
        Encode::encode(&GreetingCodec::default(), &Greeting::ok(None, "hi").unwrap()),
        vec![Fragment::Line { data: b"* OK hi\r\n".to_vec() }]
    );
}
