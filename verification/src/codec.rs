//! The boundary to `imap-codec`: what the engines ask of a message.
//!
//! The functions marked `external_body` are believed, not proved. Each makes
//! one call into `imap-codec` or `imap-types` and hands the result on; what the
//! call computes is named by a specification function without a body, so that
//! the engines can say exactly which bytes they send without restating the IMAP
//! grammar.

use crate::types::{
    CommandAuthenticate, CommandParts, Fragment, FragmentView, LiteralMode, ResponseParts,
    StatusKind, StatusParts, fragment_views,
};
use imap_codec::decode::Decoder;
use imap_codec::encode::Encoder;
use imap_codec::{AuthenticateDataCodec, CommandCodec, GreetingCodec, IdleDoneCodec, ResponseCodec};
use imap_types::auth::AuthenticateData;
use imap_types::command::{Command, CommandBody};
use imap_types::extensions::idle::IdleDone;
use imap_types::response::{CommandContinuationRequest, Greeting, Response, Status, Tagged};
use std::collections::VecDeque;
use vstd::prelude::*;

verus! {

/// The codec for greetings. Nothing is known of what is inside.
#[verifier::external_type_specification]
#[verifier::external_body]
pub struct ExGreetingCodec(imap_codec::GreetingCodec);

/// The codec for commands. Nothing is known of what is inside.
#[verifier::external_type_specification]
#[verifier::external_body]
pub struct ExCommandCodec(imap_codec::CommandCodec);

/// The codec for authenticate data lines. Nothing is known of what is inside.
#[verifier::external_type_specification]
#[verifier::external_body]
pub struct ExAuthenticateDataCodec(imap_codec::AuthenticateDataCodec);

/// The codec for responses. Nothing is known of what is inside.
#[verifier::external_type_specification]
#[verifier::external_body]
pub struct ExResponseCodec(imap_codec::ResponseCodec);

/// The codec for the `DONE` that ends an IDLE. Nothing is known of what is inside.
#[verifier::external_type_specification]
#[verifier::external_body]
pub struct ExIdleDoneCodec(imap_codec::IdleDoneCodec);

/// `CommandCodec::new`: the codec in its default configuration.
pub assume_specification[ CommandCodec::new ]() -> (codec: CommandCodec);

/// `AuthenticateDataCodec::new`: the codec in its default configuration.
pub assume_specification[ AuthenticateDataCodec::new ]() -> (codec: AuthenticateDataCodec);

/// `ResponseCodec::new`: the codec in its default configuration.
pub assume_specification[ ResponseCodec::new ]() -> (codec: ResponseCodec);

/// `IdleDoneCodec::new`: the codec in its default configuration.
pub assume_specification[ IdleDoneCodec::new ]() -> (codec: IdleDoneCodec);

/// The fragments that `CommandCodec` encodes a command into.
pub uninterp spec fn command_fragments(codec: CommandCodec, command: Command<'static>) -> Seq<
    FragmentView,
>;

/// The fragments that `ResponseCodec` encodes a response into.
pub uninterp spec fn response_fragments(codec: ResponseCodec, response: Response<'static>) -> Seq<
    FragmentView,
>;

/// The fragments that `GreetingCodec` encodes a greeting into.
pub uninterp spec fn greeting_fragments(codec: GreetingCodec, greeting: Greeting<'static>) -> Seq<
    FragmentView,
>;

/// All bytes that `AuthenticateDataCodec` encodes an authenticate data line into.
pub uninterp spec fn authenticate_data_bytes(
    codec: AuthenticateDataCodec,
    data: AuthenticateData<'static>,
) -> Seq<u8>;

/// The line that ends an IDLE: `DONE` and CRLF.
pub open spec fn idle_done_bytes() -> Seq<u8> {
    seq![0x44u8, 0x4f, 0x4e, 0x45, 0x0d, 0x0a]
}

/// `CommandCodec::encode`, every fragment handed out in order.
#[verifier::external_body]
pub(crate) fn encode_command(codec: &CommandCodec, command: &Command<'static>) -> (fragments:
    VecDeque<Fragment>)
    ensures
        fragment_views(fragments@) == command_fragments(*codec, *command),
{
    Encoder::encode(codec, command).map(|fragment| match fragment {
        imap_codec::encode::Fragment::Line { data } => Fragment::Line { data },
        imap_codec::encode::Fragment::Literal { data, mode } => Fragment::Literal {
            data,
            mode: match mode {
                imap_types::core::LiteralMode::Sync => LiteralMode::Sync,
                imap_types::core::LiteralMode::NonSync => LiteralMode::NonSync,
            },
        },
    }).collect()
}

/// `ResponseCodec::encode`, every fragment handed out in order.
#[verifier::external_body]
pub(crate) fn encode_response(codec: &ResponseCodec, response: &Response<'static>) -> (fragments:
    Vec<Fragment>)
    ensures
        fragment_views(fragments@) == response_fragments(*codec, *response),
{
    Encoder::encode(codec, response).map(|fragment| match fragment {
        imap_codec::encode::Fragment::Line { data } => Fragment::Line { data },
        imap_codec::encode::Fragment::Literal { data, mode } => Fragment::Literal {
            data,
            mode: match mode {
                imap_types::core::LiteralMode::Sync => LiteralMode::Sync,
                imap_types::core::LiteralMode::NonSync => LiteralMode::NonSync,
            },
        },
    }).collect()
}

/// `GreetingCodec::encode`, every fragment handed out in order.
#[verifier::external_body]
pub(crate) fn encode_greeting(codec: &GreetingCodec, greeting: &Greeting<'static>) -> (fragments:
    Vec<Fragment>)
    ensures
        fragment_views(fragments@) == greeting_fragments(*codec, *greeting),
{
    Encoder::encode(codec, greeting).map(|fragment| match fragment {
        imap_codec::encode::Fragment::Line { data } => Fragment::Line { data },
        imap_codec::encode::Fragment::Literal { data, mode } => Fragment::Literal {
            data,
            mode: match mode {
                imap_types::core::LiteralMode::Sync => LiteralMode::Sync,
                imap_types::core::LiteralMode::NonSync => LiteralMode::NonSync,
            },
        },
    }).collect()
}

/// `AuthenticateDataCodec::encode` followed by `Encoded::dump`: the bytes of all
/// fragments, one after the other.
#[verifier::external_body]
pub(crate) fn encode_authenticate_data(
    codec: &AuthenticateDataCodec,
    data: &AuthenticateData<'static>,
) -> (bytes: Vec<u8>)
    ensures
        bytes@ == authenticate_data_bytes(*codec, *data),
{
    Encoder::encode(codec, data).dump()
}

/// `IdleDoneCodec::encode` followed by `Encoded::dump`. The encoder writes the
/// six bytes of `DONE` and CRLF, whatever the codec.
#[verifier::external_body]
pub(crate) fn encode_idle_done(codec: &IdleDoneCodec) -> (bytes: Vec<u8>)
    ensures
        bytes@ == idle_done_bytes(),
{
    Encoder::encode(codec, &IdleDone).dump()
}

/// The text of the tag of a command, as bytes.
pub uninterp spec fn command_tag(command: Command<'static>) -> Seq<u8>;

/// How a command is sent, with the parts of the command that this takes.
pub uninterp spec fn command_parts(command: Command<'static>) -> CommandParts;

/// The text of the tag of a status and its kind, where the status is tagged.
pub uninterp spec fn status_tagged(status: Status<'static>) -> Option<(Seq<u8>, StatusKind)>;

/// The field `tag` of a command, through `Tag::inner`.
#[verifier::external_body]
pub(crate) fn tag_of_command(command: &Command<'static>) -> (tag: Vec<u8>)
    ensures
        tag@ == command_tag(*command),
{
    command.tag.inner().as_bytes().to_vec()
}

/// Tells an AUTHENTICATE and an IDLE from the other variants of `CommandBody`.
/// An AUTHENTICATE comes back as its three parts; any other command comes back
/// as it was, put together from its own two fields.
#[verifier::external_body]
pub(crate) fn split_command(command: Command<'static>) -> (parts: CommandParts)
    ensures
        parts == command_parts(command),
        parts matches CommandParts::Regular { command: regular } ==> regular == command,
        parts matches CommandParts::Idle { command: idle } ==> idle == command,
{
    match command.body {
        CommandBody::Authenticate { mechanism, initial_response } => CommandParts::Authenticate {
            command_authenticate: CommandAuthenticate {
                tag: command.tag,
                mechanism,
                initial_response,
            },
        },
        CommandBody::Idle => CommandParts::Idle {
            command: Command { tag: command.tag, body: CommandBody::Idle },
        },
        body => CommandParts::Regular { command: Command { tag: command.tag, body } },
    }
}

/// Tells `Status::Tagged` from the other variants of `Status`, and hands out
/// the tag, through `Tag::inner`, and the kind of a tagged status.
#[verifier::external_body]
pub(crate) fn tagged_status(status: &Status<'static>) -> (tagged: Option<(Vec<u8>, StatusKind)>)
    ensures
        match tagged {
            Some((tag, kind)) => status_tagged(*status) == Some((tag@, kind)),
            None => status_tagged(*status) is None,
        },
{
    match status {
        Status::Tagged(tagged) => Some((
            tagged.tag.inner().as_bytes().to_vec(),
            match tagged.body.kind {
                imap_types::response::StatusKind::Ok => StatusKind::Okay,
                imap_types::response::StatusKind::No => StatusKind::No,
                imap_types::response::StatusKind::Bad => StatusKind::Bad,
            },
        )),
        _ => None,
    }
}

/// The kind of a response, with the message inside.
pub uninterp spec fn response_parts(response: Response<'static>) -> ResponseParts;

/// Tells the three variants of `Response` apart and hands out what each holds.
#[verifier::external_body]
pub(crate) fn split_response(response: Response<'static>) -> (parts: ResponseParts)
    ensures
        parts == response_parts(response),
{
    match response {
        Response::CommandContinuationRequest(continuation) => ResponseParts::CommandContinuationRequest(
            continuation,
        ),
        Response::Data(data) => ResponseParts::Data(data),
        Response::Status(status) => ResponseParts::Status(status),
    }
}

/// The response that holds a message of one of the three kinds.
pub uninterp spec fn response_from(parts: ResponseParts) -> Response<'static>;

/// Puts a message into the variant of `Response` that is made for it.
#[verifier::external_body]
pub(crate) fn response_of(parts: ResponseParts) -> (response: Response<'static>)
    ensures
        response == response_from(parts),
        response_parts(response) == parts,
{
    match parts {
        ResponseParts::CommandContinuationRequest(continuation) => Response::CommandContinuationRequest(
            continuation,
        ),
        ResponseParts::Data(data) => Response::Data(data),
        ResponseParts::Status(status) => Response::Status(status),
    }
}

/// Whether a string may be the text of a response: it is not empty and holds
/// only characters from U+0001 to U+007F other than carriage return and line
/// feed.
pub open spec fn valid_text(text: Seq<char>) -> bool {
    text.len() > 0 && forall|i: int|
        0 <= i < text.len() ==> 1 <= (#[trigger] text[i]) as u32 <= 0x7f && text[i] != '\r'
            && text[i] != '\n'
}

/// The text that a string stands for.
pub uninterp spec fn text_of(text: Seq<char>) -> imap_types::core::Text<'static>;

/// The tagged `NO` with a text and without a code.
pub uninterp spec fn tagged_no(
    tag: imap_types::core::Tag<'static>,
    text: imap_types::core::Text<'static>,
) -> Status<'static>;

/// The continuation request with a text and without a code, where there is
/// one: a text that could be read as a code or as base64 makes none.
pub uninterp spec fn basic_continuation(
    text: imap_types::core::Text<'static>,
) -> Option<CommandContinuationRequest<'static>>;

/// `Text::unvalidated` on an owned copy of the string. In debug builds it panics
/// on a string that `Text::validate` refuses, which the precondition rules out.
#[verifier::external_body]
pub(crate) fn text_unvalidated(text: &str) -> (result: imap_types::core::Text<'static>)
    requires
        valid_text(text@),
    ensures
        result == text_of(text@),
{
    imap_types::core::Text::unvalidated(text.to_owned())
}

/// `Status::no` with the tag, no code and a copy of the text. With a `Text` for
/// its text it cannot fail.
#[verifier::external_body]
pub(crate) fn status_no(
    tag: imap_types::core::Tag<'static>,
    text: &imap_types::core::Text<'static>,
) -> (status: Status<'static>)
    ensures
        status == tagged_no(tag, *text),
{
    match Status::no(Some(tag), None, text.clone()) {
        Ok(status) => status,
        Err(never) => match never {},
    }
}

/// `CommandContinuationRequest::basic` without a code and with a copy of the
/// text.
#[verifier::external_body]
pub(crate) fn continuation_basic(text: &imap_types::core::Text<'static>) -> (continuation: Option<
    CommandContinuationRequest<'static>,
>)
    ensures
        continuation == basic_continuation(*text),
{
    CommandContinuationRequest::basic(None, text.clone()).ok()
}

/// A generator of tags. Nothing is known of what is inside.
#[verifier::external_type_specification]
#[verifier::external_body]
pub struct ExTagGenerator(imap_types::core::TagGenerator);

/// `TagGenerator::new`: a generator of tags. Nothing is claimed of it: which
/// tags it gives depends on how many generators the process has made.
pub assume_specification[ imap_types::core::TagGenerator::new ]() -> (generator:
    imap_types::core::TagGenerator);

/// `TagGenerator::generate`: the next tag of the generator. Nothing is claimed
/// of it: which tag comes is a matter of chance.
pub assume_specification[ imap_types::core::TagGenerator::generate ](
    generator: &mut imap_types::core::TagGenerator,
) -> (tag: imap_types::core::Tag<'static>);

/// The command with a tag and a body.
pub uninterp spec fn command_from(
    tag: imap_types::core::Tag<'static>,
    body: CommandBody<'static>,
) -> Command<'static>;

/// Puts a tag and a body together to a `Command`.
#[verifier::external_body]
pub(crate) fn command_of(tag: imap_types::core::Tag<'static>, body: CommandBody<'static>) -> (command:
    Command<'static>)
    ensures
        command == command_from(tag, body),
{
    Command { tag, body }
}

/// The kind of a status, with what it holds.
pub uninterp spec fn status_parts(status: Status<'static>) -> StatusParts;

/// The status that holds the parts of one of the three kinds.
pub uninterp spec fn status_from(parts: StatusParts) -> Status<'static>;

/// Tells the three variants of `Status` apart and hands out what each holds. A
/// status is tagged exactly when it has a tag to hand out.
#[verifier::external_body]
pub(crate) fn split_status(status: Status<'static>) -> (parts: StatusParts)
    ensures
        parts == status_parts(status),
        parts is Tagged <==> status_tagged(status) is Some,
{
    match status {
        Status::Untagged(body) => StatusParts::Untagged(body),
        Status::Tagged(Tagged { tag, body }) => StatusParts::Tagged { tag, body },
        Status::Bye(bye) => StatusParts::Bye(bye),
    }
}

/// Puts the parts of a status into the variant of `Status` that is made for
/// them.
#[verifier::external_body]
pub(crate) fn status_of(parts: StatusParts) -> (status: Status<'static>)
    ensures
        status == status_from(parts),
        status_parts(status) == parts,
{
    match parts {
        StatusParts::Untagged(body) => Status::Untagged(body),
        StatusParts::Tagged { tag, body } => Status::Tagged(Tagged { tag, body }),
        StatusParts::Bye(bye) => Status::Bye(bye),
    }
}

/// A codec that turns the messages of one kind into fragments.
pub trait Encode {
    /// The messages this codec encodes.
    type Message;

    /// The fragments of a message, in the order in which they are sent.
    spec fn fragments(&self, message: &Self::Message) -> Seq<FragmentView>;

    /// Encodes a message.
    fn encode(&self, message: &Self::Message) -> (fragments: Vec<Fragment>)
        ensures
            fragment_views(fragments@) == self.fragments(message),
    ;
}

impl Encode for ResponseCodec {
    type Message = Response<'static>;

    open spec fn fragments(&self, message: &Response<'static>) -> Seq<FragmentView> {
        response_fragments(*self, *message)
    }

    fn encode(&self, message: &Response<'static>) -> (fragments: Vec<Fragment>) {
        encode_response(self, message)
    }
}

impl Encode for GreetingCodec {
    type Message = Greeting<'static>;

    open spec fn fragments(&self, message: &Greeting<'static>) -> Seq<FragmentView> {
        greeting_fragments(*self, *message)
    }

    fn encode(&self, message: &Greeting<'static>) -> (fragments: Vec<Fragment>) {
        encode_greeting(self, message)
    }
}

/// Why no greeting could be decoded.
#[derive(Clone, Copy, Debug, PartialEq, Eq, Structural)]
pub enum GreetingDecodeError {
    /// More bytes are needed.
    Incomplete,
    /// The bytes are no greeting.
    Failed,
}

/// Why no response could be decoded.
#[derive(Clone, Copy, Debug, PartialEq, Eq, Structural)]
pub enum ResponseDecodeError {
    /// More bytes are needed.
    Incomplete,
    /// The bytes end where a literal of `length` bytes begins.
    LiteralFound { length: u32 },
    /// The bytes are no response.
    Failed,
}

/// Why no authenticate data line could be decoded.
#[derive(Clone, Copy, Debug, PartialEq, Eq, Structural)]
pub enum AuthenticateDataDecodeError {
    /// More bytes are needed.
    Incomplete,
    /// The bytes are no authenticate data line.
    Failed,
}

/// Why no command could be decoded.
#[derive(Debug, PartialEq)]
pub enum CommandDecodeError {
    /// More bytes are needed.
    Incomplete,
    /// The bytes end where a literal of `length` bytes begins. The server decides
    /// whether it takes the literal; `tag` is the tag of the command, for the
    /// answer.
    LiteralFound { tag: imap_types::core::Tag<'static>, length: u32, mode: LiteralMode },
    /// The bytes are no command.
    Failed,
}

/// What `GreetingCodec` decodes from bytes: the number of bytes left over and
/// the greeting, or the reason for none.
pub uninterp spec fn greeting_decoding(codec: GreetingCodec, input: Seq<u8>) -> Result<
    (usize, Greeting<'static>),
    GreetingDecodeError,
>;

/// What `ResponseCodec` decodes from bytes: the number of bytes left over and
/// the response, or the reason for none.
pub uninterp spec fn response_decoding(codec: ResponseCodec, input: Seq<u8>) -> Result<
    (usize, Response<'static>),
    ResponseDecodeError,
>;

/// What `CommandCodec` decodes from bytes: the number of bytes left over and the
/// command, or the reason for none.
pub uninterp spec fn command_decoding(codec: CommandCodec, input: Seq<u8>) -> Result<
    (usize, Command<'static>),
    CommandDecodeError,
>;

/// What `AuthenticateDataCodec` decodes from bytes: the number of bytes left
/// over and the line, or the reason for none.
pub uninterp spec fn authenticate_data_decoding(
    codec: AuthenticateDataCodec,
    input: Seq<u8>,
) -> Result<(usize, AuthenticateData<'static>), AuthenticateDataDecodeError>;

/// `Decoder::decode_static` of `GreetingCodec`.
#[verifier::external_body]
pub(crate) fn decode_greeting(codec: &GreetingCodec, input: &[u8]) -> (decoded: Result<
    (usize, Greeting<'static>),
    GreetingDecodeError,
>)
    ensures
        decoded == greeting_decoding(*codec, input@),
{
    match codec.decode_static(input) {
        Ok((remaining, greeting)) => Ok((remaining.len(), greeting)),
        Err(imap_codec::decode::GreetingDecodeError::Incomplete) => Err(
            GreetingDecodeError::Incomplete,
        ),
        Err(imap_codec::decode::GreetingDecodeError::Failed) => Err(GreetingDecodeError::Failed),
    }
}

/// `Decoder::decode_static` of `ResponseCodec`.
#[verifier::external_body]
pub(crate) fn decode_response(codec: &ResponseCodec, input: &[u8]) -> (decoded: Result<
    (usize, Response<'static>),
    ResponseDecodeError,
>)
    ensures
        decoded == response_decoding(*codec, input@),
{
    match codec.decode_static(input) {
        Ok((remaining, response)) => Ok((remaining.len(), response)),
        Err(imap_codec::decode::ResponseDecodeError::Incomplete) => Err(
            ResponseDecodeError::Incomplete,
        ),
        Err(imap_codec::decode::ResponseDecodeError::LiteralFound { length }) => Err(
            ResponseDecodeError::LiteralFound { length },
        ),
        Err(imap_codec::decode::ResponseDecodeError::Failed) => Err(ResponseDecodeError::Failed),
    }
}

/// `Decoder::decode_static` of `CommandCodec`.
#[verifier::external_body]
pub(crate) fn decode_command(codec: &CommandCodec, input: &[u8]) -> (decoded: Result<
    (usize, Command<'static>),
    CommandDecodeError,
>)
    ensures
        decoded == command_decoding(*codec, input@),
{
    match codec.decode_static(input) {
        Ok((remaining, command)) => Ok((remaining.len(), command)),
        Err(imap_codec::decode::CommandDecodeError::Incomplete) => Err(CommandDecodeError::Incomplete),
        Err(imap_codec::decode::CommandDecodeError::Failed) => Err(CommandDecodeError::Failed),
        Err(imap_codec::decode::CommandDecodeError::LiteralFound { tag, length, mode }) => {
            let mode = match mode {
                imap_types::core::LiteralMode::Sync => LiteralMode::Sync,
                imap_types::core::LiteralMode::NonSync => LiteralMode::NonSync,
            };
            Err(CommandDecodeError::LiteralFound { tag, length, mode })
        },
    }
}

/// `Decoder::decode_static` of `AuthenticateDataCodec`.
#[verifier::external_body]
pub(crate) fn decode_authenticate_data(codec: &AuthenticateDataCodec, input: &[u8]) -> (decoded:
    Result<(usize, AuthenticateData<'static>), AuthenticateDataDecodeError>)
    ensures
        decoded == authenticate_data_decoding(*codec, input@),
{
    match codec.decode_static(input) {
        Ok((remaining, data)) => Ok((remaining.len(), data)),
        Err(imap_codec::decode::AuthenticateDataDecodeError::Incomplete) => Err(
            AuthenticateDataDecodeError::Incomplete,
        ),
        Err(imap_codec::decode::AuthenticateDataDecodeError::Failed) => Err(
            AuthenticateDataDecodeError::Failed,
        ),
    }
}

/// A codec that reads the messages of one kind from bytes.
pub trait Decode {
    /// The messages this codec decodes.
    type Message;

    /// Why a message could not be decoded.
    type Error;

    /// What the bytes of one message decode to. Bytes that hold a message and
    /// more are no message.
    spec fn decoding(&self, input: Seq<u8>) -> Result<Self::Message, Self::Error>;

    /// Decodes the bytes of one message.
    fn decode(&self, input: &[u8]) -> (decoded: Result<Self::Message, Self::Error>)
        ensures
            decoded == self.decoding(input@),
    ;
}

impl Decode for GreetingCodec {
    type Message = Greeting<'static>;

    type Error = GreetingDecodeError;

    open spec fn decoding(&self, input: Seq<u8>) -> Result<Greeting<'static>, GreetingDecodeError> {
        match greeting_decoding(*self, input) {
            Ok((remaining, greeting)) => if remaining == 0 {
                Ok(greeting)
            } else {
                Err(GreetingDecodeError::Failed)
            },
            Err(error) => Err(error),
        }
    }

    fn decode(&self, input: &[u8]) -> (decoded: Result<Greeting<'static>, GreetingDecodeError>) {
        match decode_greeting(self, input) {
            Ok((remaining, greeting)) => if remaining == 0 {
                Ok(greeting)
            } else {
                Err(GreetingDecodeError::Failed)
            },
            Err(error) => Err(error),
        }
    }
}

impl Decode for ResponseCodec {
    type Message = Response<'static>;

    type Error = ResponseDecodeError;

    open spec fn decoding(&self, input: Seq<u8>) -> Result<Response<'static>, ResponseDecodeError> {
        match response_decoding(*self, input) {
            Ok((remaining, response)) => if remaining == 0 {
                Ok(response)
            } else {
                Err(ResponseDecodeError::Failed)
            },
            Err(error) => Err(error),
        }
    }

    fn decode(&self, input: &[u8]) -> (decoded: Result<Response<'static>, ResponseDecodeError>) {
        match decode_response(self, input) {
            Ok((remaining, response)) => if remaining == 0 {
                Ok(response)
            } else {
                Err(ResponseDecodeError::Failed)
            },
            Err(error) => Err(error),
        }
    }
}

impl Decode for CommandCodec {
    type Message = Command<'static>;

    type Error = CommandDecodeError;

    open spec fn decoding(&self, input: Seq<u8>) -> Result<Command<'static>, CommandDecodeError> {
        match command_decoding(*self, input) {
            Ok((remaining, command)) => if remaining == 0 {
                Ok(command)
            } else {
                Err(CommandDecodeError::Failed)
            },
            Err(error) => Err(error),
        }
    }

    fn decode(&self, input: &[u8]) -> (decoded: Result<Command<'static>, CommandDecodeError>) {
        match decode_command(self, input) {
            Ok((remaining, command)) => if remaining == 0 {
                Ok(command)
            } else {
                Err(CommandDecodeError::Failed)
            },
            Err(error) => Err(error),
        }
    }
}

impl Decode for AuthenticateDataCodec {
    type Message = AuthenticateData<'static>;

    type Error = AuthenticateDataDecodeError;

    open spec fn decoding(&self, input: Seq<u8>) -> Result<
        AuthenticateData<'static>,
        AuthenticateDataDecodeError,
    > {
        match authenticate_data_decoding(*self, input) {
            Ok((remaining, data)) => if remaining == 0 {
                Ok(data)
            } else {
                Err(AuthenticateDataDecodeError::Failed)
            },
            Err(error) => Err(error),
        }
    }

    fn decode(&self, input: &[u8]) -> (decoded: Result<
        AuthenticateData<'static>,
        AuthenticateDataDecodeError,
    >) {
        match decode_authenticate_data(self, input) {
            Ok((remaining, data)) => if remaining == 0 {
                Ok(data)
            } else {
                Err(AuthenticateDataDecodeError::Failed)
            },
            Err(error) => Err(error),
        }
    }
}

} // verus!
