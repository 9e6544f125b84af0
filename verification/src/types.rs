//! The values that travel through the engines.
//!
//! Messages are values of `imap-types`. The engines carry them through unread;
//! what they need to know of one (its tag, its kind, its encoding) they ask of
//! the functions in [`crate::codec`].

use imap_types::auth::AuthMechanism;
use imap_types::secret::Secret;
use std::borrow::Cow;
use vstd::prelude::*;

verus! {

/// A command, as `imap-types` holds it. Nothing is known of what is inside.
#[verifier::external_type_specification]
#[verifier::external_body]
pub struct ExCommand<'a>(imap_types::command::Command<'a>);

/// The body of a command: everything but the tag. Nothing is known of what is
/// inside.
#[verifier::external_type_specification]
#[verifier::external_body]
pub struct ExCommandBody<'a>(imap_types::command::CommandBody<'a>);

/// A line of authenticate data, or the request to cancel. Nothing is known of
/// what is inside.
#[verifier::external_type_specification]
#[verifier::external_body]
pub struct ExAuthenticateData<'a>(imap_types::auth::AuthenticateData<'a>);

/// The name of an authentication mechanism. Nothing is known of what is inside.
#[verifier::external_type_specification]
#[verifier::external_body]
pub struct ExAuthMechanism<'a>(imap_types::auth::AuthMechanism<'a>);

/// A value that is not shown when printed for debugging. Nothing is known of what
/// is inside.
#[verifier::external_type_specification]
#[verifier::external_body]
#[verifier::reject_recursive_types(T)]
pub struct ExSecret<T>(imap_types::secret::Secret<T>);

/// The tag of a command or of a status. Nothing is known of what is inside.
#[verifier::external_type_specification]
#[verifier::external_body]
pub struct ExTag<'a>(imap_types::core::Tag<'a>);

/// The text of a response, for a human to read. Nothing is known of what is inside.
#[verifier::external_type_specification]
#[verifier::external_body]
pub struct ExText<'a>(imap_types::core::Text<'a>);

/// The greeting of a server. Nothing is known of what is inside.
#[verifier::external_type_specification]
#[verifier::external_body]
pub struct ExGreeting<'a>(imap_types::response::Greeting<'a>);

/// A response of a server. Nothing is known of what is inside.
#[verifier::external_type_specification]
#[verifier::external_body]
pub struct ExResponse<'a>(imap_types::response::Response<'a>);

/// A status: `OK`, `NO`, `BAD` or `BYE`, tagged or not. Nothing is known of what
/// is inside.
#[verifier::external_type_specification]
#[verifier::external_body]
pub struct ExStatus<'a>(imap_types::response::Status<'a>);

/// The kind, the code and the text of a status. Nothing is known of what is inside.
#[verifier::external_type_specification]
#[verifier::external_body]
pub struct ExStatusBody<'a>(imap_types::response::StatusBody<'a>);

/// The code and the text of a `BYE`. Nothing is known of what is inside.
#[verifier::external_type_specification]
#[verifier::external_body]
pub struct ExBye<'a>(imap_types::response::Bye<'a>);

/// Data of a server. Nothing is known of what is inside.
#[verifier::external_type_specification]
#[verifier::external_body]
pub struct ExData<'a>(imap_types::response::Data<'a>);

/// A continuation request: the server asks the client to go on. Nothing is known
/// of what is inside.
#[verifier::external_type_specification]
#[verifier::external_body]
pub struct ExCommandContinuationRequest<'a>(imap_types::response::CommandContinuationRequest<'a>);

/// Why a value of `imap-types` could not be made from a string. Nothing is known
/// of what is inside.
#[verifier::external_type_specification]
#[verifier::external_body]
pub struct ExValidationError(imap_types::error::ValidationError);

/// An AUTHENTICATE command, kept while its exchange runs so that its outcome can
/// be reported together with what was asked.
#[derive(Debug, PartialEq)]
pub struct CommandAuthenticate {
    pub tag: imap_types::core::Tag<'static>,
    pub mechanism: AuthMechanism<'static>,
    pub initial_response: Option<Secret<Cow<'static, [u8]>>>,
}

/// The three results of a command.
#[derive(Clone, Copy, Debug, PartialEq, Eq, Structural)]
pub enum StatusKind {
    /// `OK`: the command succeeded.
    Okay,
    /// `NO`: the command failed.
    No,
    /// `BAD`: the command was not understood.
    Bad,
}

/// A command, told apart by how it is sent.
#[derive(Debug, PartialEq)]
pub enum CommandParts {
    /// AUTHENTICATE: one line, then an exchange of data lines.
    Authenticate { command_authenticate: CommandAuthenticate },
    /// IDLE: one line, then `DONE` when the client has waited enough.
    Idle { command: imap_types::command::Command<'static> },
    /// Any other command: lines and literals.
    Regular { command: imap_types::command::Command<'static> },
}

/// A response, told apart by its kind.
#[derive(Debug, PartialEq)]
pub enum ResponseParts {
    /// The server asks the client to go on.
    CommandContinuationRequest(imap_types::response::CommandContinuationRequest<'static>),
    /// Data of the server.
    Data(imap_types::response::Data<'static>),
    /// A status: the result of a command, or a note of the server.
    Status(imap_types::response::Status<'static>),
}

/// A status, told apart by its kind.
#[derive(Debug, PartialEq)]
pub enum StatusParts {
    /// A note of the server that belongs to no command.
    Untagged(imap_types::response::StatusBody<'static>),
    /// The result of the command with this tag.
    Tagged { tag: imap_types::core::Tag<'static>, body: imap_types::response::StatusBody<'static> },
    /// The server is about to close the connection.
    Bye(imap_types::response::Bye<'static>),
}

/// Whether a literal waits for the receiver's consent.
#[derive(Clone, Copy, Debug, PartialEq, Eq, Structural)]
pub enum LiteralMode {
    /// The sender announces the literal and waits for a continuation request.
    Sync,
    /// The literal follows its announcement at once.
    NonSync,
}

/// One piece of an encoded message.
#[derive(Debug, PartialEq)]
pub enum Fragment {
    /// Bytes that may be written as they are.
    Line { data: Vec<u8> },
    /// The bytes of a literal.
    Literal { data: Vec<u8>, mode: LiteralMode },
}

/// A [`Fragment`] as a mathematical value.
pub enum FragmentView {
    Line { data: Seq<u8> },
    Literal { data: Seq<u8>, mode: LiteralMode },
}

impl View for Fragment {
    type V = FragmentView;

    open spec fn view(&self) -> FragmentView {
        match *self {
            Fragment::Line { data } => FragmentView::Line { data: data@ },
            Fragment::Literal { data, mode } => FragmentView::Literal { data: data@, mode },
        }
    }
}

impl FragmentView {
    /// The bytes of the fragment.
    pub open spec fn data(self) -> Seq<u8> {
        match self {
            FragmentView::Line { data } => data,
            FragmentView::Literal { data, .. } => data,
        }
    }

    /// A synchronizing literal: its bytes wait for a continuation request.
    pub open spec fn is_sync_literal(self) -> bool {
        self matches FragmentView::Literal { mode, .. } && mode == LiteralMode::Sync
    }
}

/// The fragments of a sequence, each as a mathematical value.
pub open spec fn fragment_views(fragments: Seq<Fragment>) -> Seq<FragmentView> {
    fragments.map_values(|fragment: Fragment| fragment@)
}

/// The position of the first synchronizing literal at or behind `from`, or the
/// length of the sequence where there is none.
pub open spec fn first_sync_literal(fragments: Seq<FragmentView>, from: int) -> int
    decreases fragments.len() - from,
{
    if from < 0 || from >= fragments.len() {
        fragments.len() as int
    } else if fragments[from].is_sync_literal() {
        from
    } else {
        first_sync_literal(fragments, from + 1)
    }
}

/// [`first_sync_literal`] finds a synchronizing literal that no other precedes,
/// and the end of the sequence only where there is none.
pub proof fn lemma_first_sync_literal(fragments: Seq<FragmentView>, from: int)
    requires
        0 <= from <= fragments.len(),
    ensures
        from <= first_sync_literal(fragments, from) <= fragments.len(),
        forall|i: int|
            from <= i < first_sync_literal(fragments, from) ==> !(#[trigger] fragments[i]).is_sync_literal(),
        first_sync_literal(fragments, from) < fragments.len() ==> fragments[first_sync_literal(
            fragments,
            from,
        )].is_sync_literal(),
    decreases fragments.len() - from,
{
    if from < fragments.len() && !fragments[from].is_sync_literal() {
        lemma_first_sync_literal(fragments, from + 1);
    }
}

/// All bytes of a sequence of fragments, in order.
pub open spec fn concat_data(fragments: Seq<FragmentView>) -> Seq<u8>
    decreases fragments.len(),
{
    if fragments.len() == 0 {
        Seq::empty()
    } else {
        concat_data(fragments.drop_last()) + fragments.last().data()
    }
}

} // verus!
