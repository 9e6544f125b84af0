//! Receiving messages: framing of the bytes read so far, one message at a time.
//!
//! A message is one line, or several lines with literals between them. The
//! engine finds the end of the next line, asks the codec to decode everything up
//! to it, and leaves the decision on a literal to its caller.

use crate::buffer::{buffer_advance, buffer_as_slice, buffer_bytes, buffer_extend, buffer_len};
use crate::codec::Decode;
use bytes::BytesMut;
use vstd::prelude::*;
use vstd::slice::slice_to_vec;

verus! {

pub const CR: u8 = 0x0d;

pub const LF: u8 = 0x0a;

/// What the engine reads next.
#[derive(Clone, Copy, Debug, PartialEq, Eq, Structural)]
pub enum NextFragment {
    /// A line, up to and including its line feed.
    Line,
    /// The `length` bytes of a literal, whatever they are.
    Literal { length: u32 },
}

/// What `progress` found.
pub enum ReceiveEvent<C: Decode> {
    /// The bytes seen so far are a message.
    DecodingSuccess(C::Message),
    /// The bytes seen so far are no message, or not yet.
    DecodingFailure(C::Error),
    /// A line ends with a bare line feed, and that is not accepted.
    ExpectedCrlfGotLf,
}

/// The position of the first line feed at or behind `from`, if there is one.
pub open spec fn first_lf(bytes: Seq<u8>, from: int) -> Option<int>
    decreases bytes.len() - from,
{
    if from < 0 || from >= bytes.len() {
        None
    } else if bytes[from] == LF {
        Some(from)
    } else {
        first_lf(bytes, from + 1)
    }
}

/// Whether the line feed at `lf_position` lacks its carriage return.
pub open spec fn bare_lf(bytes: Seq<u8>, lf_position: int) -> bool {
    lf_position == 0 || bytes[lf_position - 1] != CR
}

/// [`first_lf`] finds a line feed that no other precedes, and finds none only
/// where there is none.
pub proof fn lemma_first_lf(bytes: Seq<u8>, from: int)
    requires
        0 <= from,
    ensures
        match first_lf(bytes, from) {
            Some(at) => from <= at < bytes.len() && bytes[at] == LF && forall|i: int|
                from <= i < at ==> bytes[i] != LF,
            None => forall|i: int| from <= i < bytes.len() ==> bytes[i] != LF,
        },
    decreases bytes.len() - from,
{
    if from < bytes.len() && bytes[from] != LF {
        lemma_first_lf(bytes, from + 1);
    }
}

/// Where a line ends.
pub struct FindCrlfResult {
    /// The position of the line feed.
    pub lf_position: usize,
    /// Whether the line ends with a line feed alone.
    pub expected_crlf_got_lf: bool,
}

/// Finds the end of the line that starts at or behind `skip`.
pub fn find_crlf_inclusive(skip: usize, buf: &[u8]) -> (found: Option<FindCrlfResult>)
    ensures
        match found {
            Some(result) => result.lf_position < buf.len() && first_lf(buf@, skip as int) == Some(
                result.lf_position as int,
            ) && result.expected_crlf_got_lf == bare_lf(buf@, result.lf_position as int),
            None => first_lf(buf@, skip as int) is None,
        },
{
    let mut i: usize = skip;
    while i < buf.len()
        invariant
            skip <= i,
            first_lf(buf@, skip as int) == first_lf(buf@, i as int),
        decreases buf.len() - i,
    {
        if buf[i] == LF {
            let expected_crlf_got_lf = i == 0 || buf[i - 1] != CR;
            return Some(FindCrlfResult { lf_position: i, expected_crlf_got_lf });
        }
        i += 1;
    }
    None
}

/// The receiving side of a peer.
pub struct ReceiveState<C: Decode> {
    codec: C,
    crlf_relaxed: bool,
    next_fragment: NextFragment,
    /// How many bytes of the read buffer were looked at already. They belong to
    /// the message that is being received.
    seen_bytes: usize,
    /// The bytes read from the stream that no finished message took.
    read_buffer: BytesMut,
}

/// What a [`ReceiveState`] is, as a mathematical value.
pub struct ReceiveModel<C: Decode> {
    pub codec: C,
    pub crlf_relaxed: bool,
    pub next_fragment: NextFragment,
    pub seen_bytes: nat,
    pub read_buffer: Seq<u8>,
}

impl<C: Decode> ReceiveModel<C> {
    /// The bytes seen are bytes of the buffer.
    pub open spec fn wf(self) -> bool {
        self.seen_bytes <= self.read_buffer.len()
    }

    /// The state with no byte seen yet.
    pub open spec fn initial(codec: C, crlf_relaxed: bool, read_buffer: Seq<u8>) -> Self {
        ReceiveModel { codec, crlf_relaxed, next_fragment: NextFragment::Line, seen_bytes: 0, read_buffer }
    }

    /// Bytes were read from the stream.
    pub open spec fn enqueue_input(self, bytes: Seq<u8>) -> Self {
        ReceiveModel { read_buffer: self.read_buffer + bytes, ..self }
    }

    pub open spec fn start_literal(self, length: u32) -> Self {
        ReceiveModel { next_fragment: NextFragment::Literal { length }, ..self }
    }

    /// The bytes seen leave the buffer; what follows them stays.
    pub open spec fn finish_message(self) -> Self {
        ReceiveModel {
            next_fragment: NextFragment::Line,
            seen_bytes: 0,
            read_buffer: self.read_buffer.skip(self.seen_bytes as int),
            ..self
        }
    }

    /// The same state with another codec.
    pub open spec fn change_codec<D: Decode>(self, codec: D) -> ReceiveModel<D> {
        ReceiveModel {
            codec,
            crlf_relaxed: self.crlf_relaxed,
            next_fragment: self.next_fragment,
            seen_bytes: self.seen_bytes,
            read_buffer: self.read_buffer,
        }
    }

    /// The bytes that `discard_message` hands out.
    pub open spec fn seen(self) -> Seq<u8> {
        self.read_buffer.take(self.seen_bytes as int)
    }

    /// The search for the end of the next line, and the decoding of all bytes up
    /// to it.
    pub open spec fn progress_line(self) -> (Self, Option<ReceiveEvent<C>>) {
        match first_lf(self.read_buffer, self.seen_bytes as int) {
            None => (ReceiveModel { seen_bytes: self.read_buffer.len(), ..self }, None),
            Some(lf_position) => {
                let after = ReceiveModel { seen_bytes: (lf_position + 1) as nat, ..self };
                if bare_lf(self.read_buffer, lf_position) && !self.crlf_relaxed {
                    (after, Some(ReceiveEvent::ExpectedCrlfGotLf))
                } else {
                    match self.codec.decoding(after.seen()) {
                        Ok(message) => (after, Some(ReceiveEvent::DecodingSuccess(message))),
                        Err(error) => (after, Some(ReceiveEvent::DecodingFailure(error))),
                    }
                }
            },
        }
    }

    /// One call of `progress`: the state after it and what it found; `None`
    /// where more bytes are needed first. While a literal is expected, its bytes
    /// are passed over undecoded; the codec sees them only with the line that
    /// follows.
    pub open spec fn progress(self) -> (Self, Option<ReceiveEvent<C>>) {
        match self.next_fragment {
            NextFragment::Line => self.progress_line(),
            NextFragment::Literal { length } => if self.read_buffer.len() - self.seen_bytes
                < length {
                (self, None)
            } else {
                ReceiveModel {
                    next_fragment: NextFragment::Line,
                    seen_bytes: self.seen_bytes + length as nat,
                    ..self
                }.progress_line()
            },
        }
    }
}

/// Bytes without a line feed can be passed over in the search for one.
pub proof fn lemma_first_lf_passes_over(bytes: Seq<u8>, from: int, to: int)
    requires
        0 <= from <= to <= bytes.len(),
        forall|i: int| from <= i < to ==> bytes[i] != LF,
    ensures
        first_lf(bytes, from) == first_lf(bytes, to),
    decreases to - from,
{
    if from < to {
        lemma_first_lf_passes_over(bytes, from + 1, to);
    }
}

impl<C: Decode> ReceiveModel<C> {
    /// A call of `progress` that finds something has seen more bytes than were
    /// seen before, and has left the bytes read as they were.
    pub proof fn lemma_progress_sees_more(self)
        requires
            self.wf(),
        ensures
            self.progress().0.wf(),
            self.progress().0.read_buffer == self.read_buffer,
            self.progress().0.codec == self.codec,
            self.progress().0.crlf_relaxed == self.crlf_relaxed,
            self.progress().0.seen_bytes >= self.seen_bytes,
            self.progress().1 is Some ==> self.progress().0.seen_bytes > self.seen_bytes,
    {
        let line_from: int = match self.next_fragment {
            NextFragment::Line => self.seen_bytes as int,
            NextFragment::Literal { length } => self.seen_bytes + length,
        };
        if line_from <= self.read_buffer.len() {
            lemma_first_lf(self.read_buffer, line_from);
        }
    }

    /// A call of `progress` that finds nothing leaves a state in which the next
    /// call changes nothing and finds nothing, until more bytes arrive.
    pub proof fn lemma_progress_comes_to_rest(self)
        requires
            self.wf(),
            self.progress().1 is None,
        ensures
            self.progress().0.progress() == (self.progress().0, None::<ReceiveEvent<C>>),
    {
        let line_from: int = match self.next_fragment {
            NextFragment::Line => self.seen_bytes as int,
            NextFragment::Literal { length } => self.seen_bytes + length,
        };
        if line_from <= self.read_buffer.len() {
            lemma_first_lf(self.read_buffer, line_from);
            lemma_first_lf_passes_over(
                self.read_buffer,
                line_from,
                self.read_buffer.len() as int,
            );
        }
    }

    /// A call of `progress` that finds nothing loses nothing: what the next call
    /// finds once more bytes have arrived is what it would have found had the
    /// bytes been there from the start. However the stream cuts the bytes into
    /// reads, the same messages come out.
    pub proof fn lemma_progress_resumes(self, bytes: Seq<u8>)
        requires
            self.wf(),
            self.progress().1 is None,
        ensures
            self.progress().0.enqueue_input(bytes).progress() == self.enqueue_input(
                bytes,
            ).progress(),
    {
        let all = self.read_buffer + bytes;
        let line_from: int = match self.next_fragment {
            NextFragment::Line => self.seen_bytes as int,
            NextFragment::Literal { length } => self.seen_bytes + length,
        };
        if line_from <= self.read_buffer.len() {
            lemma_first_lf(self.read_buffer, line_from);
            assert forall|i: int| line_from <= i < self.read_buffer.len() implies all[i] != LF by {
                assert(all[i] == self.read_buffer[i]);
            }
            lemma_first_lf_passes_over(all, line_from, self.read_buffer.len() as int);
        }
    }

    /// Ending a message keeps every byte behind it: the next message is decoded
    /// from exactly the bytes that followed the one that ended, whether that one
    /// was decoded, malformed or refused.
    pub proof fn lemma_finish_message_keeps_rest(self, bytes: Seq<u8>)
        requires
            self.wf(),
        ensures
            self.seen() + self.finish_message().read_buffer == self.read_buffer,
            self.enqueue_input(bytes).finish_message() == self.finish_message().enqueue_input(
                bytes,
            ),
    {
        assert(self.read_buffer.take(self.seen_bytes as int) + self.read_buffer.skip(
            self.seen_bytes as int,
        ) == self.read_buffer);
        assert((self.read_buffer + bytes).skip(self.seen_bytes as int) == self.read_buffer.skip(
            self.seen_bytes as int,
        ) + bytes);
    }
}

impl<C: Decode> View for ReceiveState<C> {
    type V = ReceiveModel<C>;

    closed spec fn view(&self) -> ReceiveModel<C> {
        ReceiveModel {
            codec: self.codec,
            crlf_relaxed: self.crlf_relaxed,
            next_fragment: self.next_fragment,
            seen_bytes: self.seen_bytes as nat,
            read_buffer: buffer_bytes(self.read_buffer),
        }
    }
}

impl<C: Decode> ReceiveState<C> {
    /// A state that expects a line. Bytes already in `read_buffer` count as read
    /// from the stream.
    pub fn new(codec: C, crlf_relaxed: bool, read_buffer: BytesMut) -> (state: Self)
        ensures
            state@ == ReceiveModel::initial(codec, crlf_relaxed, buffer_bytes(read_buffer)),
            state@.wf(),
    {
        ReceiveState { codec, crlf_relaxed, next_fragment: NextFragment::Line, seen_bytes: 0, read_buffer }
    }

    /// Takes bytes that were read from the stream.
    pub fn enqueue_input(&mut self, bytes: &[u8])
        requires
            old(self)@.wf(),
        ensures
            final(self)@ == old(self)@.enqueue_input(bytes@),
            final(self)@.wf(),
    {
        buffer_extend(&mut self.read_buffer, bytes);
    }

    /// Accepts the literal that the decoder found: its bytes are passed over
    /// before the next line is looked for.
    pub fn start_literal(&mut self, length: u32)
        requires
            old(self)@.wf(),
        ensures
            final(self)@ == old(self)@.start_literal(length),
            final(self)@.wf(),
    {
        self.next_fragment = NextFragment::Literal { length };
    }

    /// Ends the current message: its bytes leave the buffer.
    pub fn finish_message(&mut self)
        requires
            old(self)@.wf(),
        ensures
            final(self)@ == old(self)@.finish_message(),
            final(self)@.wf(),
    {
        buffer_advance(&mut self.read_buffer, self.seen_bytes);
        self.seen_bytes = 0;
        self.next_fragment = NextFragment::Line;
    }

    /// Ends the current message and hands out its bytes.
    pub fn discard_message(&mut self) -> (discarded_bytes: Vec<u8>)
        requires
            old(self)@.wf(),
        ensures
            discarded_bytes@ == old(self)@.seen(),
            final(self)@ == old(self)@.finish_message(),
            final(self)@.wf(),
    {
        let read_buffer = buffer_as_slice(&self.read_buffer);
        let discarded_bytes = slice_to_vec(vstd::slice::slice_subrange(read_buffer, 0, self.seen_bytes));
        self.finish_message();
        discarded_bytes
    }

    /// Replaces the codec and keeps everything else, the bytes read included.
    /// The codec that leaves comes back.
    pub fn change_codec<D: Decode>(self, codec: D) -> (changed: (ReceiveState<D>, C))
        requires
            self@.wf(),
        ensures
            changed.0@ == self@.change_codec(codec),
            changed.0@.wf(),
            changed.1 == self@.codec,
    {
        (
            ReceiveState {
                codec,
                crlf_relaxed: self.crlf_relaxed,
                next_fragment: self.next_fragment,
                seen_bytes: self.seen_bytes,
                read_buffer: self.read_buffer,
            },
            self.codec,
        )
    }

    /// Looks for the next message among the bytes read. `None` says that more
    /// bytes are needed: read from the stream, hand them to
    /// [`Self::enqueue_input`] and call again.
    pub fn progress(&mut self) -> (event: Option<ReceiveEvent<C>>)
        requires
            old(self)@.wf(),
        ensures
            (final(self)@, event) == old(self)@.progress(),
            final(self)@.wf(),
    {
        match self.next_fragment {
            NextFragment::Line => {},
            NextFragment::Literal { length } => {
                let unseen_bytes: usize = buffer_len(&self.read_buffer) - self.seen_bytes;
                if unseen_bytes < length as usize {
                    return None;
                }
                self.next_fragment = NextFragment::Line;
                self.seen_bytes = self.seen_bytes + length as usize;
            },
        }
        self.progress_line()
    }

    fn progress_line(&mut self) -> (event: Option<ReceiveEvent<C>>)
        requires
            old(self)@.wf(),
        ensures
            (final(self)@, event) == old(self)@.progress_line(),
            final(self)@.wf(),
    {
        let read_buffer = buffer_as_slice(&self.read_buffer);
        match find_crlf_inclusive(self.seen_bytes, read_buffer) {
            None => {
                self.seen_bytes = read_buffer.len();
                None
            },
            Some(found) => {
                self.seen_bytes = found.lf_position + 1;
                if found.expected_crlf_got_lf && !self.crlf_relaxed {
                    return Some(ReceiveEvent::ExpectedCrlfGotLf);
                }
                let message_bytes = vstd::slice::slice_subrange(read_buffer, 0, self.seen_bytes);
                match self.codec.decode(message_bytes) {
                    Ok(message) => Some(ReceiveEvent::DecodingSuccess(message)),
                    Err(error) => Some(ReceiveEvent::DecodingFailure(error)),
                }
            },
        }
    }
}

} // verus!
