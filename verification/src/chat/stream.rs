//! Streamed chat completions: the chunks of a response and the decoder that
//! finds them in the bytes of the response body.
//!
//! [`ChatCompletionChunkStream`] is the decoder. It owns the text that has
//! arrived and that no frame has accounted for yet, and it performs no I/O: it
//! is a state machine that its caller drives.
//!
//! One pull begins with [`ChatCompletionChunkStream::poll_next`]. A frame that
//! is already complete is taken from the buffer and reported at once. Where
//! the answer is [`Pull::NeedChunk`], the caller asks the byte source, once,
//! and reports what it said: bytes go to [`ChatCompletionChunkStream::feed`],
//! which completes the pull; the end or a failure of the source goes to
//! [`ChatCompletionChunkStream::close`].
//!
//! The payload of an event is handed out as the bytes of its text. To turn it
//! into a [`ChatCompletionChunk`] is the work of a JSON codec, which the caller
//! brings.
//!
//! [`frame`] holds the wire format, [`transcript`] says what a whole response
//! amounts to, and [`laws`] what follows for every stream.

use vstd::prelude::*;
use vstd::utf8::{valid_utf8, valid_utf8_concat};

use self::frame::{
    after_frame, has_frame, lemma_frame_is_text, lemma_frame_len, split, split_first, Frame,
    FrameView, Split,
};
use self::text::is_text;

pub mod frame;
pub mod laws;
pub mod text;
pub mod transcript;

verus! {

/// One chunk of a streamed chat response: the event that a data frame
/// carries.
#[derive(Debug, Clone)]
pub struct ChatCompletionChunk {
    pub id: String,
    pub created: u32,
    pub model: String,
    pub choices: Vec<Choice>,
    pub system_fingerprint: Option<String>,
}

impl ChatCompletionChunk {
    /// The text that the chunk adds: the content of the first choice, or
    /// nothing where that choice brings no content.
    pub fn to_string(&self) -> (text: String)
        requires
            self.choices@.len() > 0,
        ensures
            text@ == match self.choices@[0].delta.content {
                Some(content) => content@,
                None => Seq::<char>::empty(),
            },
    {
        match &self.choices[0].delta.content {
            Some(content) => content.clone(),
            None => String::new(),
        }
    }
}

/// One choice of a [`ChatCompletionChunk`].
#[derive(Debug, Clone)]
pub struct Choice {
    pub delta: ChoiceDelta,
    pub index: u32,
    pub finish_reason: Option<String>,
}

/// What a [`Choice`] adds to the text.
#[derive(Debug, Clone)]
pub struct ChoiceDelta {
    pub content: Option<String>,
}

/// Where a stream stands.
#[derive(Clone, Copy, Debug, PartialEq, Eq, Structural)]
pub enum StreamState {
    /// No complete frame is buffered: the next pull asks for more bytes.
    Active,
    /// A complete frame is buffered: the next pull takes it.
    Draining,
    /// The end marker was seen, the source ended or failed, or bytes arrived
    /// that are not text. Nothing comes after this.
    Exhausted,
}

/// Why a pull failed.
#[derive(Clone, Copy, Debug, PartialEq, Eq, Structural)]
pub enum DecodeError {
    /// A frame did not begin with `data: `. The frame is gone; the stream goes on.
    MalformedFrame,
    /// A frame began with `data: `, but its payload cannot be an event. The
    /// frame is gone; the stream goes on.
    MalformedPayload,
    /// Bytes arrived that are not text. The stream is over.
    InvalidText,
}

/// What one step of the decoder tells its caller to do.
#[derive(Clone, Debug, PartialEq, Eq)]
pub enum Pull {
    /// Deliver the event that `payload` holds: the text of a JSON object, in
    /// UTF-8. With `wake`, another frame is already complete and the next pull
    /// will not wait.
    Event { payload: Vec<u8>, wake: bool },
    /// Deliver `error` as the result of this pull. With `wake`, another frame
    /// is already complete.
    Failed { error: DecodeError, wake: bool },
    /// Nothing is buffered that could be delivered: ask the source for its
    /// next chunk.
    NeedChunk,
    /// Bytes arrived, but no frame is complete yet: come back, without
    /// reporting an end.
    Pending,
    /// No more events.
    Finished,
}

/// The mathematical value of a [`Pull`].
pub enum PullView {
    Event { payload: Seq<u8>, wake: bool },
    Failed { error: DecodeError, wake: bool },
    NeedChunk,
    Pending,
    Finished,
}

impl View for Pull {
    type V = PullView;

    open spec fn view(&self) -> PullView {
        match self {
            Pull::Event { payload, wake } => PullView::Event { payload: payload@, wake: *wake },
            Pull::Failed { error, wake } => PullView::Failed { error: *error, wake: *wake },
            Pull::NeedChunk => PullView::NeedChunk,
            Pull::Pending => PullView::Pending,
            Pull::Finished => PullView::Finished,
        }
    }
}

/// The mathematical value of a decoder: the buffered bytes and the state.
pub struct StreamView {
    pub buf: Seq<u8>,
    pub state: StreamState,
}

impl StreamView {
    /// What holds of every decoder: the buffer is text; the state says
    /// whether it holds a complete frame; an exhausted decoder holds nothing.
    pub open spec fn wf(self) -> bool {
        &&& valid_utf8(self.buf)
        &&& self.state is Active ==> !has_frame(self.buf)
        &&& self.state is Draining ==> has_frame(self.buf)
        &&& self.state is Exhausted ==> self.buf.len() == 0
    }

    /// A decoder that has received nothing.
    pub open spec fn fresh() -> StreamView {
        StreamView { buf: Seq::empty(), state: StreamState::Active }
    }

    /// A decoder at its end. Whatever was buffered is gone.
    pub open spec fn exhausted() -> StreamView {
        StreamView { buf: Seq::empty(), state: StreamState::Exhausted }
    }

    /// A decoder that holds `buf` and is not at its end.
    pub open spec fn holding(buf: Seq<u8>) -> StreamView {
        StreamView {
            buf,
            state: if has_frame(buf) {
                StreamState::Draining
            } else {
                StreamState::Active
            },
        }
    }

    /// Taking the first complete frame out of the buffer: the decoder after
    /// it, and what the frame amounts to. `None` where no frame is complete.
    ///
    /// A data frame amounts to an event and a malformed frame to a failure;
    /// either leaves the buffer with its delimiter, and what stands behind
    /// stays. The end frame ends the stream, whatever stands behind it.
    pub open spec fn deserialize_buf(self) -> (StreamView, Option<PullView>) {
        match split(self.buf) {
            None => (self, None),
            Some(found) => {
                let rest = StreamView::holding(self.buf.skip(found.consumed));
                let wake = found.more;
                match found.frame {
                    FrameView::Data(payload) => (rest, Some(PullView::Event { payload, wake })),
                    FrameView::Done => (StreamView::exhausted(), Some(PullView::Finished)),
                    FrameView::MalformedFrame => (
                        rest,
                        Some(PullView::Failed { error: DecodeError::MalformedFrame, wake }),
                    ),
                    FrameView::MalformedPayload => (
                        rest,
                        Some(PullView::Failed { error: DecodeError::MalformedPayload, wake }),
                    ),
                }
            },
        }
    }

    /// One pull, before the source is asked.
    pub open spec fn poll_next(self) -> (StreamView, PullView) {
        if self.state is Exhausted {
            (self, PullView::Finished)
        } else {
            match self.deserialize_buf() {
                (next, Some(pull)) => (next, pull),
                (next, None) => (next, PullView::NeedChunk),
            }
        }
    }

    /// The rest of a pull, once the source has answered with `chunk`.
    pub open spec fn feed(self, chunk: Seq<u8>) -> (StreamView, PullView) {
        if self.state is Exhausted {
            (self, PullView::Finished)
        } else if !valid_utf8(chunk) {
            (
                StreamView::exhausted(),
                PullView::Failed { error: DecodeError::InvalidText, wake: false },
            )
        } else {
            match StreamView::holding(self.buf + chunk).deserialize_buf() {
                (next, Some(pull)) => (next, pull),
                (next, None) => (next, PullView::Pending),
            }
        }
    }
}

/// The decoder of one streamed response.
#[derive(Debug)]
pub struct ChatCompletionChunkStream {
    /// The text received that no frame has accounted for yet.
    buf: Vec<u8>,
    state: StreamState,
}

impl View for ChatCompletionChunkStream {
    type V = StreamView;

    closed spec fn view(&self) -> StreamView {
        StreamView { buf: self.buf@, state: self.state }
    }
}

impl ChatCompletionChunkStream {
    #[verifier::type_invariant]
    spec fn well_formed(&self) -> bool {
        self@.wf()
    }

    /// A decoder that has received nothing.
    pub fn new() -> (stream: Self)
        ensures
            stream@ == StreamView::fresh(),
            stream@.wf(),
    {
        ChatCompletionChunkStream { buf: Vec::new(), state: StreamState::Active }
    }

    /// Where the stream stands.
    pub fn state(&self) -> (state: StreamState)
        ensures
            state == self@.state,
            self@.wf(),
    {
        proof {
            use_type_invariant(self);
        }
        self.state
    }

    /// How many bytes are buffered.
    pub fn buffered(&self) -> (len: usize)
        ensures
            len == self@.buf.len(),
    {
        self.buf.len()
    }

    /// Makes a decoder that holds `buf`, and takes the first complete frame
    /// out of it, if there is one.
    fn from_buffer(buf: Vec<u8>) -> (made: (Self, Option<Pull>))
        requires
            valid_utf8(buf@),
        ensures
            made.0@.wf(),
            made.0@ == StreamView::holding(buf@).deserialize_buf().0,
            match made.1 {
                Some(pull) => StreamView::holding(buf@).deserialize_buf().1 == Some(pull@),
                None => StreamView::holding(buf@).deserialize_buf().1 is None,
            },
            made.1 matches Some(Pull::Event { payload, .. }) ==> valid_utf8(payload@),
    {
        match split_first(buf.as_slice()) {
            None => (ChatCompletionChunkStream { buf, state: StreamState::Active }, None),
            Some(Split { frame, consumed, more }) => {
                proof {
                    lemma_frame_len(buf@);
                    lemma_frame_is_text(buf@);
                }
                let mut head = buf;
                let rest = head.split_off(consumed);
                let state = if more {
                    StreamState::Draining
                } else {
                    StreamState::Active
                };
                match frame {
                    Frame::Data(payload) => (
                        ChatCompletionChunkStream { buf: rest, state },
                        Some(Pull::Event { payload, wake: more }),
                    ),
                    Frame::Done => (
                        ChatCompletionChunkStream {
                            buf: Vec::new(),
                            state: StreamState::Exhausted,
                        },
                        Some(Pull::Finished),
                    ),
                    Frame::MalformedFrame => (
                        ChatCompletionChunkStream { buf: rest, state },
                        Some(Pull::Failed { error: DecodeError::MalformedFrame, wake: more }),
                    ),
                    Frame::MalformedPayload => (
                        ChatCompletionChunkStream { buf: rest, state },
                        Some(Pull::Failed { error: DecodeError::MalformedPayload, wake: more }),
                    ),
                }
            },
        }
    }

    /// Takes the first complete frame out of the buffer, if there is one, and
    /// says what it amounts to: an event, a failure, or the end.
    ///
    /// The frame and its delimiter leave the buffer; what stands behind them
    /// stays. Without a complete frame nothing changes.
    pub fn deserialize_buf(&mut self) -> (found: Option<Pull>)
        ensures
            final(self)@.wf(),
            final(self)@ == old(self)@.deserialize_buf().0,
            match found {
                Some(pull) => old(self)@.deserialize_buf().1 == Some(pull@),
                None => old(self)@.deserialize_buf().1 is None,
            },
            found matches Some(Pull::Event { payload, .. }) ==> valid_utf8(payload@),
    {
        proof {
            use_type_invariant(&*self);
        }
        match self.state {
            StreamState::Draining => {
                let mut taken = ChatCompletionChunkStream::new();
                core::mem::swap(self, &mut taken);
                let ChatCompletionChunkStream { buf, state: _ } = taken;
                let (next, found) = ChatCompletionChunkStream::from_buffer(buf);
                *self = next;
                found
            },
            _ => None,
        }
    }

    /// One pull, before the byte source is asked.
    ///
    /// A buffered frame is taken and reported. Without one the answer is
    /// [`Pull::NeedChunk`], and the buffer stays as it is. At the end the
    /// answer is [`Pull::Finished`], every time.
    pub fn poll_next(&mut self) -> (pull: Pull)
        ensures
            final(self)@.wf(),
            final(self)@ == old(self)@.poll_next().0,
            pull@ == old(self)@.poll_next().1,
            pull matches Pull::Event { payload, .. } ==> valid_utf8(payload@),
            old(self)@.state is Exhausted ==> pull is Finished && final(self)@ == old(self)@,
            pull is NeedChunk <==> old(self)@.state is Active,
            pull is NeedChunk ==> final(self)@ == old(self)@,
            !(pull is Pending),
    {
        proof {
            use_type_invariant(&*self);
        }
        match self.state {
            StreamState::Exhausted => Pull::Finished,
            _ => match self.deserialize_buf() {
                Some(pull) => pull,
                None => Pull::NeedChunk,
            },
        }
    }

    /// The rest of a pull that needed a chunk, once the source has handed
    /// `chunk` over.
    ///
    /// Bytes that are not text end the stream with
    /// [`DecodeError::InvalidText`]. Text joins the buffer; then the first
    /// complete frame is taken and reported as in [`Self::poll_next`]. Without
    /// one the answer is [`Pull::Pending`], never [`Pull::NeedChunk`]: one
    /// pull takes one chunk.
    pub fn feed(&mut self, chunk: &[u8]) -> (pull: Pull)
        ensures
            final(self)@.wf(),
            final(self)@ == old(self)@.feed(chunk@).0,
            pull@ == old(self)@.feed(chunk@).1,
            pull matches Pull::Event { payload, .. } ==> valid_utf8(payload@),
            old(self)@.state is Exhausted ==> pull is Finished && final(self)@ == old(self)@,
            pull is Pending ==> final(self)@.buf == old(self)@.buf + chunk@,
            !(pull is NeedChunk),
    {
        proof {
            use_type_invariant(&*self);
        }
        match self.state {
            StreamState::Exhausted => { return Pull::Finished; },
            _ => {},
        }
        if !is_text(chunk) {
            self.close();
            return Pull::Failed { error: DecodeError::InvalidText, wake: false };
        }
        let mut taken = ChatCompletionChunkStream::new();
        core::mem::swap(self, &mut taken);
        let ChatCompletionChunkStream { buf: mut grown, state: _ } = taken;
        grown.extend_from_slice(chunk);
        proof {
            assert(grown@ =~= old(self)@.buf + chunk@);
            valid_utf8_concat(old(self)@.buf, chunk@);
        }
        let (next, found) = ChatCompletionChunkStream::from_buffer(grown);
        *self = next;
        match found {
            Some(pull) => pull,
            None => Pull::Pending,
        }
    }

    /// Ends the stream: the source has ended or failed. What is buffered is
    /// dropped, and every pull from now on answers [`Pull::Finished`].
    pub fn close(&mut self)
        ensures
            final(self)@ == StreamView::exhausted(),
            final(self)@.wf(),
    {
        *self = ChatCompletionChunkStream { buf: Vec::new(), state: StreamState::Exhausted };
    }
}

} // verus!
