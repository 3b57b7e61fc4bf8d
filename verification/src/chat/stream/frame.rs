//! The wire format of a streamed response.
//!
//! The body is text. It is a run of frames, each followed by a blank line
//! (two line breaks). A frame that carries an event reads `data: ` and then a
//! JSON object; the last frame reads `data: [DONE]`.
//!
//! Everything here works on the bytes of the text: the delimiter, the prefix
//! and the closing brace are ASCII, so their bytes never occur inside the
//! encoding of another character.

use vstd::prelude::*;
use vstd::slice::{slice_subrange, slice_to_vec};
use vstd::utf8::valid_utf8;

use super::text::lemma_cut_at_ascii;

verus! {

/// The line break, two of which end a frame.
pub const LINE_BREAK: u8 = 0x0a;

/// The byte that ends the payload of every data frame.
pub const CLOSING_BRACE: u8 = 0x7d;

/// How many bytes the delimiter takes.
pub const DELIMITER_LEN: usize = 2;

/// How many bytes the prefix `data: ` takes.
pub const PREFIX_LEN: usize = 6;

/// The prefix of every frame: `data: `.
pub const DATA_PREFIX: [u8; 6] = [0x64, 0x61, 0x74, 0x61, 0x3a, 0x20];

/// The payload of the frame that ends the stream: `[DONE]`.
pub const DONE_TOKEN: [u8; 6] = [0x5b, 0x44, 0x4f, 0x4e, 0x45, 0x5d];

/// One frame, as the splitter classifies it.
#[derive(Clone, Debug, PartialEq, Eq)]
pub enum Frame {
    /// A data frame, with the payload that follows its prefix.
    Data(Vec<u8>),
    /// The frame that ends the stream.
    Done,
    /// A frame without the prefix.
    MalformedFrame,
    /// A frame with the prefix whose payload is neither closed by a brace nor
    /// the end marker.
    MalformedPayload,
}

/// The mathematical value of a [`Frame`].
pub enum FrameView {
    Data(Seq<u8>),
    Done,
    MalformedFrame,
    MalformedPayload,
}

impl View for Frame {
    type V = FrameView;

    open spec fn view(&self) -> FrameView {
        match self {
            Frame::Data(payload) => FrameView::Data(payload@),
            Frame::Done => FrameView::Done,
            Frame::MalformedFrame => FrameView::MalformedFrame,
            Frame::MalformedPayload => FrameView::MalformedPayload,
        }
    }
}

/// What the splitter found at the front of a buffer.
#[derive(Clone, Debug, PartialEq, Eq)]
pub struct Split {
    /// The first frame.
    pub frame: Frame,
    /// How many bytes the frame and its delimiter take: the caller removes
    /// that many from the front of the buffer.
    pub consumed: usize,
    /// Whether another complete frame stands behind the first.
    pub more: bool,
}

/// The mathematical value of a [`Split`].
pub struct SplitView {
    pub frame: FrameView,
    pub consumed: int,
    pub more: bool,
}

impl View for Split {
    type V = SplitView;

    open spec fn view(&self) -> SplitView {
        SplitView { frame: self.frame@, consumed: self.consumed as int, more: self.more }
    }
}

/// The delimiter: two line breaks.
pub open spec fn delimiter() -> Seq<u8> {
    seq![LINE_BREAK, LINE_BREAK]
}

/// True when the two line breaks of a delimiter stand at index `i` of `buf`.
pub open spec fn delimiter_at(buf: Seq<u8>, i: int) -> bool {
    &&& 0 <= i
    &&& i + 1 < buf.len()
    &&& buf[i] == LINE_BREAK
    &&& buf[i + 1] == LINE_BREAK
}

/// True when `buf` holds a delimiter, that is, at least one complete frame.
pub open spec fn has_frame(buf: Seq<u8>) -> bool {
    exists|i: int| delimiter_at(buf, i)
}

/// True when the first delimiter of `buf` stands at index `i`.
pub open spec fn first_delimiter(buf: Seq<u8>, i: int) -> bool {
    &&& delimiter_at(buf, i)
    &&& forall|j: int| 0 <= j < i ==> !delimiter_at(buf, j)
}

/// The length of the first frame of `buf`: the index of its first delimiter.
/// Meaningful only where `has_frame(buf)`.
pub open spec fn frame_len(buf: Seq<u8>) -> int {
    choose|i: int| first_delimiter(buf, i)
}

/// The first frame of `buf`, without its delimiter.
pub open spec fn first_frame(buf: Seq<u8>) -> Seq<u8> {
    buf.take(frame_len(buf))
}

/// What follows the first frame of `buf` and its delimiter.
pub open spec fn after_frame(buf: Seq<u8>) -> Seq<u8> {
    buf.skip(frame_len(buf) + DELIMITER_LEN)
}

/// True when `frame` begins with `data: `.
pub open spec fn has_prefix(frame: Seq<u8>) -> bool {
    frame.len() >= PREFIX_LEN && frame.take(PREFIX_LEN as int) == DATA_PREFIX@
}

/// What follows the prefix of `frame`.
pub open spec fn payload_of(frame: Seq<u8>) -> Seq<u8> {
    frame.skip(PREFIX_LEN as int)
}

/// True when `payload` ends with a closing brace.
pub open spec fn closed(payload: Seq<u8>) -> bool {
    payload.len() > 0 && payload.last() == CLOSING_BRACE
}

/// What a frame is. A frame is the text before a delimiter.
///
/// Without the prefix it is malformed. With it, the payload is the end marker,
/// or the text of an event, which a brace closes, or malformed.
pub open spec fn classify(frame: Seq<u8>) -> FrameView {
    if !has_prefix(frame) {
        FrameView::MalformedFrame
    } else if payload_of(frame) == DONE_TOKEN@ {
        FrameView::Done
    } else if closed(payload_of(frame)) {
        FrameView::Data(payload_of(frame))
    } else {
        FrameView::MalformedPayload
    }
}

/// The first frame of `buf`, if `buf` holds a complete one.
///
/// A frame is complete once its delimiter has arrived. Text without a
/// delimiter is a frame still on its way, whatever it ends with.
pub open spec fn split(buf: Seq<u8>) -> Option<SplitView> {
    if has_frame(buf) {
        Some(
            SplitView {
                frame: classify(first_frame(buf)),
                consumed: frame_len(buf) + DELIMITER_LEN,
                more: has_frame(after_frame(buf)),
            },
        )
    } else {
        None
    }
}

/// True when `frame` can stand before a delimiter as one frame: it holds no
/// delimiter and does not end in a line break.
pub open spec fn is_frame_text(frame: Seq<u8>) -> bool {
    !has_frame(frame) && (frame.len() > 0 ==> frame.last() != LINE_BREAK)
}

/// True when `payload` can travel in a data frame: a brace closes it, and no
/// delimiter stands inside it.
pub open spec fn is_payload(payload: Seq<u8>) -> bool {
    closed(payload) && !has_frame(payload)
}

/// The bytes of the data frame that carries `payload`, delimiter included.
pub open spec fn data_frame(payload: Seq<u8>) -> Seq<u8> {
    DATA_PREFIX@ + payload + delimiter()
}

/// The bytes of the frame that ends a stream, delimiter included.
pub open spec fn done_frame() -> Seq<u8> {
    DATA_PREFIX@ + DONE_TOKEN@ + delimiter()
}

/// Looks for the first delimiter of `buf`.
pub fn find_delimiter(buf: &[u8]) -> (found: Option<usize>)
    ensures
        match found {
            Some(i) => first_delimiter(buf@, i as int),
            None => !has_frame(buf@),
        },
        found is Some <==> has_frame(buf@),
        found matches Some(i) ==> i as int == frame_len(buf@),
{
    let mut i: usize = 1;
    while i < buf.len()
        invariant
            1 <= i,
            forall|j: int| 0 <= j < i - 1 ==> !delimiter_at(buf@, j),
        decreases buf.len() - i,
    {
        if buf[i - 1] == LINE_BREAK && buf[i] == LINE_BREAK {
            proof {
                lemma_first_delimiter(buf@, i - 1);
            }
            return Some(i - 1);
        }
        i += 1;
    }
    None
}

/// Compares two runs of bytes.
pub fn same_bytes(a: &[u8], b: &[u8]) -> (same: bool)
    ensures
        same == (a@ == b@),
{
    if a.len() != b.len() {
        return false;
    }
    let mut i: usize = 0;
    while i < a.len()
        invariant
            a@.len() == b@.len(),
            i <= a@.len(),
            forall|j: int| 0 <= j < i ==> a@[j] == b@[j],
        decreases a.len() - i,
    {
        if a[i] != b[i] {
            return false;
        }
        i += 1;
    }
    assert(a@ =~= b@);
    true
}

/// Classifies one frame, given without its delimiter.
pub fn parse_frame(frame: &[u8]) -> (parsed: Frame)
    ensures
        parsed@ == classify(frame@),
{
    if frame.len() < PREFIX_LEN {
        return Frame::MalformedFrame;
    }
    let head = slice_subrange(frame, 0, PREFIX_LEN);
    if !same_bytes(head, DATA_PREFIX.as_slice()) {
        return Frame::MalformedFrame;
    }
    let payload = slice_subrange(frame, PREFIX_LEN, frame.len());
    if same_bytes(payload, DONE_TOKEN.as_slice()) {
        Frame::Done
    } else if payload.len() > 0 && payload[payload.len() - 1] == CLOSING_BRACE {
        Frame::Data(slice_to_vec(payload))
    } else {
        Frame::MalformedPayload
    }
}

/// Finds the first complete frame of `buf`, without changing `buf`: what the
/// frame is, how many bytes it and its delimiter take, and whether another
/// complete frame stands behind it. `None` while no delimiter has arrived.
pub fn split_first(buf: &[u8]) -> (found: Option<Split>)
    ensures
        match found {
            Some(s) => split(buf@) == Some(s@),
            None => split(buf@) is None,
        },
{
    match find_delimiter(buf) {
        None => None,
        Some(end) => {
            let len = buf.len();
            let frame = parse_frame(slice_subrange(buf, 0, end));
            let consumed = end + DELIMITER_LEN;
            let rest = slice_subrange(buf, consumed, len);
            let more = find_delimiter(rest).is_some();
            Some(Split { frame, consumed, more })
        },
    }
}

/// Every delimiter has a first one before or at it.
pub proof fn lemma_least_delimiter(buf: Seq<u8>, i: int)
    requires
        delimiter_at(buf, i),
    ensures
        exists|k: int| 0 <= k <= i && first_delimiter(buf, k),
    decreases i,
{
    if exists|j: int| 0 <= j < i && delimiter_at(buf, j) {
        let j = choose|j: int| 0 <= j < i && delimiter_at(buf, j);
        lemma_least_delimiter(buf, j);
    } else {
        assert(first_delimiter(buf, i));
    }
}

/// A buffer with a frame has its first delimiter at `frame_len`.
pub proof fn lemma_frame_len(buf: Seq<u8>)
    requires
        has_frame(buf),
    ensures
        first_delimiter(buf, frame_len(buf)),
        0 <= frame_len(buf) <= buf.len() - DELIMITER_LEN,
{
    let i = choose|i: int| delimiter_at(buf, i);
    lemma_least_delimiter(buf, i);
}

/// The first delimiter is unique: where it stands, there `frame_len` is.
pub proof fn lemma_first_delimiter(buf: Seq<u8>, i: int)
    requires
        first_delimiter(buf, i),
    ensures
        has_frame(buf),
        frame_len(buf) == i,
{
    lemma_frame_len(buf);
}

/// Bytes that arrive behind a complete frame leave the frame as it is: they
/// join what follows it.
pub proof fn lemma_append_keeps_frame(buf: Seq<u8>, more: Seq<u8>)
    requires
        has_frame(buf),
    ensures
        has_frame(buf + more),
        frame_len(buf + more) == frame_len(buf),
        first_frame(buf + more) == first_frame(buf),
        after_frame(buf + more) == after_frame(buf) + more,
{
    lemma_frame_len(buf);
    let end = frame_len(buf);
    let grown = buf + more;
    assert forall|j: int| 0 <= j < end implies !delimiter_at(grown, j) by {
        assert(!delimiter_at(buf, j));
    }
    lemma_first_delimiter(grown, end);
}

/// A frame, its delimiter and then anything: the frame is the first, and
/// what follows the delimiter is what follows the frame.
pub proof fn lemma_delimited_frame_first(frame: Seq<u8>, tail: Seq<u8>)
    requires
        is_frame_text(frame),
    ensures
        has_frame(frame + delimiter() + tail),
        first_frame(frame + delimiter() + tail) == frame,
        after_frame(frame + delimiter() + tail) == tail,
{
    let wire = frame + delimiter() + tail;
    let end = frame.len() as int;
    assert forall|j: int| 0 <= j < end implies !delimiter_at(wire, j) by {
        if j + 1 < end {
            assert(!delimiter_at(frame, j));
        }
    }
    lemma_first_delimiter(wire, end);
}

/// A prefix and a body make a frame if the body could be one, and the body
/// is its payload.
proof fn lemma_prefixed(body: Seq<u8>)
    requires
        is_frame_text(body),
        body.len() > 0,
    ensures
        is_frame_text(DATA_PREFIX@ + body),
        has_prefix(DATA_PREFIX@ + body),
        payload_of(DATA_PREFIX@ + body) == body,
{
    let frame = DATA_PREFIX@ + body;
    assert forall|j: int| !delimiter_at(frame, j) by {
        if PREFIX_LEN <= j && j + 1 < frame.len() {
            assert(!delimiter_at(body, j - PREFIX_LEN));
        }
    }
    assert(frame.take(PREFIX_LEN as int) =~= DATA_PREFIX@);
}

/// Text that begins with a data frame has that frame as its first, and the
/// frame carries its payload.
pub proof fn lemma_data_frame_first(payload: Seq<u8>, tail: Seq<u8>)
    requires
        is_payload(payload),
    ensures
        has_frame(data_frame(payload) + tail),
        classify(first_frame(data_frame(payload) + tail)) == FrameView::Data(payload),
        after_frame(data_frame(payload) + tail) == tail,
{
    lemma_prefixed(payload);
    lemma_delimited_frame_first(DATA_PREFIX@ + payload, tail);
}

/// Text that begins with the end frame has that frame as its first.
pub proof fn lemma_done_frame_first(tail: Seq<u8>)
    ensures
        has_frame(done_frame() + tail),
        classify(first_frame(done_frame() + tail)) == FrameView::Done,
        after_frame(done_frame() + tail) == tail,
{
    assert(!has_frame(DONE_TOKEN@));
    lemma_prefixed(DONE_TOKEN@);
    lemma_delimited_frame_first(DATA_PREFIX@ + DONE_TOKEN@, tail);
}

/// In a buffer of text, the first frame is text, what follows its delimiter
/// is text, and so is the payload behind the prefix.
pub proof fn lemma_frame_is_text(buf: Seq<u8>)
    requires
        valid_utf8(buf),
        has_frame(buf),
    ensures
        valid_utf8(first_frame(buf)),
        valid_utf8(after_frame(buf)),
        has_prefix(first_frame(buf)) ==> valid_utf8(payload_of(first_frame(buf))),
{
    lemma_frame_len(buf);
    let end = frame_len(buf);
    lemma_cut_at_ascii(buf, end);
    let tail = buf.skip(end + 1);
    lemma_cut_at_ascii(tail, 0);
    assert(tail.skip(1) =~= after_frame(buf));
    let frame = first_frame(buf);
    if has_prefix(frame) {
        lemma_cut_at_ascii(frame, PREFIX_LEN - 1);
    }
}

} // verus!
