//! What holds of every stream, proved from the definitions that the
//! contracts of the decoder are written in.

use vstd::prelude::*;
use vstd::utf8::{is_char_boundary, valid_utf8, valid_utf8_concat, valid_utf8_split};

use super::frame::{
    classify, data_frame, delimiter, delimiter_at, done_frame, has_frame, is_frame_text,
    is_payload, lemma_data_frame_first, lemma_delimited_frame_first, lemma_done_frame_first,
    lemma_frame_is_text, lemma_frame_len, FrameView,
};
use super::transcript::{all_text, drain, is_text_run, lemma_text_run, transcript, DeliveryView};
use super::{DecodeError, PullView, StreamState, StreamView};

verus! {

/// The bytes of a run of data frames, one for each of `payloads`.
pub open spec fn data_frames(payloads: Seq<Seq<u8>>) -> Seq<u8> {
    payloads.map_values(|payload: Seq<u8>| data_frame(payload)).flatten()
}

/// One event for each of `payloads`.
pub open spec fn events(payloads: Seq<Seq<u8>>) -> Seq<DeliveryView> {
    payloads.map_values(|payload: Seq<u8>| DeliveryView::Event(payload))
}

/// True when each of `payloads` can travel in a data frame.
pub open spec fn are_payloads(payloads: Seq<Seq<u8>>) -> bool {
    forall|i: int| 0 <= i < payloads.len() ==> is_payload(#[trigger] payloads[i])
}

/// True when `frame` is a whole frame with its delimiter: a data frame or the
/// end frame.
pub open spec fn is_frame(frame: Seq<u8>) -> bool {
    frame == done_frame() || exists|payload: Seq<u8>|
        is_payload(payload) && frame == #[trigger] data_frame(payload)
}

/// The decoder after `n` pulls that ask no source.
pub open spec fn after_pulls(stream: StreamView, n: nat) -> StreamView
    decreases n,
{
    if n == 0 {
        stream
    } else {
        after_pulls(stream.poll_next().0, (n - 1) as nat)
    }
}

/// Draining data frames gives their events, and then what stands behind them.
proof fn lemma_drain_data_frames(payloads: Seq<Seq<u8>>, tail: Seq<u8>)
    requires
        are_payloads(payloads),
    ensures
        drain(data_frames(payloads) + tail).deliveries == events(payloads) + drain(
            tail,
        ).deliveries,
        drain(data_frames(payloads) + tail).ended == drain(tail).ended,
        drain(data_frames(payloads) + tail).rest == drain(tail).rest,
    decreases payloads.len(),
{
    if payloads.len() > 0 {
        let first = payloads[0];
        let others = payloads.drop_first();
        let frames = payloads.map_values(|payload: Seq<u8>| data_frame(payload));
        assert(are_payloads(others));
        assert(frames.drop_first() =~= others.map_values(|payload: Seq<u8>| data_frame(payload)));
        assert(data_frames(payloads) + tail =~= data_frame(first) + (data_frames(others) + tail));
        lemma_data_frame_first(first, data_frames(others) + tail);
        lemma_drain_data_frames(others, tail);
    }
}

/// A run of chunks that are all text is taken whole.
proof fn lemma_all_text_is_read(chunks: Seq<Seq<u8>>)
    requires
        all_text(chunks, chunks.len() as int),
    ensures
        transcript(chunks) == drain(chunks.flatten()).deliveries,
{
    lemma_text_run(chunks);
    assert(chunks.take(chunks.len() as int) =~= chunks);
}

/// A response of well-formed data frames and then the end frame, cut into
/// chunks of text in any way, delivers the payload of each data frame, in the
/// order of the frames, and nothing else; and the decoder is at its end
/// because it met the end frame.
pub proof fn law_frames_then_end(payloads: Seq<Seq<u8>>, chunks: Seq<Seq<u8>>)
    requires
        are_payloads(payloads),
        all_text(chunks, chunks.len() as int),
        chunks.flatten() == data_frames(payloads) + done_frame(),
    ensures
        transcript(chunks) == events(payloads),
        drain(chunks.flatten()).ended,
{
    lemma_all_text_is_read(chunks);
    lemma_drain_data_frames(payloads, done_frame());
    lemma_done_frame_first(Seq::empty());
}

/// Two runs of chunks of text that hold the same bytes deliver the same:
/// where a response is cut into chunks does not matter.
pub proof fn law_cuts_do_not_matter(one: Seq<Seq<u8>>, other: Seq<Seq<u8>>)
    requires
        all_text(one, one.len() as int),
        all_text(other, other.len() as int),
        one.flatten() == other.flatten(),
    ensures
        transcript(one) == transcript(other),
{
    lemma_all_text_is_read(one);
    lemma_all_text_is_read(other);
}

/// A text handed over in two chunks, cut between any two of its characters,
/// delivers what it delivers when handed over in one chunk.
pub proof fn law_cut_in_two(whole: Seq<u8>, at: int)
    requires
        valid_utf8(whole),
        is_char_boundary(whole, at),
    ensures
        transcript(seq![whole.take(at), whole.skip(at)]) == transcript(seq![whole]),
{
    let halves = seq![whole.take(at), whole.skip(at)];
    valid_utf8_split(whole, at);
    assert(whole.take(at) + whole.skip(at) =~= whole);
    assert(halves.flatten() =~= whole) by {
        assert(halves =~= seq![whole.take(at)].push(whole.skip(at)));
        seq![whole.take(at)].lemma_flatten_push(whole.skip(at));
        seq![whole.take(at)].lemma_flatten_one_element();
    }
    seq![whole].lemma_flatten_one_element();
    law_cuts_do_not_matter(halves, seq![whole]);
}

/// When a chunk completes two data frames at the front of the buffer, the
/// step that takes the chunk delivers the first and says that another is
/// ready, and the next pull delivers the second without asking the source.
pub proof fn law_two_frames_two_pulls(
    held: StreamView,
    chunk: Seq<u8>,
    first: Seq<u8>,
    second: Seq<u8>,
    tail: Seq<u8>,
)
    requires
        held.wf(),
        !(held.state is Exhausted),
        valid_utf8(chunk),
        is_payload(first),
        is_payload(second),
        held.buf + chunk == data_frame(first) + data_frame(second) + tail,
    ensures
        held.feed(chunk).1 == (PullView::Event { payload: first, wake: true }),
        held.feed(chunk).0.poll_next().1 == (PullView::Event {
            payload: second,
            wake: has_frame(tail),
        }),
        held.feed(chunk).0.poll_next().0 == StreamView::holding(tail),
{
    let behind = data_frame(second) + tail;
    assert(data_frame(first) + data_frame(second) + tail =~= data_frame(first) + behind);
    lemma_data_frame_first(first, behind);
    lemma_data_frame_first(second, tail);
}

/// While the buffer and the chunk that arrives are only the beginning of a
/// frame, the step that takes the chunk delivers nothing and reports no end:
/// it answers that the frame is pending, keeps every byte, and the next pull
/// asks the source for more.
pub proof fn law_partial_frame_waits(held: StreamView, chunk: Seq<u8>, frame: Seq<u8>)
    requires
        held.wf(),
        !(held.state is Exhausted),
        valid_utf8(chunk),
        is_frame(frame),
        (held.buf + chunk).len() < frame.len(),
        held.buf + chunk == frame.take((held.buf + chunk).len() as int),
    ensures
        held.feed(chunk) == (
            StreamView { buf: held.buf + chunk, state: StreamState::Active },
            PullView::Pending,
        ),
        held.feed(chunk).0.poll_next() == (held.feed(chunk).0, PullView::NeedChunk),
{
    let part = held.buf + chunk;
    assert forall|j: int| !delimiter_at(part, j) by {
        if delimiter_at(part, j) {
            assert(delimiter_at(frame, j));
            if frame == done_frame() {
                lemma_done_frame_first(Seq::empty());
                lemma_frame_len(frame);
            } else {
                let payload = choose|payload: Seq<u8>|
                    is_payload(payload) && frame == #[trigger] data_frame(payload);
                lemma_data_frame_first(payload, Seq::empty());
                lemma_frame_len(frame);
            }
        }
    }
}

/// A malformed frame fails the pull that takes it and no other: a data frame
/// behind it is delivered by the next pull, without asking the source.
pub proof fn law_failure_is_local(
    held: StreamView,
    chunk: Seq<u8>,
    bad: Seq<u8>,
    payload: Seq<u8>,
    tail: Seq<u8>,
)
    requires
        held.wf(),
        !(held.state is Exhausted),
        valid_utf8(chunk),
        is_frame_text(bad),
        classify(bad) is MalformedFrame || classify(bad) is MalformedPayload,
        is_payload(payload),
        held.buf + chunk == bad + delimiter() + data_frame(payload) + tail,
    ensures
        held.feed(chunk).1 == (PullView::Failed {
            error: if classify(bad) is MalformedFrame {
                DecodeError::MalformedFrame
            } else {
                DecodeError::MalformedPayload
            },
            wake: true,
        }),
        held.feed(chunk).0.poll_next().1 == (PullView::Event {
            payload,
            wake: has_frame(tail),
        }),
{
    let behind = data_frame(payload) + tail;
    assert(bad + delimiter() + data_frame(payload) + tail =~= bad + delimiter() + behind);
    lemma_delimited_frame_first(bad, behind);
    lemma_data_frame_first(payload, tail);
}

/// True when `tail` is what is left of `whole` once bytes have gone from its
/// front.
pub open spec fn is_tail_of(tail: Seq<u8>, whole: Seq<u8>) -> bool {
    exists|gone: int| 0 <= gone <= whole.len() && tail == #[trigger] whole.skip(gone)
}

/// The buffer changes in two ways only: bytes that arrive join its end, and
/// frames leave from its front. No byte is reordered, and none is added.
pub proof fn law_buffer_is_a_tail(held: StreamView, chunk: Seq<u8>)
    requires
        held.wf(),
    ensures
        is_tail_of(held.poll_next().0.buf, held.buf),
        is_tail_of(held.feed(chunk).0.buf, held.buf + chunk),
{
    let grown = held.buf + chunk;
    assert(held.buf == held.buf.skip(0));
    assert(grown == grown.skip(0));
    assert(Seq::<u8>::empty() =~= held.buf.skip(held.buf.len() as int));
    assert(Seq::<u8>::empty() =~= grown.skip(grown.len() as int));
    if has_frame(held.buf) {
        lemma_frame_len(held.buf);
    }
    if has_frame(grown) {
        lemma_frame_len(grown);
    }
}

/// A decoder at its end stays there: every pull answers that the stream is
/// finished, without a failure, however many pulls came before.
pub proof fn law_end_is_final(stream: StreamView, n: nat)
    requires
        stream.state is Exhausted,
    ensures
        after_pulls(stream, n) == stream,
        after_pulls(stream, n).poll_next() == (stream, PullView::Finished),
    decreases n,
{
    if n > 0 {
        law_end_is_final(stream, (n - 1) as nat);
    }
}

/// Every step leaves a decoder as it should be: the buffer is text, and the
/// state says whether a complete frame is buffered.
pub proof fn law_steps_keep_shape(held: StreamView, chunk: Seq<u8>)
    requires
        held.wf(),
    ensures
        held.poll_next().0.wf(),
        held.feed(chunk).0.wf(),
{
    if has_frame(held.buf) {
        lemma_frame_is_text(held.buf);
    }
    if valid_utf8(chunk) {
        valid_utf8_concat(held.buf, chunk);
        if has_frame(held.buf + chunk) {
            lemma_frame_is_text(held.buf + chunk);
        }
    }
}

} // verus!
