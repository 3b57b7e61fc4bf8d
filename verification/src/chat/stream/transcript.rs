//! What a whole response amounts to: the deliveries that its chunks give
//! rise to, whatever way the response was cut into chunks.

use vstd::prelude::*;
use vstd::utf8::valid_utf8;

use super::frame::{
    after_frame, classify, first_frame, has_frame, lemma_append_keeps_frame, lemma_frame_len,
    FrameView,
};
use super::{ChatCompletionChunkStream, DecodeError, Pull, StreamState};

verus! {

/// What the caller of a stream receives from a pull that delivers.
#[derive(Clone, Debug, PartialEq, Eq)]
pub enum Delivery {
    /// The payload of a data frame.
    Event(Vec<u8>),
    /// A failure.
    Failed(DecodeError),
}

/// The mathematical value of a [`Delivery`].
pub enum DeliveryView {
    Event(Seq<u8>),
    Failed(DecodeError),
}

impl View for Delivery {
    type V = DeliveryView;

    open spec fn view(&self) -> DeliveryView {
        match self {
            Delivery::Event(payload) => DeliveryView::Event(payload@),
            Delivery::Failed(error) => DeliveryView::Failed(*error),
        }
    }
}

/// The values of a run of deliveries.
pub open spec fn delivery_views(out: Seq<Delivery>) -> Seq<DeliveryView> {
    out.map_values(|d: Delivery| d@)
}

/// The values of a run of chunks.
pub open spec fn chunk_views(chunks: Seq<Vec<u8>>) -> Seq<Seq<u8>> {
    chunks.map_values(|c: Vec<u8>| c@)
}

/// What the complete frames of a text amount to.
pub struct Drained {
    /// One delivery for each frame before the end marker, in order.
    pub deliveries: Seq<DeliveryView>,
    /// Whether the end marker is among the frames.
    pub ended: bool,
    /// Without an end marker: what follows the last complete frame.
    pub rest: Seq<u8>,
}

impl Drained {
    /// The same, behind one more delivery.
    pub open spec fn behind(self, first: DeliveryView) -> Drained {
        Drained { deliveries: seq![first] + self.deliveries, ended: self.ended, rest: self.rest }
    }

    /// The same, followed by what `later` amounts to, unless the end marker
    /// came first.
    pub open spec fn followed_by(self, later: Drained) -> Drained {
        if self.ended {
            self
        } else {
            Drained {
                deliveries: self.deliveries + later.deliveries,
                ended: later.ended,
                rest: later.rest,
            }
        }
    }
}

/// Takes the complete frames of `text` one after the other, up to the end
/// marker.
pub open spec fn drain(text: Seq<u8>) -> Drained
    decreases text.len(),
{
    if !has_frame(text) {
        Drained { deliveries: Seq::empty(), ended: false, rest: text }
    } else {
        proof {
            lemma_frame_len(text);
        }
        match classify(first_frame(text)) {
            FrameView::Done => Drained { deliveries: Seq::empty(), ended: true, rest: Seq::empty() },
            FrameView::Data(payload) => drain(after_frame(text)).behind(
                DeliveryView::Event(payload),
            ),
            FrameView::MalformedFrame => drain(after_frame(text)).behind(
                DeliveryView::Failed(DecodeError::MalformedFrame),
            ),
            FrameView::MalformedPayload => drain(after_frame(text)).behind(
                DeliveryView::Failed(DecodeError::MalformedPayload),
            ),
        }
    }
}

/// Draining a text and then what arrives behind it is draining the two
/// together: where the text was cut does not matter.
pub proof fn lemma_drain_append(text: Seq<u8>, more: Seq<u8>)
    ensures
        drain(text + more) == drain(text).followed_by(drain(drain(text).rest + more)),
    decreases text.len(),
{
    if has_frame(text) {
        lemma_frame_len(text);
        lemma_append_keeps_frame(text, more);
        let after = after_frame(text);
        lemma_drain_append(after, more);
        let d = drain(after);
        let e = drain(d.rest + more);
        assert forall|first: DeliveryView|
            (#[trigger] d.behind(first)).followed_by(e) == d.followed_by(e).behind(first) by {
            assert((seq![first] + d.deliveries) + e.deliveries =~= seq![first] + (d.deliveries
                + e.deliveries));
        }
    }
}

/// True when the first `n` of `chunks` are text.
pub open spec fn all_text(chunks: Seq<Seq<u8>>, n: int) -> bool {
    forall|j: int| 0 <= j < n ==> valid_utf8(#[trigger] chunks[j])
}

/// True when `n` is the number of chunks that a decoder can take: the first
/// `n` are text, and the one behind them, if any, is not.
pub open spec fn is_text_run(chunks: Seq<Seq<u8>>, n: int) -> bool {
    &&& 0 <= n <= chunks.len()
    &&& all_text(chunks, n)
    &&& n < chunks.len() ==> !valid_utf8(chunks[n])
}

/// How many chunks stand before the first one that is not text.
pub open spec fn text_run(chunks: Seq<Seq<u8>>) -> int {
    choose|n: int| is_text_run(chunks, n)
}

/// What a decoder delivers, pull after pull, to a caller that feeds it
/// `chunks` and pulls until the end.
///
/// The chunks that are text count as one text, wherever the cuts are: each
/// complete frame before the end marker gives one delivery. A chunk that is
/// not text ends the stream with a failure, unless the end marker came first.
pub open spec fn transcript(chunks: Seq<Seq<u8>>) -> Seq<DeliveryView> {
    let read = drain(chunks.take(text_run(chunks)).flatten());
    if text_run(chunks) < chunks.len() && !read.ended {
        read.deliveries.push(DeliveryView::Failed(DecodeError::InvalidText))
    } else {
        read.deliveries
    }
}

/// Behind `k` chunks of text the run of text ends somewhere.
proof fn lemma_text_run_ends(chunks: Seq<Seq<u8>>, k: int)
    requires
        0 <= k <= chunks.len(),
        all_text(chunks, k),
    ensures
        exists|n: int| k <= n && is_text_run(chunks, n),
    decreases chunks.len() - k,
{
    if k < chunks.len() && valid_utf8(chunks[k]) {
        lemma_text_run_ends(chunks, k + 1);
    } else {
        assert(is_text_run(chunks, k));
    }
}

/// The run of text is what `text_run` says, and it is the only one.
pub proof fn lemma_text_run(chunks: Seq<Seq<u8>>)
    ensures
        is_text_run(chunks, text_run(chunks)),
        forall|n: int| is_text_run(chunks, n) ==> n == text_run(chunks),
{
    lemma_text_run_ends(chunks, 0);
}

/// Once the end marker has come, chunks that follow change nothing.
proof fn lemma_ended_stays(chunks: Seq<Seq<u8>>, i: int, n: int)
    requires
        0 <= i <= n <= chunks.len(),
        drain(chunks.take(i).flatten()).ended,
    ensures
        drain(chunks.take(n).flatten()) == drain(chunks.take(i).flatten()),
    decreases n - i,
{
    if i < n {
        lemma_ended_stays(chunks, i, n - 1);
        lemma_take_flatten(chunks, n - 1);
        lemma_drain_append(chunks.take(n - 1).flatten(), chunks[n - 1]);
    }
}

/// One more chunk taken is its bytes added.
proof fn lemma_take_flatten(chunks: Seq<Seq<u8>>, i: int)
    requires
        0 <= i < chunks.len(),
    ensures
        chunks.take(i + 1).flatten() == chunks.take(i).flatten() + chunks[i],
{
    assert(chunks.take(i + 1) =~= chunks.take(i).push(chunks[i]));
    chunks.take(i).lemma_flatten_push(chunks[i]);
}

/// Feeds `chunks` to a new decoder, one for each pull that needs one, pulls
/// until the decoder is at its end or the chunks have run out, and returns
/// what the pulls delivered.
pub fn replay(chunks: &[Vec<u8>]) -> (out: Vec<Delivery>)
    ensures
        delivery_views(out@) == transcript(chunk_views(chunks@)),
{
    let ghost all = chunk_views(chunks@);
    let mut stream = ChatCompletionChunkStream::new();
    let mut out: Vec<Delivery> = Vec::new();
    let mut next: usize = 0;
    loop
        invariant
            all == chunk_views(chunks@),
            stream@.wf(),
            next <= chunks.len(),
            stream@.state is Exhausted ==> delivery_views(out@) == transcript(all),
            !(stream@.state is Exhausted) ==> {
                let fed = drain(all.take(next as int).flatten());
                let held = drain(stream@.buf);
                &&& all_text(all, next as int)
                &&& delivery_views(out@) + held.deliveries == fed.deliveries
                &&& held.ended == fed.ended
                &&& held.rest == fed.rest
            },
        decreases
            if stream@.state is Exhausted { 0int } else { 1int },
            chunks.len() - next,
            stream@.buf.len(),
    {
        let ghost before = stream@;
        let mut pull = stream.poll_next();
        proof {
            if has_frame(before.buf) {
                lemma_frame_len(before.buf);
            }
        }
        if let Pull::NeedChunk = pull {
            if next == chunks.len() {
                proof {
                    lemma_text_run(all);
                }
                stream.close();
                return out;
            }
            let chunk = chunks[next].as_slice();
            proof {
                lemma_take_flatten(all, next as int);
                lemma_drain_append(all.take(next as int).flatten(), chunk@);
                if !valid_utf8(chunk@) {
                    lemma_text_run(all);
                }
            }
            pull = stream.feed(chunk);
            next += 1;
        }
        match pull {
            Pull::Event { payload, wake: _ } => {
                out.push(Delivery::Event(payload));
            },
            Pull::Failed { error, wake: _ } => {
                out.push(Delivery::Failed(error));
            },
            Pull::Finished => {
                proof {
                    if !(before.state is Exhausted) {
                        lemma_text_run(all);
                        lemma_text_run_ends(all, next as int);
                        lemma_ended_stays(all, next as int, text_run(all));
                    }
                }
                return out;
            },
            Pull::Pending => {},
            Pull::NeedChunk => {},
        }
    }
}

} // verus!
