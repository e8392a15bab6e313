//! The decoder's side of the pipeline: numbering frames, applying the
//! opacity, and announcing completion.
use vstd::prelude::*;
use crate::message::{LoadingMessage, RawFrame, is_frame_at, is_complete_with, is_complete_stream};
use crate::pixel::{Opacity, transformed};
use crate::store::{apply_all, initial_state, lemma_complete_stream_loads_all};

verus! {

/// Turns decoded frames into messages, in decode order.
pub struct FrameProducer {
    opacity: Opacity,
    next_index: usize,
    finished: bool,
    sent: Ghost<Seq<LoadingMessage>>,
}

impl FrameProducer {
    /// Number of frames announced so far.
    pub closed spec fn count(&self) -> nat {
        self.next_index as nat
    }

    pub closed spec fn is_finished(&self) -> bool {
        self.finished
    }

    pub closed spec fn opacity(&self) -> Opacity {
        self.opacity
    }

    /// Every message handed out so far, in order.
    pub closed spec fn sent(&self) -> Seq<LoadingMessage> {
        self.sent@
    }

    pub closed spec fn wf(&self) -> bool {
        &&& self.sent@.len() == self.next_index + if self.finished { 1int } else { 0int }
        &&& forall|i: int| 0 <= i < self.next_index ==> #[trigger] is_frame_at(self.sent@[i], i)
        &&& self.finished ==> is_complete_with(self.sent@[self.next_index as int], self.next_index as int)
    }

    /// A producer that has sent nothing yet.
    pub fn new(opacity: Opacity) -> (r: FrameProducer)
        ensures
            r.wf(),
            r.count() == 0,
            !r.is_finished(),
            r.opacity() == opacity,
            r.sent() == Seq::<LoadingMessage>::empty(),
    {
        FrameProducer { opacity, next_index: 0, finished: false, sent: Ghost(Seq::empty()) }
    }

    /// Number of frames announced so far.
    pub fn frames_sent(&self) -> (r: usize)
        ensures
            r == self.count(),
    {
        self.next_index
    }

    /// Whether the completion message has been handed out.
    pub fn finished(&self) -> (r: bool)
        ensures
            r == self.is_finished(),
    {
        self.finished
    }

    /// The message for the next decoded frame: its index is the number of
    /// frames before it, its alpha is scaled by the opacity.
    pub fn frame_ready(&mut self, raw: RawFrame) -> (m: LoadingMessage)
        requires
            old(self).wf(),
            !old(self).is_finished(),
            old(self).count() < usize::MAX,
        ensures
            final(self).wf(),
            final(self).count() == old(self).count() + 1,
            !final(self).is_finished(),
            final(self).opacity() == old(self).opacity(),
            final(self).sent() == old(self).sent().push(m),
            match m {
                LoadingMessage::FrameReady(idx, px, size, delay) => {
                    &&& idx == old(self).count()
                    &&& transformed(raw.rgba@, px@, old(self).opacity().value())
                    &&& size@ == seq![raw.width, raw.height]
                    &&& delay == raw.delay_ms
                },
                LoadingMessage::LoadingComplete(_) => false,
            },
    {
        let pixels = self.opacity.transform_pixels(&raw.rgba);
        let m = LoadingMessage::FrameReady(self.next_index, pixels, [raw.width, raw.height], raw.delay_ms);
        proof {
            self.sent@ = self.sent@.push(m);
        }
        self.next_index = self.next_index + 1;
        m
    }

    /// The completion message, carrying the number of frames announced.
    pub fn complete(&mut self) -> (m: LoadingMessage)
        requires
            old(self).wf(),
            !old(self).is_finished(),
        ensures
            final(self).wf(),
            final(self).count() == old(self).count(),
            final(self).is_finished(),
            final(self).opacity() == old(self).opacity(),
            final(self).sent() == old(self).sent().push(m),
            m == LoadingMessage::LoadingComplete(old(self).count() as usize),
    {
        let m = LoadingMessage::LoadingComplete(self.next_index);
        proof {
            self.sent@ = self.sent@.push(m);
        }
        self.finished = true;
        m
    }
}

/// Once the producer has finished after `n` frames, what it sent is `n` frame
/// messages numbered `0..n` in order, followed by exactly one completion
/// message carrying `n`; delivered in that order to an empty store, it leaves
/// all `n` frames stored, the counter at `n` and loading complete with `n`.
pub proof fn lemma_finished_stream(p: &FrameProducer, start: nat)
    requires
        p.wf(),
        p.is_finished(),
    ensures
        is_complete_stream(p.sent(), p.count() as int),
        ({
            let r = apply_all(initial_state(start), p.sent());
            &&& r.slots.len() == p.count()
            &&& forall|i: int| 0 <= i < p.count() ==> #[trigger] r.slots[i] is Some
            &&& r.loaded == p.count()
            &&& r.first_ready == (p.count() > 0)
            &&& r.complete
            &&& r.total == p.count()
        }),
{
    lemma_complete_stream_loads_all(start, p.sent(), p.count() as int);
}

} // verus!
