//! The consumer's side: an indexed frame store filled from decoder messages,
//! and the playback cursor that walks it in time.
use vstd::prelude::*;
use crate::message::{LoadingMessage, is_frame_at, is_complete_stream};

verus! {

/// A frame ready for display.
pub struct Frame {
    /// RGBA bytes, four per pixel.
    pub pixels: Vec<u8>,
    /// `[width, height]` in pixels.
    pub size: [usize; 2],
    /// How long the frame stays on screen, in milliseconds.
    pub delay_ms: u64,
}

/// The abstract state of a [`FrameStore`].
pub struct StoreState {
    pub slots: Seq<Option<Frame>>,
    pub cursor: nat,
    pub last_ms: nat,
    pub first_ready: bool,
    pub complete: bool,
    pub total: nat,
    pub loaded: nat,
}

/// Number of slots of `s` that hold a frame.
pub open spec fn filled(s: Seq<Option<Frame>>) -> nat
    decreases s.len(),
{
    if s.len() == 0 {
        0
    } else {
        filled(s.drop_last()) + if s.last() is Some { 1nat } else { 0nat }
    }
}

/// `s` extended with empty slots until it has at least `n` of them.
pub open spec fn grown(s: Seq<Option<Frame>>, n: int) -> Seq<Option<Frame>>
    decreases n - s.len(),
{
    if s.len() >= n {
        s
    } else {
        grown(s.push(None), n)
    }
}

/// The store as it is before any message: empty, cursor at zero.
pub open spec fn initial_state(start_ms: nat) -> StoreState {
    StoreState {
        slots: Seq::empty(),
        cursor: 0,
        last_ms: start_ms,
        first_ready: false,
        complete: false,
        total: 0,
        loaded: 0,
    }
}

/// Well-formed states: the cursor points into the store once it is not
/// empty, and the counter and the flag agree with the stored frames.
pub open spec fn state_wf(s: StoreState) -> bool {
    &&& if s.slots.len() == 0 { s.cursor == 0 } else { s.cursor < s.slots.len() }
    &&& s.loaded == filled(s.slots)
    &&& s.first_ready == (s.loaded > 0)
}

/// Effect of one message. A frame is stored in its slot, the store growing
/// with empty slots as needed; a slot that already holds a frame keeps it.
/// Completion sets its flag and records the total.
pub open spec fn apply_message(s: StoreState, m: LoadingMessage) -> StoreState {
    match m {
        LoadingMessage::FrameReady(idx, px, size, delay) => {
            let g = grown(s.slots, idx + 1);
            if g[idx as int] is Some {
                StoreState { slots: g, ..s }
            } else {
                StoreState {
                    slots: g.update(idx as int, Some(Frame { pixels: px, size: size, delay_ms: delay })),
                    loaded: s.loaded + 1,
                    first_ready: true,
                    ..s
                }
            }
        },
        LoadingMessage::LoadingComplete(total) => StoreState { complete: true, total: total as nat, ..s },
    }
}

/// Effect of a batch of messages, applied in order.
pub open spec fn apply_all(s: StoreState, msgs: Seq<LoadingMessage>) -> StoreState
    decreases msgs.len(),
{
    if msgs.len() == 0 {
        s
    } else {
        apply_message(apply_all(s, msgs.drop_last()), msgs.last())
    }
}

/// Every frame index in `msgs` leaves room for one more slot.
pub open spec fn indices_fit(msgs: Seq<LoadingMessage>) -> bool {
    forall|i: int| 0 <= i < msgs.len() ==> #[trigger] index_fits(msgs[i])
}

pub open spec fn index_fits(m: LoadingMessage) -> bool {
    match m {
        LoadingMessage::FrameReady(idx, _, _, _) => idx < usize::MAX,
        LoadingMessage::LoadingComplete(_) => true,
    }
}

/// Time since `last`, zero if the clock reads earlier.
pub open spec fn elapsed(now: int, last: int) -> int {
    if now >= last {
        now - last
    } else {
        0
    }
}

/// The frame under the cursor, if the store is not empty and that slot holds one.
pub open spec fn current_of(s: StoreState) -> Option<Frame> {
    if s.slots.len() == 0 {
        None
    } else {
        s.slots[s.cursor as int]
    }
}

/// Playback at time `now`: once the first frame is ready and the current
/// frame has been shown for its delay, the cursor moves to
/// `(cursor + 1) mod length`, whether or not that slot holds a frame.
pub open spec fn advanced(s: StoreState, now: nat) -> StoreState {
    match current_of(s) {
        Some(f) => if s.first_ready && elapsed(now as int, s.last_ms as int) >= f.delay_ms {
            StoreState { cursor: ((s.cursor + 1) % s.slots.len()) as nat, last_ms: now, ..s }
        } else {
            s
        },
        None => s,
    }
}

/// `max(0, delay - elapsed)` for the current frame; none without one.
pub open spec fn wait_of(s: StoreState, now: nat) -> Option<int> {
    match current_of(s) {
        Some(f) => Some(
            if f.delay_ms >= elapsed(now as int, s.last_ms as int) {
                f.delay_ms - elapsed(now as int, s.last_ms as int)
            } else {
                0
            },
        ),
        None => None,
    }
}

proof fn lemma_filled_le_len(s: Seq<Option<Frame>>)
    ensures
        filled(s) <= s.len(),
    decreases s.len(),
{
    if s.len() > 0 {
        lemma_filled_le_len(s.drop_last());
    }
}

proof fn lemma_filled_update(s: Seq<Option<Frame>>, i: int, f: Frame)
    requires
        0 <= i < s.len(),
        s[i] is None,
    ensures
        filled(s.update(i, Some(f))) == filled(s) + 1,
    decreases s.len(),
{
    let t = s.update(i, Some(f));
    if i == s.len() - 1 {
        assert(t.drop_last() =~= s.drop_last());
    } else {
        assert(t.drop_last() =~= s.drop_last().update(i, Some(f)));
        lemma_filled_update(s.drop_last(), i, f);
    }
}

proof fn lemma_grown(s: Seq<Option<Frame>>, n: int)
    ensures
        grown(s, n).len() == if s.len() >= n { s.len() as int } else { n },
        forall|i: int| 0 <= i < s.len() ==> #[trigger] grown(s, n)[i] == s[i],
        forall|i: int| s.len() <= i < grown(s, n).len() ==> #[trigger] grown(s, n)[i] is None,
        filled(grown(s, n)) == filled(s),
    decreases n - s.len(),
{
    if s.len() < n {
        let t = s.push(None);
        assert(t.drop_last() =~= s);
        lemma_grown(t, n);
    }
}

proof fn lemma_apply_message_wf(s: StoreState, m: LoadingMessage)
    requires
        state_wf(s),
        index_fits(m),
    ensures
        state_wf(apply_message(s, m)),
        apply_message(s, m).cursor == s.cursor,
        apply_message(s, m).last_ms == s.last_ms,
        apply_message(s, m).loaded <= apply_message(s, m).slots.len(),
{
    match m {
        LoadingMessage::FrameReady(idx, px, size, delay) => {
            lemma_grown(s.slots, idx + 1);
            let g = grown(s.slots, idx + 1);
            lemma_filled_le_len(g);
            if g[idx as int] is None {
                let f = Frame { pixels: px, size: size, delay_ms: delay };
                lemma_filled_update(g, idx as int, f);
                lemma_filled_le_len(g.update(idx as int, Some(f)));
            }
        },
        LoadingMessage::LoadingComplete(_) => {
            lemma_filled_le_len(s.slots);
        },
    }
}

/// Draining with nothing pending changes nothing, so draining a second time
/// with no new messages leaves the store as the first drain left it.
pub proof fn lemma_drain_idempotent(s: StoreState, msgs: Seq<LoadingMessage>)
    ensures
        apply_all(s, Seq::empty()) == s,
        apply_all(apply_all(s, msgs), Seq::empty()) == apply_all(s, msgs),
{
}

/// The "first frame ready" and "loading complete" flags never go back to
/// false: not through any batch of messages, nor through playback.
pub proof fn lemma_flags_monotonic(s: StoreState, msgs: Seq<LoadingMessage>, now: nat)
    ensures
        s.first_ready ==> apply_all(s, msgs).first_ready,
        s.complete ==> apply_all(s, msgs).complete,
        advanced(s, now).first_ready == s.first_ready,
        advanced(s, now).complete == s.complete,
    decreases msgs.len(),
{
    if msgs.len() > 0 {
        lemma_flags_monotonic(s, msgs.drop_last(), now);
    }
}

/// The store never shrinks, and a slot that holds a frame keeps that same
/// frame through any batch of messages and through playback.
pub proof fn lemma_slots_persist(s: StoreState, msgs: Seq<LoadingMessage>, now: nat)
    ensures
        apply_all(s, msgs).slots.len() >= s.slots.len(),
        forall|i: int|
            0 <= i < s.slots.len() && s.slots[i] is Some ==> #[trigger] apply_all(s, msgs).slots[i]
                == s.slots[i],
        advanced(s, now).slots == s.slots,
    decreases msgs.len(),
{
    if msgs.len() > 0 {
        lemma_slots_persist(s, msgs.drop_last(), now);
        let p = apply_all(s, msgs.drop_last());
        match msgs.last() {
            LoadingMessage::FrameReady(idx, _, _, _) => {
                lemma_grown(p.slots, idx + 1);
            },
            LoadingMessage::LoadingComplete(_) => {},
        }
        assert forall|i: int| 0 <= i < s.slots.len() && s.slots[i] is Some implies #[trigger] apply_all(
            s,
            msgs,
        ).slots[i] == s.slots[i] by {
            assert(p.slots[i] == s.slots[i]);
        }
    }
}

proof fn lemma_stream_prefix(start: nat, msgs: Seq<LoadingMessage>, n: int, k: int)
    requires
        is_complete_stream(msgs, n),
        0 <= k <= n,
    ensures
        ({
            let r = apply_all(initial_state(start), msgs.take(k));
            &&& r.slots.len() == k
            &&& forall|i: int| 0 <= i < k ==> #[trigger] r.slots[i] is Some
            &&& r.loaded == k
            &&& r.first_ready == (k > 0)
            &&& !r.complete
        }),
    decreases k,
{
    if k == 0 {
        assert(msgs.take(0) =~= Seq::<LoadingMessage>::empty());
    } else {
        lemma_stream_prefix(start, msgs, n, k - 1);
        assert(msgs.take(k).drop_last() =~= msgs.take(k - 1));
        assert(is_frame_at(msgs[k - 1], k - 1));
        let p = apply_all(initial_state(start), msgs.take(k - 1));
        lemma_grown(p.slots, k);
    }
}

/// A stream of `n` frames numbered `0..n` followed by completion with `n`,
/// applied to an empty store, leaves `n` slots that all hold a frame, the
/// counter at `n`, both flags set (the first one if there was a frame) and
/// the total at `n`.
pub proof fn lemma_complete_stream_loads_all(start: nat, msgs: Seq<LoadingMessage>, n: int)
    requires
        is_complete_stream(msgs, n),
        0 <= n,
    ensures
        ({
            let r = apply_all(initial_state(start), msgs);
            &&& r.slots.len() == n
            &&& forall|i: int| 0 <= i < n ==> #[trigger] r.slots[i] is Some
            &&& r.loaded == n
            &&& r.first_ready == (n > 0)
            &&& r.complete
            &&& r.total == n
        }),
{
    lemma_stream_prefix(start, msgs, n, n);
    assert(msgs.drop_last() =~= msgs.take(n));
}

/// An indexed, growable store of decoded frames with a playback cursor.
pub struct FrameStore {
    frames: Vec<Option<Frame>>,
    current: usize,
    last_transition_ms: u64,
    first_frame_loaded: bool,
    loading_complete: bool,
    total_frames: usize,
    frames_loaded: usize,
}

impl View for FrameStore {
    type V = StoreState;

    closed spec fn view(&self) -> StoreState {
        StoreState {
            slots: self.frames@,
            cursor: self.current as nat,
            last_ms: self.last_transition_ms as nat,
            first_ready: self.first_frame_loaded,
            complete: self.loading_complete,
            total: self.total_frames as nat,
            loaded: self.frames_loaded as nat,
        }
    }
}

impl FrameStore {
    pub open spec fn wf(&self) -> bool {
        state_wf(self@)
    }

    /// An empty store whose playback clock starts at `start_ms`.
    pub fn new(start_ms: u64) -> (r: FrameStore)
        ensures
            r.wf(),
            r@ == initial_state(start_ms as nat),
    {
        let r = FrameStore {
            frames: Vec::new(),
            current: 0,
            last_transition_ms: start_ms,
            first_frame_loaded: false,
            loading_complete: false,
            total_frames: 0,
            frames_loaded: 0,
        };
        assert(r.frames@ =~= Seq::<Option<Frame>>::empty());
        r
    }

    /// Applies one message: a frame is stored at its index (growing the
    /// store with empty slots), completion is recorded.
    pub fn apply(&mut self, msg: LoadingMessage)
        requires
            old(self).wf(),
            index_fits(msg),
        ensures
            final(self).wf(),
            final(self)@ == apply_message(old(self)@, msg),
    {
        proof {
            lemma_apply_message_wf(self@, msg);
        }
        match msg {
            LoadingMessage::FrameReady(idx, pixels, size, delay_ms) => {
                let ghost st = self@;
                let ghost s0 = self.frames@;
                while self.frames.len() <= idx
                    invariant
                        idx < usize::MAX,
                        grown(self.frames@, idx + 1) == grown(s0, idx + 1),
                        self@ == (StoreState { slots: self.frames@, ..st }),
                    decreases idx + 1 - self.frames@.len(),
                {
                    self.frames.push(None);
                }
                proof {
                    lemma_grown(s0, idx + 1);
                    assert(self.frames@ == grown(s0, idx + 1));
                    lemma_filled_le_len(self.frames@);
                    if self.frames@[idx as int] is None {
                        lemma_filled_update(
                            self.frames@,
                            idx as int,
                            Frame { pixels: pixels, size: size, delay_ms: delay_ms },
                        );
                        lemma_filled_le_len(
                            self.frames@.update(
                                idx as int,
                                Some(Frame { pixels: pixels, size: size, delay_ms: delay_ms }),
                            ),
                        );
                    }
                }
                if self.frames[idx].is_none() {
                    self.frames.set(idx, Some(Frame { pixels, size, delay_ms }));
                    self.frames_loaded = self.frames_loaded + 1;
                    self.first_frame_loaded = true;
                }
            },
            LoadingMessage::LoadingComplete(total) => {
                self.loading_complete = true;
                self.total_frames = total;
            },
        }
    }

    /// Applies every pending message, in order. With nothing pending the
    /// store is left as it was.
    pub fn drain(&mut self, pending: Vec<LoadingMessage>)
        requires
            old(self).wf(),
            indices_fit(pending@),
        ensures
            final(self).wf(),
            final(self)@ == apply_all(old(self)@, pending@),
    {
        let ghost s0 = self@;
        let ghost all = pending@;
        let mut pending = pending;
        let n: usize = pending.len();
        let mut k: usize = 0;
        while pending.len() > 0
            invariant
                all.len() == n,
                self.wf(),
                indices_fit(all),
                k + pending@.len() == all.len(),
                pending@ == all.skip(k as int),
                self@ == apply_all(s0, all.take(k as int)),
            decreases pending@.len(),
        {
            let m = pending.remove(0);
            proof {
                assert(all[k as int] == m);
                assert(index_fits(all[k as int]));
                assert(all.take(k + 1).drop_last() =~= all.take(k as int));
                assert(pending@ =~= all.skip(k + 1));
            }
            self.apply(m);
            k = k + 1;
        }
        proof {
            assert(all.take(k as int) =~= all);
        }
    }

    /// Moves playback on to `now_ms`: if the current frame has been shown
    /// for at least its delay, the cursor moves to the next slot (wrapping)
    /// and the transition time becomes `now_ms`.
    pub fn advance(&mut self, now_ms: u64)
        requires
            old(self).wf(),
        ensures
            final(self).wf(),
            final(self)@ == advanced(old(self)@, now_ms as nat),
    {
        if self.frames.len() == 0 || !self.first_frame_loaded {
            return;
        }
        let delay: Option<u64> = match &self.frames[self.current] {
            Some(f) => Some(f.delay_ms),
            None => None,
        };
        match delay {
            Some(d) => {
                let waited: u64 = if now_ms >= self.last_transition_ms {
                    now_ms - self.last_transition_ms
                } else {
                    0
                };
                if waited >= d {
                    if let Some(next) = self.get_next_available_frame() {
                        self.current = next;
                        self.last_transition_ms = now_ms;
                    }
                }
            },
            None => {},
        }
    }

    /// Number of slots, filled or not.
    pub fn len(&self) -> (r: usize)
        ensures
            r == self@.slots.len(),
    {
        self.frames.len()
    }

    /// The frame stored at `index`, if that slot exists and holds one.
    pub fn frame(&self, index: usize) -> (r: Option<&Frame>)
        ensures
            match r {
                Some(f) => index < self@.slots.len() && self@.slots[index as int] == Some(*f),
                None => index >= self@.slots.len() || self@.slots[index as int] is None,
            },
    {
        if index < self.frames.len() {
            self.frames[index].as_ref()
        } else {
            None
        }
    }

    /// Index of the slot under the playback cursor.
    pub fn current_index(&self) -> (r: usize)
        ensures
            r == self@.cursor,
    {
        self.current
    }

    /// Time of the last transition, in milliseconds.
    pub fn last_transition_ms(&self) -> (r: u64)
        ensures
            r == self@.last_ms,
    {
        self.last_transition_ms
    }

    /// Whether a frame has been stored yet.
    pub fn is_first_frame_ready(&self) -> (r: bool)
        ensures
            r == self@.first_ready,
    {
        self.first_frame_loaded
    }

    /// Whether the decoder has announced completion.
    pub fn is_loading_complete(&self) -> (r: bool)
        ensures
            r == self@.complete,
    {
        self.loading_complete
    }

    /// The frame count that the decoder announced on completion (zero before).
    pub fn total_frames(&self) -> (r: usize)
        ensures
            r == self@.total,
    {
        self.total_frames
    }

    /// Number of frames stored so far.
    pub fn frames_loaded(&self) -> (r: usize)
        ensures
            r == self@.loaded,
    {
        self.frames_loaded
    }

    /// The slot that playback moves to next: `(cursor + 1) mod length`,
    /// whether or not that slot holds a frame; none while the store is empty.
    pub fn get_next_available_frame(&self) -> (r: Option<usize>)
        requires
            self.wf(),
        ensures
            self@.slots.len() == 0 ==> r is None,
            self@.slots.len() > 0 ==> r == Some(((self@.cursor + 1) % self@.slots.len()) as usize),
    {
        if self.frames.len() == 0 {
            None
        } else {
            Some((self.current + 1) % self.frames.len())
        }
    }

    /// The frame under the cursor; none if the store is empty or that slot
    /// has no frame yet.
    pub fn current_frame(&self) -> (r: Option<&Frame>)
        requires
            self.wf(),
        ensures
            match r {
                Some(f) => current_of(self@) == Some(*f),
                None => current_of(self@) is None,
            },
    {
        if self.frames.len() == 0 {
            None
        } else {
            self.frames[self.current].as_ref()
        }
    }

    /// How long until the current frame has been shown for its delay,
    /// `max(0, delay - elapsed)`; none while there is no current frame.
    pub fn time_until_next_transition(&self, now_ms: u64) -> (r: Option<u64>)
        requires
            self.wf(),
        ensures
            match r {
                Some(w) => wait_of(self@, now_ms as nat) == Some(w as int),
                None => wait_of(self@, now_ms as nat) is None,
            },
    {
        match self.current_frame() {
            Some(f) => {
                let waited: u64 = if now_ms >= self.last_transition_ms {
                    now_ms - self.last_transition_ms
                } else {
                    0
                };
                if f.delay_ms >= waited {
                    Some(f.delay_ms - waited)
                } else {
                    Some(0)
                }
            },
            None => None,
        }
    }
}

} // verus!
