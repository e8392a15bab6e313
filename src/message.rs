//! What the decoder sends to the frame store.
use vstd::prelude::*;

verus! {

/// A message from the decoder to the frame store.
pub enum LoadingMessage {
    /// A decoded frame: index, RGBA pixels, `[width, height]`, delay in ms.
    FrameReady(usize, Vec<u8>, [usize; 2], u64),
    /// Decoding finished after the given number of frames.
    LoadingComplete(usize),
}

/// `m` announces the frame at index `i`.
pub open spec fn is_frame_at(m: LoadingMessage, i: int) -> bool {
    match m {
        LoadingMessage::FrameReady(idx, _, _, _) => idx == i,
        LoadingMessage::LoadingComplete(_) => false,
    }
}

/// `m` announces completion after `n` frames.
pub open spec fn is_complete_with(m: LoadingMessage, n: int) -> bool {
    match m {
        LoadingMessage::FrameReady(_, _, _, _) => false,
        LoadingMessage::LoadingComplete(total) => total == n,
    }
}

/// A stream of `n` frame messages with indices `0..n` in order, then one
/// completion message carrying `n`.
pub open spec fn is_complete_stream(msgs: Seq<LoadingMessage>, n: int) -> bool {
    &&& msgs.len() == n + 1
    &&& forall|i: int| 0 <= i < n ==> #[trigger] is_frame_at(msgs[i], i)
    &&& is_complete_with(msgs[n], n)
}

/// A frame as the decoder produced it, before the opacity is applied.
pub struct RawFrame {
    pub width: usize,
    pub height: usize,
    /// RGBA bytes, four per pixel.
    pub rgba: Vec<u8>,
    /// How long the frame stays on screen, in milliseconds.
    pub delay_ms: u64,
}

} // verus!
