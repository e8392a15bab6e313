use gif_overlay::message::{LoadingMessage, RawFrame};
use gif_overlay::pixel::{Opacity, Scale, MIN_SCALE, UNIT};
use gif_overlay::producer::FrameProducer;
use gif_overlay::store::FrameStore;
use std::sync::mpsc::channel;

fn raw(width: usize, height: usize, delay_ms: u64, alpha: u8) -> RawFrame {
    let mut rgba = Vec::new();
    for i in 0..width * height {
        rgba.push(i as u8);
        rgba.push(10);
        rgba.push(20);
        rgba.push(alpha);
    }
    RawFrame { width, height, rgba, delay_ms }
}

fn frame_msg(index: usize, delay_ms: u64) -> LoadingMessage {
    LoadingMessage::FrameReady(index, vec![1, 2, 3, 255], [1, 1], delay_ms)
}

fn index_of(m: &LoadingMessage) -> Option<usize> {
    match m {
        LoadingMessage::FrameReady(i, _, _, _) => Some(*i),
        LoadingMessage::LoadingComplete(_) => None,
    }
}

#[test]
fn stream_of_n_frames_then_completion() {
    let (tx, rx) = channel();
    let mut p = FrameProducer::new(Opacity::from_micros(UNIT as i64));
    for _ in 0..4 {
        tx.send(p.frame_ready(raw(2, 2, 50, 200))).unwrap();
    }
    tx.send(p.complete()).unwrap();
    assert!(p.finished());
    let mut got = Vec::new();
    while let Ok(m) = rx.try_recv() {
        got.push(m);
    }
    assert_eq!(got.len(), 5);
    for (i, m) in got.iter().take(4).enumerate() {
        assert_eq!(index_of(m), Some(i));
    }
    assert!(matches!(got[4], LoadingMessage::LoadingComplete(4)));

    let mut store = FrameStore::new(0);
    store.drain(got);
    assert_eq!(store.len(), 4);
    assert_eq!(store.frames_loaded(), 4);
    assert!(store.is_first_frame_ready());
    assert!(store.is_loading_complete());
    assert_eq!(store.total_frames(), 4);
    for i in 0..4 {
        assert!(store.frame(i).is_some());
    }
}

#[test]
fn empty_source_sends_only_completion() {
    let mut p = FrameProducer::new(Opacity::from_micros(0));
    let m = p.complete();
    assert!(matches!(m, LoadingMessage::LoadingComplete(0)));
    assert_eq!(p.frames_sent(), 0);
    let mut store = FrameStore::new(0);
    store.drain(vec![m]);
    assert_eq!(store.len(), 0);
    assert!(!store.is_first_frame_ready());
    assert!(store.is_loading_complete());
    assert!(store.current_frame().is_none());
    assert_eq!(store.time_until_next_transition(10), None);
    assert_eq!(store.get_next_available_frame(), None);
}

#[test]
fn frame_message_carries_size_delay_and_scaled_alpha() {
    let mut p = FrameProducer::new(Opacity::from_micros(500_000));
    let m = p.frame_ready(raw(2, 1, 70, 255));
    match m {
        LoadingMessage::FrameReady(i, px, size, delay) => {
            assert_eq!(i, 0);
            assert_eq!(size, [2, 1]);
            assert_eq!(delay, 70);
            assert_eq!(px, vec![0, 10, 20, 127, 1, 10, 20, 127]);
        }
        LoadingMessage::LoadingComplete(_) => panic!("expected a frame"),
    }
    assert_eq!(p.frames_sent(), 1);
    assert!(!p.finished());
}

#[test]
fn opacity_clamps_to_unit_interval() {
    assert_eq!(Opacity::from_micros(1_500_000), Opacity::from_micros(1_000_000));
    assert_eq!(Opacity::from_micros(-500_000), Opacity::from_micros(0));
    assert_eq!(Opacity::from_micros(1_500_000).micros(), 1_000_000);
    assert_eq!(Opacity::from_micros(-500_000).micros(), 0);
    assert_eq!(Opacity::from_micros(250_000).micros(), 250_000);
    let full = Opacity::from_micros(1_500_000);
    let none = Opacity::from_micros(-500_000);
    for a in [0u8, 1, 128, 255] {
        assert_eq!(full.scale_alpha(a), a);
        assert_eq!(none.scale_alpha(a), 0);
    }
}

#[test]
fn alpha_is_floor_of_product() {
    let half = Opacity::from_micros(500_000);
    assert_eq!(half.scale_alpha(255), 127);
    assert_eq!(half.scale_alpha(1), 0);
    let third = Opacity::from_micros(300_000);
    assert_eq!(third.scale_alpha(200), 60);
    assert_eq!(third.scale_alpha(9), 2);
    let almost = Opacity::from_micros(999_999);
    assert_eq!(almost.scale_alpha(255), 254);
}

#[test]
fn transform_keeps_colour_and_scales_alpha() {
    let o = Opacity::from_micros(500_000);
    let src = vec![9, 8, 7, 200, 1, 2, 3, 101];
    assert_eq!(o.transform_pixels(&src), vec![9, 8, 7, 100, 1, 2, 3, 50]);
    assert_eq!(o.transform_pixels(&Vec::new()), Vec::<u8>::new());
}

#[test]
fn scale_floors_at_a_tenth() {
    assert_eq!(Scale::from_micros(0), Scale::from_micros(100_000));
    assert_eq!(Scale::from_micros(-2_000_000), Scale::from_micros(100_000));
    assert_eq!(Scale::from_micros(0).micros(), MIN_SCALE);
    assert_eq!(Scale::from_micros(2_500_000).micros(), 2_500_000);
}

#[test]
fn playback_cycles_through_delays() {
    let mut store = FrameStore::new(0);
    store.drain(vec![frame_msg(0, 100), frame_msg(1, 200), frame_msg(2, 300)]);
    let mut seen = Vec::new();
    for t in [50u64, 150, 350, 650] {
        store.advance(t);
        seen.push(store.current_index());
    }
    assert_eq!(seen, vec![0, 1, 2, 0]);
    assert_eq!(store.last_transition_ms(), 650);
}

#[test]
fn wait_until_next_transition() {
    let mut store = FrameStore::new(1000);
    assert_eq!(store.time_until_next_transition(1000), None);
    store.apply(frame_msg(0, 100));
    assert_eq!(store.time_until_next_transition(1030), Some(70));
    assert_eq!(store.time_until_next_transition(1200), Some(0));
    assert_eq!(store.time_until_next_transition(900), Some(100));
}

#[test]
fn single_frame_wraps_to_itself() {
    let mut store = FrameStore::new(0);
    store.apply(frame_msg(0, 10));
    assert_eq!(store.get_next_available_frame(), Some(0));
    store.advance(10);
    assert_eq!(store.current_index(), 0);
    assert_eq!(store.last_transition_ms(), 10);
}

#[test]
fn clock_before_last_transition_counts_as_no_time() {
    let mut store = FrameStore::new(500);
    store.drain(vec![frame_msg(0, 0), frame_msg(1, 10)]);
    store.advance(100);
    assert_eq!(store.current_index(), 1);
    assert_eq!(store.last_transition_ms(), 100);
}

#[test]
fn drain_twice_changes_nothing() {
    let mut store = FrameStore::new(0);
    store.drain(vec![frame_msg(0, 100), frame_msg(1, 100), LoadingMessage::LoadingComplete(2)]);
    store.advance(120);
    let before = (
        store.len(),
        store.current_index(),
        store.last_transition_ms(),
        store.is_first_frame_ready(),
        store.is_loading_complete(),
        store.total_frames(),
        store.frames_loaded(),
    );
    store.drain(Vec::new());
    store.drain(Vec::new());
    let after = (
        store.len(),
        store.current_index(),
        store.last_transition_ms(),
        store.is_first_frame_ready(),
        store.is_loading_complete(),
        store.total_frames(),
        store.frames_loaded(),
    );
    assert_eq!(before, after);
}

#[test]
fn flags_never_revert() {
    let mut store = FrameStore::new(0);
    assert!(!store.is_first_frame_ready());
    assert!(!store.is_loading_complete());
    store.drain(vec![frame_msg(0, 5)]);
    assert!(store.is_first_frame_ready());
    assert!(!store.is_loading_complete());
    store.drain(vec![LoadingMessage::LoadingComplete(1)]);
    for t in [5u64, 10, 20] {
        store.drain(Vec::new());
        store.advance(t);
        assert!(store.is_first_frame_ready());
        assert!(store.is_loading_complete());
    }
    store.drain(vec![frame_msg(0, 7)]);
    assert!(store.is_first_frame_ready());
    assert!(store.is_loading_complete());
}

#[test]
fn gap_in_store_gives_no_current_frame() {
    let mut store = FrameStore::new(0);
    store.drain(vec![frame_msg(0, 100), frame_msg(2, 100)]);
    assert_eq!(store.len(), 3);
    assert!(store.frame(1).is_none());
    assert_eq!(store.frames_loaded(), 2);
    store.advance(100);
    assert_eq!(store.current_index(), 1);
    assert!(store.current_frame().is_none());
    assert_eq!(store.time_until_next_transition(150), None);
    store.advance(1000);
    assert_eq!(store.current_index(), 1);
    store.apply(frame_msg(1, 40));
    assert_eq!(store.current_frame().map(|f| f.delay_ms), Some(40));
}

#[test]
fn slot_once_filled_keeps_its_frame() {
    let mut store = FrameStore::new(0);
    store.apply(frame_msg(0, 100));
    store.apply(LoadingMessage::FrameReady(0, vec![9, 9, 9, 9], [1, 1], 999));
    assert_eq!(store.frames_loaded(), 1);
    let f = store.frame(0).unwrap();
    assert_eq!(f.delay_ms, 100);
    assert_eq!(f.pixels, vec![1, 2, 3, 255]);
    assert_eq!(f.size, [1, 1]);
}
