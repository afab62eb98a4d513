use waypaper_engine::frame_pool::FramePool;
use waypaper_engine::frames::{OrderedFramesContainer, TimedVideoFrame};
use waypaper_engine::utils::Rational;
use waypaper_engine::video_wp_renderer::{PlaybackState, TickOutcome};

const FRAME_NS: u64 = 40_000_000;

fn frame(pool: &mut FramePool, rewind_count: u32, timestamp: i64, mark: u8) -> TimedVideoFrame {
    let mut h = pool.get_buffer();
    h.buffer_mut().set(0, mark);
    TimedVideoFrame::new(h, timestamp, rewind_count)
}

fn filled(pool: &mut FramePool, n: usize) -> OrderedFramesContainer {
    let mut queue = OrderedFramesContainer::with_capacity(32);
    for t in 0..n {
        queue.push(frame(pool, 0, t as i64, t as u8));
    }
    queue
}

#[test]
fn frame_comes_due_after_one_interval() {
    let p = PlaybackState::new(Rational::new(25, 1), 1_000);
    assert!(!p.is_due(1_000));
    assert!(!p.is_due(1_000 + FRAME_NS - 1));
    assert!(p.is_due(1_000 + FRAME_NS));
    assert!(!p.is_due(0));
}

#[test]
fn ntsc_rate_uses_numerator_and_denominator() {
    let p = PlaybackState::new(Rational::new(30000, 1001), 0);
    assert!(!p.is_due(33_366_666));
    assert!(p.is_due(33_366_667));
}

#[test]
fn degenerate_rates() {
    assert!(!PlaybackState::new(Rational::new(0, 1), 0).is_due(u64::MAX));
    assert!(PlaybackState::new(Rational::new(25, 0), 0).is_due(0));
    assert!(PlaybackState::new(Rational::new(0, 0), 0).is_due(0));
    assert!(PlaybackState::new(Rational::new(-25, 1), 0).is_due(0));
    assert!(PlaybackState::new(Rational::new(0, -1), 0).is_due(0));
    let both_negative = PlaybackState::new(Rational::new(-25, -1), 0);
    assert!(!both_negative.is_due(FRAME_NS - 1));
    assert!(both_negative.is_due(FRAME_NS));
    let extreme = PlaybackState::new(Rational::new(i32::MIN, i32::MIN), 0);
    assert!(!extreme.is_due(999_999_999));
    assert!(extreme.is_due(1_000_000_000));
}

#[test]
fn starved_first_tick_is_not_ready() {
    let mut p = PlaybackState::new(Rational::new(25, 1), 0);
    let mut queue = OrderedFramesContainer::with_capacity(20);
    assert!(matches!(p.tick(FRAME_NS, &mut queue), TickOutcome::NotReady));
    assert!(p.current().is_none());
    assert!(queue.is_empty());
}

#[test]
fn starvation_repeats_the_last_frame() {
    let mut pool = FramePool::new(1, 1, 20);
    let mut queue = filled(&mut pool, 16);
    let mut p = PlaybackState::new(Rational::new(25, 1), 0);
    assert!(matches!(p.tick(FRAME_NS, &mut queue), TickOutcome::Advanced(None)));
    assert_eq!(p.current().unwrap().buffer().as_bytes()[0], 0);
    queue.clear();
    for k in 2..6u64 {
        assert!(matches!(p.tick(k * FRAME_NS, &mut queue), TickOutcome::Repeated));
        assert_eq!(p.current().unwrap().buffer().as_bytes()[0], 0);
        assert!(queue.is_empty());
    }
}

#[test]
fn queue_below_the_low_water_mark_is_left_alone() {
    let mut pool = FramePool::new(1, 1, 20);
    let mut queue = filled(&mut pool, 15);
    let mut p = PlaybackState::new(Rational::new(25, 1), 0);
    assert!(matches!(p.tick(FRAME_NS, &mut queue), TickOutcome::NotReady));
    assert_eq!(queue.len(), 15);
    queue.push(frame(&mut pool, 0, 99, 99));
    // the tick above found a frame due and kept its time
    assert!(matches!(p.tick(FRAME_NS + 1, &mut queue), TickOutcome::NotReady));
    assert_eq!(queue.len(), 16);
    assert!(matches!(p.tick(2 * FRAME_NS, &mut queue), TickOutcome::Advanced(None)));
    assert_eq!(queue.len(), 15);
}

#[test]
fn tick_before_the_interval_does_not_touch_the_queue() {
    let mut pool = FramePool::new(1, 1, 20);
    let mut queue = filled(&mut pool, 20);
    let mut p = PlaybackState::new(Rational::new(25, 1), 0);
    assert!(matches!(p.tick(FRAME_NS - 1, &mut queue), TickOutcome::NotReady));
    assert_eq!(queue.len(), 20);
    assert!(matches!(p.tick(FRAME_NS, &mut queue), TickOutcome::Advanced(None)));
    assert!(matches!(p.tick(2 * FRAME_NS - 1, &mut queue), TickOutcome::Repeated));
    assert_eq!(queue.len(), 19);
}

#[test]
fn advancing_hands_the_previous_frame_over() {
    let mut pool = FramePool::new(1, 1, 20);
    let mut queue = filled(&mut pool, 18);
    let mut p = PlaybackState::new(Rational::new(25, 1), 0);
    assert!(matches!(p.tick(FRAME_NS, &mut queue), TickOutcome::Advanced(None)));
    match p.tick(2 * FRAME_NS, &mut queue) {
        TickOutcome::Advanced(Some(before)) => {
            assert_eq!(before.buffer().as_bytes()[0], 0);
            assert!(pool.release(before));
        }
        _ => panic!("the second tick must take the second frame"),
    }
    assert_eq!(p.current().unwrap().buffer().as_bytes()[0], 1);
    assert_eq!(queue.len(), 16);
    assert_eq!(pool.available(), 3);
}

#[test]
fn own_low_water_mark() {
    let mut pool = FramePool::new(1, 1, 4);
    let mut queue = filled(&mut pool, 1);
    let mut p = PlaybackState::with_min_queued(Rational::new(25, 1), 0, 0);
    assert!(matches!(p.tick(FRAME_NS, &mut queue), TickOutcome::Advanced(None)));
    // an empty queue gives nothing even with a mark of zero
    assert!(matches!(p.tick(2 * FRAME_NS, &mut queue), TickOutcome::Repeated));
}
