use styledcamera_core::frame_history::{
    FrameHistory, FrameHistoryEntry, FRAME_HISTORY_SLOTS, MAX_SYNC_DELAY_NS, MIN_SYNC_DELAY_NS,
};

const MS: u64 = 1_000_000;
const SNAPSHOTS: [u32; 8] = [100, 101, 102, 103, 104, 105, 106, 107];

fn allocated() -> FrameHistory<u32> {
    let mut history = FrameHistory::new();
    assert!(history.ensure_allocated(SNAPSHOTS));
    history
}

// The timestamps of all slots, ordered by snapshot. Walks the ring once
// round, which leaves the cursor where it was.
fn times(history: &mut FrameHistory<u32>) -> Vec<Option<u64>> {
    let mut seen = Vec::new();
    for _ in 0..history.len() {
        let entry = history.next_slot_mut().unwrap();
        seen.push((entry.tex, entry.time));
    }
    seen.sort();
    seen.into_iter().map(|(_, time)| time).collect()
}

#[test]
fn new_history_has_no_slots() {
    let mut history: FrameHistory<u32> = FrameHistory::new();
    assert!(history.is_empty());
    assert_eq!(history.len(), 0);
    assert!(history.next_slot_mut().is_none());
    assert!(!history.record(1, 5));
    assert_eq!(history.select(5), None);
    assert_eq!(history.select_delayed_texture(9, 1_000 * MS, 100 * MS), 9);
    let same: FrameHistory<u32> = FrameHistory::default();
    assert!(same.is_empty());
}

#[test]
fn allocation_makes_eight_untimed_slots() {
    let mut history = allocated();
    assert_eq!(history.len(), FRAME_HISTORY_SLOTS);
    assert_eq!(history.len(), 8);
    assert!(!history.is_empty());
    assert_eq!(history.select(0), None);
    for expected in SNAPSHOTS {
        let entry = history.next_slot_mut().unwrap();
        assert_eq!(entry.tex, expected);
        assert_eq!(entry.time, None);
    }
}

#[test]
fn second_allocation_changes_nothing() {
    let mut history = allocated();
    assert!(history.record(100, 5 * MS));
    assert!(!history.ensure_allocated([1, 2, 3, 4, 5, 6, 7, 8]));
    assert_eq!(history.len(), 8);
    assert_eq!(history.select(5 * MS), Some(0));
    // The cursor was not moved back either.
    let entry = history.next_slot_mut().unwrap();
    assert_eq!(entry.tex, 101);
}

#[test]
fn slots_are_handed_out_round_robin() {
    let mut history = allocated();
    let mut order = Vec::new();
    for _ in 0..20 {
        order.push(history.next_slot_mut().unwrap().tex);
    }
    let expected: Vec<u32> = (0..20).map(|i| 100 + (i % 8)).collect();
    assert_eq!(order, expected);
}

#[test]
fn what_the_caller_writes_into_a_slot_stays_there() {
    let mut history = allocated();
    {
        let entry = history.next_slot_mut().unwrap();
        entry.time = Some(7 * MS);
    }
    {
        let entry = history.next_slot_mut().unwrap();
        assert_eq!(entry.tex, 101);
        // Left untimed, as after a frame that could not be rendered.
    }
    assert_eq!(history.select(0), Some(0));
    let seen = times(&mut history);
    assert_eq!(seen[0], Some(7 * MS));
    assert_eq!(seen[1], None);
}

#[test]
fn record_overwrites_the_oldest_slot() {
    let mut history = allocated();
    for i in 0..8u64 {
        assert!(history.record(200 + i as u32, i * 10 * MS));
    }
    assert_eq!(history.select(0), Some(0));
    // The ninth frame lands in slot 0 again, over snapshot and timestamp.
    assert!(history.record(300, 80 * MS));
    assert_eq!(history.select(0), Some(1));
    assert_eq!(history.select(80 * MS), Some(0));
    assert_eq!(history.select_delayed_texture(0, 1_000 * MS, 920 * MS), 300);
}

#[test]
fn select_returns_the_closest_slot() {
    // Slots stamped 50 ms and 10 ms before t; asked for 12 ms before t.
    let t = 1_000 * MS;
    let mut history = allocated();
    assert!(history.record(100, t - 50 * MS));
    assert!(history.record(101, t - 10 * MS));
    assert_eq!(history.select(t - 12 * MS), Some(1));
    assert_eq!(history.select_delayed_texture(999, t, 12 * MS), 101);
    assert_eq!(history.select(t - 40 * MS), Some(0));
    assert_eq!(history.select_delayed_texture(999, t, 40 * MS), 100);
}

#[test]
fn select_without_timestamps_returns_fallback() {
    let history = allocated();
    let t = 1_000 * MS;
    assert_eq!(history.select(t - 12 * MS), None);
    assert_eq!(history.select_delayed_texture(999, t, 12 * MS), 999);
}

#[test]
fn select_looks_both_ways_in_time() {
    let mut history = allocated();
    history.record(100, 100 * MS);
    history.record(101, 200 * MS);
    history.record(102, 300 * MS);
    assert_eq!(history.select(0), Some(0));
    assert_eq!(history.select(149 * MS), Some(0));
    assert_eq!(history.select(151 * MS), Some(1));
    assert_eq!(history.select(260 * MS), Some(2));
    assert_eq!(history.select(u64::MAX), Some(2));
}

#[test]
fn select_takes_the_first_of_equally_close_slots() {
    let mut history = allocated();
    history.record(100, 100 * MS);
    history.record(101, 200 * MS);
    history.record(102, 100 * MS);
    assert_eq!(history.select(150 * MS), Some(0));
    assert_eq!(history.select(100 * MS), Some(0));
    let mut other = allocated();
    other.record(100, 200 * MS);
    other.record(101, 100 * MS);
    assert_eq!(other.select(150 * MS), Some(0));
}

#[test]
fn select_skips_untimed_slots() {
    let mut history = allocated();
    history.next_slot_mut().unwrap();
    history.next_slot_mut().unwrap();
    history.record(102, 500 * MS);
    assert_eq!(history.select(0), Some(2));
}

#[test]
fn small_delay_is_not_compensated() {
    let t = 1_000 * MS;
    let mut history = allocated();
    history.record(100, t - 50 * MS);
    assert_eq!(history.select_delayed_texture(999, t, 0), 999);
    assert_eq!(history.select_delayed_texture(999, t, MIN_SYNC_DELAY_NS), 999);
    assert_eq!(history.select_delayed_texture(999, t, 500_000), 999);
    assert_eq!(history.select_delayed_texture(999, t, MIN_SYNC_DELAY_NS + 1), 100);
}

#[test]
fn delay_is_capped_at_half_a_second() {
    let t = 10_000 * MS;
    let mut history = allocated();
    history.record(100, t - 2_000 * MS);
    history.record(101, t - 600 * MS);
    history.record(102, t - 10 * MS);
    // Asked for two seconds back, but no more than 500 ms are compensated.
    assert_eq!(history.select_delayed_texture(999, t, 2_000 * MS), 101);
    assert_eq!(history.select_delayed_texture(999, t, u64::MAX), 101);
    assert_eq!(history.select_delayed_texture(999, t, MAX_SYNC_DELAY_NS), 101);
    assert_eq!(MAX_SYNC_DELAY_NS, 500 * MS);
}

#[test]
fn delay_that_reaches_before_the_clock_started_is_compensated() {
    let mut history = allocated();
    history.record(100, 1 * MS);
    assert_eq!(history.select_delayed_texture(999, 5 * MS, 10 * MS), 100);
    assert_eq!(history.select_delayed_texture(999, 10 * MS, 10 * MS), 100);
    assert_eq!(history.select_delayed_texture(999, 0, 10 * MS), 100);
}

#[test]
fn first_frames_after_the_clock_started_get_the_oldest_frame() {
    // Frames stamped 2 ms and 10 ms; now is 10 ms and the delay 12 ms, so the
    // time asked for lies 2 ms before the clock started.
    let mut history = allocated();
    history.record(100, 2 * MS);
    history.record(101, 10 * MS);
    assert_eq!(history.select_delayed_texture(101, 10 * MS, 12 * MS), 100);
    assert_eq!(history.select_delayed_slot(10 * MS, 12 * MS), Some(0));
    // Of two frames at the very start, the first slot wins the tie.
    let mut other = allocated();
    other.record(100, 0);
    other.record(101, 0);
    assert_eq!(other.select_delayed_slot(1 * MS, 400 * MS), Some(0));
}

#[test]
fn delayed_slot_is_the_slot_of_the_delayed_texture() {
    let t = 1_000 * MS;
    let mut history = allocated();
    assert_eq!(history.select_delayed_slot(t, 12 * MS), None);
    history.record(100, t - 50 * MS);
    history.record(101, t - 10 * MS);
    history.record(102, t);
    assert_eq!(history.select_delayed_slot(t, 12 * MS), Some(1));
    assert_eq!(history.select_delayed_slot(t, 40 * MS), Some(0));
    assert_eq!(history.select_delayed_slot(t, 1 * MS), Some(2));
    assert_eq!(history.select_delayed_slot(t, MIN_SYNC_DELAY_NS), None);
    assert_eq!(history.select_delayed_slot(t, 0), None);
    assert_eq!(history.select_delayed_slot(t, u64::MAX), Some(0));
}

#[test]
fn compensated_frame_is_older_than_the_current_one() {
    // The current frame is stamped now; an older one lies closer to the
    // delayed time, so it is never the current frame that is composited.
    for now in [0u64, 3 * MS, 40 * MS, 10_000 * MS] {
        for delay in [1 * MS, 12 * MS, 33 * MS, 500 * MS] {
            for age in [1 * MS, delay / 2, delay, delay + delay / 2] {
                if age > now {
                    continue;
                }
                let mut history = allocated();
                history.record(100, now - age);
                history.record(101, now);
                assert_eq!(history.select_delayed_texture(101, now, delay), 100);
            }
        }
    }
}

#[test]
fn destroy_hands_back_every_snapshot() {
    let mut history = allocated();
    history.record(100, 5 * MS);
    history.record(55, 6 * MS);
    let released = history.destroy();
    assert_eq!(released, vec![100, 55, 102, 103, 104, 105, 106, 107]);
    assert!(history.is_empty());
    assert_eq!(history.select(5 * MS), None);
    assert!(history.next_slot_mut().is_none());
    // A destroyed ring can be allocated again and starts over at slot 0.
    assert!(history.ensure_allocated(SNAPSHOTS));
    assert_eq!(history.next_slot_mut().unwrap().tex, 100);
    let empty: Vec<u32> = FrameHistory::new().destroy();
    assert!(empty.is_empty());
}

#[test]
fn entries_are_plain_values() {
    let entry = FrameHistoryEntry { tex: 3u8, time: Some(4) };
    assert_eq!(entry.tex, 3);
    assert_eq!(entry.time, Some(4));
}

#[test]
fn ring_keeps_the_latest_eight_frames() {
    let mut history = allocated();
    for i in 0..21u64 {
        assert!(history.record(1_000 + i as u32, i * 10 * MS));
    }
    // Frames 13 to 20 are kept, each in the slot that its number gives it.
    for i in 13..21u64 {
        assert_eq!(history.select(i * 10 * MS), Some((i % 8) as usize));
        assert_eq!(
            history.select_delayed_texture(0, i * 10 * MS + 100 * MS, 100 * MS),
            1_000 + i as u32
        );
    }
    // Frame 12 is gone: the closest to its time is frame 13.
    assert_eq!(history.select(120 * MS), Some(5));
    assert_eq!(history.select(0), Some(5));
    // The next frame goes where frame 13 was.
    assert!(history.record(7, 210 * MS));
    assert_eq!(history.select(0), Some(6));
}
