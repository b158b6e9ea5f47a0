use dsp_core::ring::{advance, newest_slot, tap_slots};

/// Fractional-delay read of a history buffer through the verified tap slots.
fn read(history: &[f32], next: usize, offset: f32) -> f32 {
    let capacity = history.len();
    let delay = offset.max(0.0).min(capacity as f32 - 2.0);
    let whole = delay.floor() as usize;
    let fraction = delay - whole as f32;
    let (first, second) = tap_slots(capacity, next, whole);
    history[first] * (1.0 - fraction) + history[second] * fraction
}

#[test]
fn ramp_is_continuous_across_multiple_wraps() {
    for capacity in [250, 264, 272, 286] {
        let mut history = vec![0.0; capacity];
        let mut next = 0;
        for n in 0..capacity * 5 {
            history[next] = n as f32;
            next = advance(next, capacity);
            if n >= capacity {
                for delay in [0.0, 1.0, 123.48, capacity as f32 - 2.0] {
                    assert!((read(&history, next, delay) - (n as f32 - delay)).abs() < 0.001);
                }
            }
        }
    }
}

#[test]
fn integer_taps_name_the_written_times() {
    for capacity in [1usize, 2, 3, 7, 16] {
        let mut times = vec![usize::MAX; capacity];
        let mut next = 0;
        for n in 0..capacity * 4 {
            times[next] = n;
            next = advance(next, capacity);
            let written = n + 1;
            for whole in 0..capacity.saturating_sub(1) {
                if whole + 2 > capacity || whole + 2 > written {
                    continue;
                }
                let (first, second) = tap_slots(capacity, next, whole);
                assert_eq!(times[first], written - 1 - whole);
                assert_eq!(times[second], written - 2 - whole);
            }
        }
    }
}

#[test]
fn newest_slot_wraps_to_the_end() {
    assert_eq!(newest_slot(8, 0), 7);
    assert_eq!(newest_slot(8, 5), 4);
    assert_eq!(newest_slot(1, 0), 0);
    assert_eq!(advance(7, 8), 0);
    assert_eq!(advance(3, 8), 4);
    assert_eq!(tap_slots(8, 0, 0), (7, 6));
    assert_eq!(tap_slots(8, 2, 5), (4, 3));
    assert_eq!(tap_slots(1, 0, 1), (0, 0));
}
