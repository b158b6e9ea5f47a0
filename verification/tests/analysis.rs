use dsp_core::analysis::{ScanSchedule, BASS_BINS, BASS_DECIMATION};

#[test]
fn analyzer_decimates_and_resets_each_read_window() {
    let mut schedule = ScanSchedule::new();
    let mut calls = 0;
    for _ in 0..BASS_DECIMATION {
        if schedule.tick() {
            calls += BASS_BINS;
        }
    }
    assert_eq!(calls, BASS_BINS);
    assert_eq!(schedule.samples(), 1);
    assert_eq!(schedule.take_window(), 1);
    assert_eq!(schedule.samples(), 0);
    // An empty window still divides by one.
    assert_eq!(schedule.take_window(), 1);
    assert_eq!(schedule.sample_index(), BASS_DECIMATION);
}

#[test]
fn schedule_scans_first_sample_and_every_sixteenth() {
    let mut schedule = ScanSchedule::new();
    let scans: Vec<bool> = (0..40).map(|_| schedule.tick()).collect();
    for (index, scan) in scans.iter().enumerate() {
        assert_eq!(*scan, index % 16 == 0);
    }
    assert_eq!(schedule.take_window(), 3);
    assert_eq!(BASS_BINS, 72);
}
