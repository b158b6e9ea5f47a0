//! Scheduling of the all-bearing broadband (BASS) scan.
//!
//! The analyser reads the receiver only every `BASS_DECIMATION` samples to keep
//! within the audio callback's budget, counts the scans of the current read
//! window, and empties the window when the levels are read. The power it
//! accumulates per bearing is floating point and is kept by the host; the
//! decision of when to scan, and the window's scan count, stand here.

use vstd::prelude::*;

verus! {

/// Resolution of the all-bearing scan (5° steps).
pub const BASS_BINS: usize = 72;

/// The scan runs on one sample in this many.
pub const BASS_DECIMATION: u64 = 16;

/// Counters of the BASS scan: scans in the current read window, and samples
/// observed since the analyser was made.
#[derive(Debug, Clone, Copy)]
pub struct ScanSchedule {
    samples: u32,
    sample_index: u64,
}

/// Number of scans that `ticks` consecutive observations starting at sample
/// `start` perform: the multiples of the decimation among them.
pub open spec fn scans_between(start: nat, ticks: nat) -> nat
    decreases ticks,
{
    if ticks == 0 {
        0
    } else {
        scans_between(start, (ticks - 1) as nat) + if (start + ticks - 1) % (BASS_DECIMATION as int)
            == 0 {
            1nat
        } else {
            0nat
        }
    }
}

impl ScanSchedule {
    /// Scans counted in the current read window.
    pub closed spec fn window_scans(&self) -> nat {
        self.samples as nat
    }

    /// Samples observed so far.
    pub closed spec fn observed(&self) -> nat {
        self.sample_index as nat
    }

    /// A schedule that has observed nothing.
    pub fn new() -> (res: Self)
        ensures
            res.window_scans() == 0,
            res.observed() == 0,
    {
        ScanSchedule { samples: 0, sample_index: 0 }
    }

    /// Whether the next observation will scan all bearings.
    pub open spec fn scans_next(&self) -> bool {
        self.observed() % BASS_DECIMATION as nat == 0
    }

    /// Observes one sample: returns whether this sample scans all bearings,
    /// and counts the scan in the window if it does.
    pub fn tick(&mut self) -> (scan: bool)
        requires
            old(self).observed() < u64::MAX,
            old(self).scans_next() ==> old(self).window_scans() < u32::MAX,
        ensures
            scan == old(self).scans_next(),
            final(self).observed() == old(self).observed() + 1,
            final(self).window_scans() == old(self).window_scans() + if scan {
                1nat
            } else {
                0nat
            },
            final(self).window_scans() == old(self).window_scans() + scans_between(
                old(self).observed(),
                1,
            ),
    {
        proof {
            let start = self.sample_index as nat;
            assert(scans_between(start, 0) == 0);
            assert(start + 1 - 1 == start);
        }
        let scan = self.sample_index % BASS_DECIMATION == 0;
        if scan {
            self.samples = self.samples + 1;
        }
        self.sample_index = self.sample_index + 1;
        scan
    }

    /// Scans counted in the current read window.
    pub fn samples(&self) -> (res: u32)
        ensures
            res == self.window_scans(),
    {
        self.samples
    }

    /// Samples observed so far.
    pub fn sample_index(&self) -> (res: u64)
        ensures
            res == self.observed(),
    {
        self.sample_index
    }

    /// Closes the read window: returns the number of scans to average over
    /// (at least one, so that an empty window reads as silence) and starts a
    /// new, empty window. The sample clock is not reset.
    pub fn take_window(&mut self) -> (count: u32)
        ensures
            count == if old(self).window_scans() == 0 {
                1
            } else {
                old(self).window_scans()
            },
            final(self).window_scans() == 0,
            final(self).observed() == old(self).observed(),
    {
        let count = if self.samples == 0 {
            1
        } else {
            self.samples
        };
        self.samples = 0;
        count
    }
}

/// Every run of `BASS_DECIMATION` consecutive observations performs exactly
/// one scan, wherever it starts.
pub proof fn lemma_one_scan_per_decimation_period(start: nat)
    ensures
        scans_between(start, BASS_DECIMATION as nat) == 1,
{
    lemma_scans_prefix(start, BASS_DECIMATION as nat);
}

/// Scans over consecutive runs of observations add up: the first `a`
/// observations from `start`, then the next `b`.
pub proof fn lemma_scans_between_split(start: nat, a: nat, b: nat)
    ensures
        scans_between(start, a + b) == scans_between(start, a) + scans_between(start + a, b),
    decreases b,
{
    if b > 0 {
        lemma_scans_between_split(start, a, (b - 1) as nat);
        assert(start + (a + b) - 1 == (start + a) + b - 1);
    }
}

proof fn lemma_scans_prefix(start: nat, m: nat)
    requires
        m <= BASS_DECIMATION,
    ensures
        scans_between(start, m) == if (start % 16 == 0 && m >= 1) || (start % 16 > 0 && m
            >= 16 - start % 16 + 1) {
            1nat
        } else {
            0nat
        },
    decreases m,
{
    if m > 0 {
        lemma_scans_prefix(start, (m - 1) as nat);
        let x = start + m - 1;
        assert(x % 16 == 0 <==> (start % 16 == 0 && m == 1) || (start % 16 > 0 && m == 16
            - start % 16 + 1));
    }
}

} // verus!
