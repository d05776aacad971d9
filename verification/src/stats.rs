//! UI-side observability state, built from the `Report` stream (never in the
//! Engine). All in-memory: the counters reset every boot and nothing
//! keystroke-related touches disk.
//!
//! - a **per-device session counter** (always counting, never cleared by the user),
//! - an opt-in **ring buffer** of the last [`RING_CAPACITY`] suppressed samples,
//!   filled only while diagnostic recording is active, and
//! - a **gap histogram** over those samples for threshold calibration.
//!
//! Time is passed in as milliseconds on a monotonic clock chosen by the caller,
//! so this stays deterministic.

use std::collections::VecDeque;
use vstd::prelude::*;

use crate::pure_core::{Device, KeyId};
use crate::messages::Report;

verus! {

/// The diagnostic ring buffer holds at most this many suppressed samples; the
/// oldest is evicted past the cap.
pub const RING_CAPACITY: usize = 500;

/// Diagnostic recording auto-expires this long after it is switched on (one hour,
/// in milliseconds).
pub const DIAGNOSTIC_TTL: u64 = 3_600_000;

/// Width of one histogram bucket, in milliseconds.
pub const HISTOGRAM_BUCKET_MS: u64 = 5;

/// Number of histogram buckets, spanning `0..100 ms`. A gap at or beyond the top
/// lands in the last bucket.
pub const HISTOGRAM_BUCKETS: usize = 20;

/// One recorded suppression: which key, the measured gap, and when it landed
/// (milliseconds). Nothing here identifies passed input.
#[derive(Debug, Clone, Copy, PartialEq, Eq, Structural)]
pub struct Sample {
    pub key: KeyId,
    pub gap_ms: u64,
    pub at: u64,
}

/// The abstract state of [`Stats`].
#[verifier::ext_equal]
pub struct StatsView {
    pub keyboard: u64,
    pub mouse: u64,
    pub samples: Seq<Sample>,
    pub recording_until: Option<u64>,
}

/// Recording is live: switched on and not yet expired.
pub open spec fn recording_at(s: StatsView, now: u64) -> bool {
    match s.recording_until {
        Some(deadline) => now < deadline,
        None => false,
    }
}

/// `n + 1`, staying at `u64::MAX` once there.
pub open spec fn bump(n: u64) -> u64 {
    if n < u64::MAX {
        (n + 1) as u64
    } else {
        n
    }
}

/// Folding one report into the stats: a suppression bumps its device counter and,
/// while recording, appends a sample (evicting the oldest at capacity). Other
/// reports change nothing.
pub open spec fn record_step(s: StatsView, report: Report, now: u64) -> StatsView {
    match report {
        Report::Suppressed { device, key, gap_ms } => {
            let s1 = match device {
                Device::Keyboard => StatsView { keyboard: bump(s.keyboard), ..s },
                Device::Mouse => StatsView { mouse: bump(s.mouse), ..s },
            };
            if recording_at(s, now) {
                let kept = if s.samples.len() >= RING_CAPACITY {
                    s.samples.drop_first()
                } else {
                    s.samples
                };
                StatsView { samples: kept.push(Sample { key, gap_ms, at: now }), ..s1 }
            } else {
                s1
            }
        },
        _ => s,
    }
}

/// The histogram bin of a gap.
pub open spec fn bucket_of(gap_ms: u64) -> int {
    let b = gap_ms / HISTOGRAM_BUCKET_MS;
    if b < HISTOGRAM_BUCKETS {
        b as int
    } else {
        HISTOGRAM_BUCKETS - 1
    }
}

/// How many samples fall in bin `b`.
pub open spec fn bucket_count(samples: Seq<Sample>, b: int) -> nat
    decreases samples.len(),
{
    if samples.len() == 0 {
        0
    } else {
        bucket_count(samples.drop_last(), b) + if bucket_of(samples.last().gap_ms) == b {
            1nat
        } else {
            0nat
        }
    }
}

/// The sum of the first `n` bins.
pub open spec fn bins_sum(bins: Seq<u32>, n: int) -> int
    decreases n,
{
    if n <= 0 {
        0
    } else {
        bins_sum(bins, n - 1) + bins[n - 1]
    }
}

/// Session suppressed counters + the diagnostic ring buffer + the gap histogram.
#[derive(Debug)]
pub struct Stats {
    keyboard: u64,
    mouse: u64,
    buffer: VecDeque<Sample>,
    /// `Some(deadline)` while recording; recording is over once `now >= deadline`.
    recording_until: Option<u64>,
}

impl View for Stats {
    type V = StatsView;

    closed spec fn view(&self) -> StatsView {
        StatsView {
            keyboard: self.keyboard,
            mouse: self.mouse,
            samples: self.buffer@,
            recording_until: self.recording_until,
        }
    }
}

impl Stats {
    #[verifier::type_invariant]
    spec fn bounded(self) -> bool {
        self.buffer@.len() <= RING_CAPACITY
    }

    /// The ring buffer never holds more than [`RING_CAPACITY`] samples.
    pub fn check_bounded(&self)
        ensures
            self@.samples.len() <= RING_CAPACITY,
    {
        proof {
            use_type_invariant(self);
        }
    }

    pub fn new() -> (s: Self)
        ensures
            s@ == (StatsView { keyboard: 0, mouse: 0, samples: Seq::empty(), recording_until: None }),
    {
        Stats { keyboard: 0, mouse: 0, buffer: VecDeque::new(), recording_until: None }
    }

    /// Suppressed keyboard events this session.
    pub fn keyboard_suppressed(&self) -> (n: u64)
        ensures
            n == self@.keyboard,
    {
        self.keyboard
    }

    /// Suppressed mouse events this session.
    pub fn mouse_suppressed(&self) -> (n: u64)
        ensures
            n == self@.mouse,
    {
        self.mouse
    }

    /// The diagnostic ring buffer, oldest first.
    pub fn samples(&self) -> (b: &VecDeque<Sample>)
        ensures
            b@ == self@.samples,
    {
        &self.buffer
    }

    /// Fold one `Report` into the stats (see [`record_step`]). A counter that has
    /// reached `u64::MAX` stays there.
    pub fn record(&mut self, report: &Report, now: u64)
        ensures
            final(self)@ == record_step(old(self)@, *report, now),
    {
        proof {
            use_type_invariant(&*self);
        }
        if let Report::Suppressed { device, key, gap_ms } = *report {
            match device {
                Device::Keyboard => self.keyboard = self.keyboard.saturating_add(1),
                Device::Mouse => self.mouse = self.mouse.saturating_add(1),
            }
            if self.is_recording(now) {
                let mut ring: VecDeque<Sample> = VecDeque::new();
                std::mem::swap(&mut ring, &mut self.buffer);
                if ring.len() >= RING_CAPACITY {
                    ring.pop_front();
                }
                ring.push_back(Sample { key, gap_ms, at: now });
                self.buffer = ring;
            }
        }
        assert(self@ =~= record_step(old(self)@, *report, now));
    }

    /// Begin (or restart) diagnostic recording; it expires at `now + DIAGNOSTIC_TTL`
    /// (or at the end of time, if that sum does not fit).
    pub fn start_recording(&mut self, now: u64)
        ensures
            final(self)@ == (StatsView {
                recording_until: Some(
                    if now + DIAGNOSTIC_TTL <= u64::MAX {
                        (now + DIAGNOSTIC_TTL) as u64
                    } else {
                        u64::MAX
                    },
                ),
                ..old(self)@
            }),
    {
        proof {
            use_type_invariant(&*self);
        }
        self.recording_until = Some(now.saturating_add(DIAGNOSTIC_TTL));
    }

    /// Stop recording now (a manual toggle-off). Leaves the buffer intact.
    pub fn stop_recording(&mut self)
        ensures
            final(self)@ == (StatsView { recording_until: None, ..old(self)@ }),
    {
        proof {
            use_type_invariant(&*self);
        }
        self.recording_until = None;
    }

    /// Whether diagnostic recording is currently live (set, and not yet expired).
    pub fn is_recording(&self, now: u64) -> (r: bool)
        ensures
            r == recording_at(self@, now),
    {
        match self.recording_until {
            Some(deadline) => now < deadline,
            None => false,
        }
    }

    /// Time left before auto-expiry, in milliseconds, for the UI countdown; `None`
    /// when not recording (or already expired).
    pub fn time_remaining(&self, now: u64) -> (r: Option<u64>)
        ensures
            r == (match self@.recording_until {
                Some(deadline) => if now < deadline {
                    Some((deadline - now) as u64)
                } else {
                    None
                },
                None => None,
            }),
    {
        match self.recording_until {
            Some(deadline) => if now < deadline {
                Some(deadline - now)
            } else {
                None
            },
            None => None,
        }
    }

    /// Empty the ring buffer. Does **not** touch the session counters.
    pub fn clear(&mut self)
        ensures
            final(self)@ == (StatsView { samples: Seq::empty(), ..old(self)@ }),
    {
        self.buffer = VecDeque::new();
        assert(self@.samples =~= Seq::<Sample>::empty());
    }

    /// Bucket the recorded gaps into [`HISTOGRAM_BUCKETS`] bins of
    /// [`HISTOGRAM_BUCKET_MS`] each; a gap at or above the top is counted in the
    /// last bin.
    pub fn histogram(&self) -> (h: [u32; HISTOGRAM_BUCKETS])
        ensures
            forall|b: int| 0 <= b < HISTOGRAM_BUCKETS ==> h@[b] == bucket_count(self@.samples, b),
            forall|b: int|
                0 <= b < HISTOGRAM_BUCKETS ==> h@[b] == gaps_in(
                    self@.samples,
                    bin_low(b),
                    bin_high(b),
                ),
    {
        proof {
            use_type_invariant(self);
            assert forall|b: int| 0 <= b < HISTOGRAM_BUCKETS implies bucket_count(self@.samples, b)
                == gaps_in(self@.samples, bin_low(b), bin_high(b)) by {
                lemma_bins_are_gap_ranges(self@.samples, b);
            }
        }
        let mut bins = [0u32; HISTOGRAM_BUCKETS];
        let n = self.buffer.len();
        for i in 0..n
            invariant
                n == self.buffer@.len(),
                n <= RING_CAPACITY,
                forall|b: int|
                    0 <= b < HISTOGRAM_BUCKETS ==> bins@[b] == bucket_count(
                        self.buffer@.subrange(0, i as int),
                        b,
                    ),
                forall|b: int| 0 <= b < HISTOGRAM_BUCKETS ==> bins@[b] <= i,
        {
            let gap = self.buffer[i].gap_ms;
            let q = gap / HISTOGRAM_BUCKET_MS;
            let idx: usize = if q < HISTOGRAM_BUCKETS as u64 {
                q as usize
            } else {
                HISTOGRAM_BUCKETS - 1
            };
            let ghost before = bins@;
            bins[idx] = bins[idx] + 1;
            proof {
                let pre = self.buffer@.subrange(0, i as int);
                let post = self.buffer@.subrange(0, i + 1);
                assert(post.drop_last() =~= pre);
                assert(post.last() == self.buffer@[i as int]);
                assert(idx == bucket_of(self.buffer@[i as int].gap_ms));
                assert forall|b: int| 0 <= b < HISTOGRAM_BUCKETS implies bins@[b] == bucket_count(
                    post,
                    b,
                ) by {
                    if b != idx {
                        assert(bins@[b] == before[b]);
                    }
                }
            }
        }
        assert(self.buffer@.subrange(0, n as int) =~= self.buffer@);
        bins
    }
}

impl Default for Stats {
    fn default() -> (s: Self)
        ensures
            s@ == (StatsView { keyboard: 0, mouse: 0, samples: Seq::empty(), recording_until: None }),
    {
        Stats::new()
    }
}

/// Only suppressions are ever counted or sampled: any other report leaves the
/// statistics as they were; nothing is sampled unless recording is live at that
/// moment; and the ring buffer never grows past its capacity.
pub proof fn lemma_only_suppressions_are_recorded(s: StatsView, report: Report, now: u64)
    ensures
        !(report is Suppressed) ==> record_step(s, report, now) == s,
        !recording_at(s, now) ==> record_step(s, report, now).samples == s.samples,
        s.samples.len() <= RING_CAPACITY ==> record_step(s, report, now).samples.len()
            <= RING_CAPACITY,
{
}

/// How many samples have a gap `g` with `lo <= g < hi`.
pub open spec fn gaps_in(samples: Seq<Sample>, lo: int, hi: int) -> nat
    decreases samples.len(),
{
    if samples.len() == 0 {
        0
    } else {
        gaps_in(samples.drop_last(), lo, hi) + if lo <= samples.last().gap_ms < hi {
            1nat
        } else {
            0nat
        }
    }
}

/// The smallest gap of bin `b`: bins are [`HISTOGRAM_BUCKET_MS`] wide from 0.
pub open spec fn bin_low(b: int) -> int {
    b * HISTOGRAM_BUCKET_MS
}

/// Just past the largest gap of bin `b`; the last bin is open-ended (every `u64`
/// gap at or above its start).
pub open spec fn bin_high(b: int) -> int {
    if b == HISTOGRAM_BUCKETS - 1 {
        0x1_0000_0000_0000_0000
    } else {
        (b + 1) * HISTOGRAM_BUCKET_MS
    }
}

/// A gap lands in bin `b` exactly when it lies in that bin's range: bins are
/// consecutive 5 ms ranges from 0 ms, and the last also takes every longer gap.
pub proof fn lemma_gap_lands_in_its_range(g: u64, b: int)
    requires
        0 <= b < HISTOGRAM_BUCKETS,
    ensures
        (bucket_of(g) == b) == (bin_low(b) <= g < bin_high(b)),
        g < HISTOGRAM_BUCKETS * HISTOGRAM_BUCKET_MS ==> bucket_of(g) == g / HISTOGRAM_BUCKET_MS,
        g >= HISTOGRAM_BUCKETS * HISTOGRAM_BUCKET_MS ==> bucket_of(g) == HISTOGRAM_BUCKETS - 1,
{
    let q = g / 5;
    assert(5 * q <= g < 5 * q + 5);
}

/// Each bin counts exactly the samples whose gap lies in its range.
pub proof fn lemma_bins_are_gap_ranges(samples: Seq<Sample>, b: int)
    requires
        0 <= b < HISTOGRAM_BUCKETS,
    ensures
        bucket_count(samples, b) == gaps_in(samples, bin_low(b), bin_high(b)),
    decreases samples.len(),
{
    if samples.len() > 0 {
        lemma_bins_are_gap_ranges(samples.drop_last(), b);
        lemma_gap_lands_in_its_range(samples.last().gap_ms, b);
    }
}

/// Every sample lands in exactly one bin: the bins add up to the number of samples.
pub proof fn lemma_histogram_sums_to_samples(samples: Seq<Sample>)
    ensures
        bins_sum(
            Seq::new(HISTOGRAM_BUCKETS as nat, |b: int| bucket_count(samples, b) as u32),
            HISTOGRAM_BUCKETS as int,
        ) == samples.len() || samples.len() > u32::MAX,
    decreases samples.len(),
{
    lemma_bins_sum_counts(samples, HISTOGRAM_BUCKETS as int);
}

/// The first `n` bins hold the samples whose bin is below `n`.
proof fn lemma_bins_sum_counts(samples: Seq<Sample>, n: int)
    requires
        0 <= n <= HISTOGRAM_BUCKETS,
    ensures
        samples.len() <= u32::MAX ==> bins_sum(
            Seq::new(HISTOGRAM_BUCKETS as nat, |b: int| bucket_count(samples, b) as u32),
            n,
        ) == count_below(samples, n),
        n == HISTOGRAM_BUCKETS ==> count_below(samples, n) == samples.len(),
    decreases n,
{
    let bins = Seq::new(HISTOGRAM_BUCKETS as nat, |b: int| bucket_count(samples, b) as u32);
    if n > 0 {
        lemma_bins_sum_counts(samples, n - 1);
        lemma_count_below_step(samples, n);
        lemma_bucket_count_bounded(samples, n - 1);
        assert(bins_sum(bins, n) == bins_sum(bins, n - 1) + bins[n - 1]);
        if samples.len() <= u32::MAX {
            assert(bins[n - 1] == bucket_count(samples, n - 1));
        }
    }
    if n == 0 {
        lemma_count_below_zero(samples);
    }
    if n == HISTOGRAM_BUCKETS {
        lemma_count_below_all(samples);
    }
}

proof fn lemma_count_below_zero(samples: Seq<Sample>)
    ensures
        count_below(samples, 0) == 0,
    decreases samples.len(),
{
    if samples.len() > 0 {
        lemma_count_below_zero(samples.drop_last());
    }
}

/// How many samples fall in a bin below `n`.
pub open spec fn count_below(samples: Seq<Sample>, n: int) -> nat
    decreases samples.len(),
{
    if samples.len() == 0 {
        0
    } else {
        count_below(samples.drop_last(), n) + if bucket_of(samples.last().gap_ms) < n {
            1nat
        } else {
            0nat
        }
    }
}

proof fn lemma_count_below_step(samples: Seq<Sample>, n: int)
    ensures
        count_below(samples, n) == count_below(samples, n - 1) + bucket_count(samples, n - 1),
    decreases samples.len(),
{
    if samples.len() > 0 {
        lemma_count_below_step(samples.drop_last(), n);
    }
}

proof fn lemma_count_below_all(samples: Seq<Sample>)
    ensures
        count_below(samples, HISTOGRAM_BUCKETS as int) == samples.len(),
    decreases samples.len(),
{
    if samples.len() > 0 {
        lemma_count_below_all(samples.drop_last());
    }
}

proof fn lemma_bucket_count_bounded(samples: Seq<Sample>, b: int)
    ensures
        bucket_count(samples, b) <= samples.len(),
    decreases samples.len(),
{
    if samples.len() > 0 {
        lemma_bucket_count_bounded(samples.drop_last(), b);
    }
}

} // verus!
