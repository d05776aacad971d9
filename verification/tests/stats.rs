use bouncer::messages::Report;
use bouncer::pure_core::{Device, KeyCode, KeyId, Mode, MouseButton};
use bouncer::stats::{Sample, Stats, DIAGNOSTIC_TTL, HISTOGRAM_BUCKETS, RING_CAPACITY};

const A: KeyId = KeyCode::Letter('A');
const LMB: KeyId = KeyCode::Mouse(MouseButton::Left);

/// Milliseconds on the caller's monotonic clock.
const NOW: u64 = 1_000;
const MINUTE: u64 = 60_000;

fn suppressed(device: Device, key: KeyId, gap_ms: u64) -> Report {
    Report::Suppressed { device, key, gap_ms }
}

#[test]
fn suppressed_report_increments_the_matching_device_counter() {
    let mut s = Stats::new();
    s.record(&suppressed(Device::Keyboard, A, 5), NOW);
    s.record(&suppressed(Device::Keyboard, A, 7), NOW);
    s.record(&suppressed(Device::Mouse, LMB, 9), NOW);
    assert_eq!(s.keyboard_suppressed(), 2);
    assert_eq!(s.mouse_suppressed(), 1);
}

#[test]
fn non_suppressed_reports_change_nothing() {
    let mut s = Stats::new();
    s.record(&Report::ModeChanged(Mode::Panic), NOW);
    s.record(&Report::HookEvicted, NOW);
    assert_eq!(s.keyboard_suppressed(), 0);
    assert_eq!(s.mouse_suppressed(), 0);
    assert!(s.samples().is_empty());
}

#[test]
fn counter_counts_without_recording_but_buffer_stays_empty() {
    let mut s = Stats::new();
    s.record(&suppressed(Device::Keyboard, A, 5), NOW);
    assert_eq!(s.keyboard_suppressed(), 1);
    assert!(s.samples().is_empty());
}

#[test]
fn samples_are_recorded_only_while_recording() {
    let mut s = Stats::new();
    s.start_recording(NOW);
    s.record(&suppressed(Device::Keyboard, A, 5), NOW);
    assert_eq!(s.samples().len(), 1);
    assert_eq!(*s.samples().back().unwrap(), Sample { key: A, gap_ms: 5, at: NOW });
}

#[test]
fn ring_buffer_caps_at_capacity_evicting_oldest() {
    let mut s = Stats::new();
    s.start_recording(NOW);
    for i in 0..(RING_CAPACITY as u64 + 1) {
        s.record(&suppressed(Device::Keyboard, A, i % 100), NOW);
    }
    assert_eq!(s.samples().len(), RING_CAPACITY);
    assert_eq!(s.samples().front().unwrap().gap_ms, 1);
    assert_eq!(s.keyboard_suppressed(), RING_CAPACITY as u64 + 1);
}

#[test]
fn histogram_buckets_gaps_into_expected_bins() {
    let mut s = Stats::new();
    s.start_recording(NOW);
    s.record(&suppressed(Device::Keyboard, A, 0), NOW);
    s.record(&suppressed(Device::Keyboard, A, 4), NOW);
    s.record(&suppressed(Device::Keyboard, A, 5), NOW);
    s.record(&suppressed(Device::Keyboard, A, 97), NOW);
    s.record(&suppressed(Device::Keyboard, A, 250), NOW);

    let h = s.histogram();
    assert_eq!(h[0], 2);
    assert_eq!(h[1], 1);
    assert_eq!(h[19], 2);
    assert_eq!(h.iter().sum::<u32>(), s.samples().len() as u32);
}

#[test]
fn recording_auto_expires_after_the_ttl() {
    let mut s = Stats::new();
    let t0 = NOW;
    s.start_recording(t0);

    assert!(s.is_recording(t0));
    assert!(s.is_recording(t0 + 59 * MINUTE));
    assert!(!s.is_recording(t0 + DIAGNOSTIC_TTL));
    assert!(!s.is_recording(t0 + 61 * MINUTE));

    s.record(&suppressed(Device::Keyboard, A, 5), t0 + 61 * MINUTE);
    assert_eq!(s.keyboard_suppressed(), 1);
    assert!(s.samples().is_empty());
}

#[test]
fn time_remaining_counts_down_then_vanishes() {
    let mut s = Stats::new();
    let t0 = NOW;
    assert_eq!(s.time_remaining(t0), None);
    s.start_recording(t0);
    assert_eq!(s.time_remaining(t0), Some(DIAGNOSTIC_TTL));
    assert_eq!(s.time_remaining(t0 + MINUTE), Some(DIAGNOSTIC_TTL - MINUTE));
    assert_eq!(s.time_remaining(t0 + DIAGNOSTIC_TTL), None);
}

#[test]
fn clear_empties_the_buffer_but_keeps_the_counter() {
    let mut s = Stats::new();
    s.start_recording(NOW);
    s.record(&suppressed(Device::Keyboard, A, 5), NOW);
    s.record(&suppressed(Device::Mouse, LMB, 8), NOW);
    assert_eq!(s.samples().len(), 2);

    s.clear();
    assert!(s.samples().is_empty());
    assert_eq!(s.keyboard_suppressed(), 1);
    assert_eq!(s.mouse_suppressed(), 1);
}

#[test]
fn stop_recording_halts_buffering_without_clearing() {
    let mut s = Stats::new();
    s.start_recording(NOW);
    s.record(&suppressed(Device::Keyboard, A, 5), NOW);
    s.stop_recording();
    assert!(!s.is_recording(NOW));
    s.record(&suppressed(Device::Keyboard, A, 6), NOW);
    assert_eq!(s.samples().len(), 1);
}

// --- further cases ---

#[test]
fn the_histogram_of_a_full_buffer_sums_to_its_length() {
    let mut s = Stats::default();
    s.start_recording(NOW);
    for i in 0..(3 * RING_CAPACITY as u64) {
        s.record(&suppressed(Device::Mouse, LMB, (i * 37) % 130), NOW + i);
    }
    let h = s.histogram();
    assert_eq!(h.len(), HISTOGRAM_BUCKETS);
    assert_eq!(h.iter().sum::<u32>() as usize, s.samples().len());
    assert_eq!(s.samples().len(), RING_CAPACITY);
}

#[test]
fn restarting_recording_extends_the_deadline() {
    let mut s = Stats::new();
    s.start_recording(NOW);
    s.start_recording(NOW + 30 * MINUTE);
    assert!(s.is_recording(NOW + 89 * MINUTE));
    assert_eq!(s.time_remaining(NOW + 30 * MINUTE), Some(DIAGNOSTIC_TTL));
}

#[test]
fn a_deadline_past_the_end_of_time_saturates() {
    let mut s = Stats::new();
    s.start_recording(u64::MAX - 5);
    assert!(s.is_recording(u64::MAX - 1));
    assert_eq!(s.time_remaining(u64::MAX - 1), Some(1));
}

#[test]
fn the_diagnostic_ttl_is_one_hour() {
    assert_eq!(DIAGNOSTIC_TTL, 60 * MINUTE);
}
