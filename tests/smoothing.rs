use vocalize::smoothing::{exceeds_z_limit, judge_window};
use vocalize::Vocalize;

fn hz(v: u32) -> Option<u32> {
    Some(v * 1000)
}

#[test]
fn spike_is_an_outlier_against_the_other_four() {
    assert!(exceeds_z_limit(250_000, &[100_000, 102_000, 98_000, 101_000]));
}

#[test]
fn steady_values_are_not_rejected() {
    let w = [hz(100), hz(102), hz(98), hz(101), hz(103)];
    assert_eq!(judge_window(&w), hz(103));
    assert!(!exceeds_z_limit(103_000, &[100_000, 102_000, 98_000, 101_000, 103_000]));
}

#[test]
fn spike_is_rejected() {
    let w = [hz(100), hz(102), hz(98), hz(101), hz(250)];
    assert_eq!(judge_window(&w), None);
}

#[test]
fn spike_with_four_present_is_rejected() {
    let w = [None, hz(100), hz(102), hz(98), hz(250)];
    assert_eq!(judge_window(&w), None);
}

#[test]
fn spike_after_identical_values_is_kept() {
    let w = [hz(100), hz(100), hz(100), hz(100), hz(250)];
    assert_eq!(judge_window(&w), hz(250));
}

#[test]
fn dip_is_kept() {
    let w = [hz(100), hz(102), hz(98), hz(101), hz(20)];
    assert_eq!(judge_window(&w), hz(20));
}

#[test]
fn few_present_entries_carry_forward() {
    let w = [None, hz(100), None, hz(5000), hz(100)];
    assert_eq!(judge_window(&w), hz(100));
    let w = [None, None, hz(100), hz(101), hz(9000)];
    assert_eq!(judge_window(&w), hz(9000));
    let w = [None, None, None, None, None];
    assert_eq!(judge_window(&w), None);
}

#[test]
fn absent_newest_stays_absent() {
    let w = [hz(100), hz(102), hz(98), hz(101), None];
    assert_eq!(judge_window(&w), None);
}

#[test]
fn zero_variance_is_not_rejected() {
    assert!(!exceeds_z_limit(440_000, &[440_000, 440_000, 440_000, 440_000]));
    let w = [hz(440), hz(440), hz(440), hz(440), hz(440)];
    assert_eq!(judge_window(&w), hz(440));
}

#[test]
fn below_the_mean_is_never_an_outlier() {
    assert!(!exceeds_z_limit(1_000, &[100_000, 102_000, 98_000, 101_000]));
}

#[test]
fn large_values_do_not_overflow() {
    assert!(exceeds_z_limit(u32::MAX, &[0, 1, 0, 1, 0]));
    assert!(!exceeds_z_limit(0, &[u32::MAX, u32::MAX, 0, u32::MAX, u32::MAX]));
}

#[test]
fn new_pipeline_is_all_absent() {
    let v = Vocalize::new();
    let snap = v.get_values();
    assert_eq!(snap.len(), 500);
    assert!(snap.iter().all(|e| e.is_none()));
    assert_eq!(v.frequencies.to_vec().len(), 500);
}

#[test]
fn record_carries_raw_into_postprocessed() {
    let mut v = Vocalize::new();
    v.record(hz(440));
    let snap = v.get_values();
    assert_eq!(snap.len(), 500);
    assert_eq!(snap[499], hz(440));
    assert_eq!(snap[498], None);
    assert_eq!(v.frequencies.get(499), hz(440));
    v.record(None);
    let snap = v.get_values();
    assert_eq!(snap[498], hz(440));
    assert_eq!(snap[499], None);
}

#[test]
fn histories_stay_full_over_many_ticks() {
    let mut v = Vocalize::new();
    for i in 0..1200u32 {
        v.record(if i % 3 == 0 { None } else { Some(100_000 + i) });
        assert_eq!(v.frequencies.len(), 500);
        assert_eq!(v.frequencies_postprocessed.len(), 500);
    }
    let raw = v.frequencies.to_vec();
    assert_eq!(raw[499], Some(100_000 + 1199));
    assert_eq!(raw[0], Some(100_000 + 700));
}

#[test]
fn record_drops_a_spike_from_the_postprocessed_history() {
    let mut v = Vocalize::new();
    for f in [100u32, 102, 98, 101] {
        v.record(hz(f));
    }
    v.record(hz(250));
    assert_eq!(v.frequencies.get(499), hz(250));
    let snap = v.get_values();
    assert_eq!(snap[499], None);
    assert_eq!(snap[498], hz(101));
    v.record(hz(103));
    assert_eq!(v.get_values()[499], hz(103));
}

#[test]
fn snapshots_without_a_tick_agree() {
    let mut v = Vocalize::new();
    for f in [100u32, 102, 98, 101, 250] {
        v.record(hz(f));
    }
    let a = v.get_values();
    let b = v.get_values();
    assert_eq!(a, b);
}

#[test]
fn analyze_without_enough_samples_records_absent() {
    let mut v = Vocalize::new();
    v.record(hz(440));
    v.analyze(None, 384_000);
    assert_eq!(v.frequencies.get(499), None);
    assert_eq!(v.frequencies.get(498), hz(440));
    assert_eq!(v.get_values()[499], None);
}
