use vocalize::capture::{CaptureBuffer, CAPTURE_CAPACITY};
use vocalize::history::{FrequencyHistory, HISTORY_CAPACITY};

#[test]
fn capture_starts_empty() {
    let b: CaptureBuffer<f32> = CaptureBuffer::new();
    assert_eq!(b.len(), 0);
    assert!(b.snapshot_tail(1).is_none());
    assert_eq!(b.snapshot_tail(0), Some(Vec::new()));
}

#[test]
fn capture_keeps_arrival_order() {
    let mut b: CaptureBuffer<f32> = CaptureBuffer::new();
    b.append(&[1.0, 2.0]);
    b.append(&[3.0]);
    assert_eq!(b.len(), 3);
    assert_eq!(b.snapshot_tail(3), Some(vec![1.0, 2.0, 3.0]));
    assert_eq!(b.snapshot_tail(2), Some(vec![2.0, 3.0]));
    // reading does not consume
    assert_eq!(b.len(), 3);
}

#[test]
fn capture_reports_insufficient_data() {
    let mut b: CaptureBuffer<u32> = CaptureBuffer::new();
    b.append(&[7, 8, 9]);
    assert_eq!(b.snapshot_tail(4), None);
    assert_eq!(b.snapshot_tail(3), Some(vec![7, 8, 9]));
}

#[test]
fn capture_evicts_oldest_beyond_capacity() {
    let mut b: CaptureBuffer<u32> = CaptureBuffer::new();
    let first: Vec<u32> = (0..150_000).collect();
    let second: Vec<u32> = (150_000..200_005).collect();
    b.append(&first);
    assert_eq!(b.len(), 150_000);
    b.append(&second);
    assert_eq!(b.len(), CAPTURE_CAPACITY);
    let all = b.snapshot_tail(CAPTURE_CAPACITY).unwrap();
    assert_eq!(all[0], 5);
    assert_eq!(all[CAPTURE_CAPACITY - 1], 200_004);
    assert!(all.windows(2).all(|w| w[0] + 1 == w[1]));
}

#[test]
fn capture_single_oversized_append_keeps_newest() {
    let mut b: CaptureBuffer<u32> = CaptureBuffer::new();
    let big: Vec<u32> = (0..250_000).collect();
    b.append(&big);
    assert_eq!(b.len(), 200_000);
    assert_eq!(b.snapshot_tail(1), Some(vec![249_999]));
    assert_eq!(b.snapshot_tail(200_000).unwrap()[0], 50_000);
}

#[test]
fn history_starts_full_of_absent_entries() {
    let h = FrequencyHistory::new();
    assert_eq!(h.len(), HISTORY_CAPACITY);
    let v = h.to_vec();
    assert_eq!(v.len(), 500);
    assert!(v.iter().all(|e| e.is_none()));
}

#[test]
fn history_push_evicts_oldest() {
    let mut h = FrequencyHistory::new();
    for i in 0..503u32 {
        h.push(Some(i));
        assert_eq!(h.len(), 500);
    }
    let v = h.to_vec();
    assert_eq!(v.len(), 500);
    assert_eq!(v[0], Some(3));
    assert_eq!(v[499], Some(502));
    assert_eq!(h.get(10), Some(13));
    assert_eq!(h.trailing(2), vec![Some(501), Some(502)]);
}

#[test]
fn history_push_absent_shifts() {
    let mut h = FrequencyHistory::new();
    h.push(Some(440_000));
    h.push(None);
    let v = h.to_vec();
    assert_eq!(v[498], Some(440_000));
    assert_eq!(v[499], None);
    assert_eq!(h.trailing(0), Vec::new());
}
