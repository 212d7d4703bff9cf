use vis_dump::baseline::{baseline_count_at_most, decode_baseline, encode_baseline};
use vis_dump::chunk::{chunk_spans, RecordSpan, ShapeError};

#[test]
fn decode_three_antennas_enumeration() {
    // The six baselines of three antennas, in upper-triangular order.
    let expected = vec![(0, 0), (0, 1), (0, 2), (1, 1), (1, 2), (2, 2)];
    for (i, pair) in expected.iter().enumerate() {
        assert_eq!(decode_baseline(i, 3), *pair);
    }
}

#[test]
fn decode_single_antenna() {
    assert_eq!(decode_baseline(0, 1), (0, 0));
}

#[test]
fn decode_first_and_last_of_large_count() {
    let n = 128;
    let total = n * (n + 1) / 2;
    assert_eq!(decode_baseline(0, n), (0, 0));
    assert_eq!(decode_baseline(n - 1, n), (0, n - 1));
    assert_eq!(decode_baseline(total - 1, n), (n - 1, n - 1));
}

#[test]
fn decode_then_encode_round_trips() {
    for n in 1..=9 {
        let total = n * (n + 1) / 2;
        for i in 0..total {
            let (a1, a2) = decode_baseline(i, n);
            assert!(a1 <= a2 && a2 < n);
            assert_eq!(encode_baseline(a1, a2, n), i);
        }
    }
}

#[test]
fn baseline_count_bounds() {
    // Three antennas form six baselines.
    assert!(baseline_count_at_most(0, 3));
    assert!(baseline_count_at_most(6, 3));
    assert!(!baseline_count_at_most(7, 3));
    // Two antennas form three.
    assert!(baseline_count_at_most(3, 2));
    assert!(!baseline_count_at_most(4, 2));
    // No antennas form none.
    assert!(baseline_count_at_most(0, 0));
    assert!(!baseline_count_at_most(1, 0));
}

#[test]
fn chunk_layout_of_one_slice() {
    // 2 antennas -> 3 baselines; 1 fine channel; 1 polarisation product:
    // stride 2, buffer of 6 samples, 3 record spans.
    let spans = chunk_spans(6, 1, 1, 2).unwrap();
    assert_eq!(spans.len(), 3);
    assert_eq!(spans[0], RecordSpan { baseline_index: 0, fine_chan_index: 0, start: 0 });
    assert_eq!(spans[1], RecordSpan { baseline_index: 1, fine_chan_index: 0, start: 2 });
    assert_eq!(spans[2], RecordSpan { baseline_index: 2, fine_chan_index: 0, start: 4 });
}

#[test]
fn chunk_layout_with_fine_channels() {
    // 1 antenna -> 1 baseline; 2 fine channels; 4 polarisation products:
    // fine stride 8, baseline stride 16.
    let spans = chunk_spans(16, 2, 4, 1).unwrap();
    assert_eq!(spans.len(), 2);
    assert_eq!(spans[0], RecordSpan { baseline_index: 0, fine_chan_index: 0, start: 0 });
    assert_eq!(spans[1], RecordSpan { baseline_index: 0, fine_chan_index: 1, start: 8 });
}

#[test]
fn chunk_layout_orders_baseline_major() {
    // 2 antennas -> 3 baselines; 2 fine channels; 1 polarisation product:
    // fine stride 2, baseline stride 4, buffer of 12 samples.
    let spans = chunk_spans(12, 2, 1, 2).unwrap();
    assert_eq!(spans.len(), 6);
    let order: Vec<(usize, usize)> =
        spans.iter().map(|s| (s.baseline_index, s.fine_chan_index)).collect();
    assert_eq!(order, vec![(0, 0), (0, 1), (1, 0), (1, 1), (2, 0), (2, 1)]);
    let starts: Vec<usize> = spans.iter().map(|s| s.start).collect();
    assert_eq!(starts, vec![0, 2, 4, 6, 8, 10]);
}

#[test]
fn chunk_empty_buffer() {
    let spans = chunk_spans(0, 2, 4, 3).unwrap();
    assert_eq!(spans.len(), 0);
}

#[test]
fn chunk_rejects_misaligned_buffer() {
    // Baseline stride is 2; a buffer of 5 samples has a remainder.
    assert!(matches!(chunk_spans(5, 1, 1, 2), Err(ShapeError::Misaligned)));
}

#[test]
fn chunk_rejects_excess_baselines() {
    // 2 antennas allow 3 baselines; a buffer of 8 samples implies 4.
    assert!(matches!(chunk_spans(8, 1, 1, 2), Err(ShapeError::ExcessBaselines)));
}
