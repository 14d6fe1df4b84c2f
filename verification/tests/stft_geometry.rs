use rustic_audio_tool::stft::{
    bin_passes, filter_mask, folded_bin, frame_count, frame_span, FFT_SIZE, HOP_SIZE,
};

#[test]
fn frames_start_every_hop() {
    assert_eq!(FFT_SIZE, 4096);
    assert_eq!(HOP_SIZE, 2048);
    assert_eq!(frame_count(0), 0);
    assert_eq!(frame_count(1), 1);
    assert_eq!(frame_count(2048), 1);
    assert_eq!(frame_count(2049), 2);
    assert_eq!(frame_count(4096), 2);
    assert_eq!(frame_count(10000), 5);
}

#[test]
fn short_buffer_is_one_padded_frame() {
    assert_eq!(frame_count(100), 1);
    assert_eq!(frame_span(100, 0), (0, 100));
    assert_eq!(frame_span(100, 1), (100, 0));
}

#[test]
fn spans_shrink_at_the_end_of_the_buffer() {
    assert_eq!(frame_span(10000, 0), (0, 4096));
    assert_eq!(frame_span(10000, 1), (2048, 4096));
    assert_eq!(frame_span(10000, 2), (4096, 4096));
    assert_eq!(frame_span(10000, 3), (6144, 3856));
    assert_eq!(frame_span(10000, 4), (8192, 1808));
    assert_eq!(frame_span(10000, 5), (10000, 0));
    assert_eq!(frame_span(10000, usize::MAX), (10000, 0));
    assert_eq!(frame_span(4096, 2), (4096, 0));
}

#[test]
fn every_sample_is_covered_once_or_twice() {
    let len = 9000;
    let mut cover = vec![0u32; len];
    for k in 0..frame_count(len) {
        let (start, taken) = frame_span(len, k);
        for i in start..start + taken {
            cover[i] += 1;
        }
    }
    for (i, count) in cover.iter().enumerate() {
        assert_eq!(*count, if i < 2048 { 1 } else { 2 });
    }
}

#[test]
fn upper_bins_fold_to_negative_frequencies() {
    assert_eq!(folded_bin(0), 0);
    assert_eq!(folded_bin(1), 1);
    assert_eq!(folded_bin(2048), 2048);
    assert_eq!(folded_bin(2049), -2047);
    assert_eq!(folded_bin(4095), -1);
}

#[test]
fn band_edges_at_48_khz() {
    // Bins lie 11.71875 Hz apart: bin 6 is 70.3 Hz, bin 7 is 82.0 Hz.
    assert!(!bin_passes(6, 48000, 75_000, 20_000_000));
    assert!(bin_passes(7, 48000, 75_000, 20_000_000));
    assert!(!bin_passes(4096 - 6, 48000, 75_000, 20_000_000));
    assert!(bin_passes(4096 - 7, 48000, 75_000, 20_000_000));
    // Bin 1706 is 19992.2 Hz, bin 1707 is 20003.9 Hz.
    assert!(bin_passes(1706, 48000, 75_000, 20_000_000));
    assert!(!bin_passes(1707, 48000, 75_000, 20_000_000));
    assert!(!bin_passes(2048, 48000, 75_000, 20_000_000));
    assert!(!bin_passes(0, 48000, 75_000, 20_000_000));
}

#[test]
fn cut_off_on_a_bin_keeps_the_bin() {
    // Bin 64 at 48 kHz is exactly 750 Hz.
    assert!(bin_passes(64, 48000, 750_000, 750_000));
    assert!(!bin_passes(64, 48000, 750_001, 20_000_000));
    assert!(!bin_passes(64, 48000, 0, 749_999));
    assert!(!bin_passes(63, 48000, 750_000, 750_000));
}

#[test]
fn full_band_keeps_every_bin() {
    for rate in [8000u32, 44100, 48000, 96000, u32::MAX] {
        let mask = filter_mask(rate, 0, (rate as i64) * 500);
        assert_eq!(mask.len(), 4096);
        assert!(mask.iter().all(|keep| *keep));
    }
}

#[test]
fn mask_matches_the_bin_rule_and_is_symmetric() {
    let mask = filter_mask(44100, 100_000, 5_000_000);
    assert_eq!(mask.len(), FFT_SIZE);
    for bin in 0..FFT_SIZE {
        assert_eq!(mask[bin], bin_passes(bin, 44100, 100_000, 5_000_000));
    }
    for bin in 1..FFT_SIZE {
        assert_eq!(mask[bin], mask[FFT_SIZE - bin]);
    }
    let kept = mask.iter().filter(|keep| **keep).count();
    // Bins 10 to 464 on either side.
    assert_eq!(kept, 2 * 455);
}

#[test]
fn crossed_cut_offs_keep_nothing() {
    let mask = filter_mask(48000, 5_000_000, 1_000_000);
    assert!(mask.iter().all(|keep| !*keep));
}
