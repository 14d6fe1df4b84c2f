use rustic_audio_tool::opus_playback::{fill_from, Playhead};
use rustic_audio_tool::playback::fill_frames;

#[test]
fn playhead_spreads_mono_over_the_channels() {
    let decoded: Vec<i32> = vec![1, 2, 3, 4, 5];
    let mut head = Playhead::new();
    assert!(head.needs_frame());
    head.load(5);
    assert!(!head.needs_frame());
    let mut data: Vec<i32> = vec![-1; 8];
    let next = head.play(&decoded, &mut data, 0, 2);
    assert_eq!(next, 8);
    assert_eq!(data, vec![1, 1, 2, 2, 3, 3, 4, 4]);
    assert!(!head.needs_frame());
    let mut more: Vec<i32> = vec![-1; 7];
    let next = head.play(&decoded, &mut more, 1, 3);
    assert_eq!(next, 4);
    assert_eq!(more, vec![-1, 5, 5, 5, -1, -1, -1]);
    assert!(head.needs_frame());
    assert_eq!(head.play(&decoded, &mut more, 4, 3), 4);
}

#[test]
fn playhead_stops_where_the_output_is_full() {
    let decoded: Vec<i32> = (0..960).collect();
    let mut head = Playhead::new();
    head.load(960);
    let mut data: Vec<i32> = vec![-1; 5];
    assert_eq!(head.play(&decoded, &mut data, 0, 2), 4);
    assert_eq!(data, vec![0, 0, 1, 1, -1]);
    assert_eq!(head.play(&decoded, &mut data, 4, 2), 4);
    assert_eq!(head.play(&decoded, &mut data, 5, 1), 5);
    assert_eq!(head.play(&decoded, &mut data, 6, 1), 6);
    assert_eq!(head.play(&decoded, &mut data, 0, 0), 0);
    assert_eq!(data, vec![0, 0, 1, 1, -1]);
    assert_eq!(head.play(&decoded, &mut data, 0, 1), 5);
    assert_eq!(data, vec![2, 3, 4, 5, 6]);
}

#[test]
fn playhead_never_reads_past_the_decoded_buffer() {
    let decoded: Vec<i32> = vec![7, 8];
    let mut head = Playhead::new();
    head.load(10);
    let mut data: Vec<i32> = vec![0; 6];
    assert_eq!(head.play(&decoded, &mut data, 0, 1), 2);
    assert_eq!(data, vec![7, 8, 0, 0, 0, 0]);
    assert_eq!(head.play(&decoded, &mut data, 2, 1), 2);
    assert!(!head.needs_frame());
    head.load(0);
    assert!(head.needs_frame());
}

#[test]
fn rest_of_the_output_is_silence() {
    let mut data: Vec<i32> = vec![1, 2, 3, 4];
    fill_from(&mut data, 2, 0);
    assert_eq!(data, vec![1, 2, 0, 0]);
    fill_from(&mut data, 9, 5);
    assert_eq!(data, vec![1, 2, 0, 0]);
    fill_from(&mut data, 0, 5);
    assert_eq!(data, vec![5, 5, 5, 5]);
}

#[test]
fn stereo_file_on_a_stereo_device() {
    let samples: Vec<i32> = vec![10, 11, 20, 21, 30, 31];
    let mut data: Vec<i32> = vec![-1; 4];
    assert_eq!(fill_frames(&mut data, 2, &samples, 0, 2, true, 0), (4, true));
    assert_eq!(data, vec![10, 11, 20, 21]);
    assert_eq!(fill_frames(&mut data, 2, &samples, 4, 2, true, 0), (6, false));
    assert_eq!(data, vec![30, 31, 0, 0]);
    assert_eq!(fill_frames(&mut data, 2, &samples, 6, 2, true, 0), (6, false));
    assert_eq!(data, vec![0, 0, 0, 0]);
}

#[test]
fn mono_file_on_a_stereo_device() {
    let samples: Vec<i32> = vec![1, 2, 3];
    let mut data: Vec<i32> = vec![-1; 6];
    assert_eq!(fill_frames(&mut data, 2, &samples, 0, 1, true, 0), (3, true));
    assert_eq!(data, vec![1, 1, 2, 2, 3, 3]);
    let mut again: Vec<i32> = vec![-1; 2];
    assert_eq!(fill_frames(&mut again, 2, &samples, 3, 1, true, 0), (3, false));
    assert_eq!(again, vec![0, 0]);
}

#[test]
fn stereo_file_on_a_mono_device_and_a_cut_frame() {
    let samples: Vec<i32> = vec![10, 11, 20, 21, 30];
    let mut data: Vec<i32> = vec![-1; 3];
    assert_eq!(fill_frames(&mut data, 1, &samples, 0, 2, true, 0), (6, true));
    assert_eq!(data, vec![10, 20, 30]);
    let mut wide: Vec<i32> = vec![-1; 7];
    assert_eq!(fill_frames(&mut wide, 4, &samples, 2, 2, true, 9), (6, true));
    assert_eq!(wide, vec![20, 21, 20, 21, 30, 9, 30]);
}

#[test]
fn stopped_playback_is_silence_and_keeps_its_place() {
    let samples: Vec<i32> = vec![1, 2, 3, 4];
    let mut data: Vec<i32> = vec![-1; 4];
    assert_eq!(fill_frames(&mut data, 2, &samples, 2, 2, false, 0), (2, false));
    assert_eq!(data, vec![0, 0, 0, 0]);
    let mut none: Vec<i32> = Vec::new();
    assert_eq!(fill_frames(&mut none, 2, &samples, 0, 2, true, 0), (0, true));
    assert_eq!(fill_frames(&mut none, 2, &samples, 4, 2, true, 0), (4, true));
}
