use spectrogram::framing::{frames_across, frames_padded, n_frames_in};
use spectrogram::{DeviceType, Features, LogMelSpectrogram, SpectrogramError};

fn whisper_like() -> LogMelSpectrogram {
    LogMelSpectrogram::open((128, 201), 128, 400, 160, DeviceType::Cpu).unwrap()
}

#[test]
fn test_open() {
    let n_mels = 128;
    let n_fft = 400;
    let hop_length = 160;
    let device = DeviceType::Cpu;

    let spectrogram =
        LogMelSpectrogram::open((n_mels, n_fft / 2 + 1), n_mels, n_fft, hop_length, device);
    assert!(spectrogram.is_ok());

    let spectrogram = spectrogram.unwrap();
    assert_eq!(spectrogram.n_fft(), n_fft);
    assert_eq!(spectrogram.hop_length(), hop_length);
    assert_eq!(spectrogram.n_left_overlap_frames(), 2);
    assert_eq!(spectrogram.n_left_overlap_samples(), 320);
    assert_eq!(spectrogram.n_right_overlap_samples(), 40);
}

#[test]
fn open_keeps_parameters() {
    let s = LogMelSpectrogram::open((80, 257), 80, 512, 128, DeviceType::Cuda).unwrap();
    assert_eq!(s.n_mels(), 80);
    assert_eq!(s.n_fft(), 512);
    assert_eq!(s.hop_length(), 128);
    assert_eq!(s.device(), DeviceType::Cuda);
}

#[test]
fn overlap_geometry_exact_division() {
    let s = LogMelSpectrogram::open((40, 257), 40, 512, 128, DeviceType::Cpu).unwrap();
    assert_eq!(s.n_left_overlap_frames(), 2);
    assert_eq!(s.n_left_overlap_samples(), 256);
    assert_eq!(s.n_right_overlap_samples(), 128);
}

#[test]
fn overlap_geometry_rounds_up() {
    let s = LogMelSpectrogram::open((40, 201), 40, 400, 150, DeviceType::Cpu).unwrap();
    assert_eq!(s.n_left_overlap_frames(), 2);
    assert_eq!(s.n_left_overlap_samples(), 300);
    assert_eq!(s.n_right_overlap_samples(), 50);
    let t = LogMelSpectrogram::open((40, 201), 40, 400, 201, DeviceType::Cpu).unwrap();
    assert_eq!(t.n_left_overlap_frames(), 1);
    assert_eq!(t.n_left_overlap_samples(), 201);
}

#[test]
fn open_rejects_zero_mels() {
    let r = LogMelSpectrogram::open((0, 201), 0, 400, 160, DeviceType::Cpu);
    assert_eq!(r.err(), Some(SpectrogramError::ZeroMels));
}

#[test]
fn open_rejects_zero_hop() {
    let r = LogMelSpectrogram::open((128, 201), 128, 400, 0, DeviceType::Cpu);
    assert_eq!(r.err(), Some(SpectrogramError::ZeroHopLength));
}

#[test]
fn open_rejects_hop_not_below_fft() {
    let r = LogMelSpectrogram::open((128, 201), 128, 400, 400, DeviceType::Cpu);
    assert_eq!(r.err(), Some(SpectrogramError::HopLengthNotBelowFft));
}

#[test]
fn open_rejects_filter_with_wrong_bin_count() {
    let r = LogMelSpectrogram::open((128, 200), 128, 400, 160, DeviceType::Cpu);
    assert_eq!(r.err(), Some(SpectrogramError::FilterShapeMismatch { rows: 128, cols: 200 }));
    let r = LogMelSpectrogram::open((128, 202), 128, 400, 160, DeviceType::Cpu);
    assert_eq!(r.err(), Some(SpectrogramError::FilterShapeMismatch { rows: 128, cols: 202 }));
}

#[test]
fn open_rejects_filter_with_wrong_band_count() {
    let r = LogMelSpectrogram::open((80, 201), 128, 400, 160, DeviceType::Cpu);
    assert_eq!(r.err(), Some(SpectrogramError::FilterShapeMismatch { rows: 80, cols: 201 }));
}

#[test]
fn frame_count_law() {
    let s = whisper_like();
    assert_eq!(s.n_frames(0, 0), 0);
    assert_eq!(s.n_frames(399, 0), 0);
    assert_eq!(s.n_frames(200, 199), 0);
    assert_eq!(s.n_frames(400, 0), 1);
    assert_eq!(s.n_frames(200, 200), 1);
    assert_eq!(s.n_frames(559, 0), 1);
    assert_eq!(s.n_frames(560, 0), 2);
    assert_eq!(s.n_frames(16000 * 30, 0), 2998);
    assert_eq!(s.n_frames(16000 * 20, 16000 * 10), 2998);
}

#[test]
fn frames_to_extract_counts_both_parts() {
    let s = whisper_like();
    assert_eq!(s.frames_to_extract(16000 * 20, 16000 * 10, 0), Some(2998));
    assert_eq!(s.frames_to_extract(100, 100, 200), Some(1));
    assert_eq!(s.frames_to_extract(100, 100, 100), Some(0));
    assert_eq!(s.frames_to_extract(usize::MAX, 1, 0), None);
    assert_eq!(s.frames_to_extract(1, 1, usize::MAX), None);
}

#[test]
fn empty_has_bands_and_no_frames() {
    let s = whisper_like();
    let a: Features<f32> = s.empty();
    let b: Features<f32> = s.empty();
    assert_eq!(a.shape(), (128, 0));
    assert_eq!(b.shape(), (128, 0));
    assert!(a.as_slice().is_empty());
    assert!(b.into_vec().is_empty());
}

#[test]
fn accept_output_takes_matching_shape() {
    let s = LogMelSpectrogram::open((2, 3), 2, 4, 1, DeviceType::Cpu).unwrap();
    let f = s.accept_output(3, 2, 3, vec![1.0f32, 2.0, 3.0, 4.0, 5.0, 6.0]).unwrap();
    assert_eq!(f.shape(), (2, 3));
    assert_eq!(*f.get(0, 0), 1.0);
    assert_eq!(*f.get(0, 2), 3.0);
    assert_eq!(*f.get(1, 0), 4.0);
    assert_eq!(*f.get(1, 2), 6.0);
}

#[test]
fn accept_output_rejects_wrong_shape() {
    let s = LogMelSpectrogram::open((2, 3), 2, 4, 1, DeviceType::Cpu).unwrap();
    assert_eq!(s.accept_output(3, 3, 3, vec![0u8; 9]).err(), Some(SpectrogramError::Extraction));
    assert_eq!(s.accept_output(3, 2, 2, vec![0u8; 4]).err(), Some(SpectrogramError::Extraction));
    assert_eq!(
        s.accept_output(3, 2, 3, vec![0u8; 5]).err(),
        Some(SpectrogramError::FeatureSizeMismatch { len: 5 })
    );
}

#[test]
fn features_from_parts_checks_length() {
    let f = Features::from_parts(2, 2, vec![1, 2, 3, 4]).unwrap();
    assert_eq!(f.n_mels(), 2);
    assert_eq!(f.n_frames(), 2);
    assert_eq!(*f.get(1, 1), 4);
    assert_eq!(f.into_vec(), vec![1, 2, 3, 4]);
    let e = Features::from_parts(2, 2, vec![1, 2, 3]).err();
    assert_eq!(e, Some(SpectrogramError::FeatureSizeMismatch { len: 3 }));
    let e = Features::<u8>::from_parts(usize::MAX, 2, vec![]).err();
    assert_eq!(e, Some(SpectrogramError::FeatureSizeMismatch { len: 0 }));
}

#[test]
fn padded_frames_start_with_zeros() {
    let samples = [1, 2, 3, 4, 5, 6];
    let frames = frames_padded(&samples, 2, 0, 4, 2);
    assert_eq!(frames, vec![vec![0, 0, 1, 2], vec![1, 2, 3, 4], vec![3, 4, 5, 6]]);
}

#[test]
fn padded_frames_drop_partial_tail() {
    let samples = [1, 2, 3, 4, 5, 6, 7];
    let frames = frames_padded(&samples, 0, 0, 4, 3);
    assert_eq!(frames, vec![vec![1, 2, 3, 4], vec![4, 5, 6, 7]]);
    let frames = frames_padded(&samples[..6], 0, 0, 4, 3);
    assert_eq!(frames, vec![vec![1, 2, 3, 4]]);
}

#[test]
fn short_signal_has_no_frames() {
    let samples = [1.0f32, 2.0, 3.0];
    assert!(frames_padded(&samples, 0, 0.0, 4, 1).is_empty());
    assert!(frames_across(&samples[..1], &samples[1..], 0, 0.0, 4, 1).is_empty());
    assert_eq!(n_frames_in(3, 4, 1), 0);
}

#[test]
fn frames_across_seam_match_joined() {
    let first = [1, 2, 3];
    let second = [4, 5, 6, 7, 8];
    let joined = [1, 2, 3, 4, 5, 6, 7, 8];
    for padding in 0..5 {
        for hop in 1..4 {
            let split = frames_across(&first, &second, padding, -1, 4, hop);
            let whole = frames_padded(&joined, padding, -1, 4, hop);
            assert_eq!(split, whole);
        }
    }
    let split = frames_across(&first, &second, 1, 0, 4, 2);
    assert_eq!(split, vec![vec![0, 1, 2, 3], vec![2, 3, 4, 5], vec![4, 5, 6, 7]]);
}

#[test]
fn framing_is_repeatable() {
    let samples: Vec<f32> = (0..1000).map(|i| (i as f32).sin()).collect();
    let a = frames_padded(&samples, 160, 0.0, 400, 160);
    let b = frames_padded(&samples, 160, 0.0, 400, 160);
    assert_eq!(a.len(), whisper_like().n_frames(1000, 160));
    assert_eq!(a, b);
}

#[test]
fn silent_frames_stay_silent() {
    let silence = vec![0.0f32; 800];
    let frames = frames_padded(&silence, 0, 0.0, 400, 160);
    assert_eq!(frames.len(), 3);
    assert!(frames.iter().all(|f| f.len() == 400 && f.iter().all(|v| *v == 0.0)));
}

#[test]
fn dropping_whole_hops_drops_leading_frames() {
    let x: Vec<i32> = (0..20).collect();
    let all = frames_padded(&x, 0, 0, 4, 2);
    assert_eq!(all.len(), 9);
    for m in 0..9 {
        let rest = frames_padded(&x[m * 2..], 0, 0, 4, 2);
        assert_eq!(rest, all[m..].to_vec());
    }
    assert!(frames_padded(&x[18..], 0, 0, 4, 2).is_empty());
}

#[test]
fn left_context_reproduces_chunk_frames() {
    let s = LogMelSpectrogram::open((4, 5), 4, 8, 2, DeviceType::Cpu).unwrap();
    let context = s.n_left_overlap_samples();
    assert_eq!(context, 4);
    let history: Vec<i32> = (0..10).collect();
    let chunk: Vec<i32> = (10..20).collect();
    let whole = frames_across(&history, &chunk, 0, 0, s.n_fft(), s.hop_length());
    let resumed = frames_across(&history[10 - context..], &chunk, 0, 0, s.n_fft(), s.hop_length());
    assert_eq!(resumed, whole[(10 - context) / 2..].to_vec());
}
