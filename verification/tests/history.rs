use spectrogram::constants::{FFT_SIZE, SPECTRUM_BINS, SPEC_WIDTH};
use spectrogram::frame::{bin_at, copy_frame, positive_half};
use spectrogram::history::SpectrogramHistory;
use spectrogram::shared::SharedHistory;

fn assert_send_sync<T: Send + Sync>() {}

fn flat(value: f32) -> Vec<f32> {
    vec![value; SPECTRUM_BINS]
}

#[test]
fn default_dimensions() {
    assert_eq!(FFT_SIZE, 512);
    assert_eq!(SPECTRUM_BINS, 256);
    assert_eq!(SPEC_WIDTH, 200);
}

#[test]
fn new_history_is_filled() {
    let history: SpectrogramHistory<f32> = SpectrogramHistory::new(SPEC_WIDTH, SPECTRUM_BINS, 0.0);
    assert_eq!(history.frame_count(), 200);
    assert_eq!(history.bin_count(), 256);
    let frames = history.snapshot();
    assert_eq!(frames.len(), 200);
    for frame in &frames {
        assert_eq!(frame, &flat(0.0));
    }
}

#[test]
fn push_puts_the_frame_in_front() {
    let mut history: SpectrogramHistory<f32> = SpectrogramHistory::new(3, 2, 0.0);
    history.push(vec![1.0, 1.5]);
    assert_eq!(history.snapshot(), vec![vec![1.0, 1.5], vec![0.0, 0.0], vec![0.0, 0.0]]);
    history.push(vec![2.0, 2.5]);
    assert_eq!(history.snapshot(), vec![vec![2.0, 2.5], vec![1.0, 1.5], vec![0.0, 0.0]]);
    history.push(vec![3.0, 3.5]);
    assert_eq!(history.snapshot(), vec![vec![3.0, 3.5], vec![2.0, 2.5], vec![1.0, 1.5]]);
    history.push(vec![4.0, 4.5]);
    assert_eq!(history.snapshot(), vec![vec![4.0, 4.5], vec![3.0, 3.5], vec![2.0, 2.5]]);
    assert_eq!(history.frame_count(), 3);
}

#[test]
fn history_of_one_frame_keeps_the_last() {
    let mut history: SpectrogramHistory<u8> = SpectrogramHistory::new(1, 3, 0);
    assert_eq!(history.snapshot(), vec![vec![0, 0, 0]]);
    history.push(vec![1, 2, 3]);
    history.push(vec![4, 5, 6]);
    assert_eq!(history.snapshot(), vec![vec![4, 5, 6]]);
}

#[test]
fn history_of_empty_frames() {
    let mut history: SpectrogramHistory<u8> = SpectrogramHistory::new(2, 0, 9);
    history.push(Vec::new());
    assert_eq!(history.snapshot(), vec![Vec::<u8>::new(), Vec::<u8>::new()]);
}

#[test]
fn full_rotation_keeps_width_and_order() {
    let mut history: SpectrogramHistory<f32> = SpectrogramHistory::new(SPEC_WIDTH, SPECTRUM_BINS, 0.0);
    let total: usize = SPEC_WIDTH + 57;
    for k in 1..=total {
        history.push(flat(k as f32));
        let frames = history.snapshot();
        assert_eq!(frames.len(), SPEC_WIDTH);
        assert_eq!(frames[0], flat(k as f32));
    }
    let frames = history.snapshot();
    for age in 0..SPEC_WIDTH {
        assert_eq!(frames[age], flat((total - age) as f32));
    }
}

#[test]
fn prefill_remains_until_overwritten() {
    let mut history: SpectrogramHistory<f32> = SpectrogramHistory::new(5, 2, -1.0);
    history.push(vec![1.0, 1.0]);
    history.push(vec![2.0, 2.0]);
    let frames = history.snapshot();
    assert_eq!(frames[0], vec![2.0, 2.0]);
    assert_eq!(frames[1], vec![1.0, 1.0]);
    for age in 2..5 {
        assert_eq!(frames[age], vec![-1.0, -1.0]);
    }
}

#[test]
fn snapshot_is_independent() {
    let mut history: SpectrogramHistory<f32> = SpectrogramHistory::new(2, 2, 0.0);
    history.push(vec![1.0, 2.0]);
    let mut taken = history.snapshot();
    taken[0][0] = 99.0;
    taken.pop();
    history.push(vec![3.0, 4.0]);
    assert_eq!(taken, vec![vec![99.0, 2.0]]);
    assert_eq!(history.snapshot(), vec![vec![3.0, 4.0], vec![1.0, 2.0]]);
}

#[test]
fn shared_history_can_cross_threads() {
    assert_send_sync::<SharedHistory<f32>>();
}

#[test]
fn shared_history_starts_filled() {
    let shared: SharedHistory<f32> = SharedHistory::new(SPEC_WIDTH, SPECTRUM_BINS, 0.0);
    assert_eq!(shared.frame_count(), 200);
    assert_eq!(shared.bin_count(), 256);
    let frames = shared.snapshot();
    assert_eq!(frames.len(), 200);
    assert!(frames.iter().all(|frame| frame == &flat(0.0)));
}

#[test]
fn shared_history_push_then_snapshot() {
    let shared: SharedHistory<f32> = SharedHistory::new(3, 2, 0.0);
    shared.push(vec![1.0, 2.0]);
    assert_eq!(shared.snapshot(), vec![vec![1.0, 2.0], vec![0.0, 0.0], vec![0.0, 0.0]]);
    shared.push(vec![3.0, 4.0]);
    shared.push(vec![5.0, 6.0]);
    shared.push(vec![7.0, 8.0]);
    assert_eq!(shared.snapshot(), vec![vec![7.0, 8.0], vec![5.0, 6.0], vec![3.0, 4.0]]);
}

#[test]
fn shared_history_full_rotation() {
    let shared: SharedHistory<f32> = SharedHistory::new(SPEC_WIDTH, SPECTRUM_BINS, 0.0);
    let total: usize = 3 * SPEC_WIDTH;
    for k in 1..=total {
        shared.push(flat(k as f32));
    }
    let frames = shared.snapshot();
    assert_eq!(frames.len(), SPEC_WIDTH);
    for age in 0..SPEC_WIDTH {
        assert_eq!(frames[age], flat((total - age) as f32));
    }
}

#[test]
fn bin_lookup_inside_and_outside() {
    let frame: Vec<f32> = vec![0.5, 1.5, 2.5];
    assert_eq!(bin_at(&frame, 0), Some(0.5));
    assert_eq!(bin_at(&frame, 2), Some(2.5));
    assert_eq!(bin_at(&frame, 3), None);
    assert_eq!(bin_at(&frame, usize::MAX), None);
    assert_eq!(bin_at(&Vec::<f32>::new(), 0), None);
}

#[test]
fn copy_frame_copies() {
    let frame: Vec<f32> = vec![0.5, 1.5, 2.5];
    let mut copy = copy_frame(&frame);
    assert_eq!(copy, frame);
    copy[0] = 9.0;
    assert_eq!(frame, vec![0.5, 1.5, 2.5]);
    assert!(copy_frame(&Vec::<u8>::new()).is_empty());
}

#[test]
fn positive_half_keeps_the_first_half() {
    assert_eq!(positive_half(vec![1, 2, 3, 4]), vec![1, 2]);
    assert_eq!(positive_half(vec![1, 2, 3, 4, 5]), vec![1, 2]);
    assert_eq!(positive_half(vec![1]), Vec::<i32>::new());
    assert_eq!(positive_half(Vec::<i32>::new()), Vec::<i32>::new());
    let spectrum: Vec<usize> = (0..FFT_SIZE).collect();
    let expected: Vec<usize> = (0..SPECTRUM_BINS).collect();
    assert_eq!(positive_half(spectrum), expected);
}
