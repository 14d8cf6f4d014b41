use wake_trigger::{downmix_i16, downmix_u16};

#[test]
fn mono_i16_is_identity() {
    let data: Vec<i16> = vec![0, 1, -1, 32767, -32768];
    assert_eq!(downmix_i16(&data, 1), data);
}

#[test]
fn zero_channels_read_as_mono() {
    let data: Vec<i16> = vec![5, -7, 9];
    assert_eq!(downmix_i16(&data, 0), data);
}

#[test]
fn stereo_i16_averages_frames() {
    let data: Vec<i16> = vec![100, 300, -100, -300, 32767, 32767];
    assert_eq!(downmix_i16(&data, 2), vec![200, -200, 32767]);
}

#[test]
fn division_truncates_toward_zero() {
    // (-3 + -4) / 2 = -3.5 becomes -3; (3 + 4) / 2 = 3.5 becomes 3.
    let data: Vec<i16> = vec![-3, -4, 3, 4];
    assert_eq!(downmix_i16(&data, 2), vec![-3, 3]);
    // (-1 + -1 + 0) / 3 = -0.67 becomes 0.
    assert_eq!(downmix_i16(&vec![-1, -1, 0], 3), vec![0]);
}

#[test]
fn incomplete_trailing_frame_is_dropped() {
    let data: Vec<i16> = vec![1, 2, 3, 4, 5, 6, 7];
    assert_eq!(downmix_i16(&data, 3), vec![2, 5]);
    assert_eq!(downmix_i16(&vec![1, 2], 3), Vec::<i16>::new());
}

#[test]
fn empty_buffer_gives_empty_output() {
    assert_eq!(downmix_i16(&Vec::new(), 2), Vec::<i16>::new());
    assert_eq!(downmix_u16(&Vec::new(), 2), Vec::<i16>::new());
}

#[test]
fn mono_u16_is_offset_by_midpoint() {
    let data: Vec<u16> = vec![0, 32768, 65535, 40000];
    assert_eq!(downmix_u16(&data, 1), vec![-32768, 0, 32767, 7232]);
}

#[test]
fn stereo_u16_averages_offsets() {
    // Offsets -32768 and 32767 sum to -1; -1 / 2 truncates to 0.
    let data: Vec<u16> = vec![0, 65535, 32768, 32770];
    assert_eq!(downmix_u16(&data, 2), vec![0, 1]);
}

#[test]
fn uniform_frames_keep_their_value() {
    for &c in &[1u16, 2, 3, 5, 8, 255] {
        for &v in &[-32768i16, -12345, -1, 0, 1, 999, 32767] {
            let data: Vec<i16> = vec![v; c as usize * 3];
            assert_eq!(downmix_i16(&data, c), vec![v; 3]);
        }
        for &v in &[0u16, 1, 32767, 32768, 50000, 65535] {
            let data: Vec<u16> = vec![v; c as usize * 2];
            let expected = (v as i32 - 32768) as i16;
            assert_eq!(downmix_u16(&data, c), vec![expected; 2]);
        }
    }
}

#[test]
fn widest_frames_stay_in_range() {
    let c: u16 = 65535;
    let low: Vec<i16> = vec![i16::MIN; c as usize];
    assert_eq!(downmix_i16(&low, c), vec![i16::MIN]);
    let high: Vec<u16> = vec![u16::MAX; c as usize];
    assert_eq!(downmix_u16(&high, c), vec![i16::MAX]);
    let mut mixed: Vec<i16> = vec![i16::MAX; c as usize];
    mixed[0] = i16::MIN;
    // (65534 * 32767 - 32768) / 65535 = 32766.49..., truncated.
    assert_eq!(downmix_i16(&mixed, c), vec![32766]);
}
