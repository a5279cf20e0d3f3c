use ntsc::NtscDecoder;
use std::collections::VecDeque;

fn queue_of<T>(items: Vec<T>) -> VecDeque<T> {
    VecDeque::from(items)
}

#[test]
fn new_decoder_is_warming_up() {
    let dec: NtscDecoder<f32> = NtscDecoder::new(5);
    assert_eq!(dec.sample_count(), 5);
    assert!(!dec.is_full());
    assert!(dec.window().is_none());
}

#[test]
fn window_opens_at_the_last_push_of_the_warm_up() {
    for n in 1..8usize {
        let mut dec: NtscDecoder<u32> = NtscDecoder::new(n);
        for k in 0..n {
            assert!(!dec.is_full(), "capacity {} after {} pushes", n, k);
            assert!(dec.window().is_none());
            dec.push_sample(k as u32, 100 + k as u32);
        }
        assert!(dec.is_full(), "capacity {} after {} pushes", n, n);
        let window = dec.window().expect("a full window");
        assert_eq!(window.len(), n);
    }
}

#[test]
fn window_stays_open_after_the_warm_up() {
    let mut dec: NtscDecoder<u32> = NtscDecoder::new(3);
    for k in 0..50u32 {
        dec.push_sample(k, k);
        assert_eq!(dec.is_full(), k >= 2);
        assert_eq!(dec.window().is_some(), k >= 2);
    }
}

#[test]
fn window_holds_samples_in_push_order() {
    let mut dec: NtscDecoder<i64> = NtscDecoder::new(4);
    dec.push_sample(10, -1);
    dec.push_sample(20, -2);
    dec.push_sample(30, -3);
    dec.push_sample(40, -4);
    assert_eq!(dec.window(), Some(&queue_of(vec![(10, -1), (20, -2), (30, -3), (40, -4)])));
}

#[test]
fn window_evicts_the_oldest_first() {
    let mut dec: NtscDecoder<i64> = NtscDecoder::new(3);
    dec.push_sample(1, 11);
    dec.push_sample(2, 22);
    dec.push_sample(3, 33);
    assert_eq!(dec.window(), Some(&queue_of(vec![(1, 11), (2, 22), (3, 33)])));
    dec.push_sample(4, 44);
    assert_eq!(dec.window(), Some(&queue_of(vec![(2, 22), (3, 33), (4, 44)])));
    dec.push_sample(5, 55);
    assert_eq!(dec.window(), Some(&queue_of(vec![(3, 33), (4, 44), (5, 55)])));
}

#[test]
fn window_is_the_last_pushed_whatever_came_before() {
    for n in 1..6usize {
        for extra in 0..9usize {
            let mut dec: NtscDecoder<usize> = NtscDecoder::new(n);
            let mut pushed = Vec::new();
            for k in 0..n + extra {
                dec.push_sample(k, 1000 - k);
                pushed.push((k, 1000 - k));
            }
            let expected: Vec<(usize, usize)> = pushed[extra..].to_vec();
            assert_eq!(dec.window(), Some(&queue_of(expected)), "capacity {} and {} more", n, extra);
        }
    }
}

#[test]
fn window_of_one_holds_the_latest_sample() {
    let mut dec: NtscDecoder<f64> = NtscDecoder::new(1);
    assert!(dec.window().is_none());
    dec.push_sample(0.5, 0.25);
    assert_eq!(dec.window(), Some(&queue_of(vec![(0.5, 0.25)])));
    dec.push_sample(1.5, -0.75);
    assert_eq!(dec.window(), Some(&queue_of(vec![(1.5, -0.75)])));
}

#[test]
fn window_keeps_equal_samples_apart() {
    let mut dec: NtscDecoder<u8> = NtscDecoder::new(3);
    dec.push_sample(7, 7);
    dec.push_sample(7, 7);
    assert!(!dec.is_full());
    dec.push_sample(7, 7);
    assert_eq!(dec.window(), Some(&queue_of(vec![(7, 7), (7, 7), (7, 7)])));
}

#[test]
fn window_does_not_change_when_read() {
    let mut dec: NtscDecoder<u16> = NtscDecoder::new(2);
    dec.push_sample(1, 2);
    dec.push_sample(3, 4);
    let first = dec.window();
    let second = dec.window();
    assert_eq!(first, second);
    assert_eq!(dec.sample_count(), 2);
}

#[test]
fn five_samples_fill_a_window_of_five() {
    // Five times spread evenly over the first half of a scanline of 64
    // microseconds, as a float signal carries them.
    let times: [f32; 5] = [0.0, 6.4e-6, 12.8e-6, 19.2e-6, 25.6e-6];
    let values: [f32; 5] = [0.513, 0.1, -0.2, 0.75, 0.3];
    let mut dec: NtscDecoder<f32> = NtscDecoder::new(5);
    for k in 0..5 {
        assert!(dec.window().is_none());
        dec.push_sample(times[k], values[k]);
    }
    let window = dec.window().expect("five samples were pushed");
    assert_eq!(window.len(), 5);
    for k in 0..5 {
        assert_eq!(window[k].0.to_bits(), times[k].to_bits());
        assert_eq!(window[k].1.to_bits(), values[k].to_bits());
    }
}
