use buckyboi::voice::{MicBuffer, MIC_KEEP_S};

#[test]
fn mic_buffer_keeps_newest_within_cap() {
    let mut b: MicBuffer<i32> = MicBuffer::new(2);
    let cap = (2 * MIC_KEEP_S) as i32;
    b.push_samples(&(0..10).collect::<Vec<i32>>());
    assert_eq!(b.samples, (0..10).collect::<Vec<i32>>());
    b.push_samples(&(10..20).collect::<Vec<i32>>());
    assert_eq!(b.samples.len(), cap as usize);
    assert_eq!(b.samples, (20 - cap..20).collect::<Vec<i32>>());
    b.push_samples(&(20..60).collect::<Vec<i32>>());
    assert_eq!(b.samples, (60 - cap..60).collect::<Vec<i32>>());
}

#[test]
fn take_last_ms_returns_newest_window() {
    let mut b: MicBuffer<f32> = MicBuffer::new(16_000);
    let clip: Vec<f32> = (0..8_000).map(|i| i as f32).collect();
    b.push_samples(&clip);
    let half = b.take_last_ms(250);
    assert_eq!(half.len(), 4_000);
    assert_eq!(half[0], 4_000.0);
    assert_eq!(b.take_last_ms(1_000).len(), 8_000);
    assert!(b.take_last_ms(0).is_empty());
}
