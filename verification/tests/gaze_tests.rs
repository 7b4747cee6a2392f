use buckyboi::gaze::{
    gaze_lock_ms, yuyv_to_rgb, GazeLock, GAZE_GRACE_MS, GAZE_LOCK_MAX_MS, GAZE_LOCK_MIN_MS,
};
use buckyboi::ux::UxEvent;

#[test]
fn lock_duration_in_range() {
    for seed in [0u64, 1, 17, 999, 1_000_000] {
        let d = gaze_lock_ms(seed);
        assert!((GAZE_LOCK_MIN_MS..=GAZE_LOCK_MAX_MS).contains(&d), "{d}");
    }
    assert_eq!(gaze_lock_ms(0), GAZE_LOCK_MIN_MS);
    assert_eq!(gaze_lock_ms(10_000), GAZE_LOCK_MAX_MS);
}

#[test]
fn gaze_lock_resets_after_grace() {
    let mut lock = GazeLock::with_need(5_000);
    assert_eq!(lock.update(0, true), UxEvent::Nothing);
    assert_eq!(lock.update(100, false), UxEvent::Nothing);
    assert!(lock.since_ms.is_some());
    assert_eq!(lock.update(100 + GAZE_GRACE_MS, false), UxEvent::Nothing);
    assert!(lock.since_ms.is_none());
    assert_eq!(lock.update(200 + GAZE_GRACE_MS, true), UxEvent::Nothing);
    assert_eq!(lock.since_ms, Some(200 + GAZE_GRACE_MS));
}

#[test]
fn lock_fires_once_dwell_reaches_need() {
    let mut lock = GazeLock::with_need(5_000);
    assert_eq!(lock.update(1000, false), UxEvent::Nothing);
    assert_eq!(lock.update(1000, true), UxEvent::Nothing);
    assert_eq!(lock.update(3500, true), UxEvent::Nothing);
    assert_eq!(lock.update(6000, true), UxEvent::StartListen);
}

#[test]
fn flicker_within_grace_keeps_dwell() {
    let mut lock = GazeLock::with_need(1_000);
    lock.update(0, true);
    lock.update(50, false);
    assert_eq!(lock.since_ms, Some(0));
    assert_eq!(lock.update(1_000, true), UxEvent::StartListen);
}

#[test]
fn zero_need_is_raised_to_one_ms() {
    let lock = GazeLock::with_need(0);
    assert_eq!(lock.need_ms, 1);
    let mut lock = GazeLock::new(3);
    assert_eq!(lock.need_ms, 5_003);
    lock.update(10, true);
    lock.reset();
    assert!(lock.since_ms.is_none() && !lock.on);
}

#[test]
fn yuyv_grey_and_colour() {
    // One 2x1 macropixel: Y0=100, U=128 (neutral), Y1=200, V=128.
    let rgb = yuyv_to_rgb(&[100, 128, 200, 128], 2, 1);
    assert_eq!(rgb, vec![100, 100, 100, 200, 200, 200]);
    // Strong red chroma: V=255 -> v=127; R = Y + 359*127/256 = 81 + 178 = 259 -> 255.
    let rgb = yuyv_to_rgb(&[81, 128, 81, 255], 2, 1);
    assert_eq!(rgb[0], 255);
    // G = 81 - 0 - 183*127/256 = 81 - 90 = -9 -> 0.
    assert_eq!(rgb[1], 0);
    assert_eq!(rgb[2], 81);
    // Negative chroma truncates toward zero: U=0 -> u=-128; B = 50 + (454*-128)/256 = 50 - 227 -> 0.
    let rgb = yuyv_to_rgb(&[50, 0, 50, 128], 2, 1);
    assert_eq!(rgb[2], 0);
    // G = 50 - (88*-128)/256 = 50 + 44 = 94.
    assert_eq!(rgb[1], 94);
}

#[test]
fn yuyv_short_input_leaves_black() {
    let rgb = yuyv_to_rgb(&[10, 128, 20, 128, 30], 4, 1);
    assert_eq!(rgb.len(), 12);
    assert_eq!(&rgb[..6], &[10, 10, 10, 20, 20, 20]);
    assert_eq!(&rgb[6..], &[0, 0, 0, 0, 0, 0]);
}

#[test]
fn yuyv_odd_width_skips_last_column_but_keeps_stream() {
    // Width 3: one macropixel per row; the third pixel of each row stays black.
    let src = [10, 128, 20, 128, 30, 128, 40, 128];
    let rgb = yuyv_to_rgb(&src, 3, 2);
    assert_eq!(&rgb[0..9], &[10, 10, 10, 20, 20, 20, 0, 0, 0]);
    assert_eq!(&rgb[9..18], &[30, 30, 30, 40, 40, 40, 0, 0, 0]);
}
