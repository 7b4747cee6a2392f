use buckyboi::camera::{
    camera_dim, format_candidates, raw_rgb, share_frame, synthetic_skin, CamFrame, FrameSlot,
    PixelFormat,
};
use std::sync::Arc;

#[test]
fn camframe_arc_clone_shares_buffer() {
    let mut slot = FrameSlot::new();
    let rgb: Arc<[u8]> = Arc::from(vec![9u8; 12]);
    let a = CamFrame {
        rgb: Arc::clone(&rgb),
        w: 2,
        h: 2,
        t_ms: 7,
    };
    let b = a.clone();
    assert!(Arc::ptr_eq(&a.rgb, &b.rgb));
    assert_eq!(a.w, 2);
    slot.store_frame(a);
    let got = slot.latest_frame().expect("stored");
    assert_eq!(got.t_ms, 7);
    assert!(Arc::ptr_eq(&got.rgb, &rgb));
}

#[test]
fn request_stop_bumps_epoch_and_clears_slot() {
    let mut slot = FrameSlot::new();
    let rgb: Arc<[u8]> = Arc::from(vec![1u8; 12]);
    slot.store_frame(CamFrame {
        rgb,
        w: 2,
        h: 2,
        t_ms: 99,
    });
    let before = slot.epoch;
    slot.request_stop();
    assert!(slot.latest_frame().is_none());
    assert!(slot.epoch > before);
}

#[test]
fn shared_frame_keeps_pixels_and_fields() {
    let f = CamFrame { rgb: Arc::from(vec![3u8, 4, 5]), w: 1, h: 1, t_ms: 11 };
    let g = share_frame(&f);
    assert!(Arc::ptr_eq(&f.rgb, &g.rgb));
    assert_eq!((g.w, g.h, g.t_ms), (1, 1, 11));
    let mut slot = FrameSlot::new();
    slot.store_frame(g);
    slot.clear_frame();
    assert!(slot.latest_frame().is_none());
}

#[test]
fn synthetic_skin_matches_block_layout() {
    let (rgb, w, h) = synthetic_skin();
    assert_eq!((w, h), (80, 60));
    let mut want = vec![18u8; (w * h * 3) as usize];
    for y in 10..48 {
        for x in 16..56 {
            let i = ((y * w + x) * 3) as usize;
            want[i] = if (x + y) % 3 == 0 { 70 } else { 188 };
            want[i + 1] = 118;
            want[i + 2] = 98;
        }
    }
    assert_eq!(rgb, want);
    assert_eq!(&rgb[0..3], &[18, 18, 18]);
    let i = ((10 * 80 + 16) * 3) as usize;
    assert_eq!(&rgb[i..i + 3], &[188, 118, 98]);
}

#[test]
fn camera_dims_are_trimmed_whole_pixels_in_range() {
    assert_eq!(camera_dim(Some(" 800 ")), Some(800));
    assert_eq!(camera_dim(Some("+16")), Some(16));
    assert_eq!(camera_dim(Some("15")), None);
    assert_eq!(camera_dim(Some("4097")), None);
    assert_eq!(camera_dim(Some("64x")), None);
    assert_eq!(camera_dim(None), None);
}

#[test]
fn formats_try_requested_size_first() {
    let (yuyv, mjpg) = (PixelFormat::Yuyv, PixelFormat::Mjpg);
    let stock = vec![(640, 480, yuyv), (640, 480, mjpg), (320, 240, yuyv), (320, 240, mjpg)];
    assert_eq!(format_candidates(None, Some(720)), stock);
    let mut want = vec![(1280, 720, yuyv), (1280, 720, mjpg)];
    want.extend(stock);
    assert_eq!(format_candidates(Some(1280), Some(720)), want);
}

#[test]
fn raw_frames_need_a_full_image() {
    let buf: Vec<u8> = (0..20).collect();
    assert_eq!(raw_rgb(&buf, 2, 3), Some((0..18).collect::<Vec<u8>>()));
    assert_eq!(raw_rgb(&buf, 3, 3), None);
}

#[test]
fn capture_loop_stops_once_superseded() {
    let mut slot = FrameSlot::new();
    let mine = slot.begin_capture();
    assert!(slot.still_current(mine));
    slot.request_stop();
    assert!(!slot.still_current(mine));
    let next = slot.begin_capture();
    assert!(slot.still_current(next) && next != mine);
}
