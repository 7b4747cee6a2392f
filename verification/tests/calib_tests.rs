use buckyboi::gaze_calib::{
    calib_points_of, look_hint, CalibEvent, GazeCalibSession, ACQUIRE_MS, NEED_SNAPS, SAMPLE_MS,
};

type Snap = [f32; 4];

fn obs(snaps: &[Snap], dot: usize, dots: usize) -> (usize, usize, usize) {
    (dot, dots, snaps.len())
}

#[test]
fn session_needs_both_irises() {
    let mut s: GazeCalibSession<Snap, (usize, usize, usize)> = GazeCalibSession::new();
    s.begin(0, calib_points_of(None));
    assert_eq!(s.hint(), "LOOK CENTER");
    // Acquire 1s, then sample without irises → retry, then skip.
    assert!(matches!(s.tick(500, None, obs), CalibEvent::Nothing));
    let _ = s.tick(1_000, None, obs);
    assert_eq!(s.hint(), "HOLD");
    let feat = ([0.0f32; 4], false);
    let _ = s.tick(1_800, Some(feat), obs);
    // retried acquire
    assert_eq!(s.current_idx(), 0);
}

/// Walk one dot: acquire, then `frames` sampled frames with or without irises.
fn walk_dot(
    s: &mut GazeCalibSession<Snap, (usize, usize, usize)>,
    t: &mut u64,
    irises: bool,
) -> CalibEvent<(usize, usize, usize)> {
    *t += ACQUIRE_MS;
    assert!(matches!(s.tick(*t, None, obs), CalibEvent::Nothing));
    for k in 0..NEED_SNAPS as u64 {
        let ev = s.tick(*t + k, Some(([1.0; 4], irises)), obs);
        assert!(matches!(ev, CalibEvent::Nothing));
    }
    *t += SAMPLE_MS;
    s.tick(*t, None, obs)
}

#[test]
fn five_dot_run_finishes_with_one_observation_per_dot() {
    let mut s = GazeCalibSession::new();
    let mut t = 0u64;
    s.begin(t, 5);
    for dot in 0..4 {
        assert!(matches!(walk_dot(&mut s, &mut t, true), CalibEvent::Nothing));
        assert_eq!(s.current_idx(), dot + 1);
        assert_eq!(s.hint(), look_hint(dot + 1, 5));
    }
    match walk_dot(&mut s, &mut t, true) {
        CalibEvent::Finished(v) => {
            assert_eq!(v.len(), 5);
            assert_eq!(v[0], (0, 5, NEED_SNAPS));
            assert_eq!(v[4], (4, 5, NEED_SNAPS));
        }
        other => panic!("{other:?}"),
    }
    assert!(!s.open);
    assert_eq!(s.hint(), "GAZE OK");
}

#[test]
fn run_without_irises_fails_after_one_retry_per_dot() {
    let mut s = GazeCalibSession::new();
    let mut t = 0u64;
    s.begin(t, 5);
    let ev = walk_dot(&mut s, &mut t, false);
    assert!(matches!(ev, CalibEvent::Nothing));
    assert_eq!(s.current_idx(), 0);
    assert!(s.retried);
    let ev = walk_dot(&mut s, &mut t, false);
    assert!(matches!(ev, CalibEvent::Nothing));
    assert_eq!(s.current_idx(), 1);
    for _ in 1..4 {
        s.skip_current(t);
    }
    assert_eq!(s.current_idx(), 4);
    assert!(matches!(s.skip_current(t), CalibEvent::Failed));
    assert_eq!(s.hint(), "RECALIBRATE");
    assert!(matches!(s.skip_current(t), CalibEvent::Nothing));
}

#[test]
fn nine_points_only_when_asked() {
    assert_eq!(calib_points_of(Some(" 9 ")), 9);
    assert_eq!(calib_points_of(Some("7")), 5);
    let mut s: GazeCalibSession<Snap, u8> = GazeCalibSession::new();
    s.begin(5, 9);
    assert_eq!((s.n_dots(), s.min_points()), (9, 6));
    assert_eq!(s.hint(), "LOOK 1");
    s.begin(5, 7);
    assert_eq!((s.n_dots(), s.min_points()), (5, 4));
    s.cancel();
    assert!(!s.open);
}

#[test]
fn acquire_progress_is_a_fraction_of_the_window() {
    let mut s: GazeCalibSession<Snap, u8> = GazeCalibSession::new();
    s.begin(100, 5);
    let _ = s.tick(600, None, |_: &[Snap], _, _| 0u8);
    assert_eq!(s.progress, (500, ACQUIRE_MS));
    let _ = s.tick(1_100, None, |_: &[Snap], _, _| 0u8);
    assert_eq!(s.progress, (0, 1));
    assert_eq!(s.hint(), "HOLD");
}
