use buckyboi::gaze_track::{layout, unpack_points};
use buckyboi::hands::HandLandmarks;

#[test]
fn layout_reads_interleaved_mesh_from_shape() {
    assert_eq!(layout(&[1, 478, 3], 0), Some((478, true, false)));
    assert_eq!(layout(&[1, 1, 468, 3], 0), Some((468, false, false)));
}

#[test]
fn layout_reads_planar_mesh_from_shape() {
    assert_eq!(layout(&[1, 3, 478], 0), Some((478, true, true)));
    assert_eq!(layout(&[3, 468, 1], 0), Some((468, false, true)));
}

#[test]
fn layout_falls_back_to_flat_length() {
    assert_eq!(layout(&[], 478 * 3), Some((478, true, false)));
    assert_eq!(layout(&[1, 1434], 478 * 3 + 5), Some((478, true, false)));
    assert_eq!(layout(&[1, 4, 3], 468 * 3), Some((468, false, false)));
    assert_eq!(layout(&[], 468 * 3 - 1), None);
}

#[test]
fn unpack_interleaved_and_planar() {
    let flat: Vec<u32> = (0..(478 * 3) as u32).collect();
    let (pts, iris) = unpack_points(&[1, 478, 3], &flat).expect("layout");
    assert!(iris);
    assert_eq!(pts.len(), 478);
    assert_eq!(pts[0], (0, 1, 2));
    assert_eq!(pts[477], (1431, 1432, 1433));
    let (pts, iris) = unpack_points(&[1, 3, 478], &flat).expect("layout");
    assert!(iris);
    assert_eq!(pts[1], (1, 479, 957));
}

#[test]
fn unpack_rejects_empty_and_short() {
    let none: Vec<u32> = Vec::new();
    assert!(unpack_points(&[1, 478, 3], &none).is_none());
    let short = vec![0u32; 100];
    assert!(unpack_points(&[], &short).is_none());
}

#[test]
fn hand_landmarks_read_triples_or_pairs() {
    let xyz: Vec<i32> = (0..63).collect();
    let h = HandLandmarks::from_flat(&xyz, -1).expect("63 values");
    assert_eq!(h.pts.len(), 21);
    assert_eq!(h.pts[1], (3, 4, 5));
    assert_eq!(h.to_flat(), xyz);
    let xy: Vec<i32> = (0..42).collect();
    let h = HandLandmarks::from_flat(&xy, -1).expect("42 values");
    assert_eq!(h.pts[20], (40, 41, -1));
    assert!(HandLandmarks::from_flat(&xy[..41], -1).is_none());
}
