use buckyboi::blob::{dark_sums, face_sums, largest_blob, Blob};

fn mask_from(rows: &[&str]) -> (Vec<bool>, usize, usize) {
    let h = rows.len();
    let w = rows[0].len();
    let mut m = Vec::new();
    for r in rows {
        for c in r.chars() {
            m.push(c == '#');
        }
    }
    (m, w, h)
}

#[test]
fn no_set_pixel_no_blob() {
    let (m, w, h) = mask_from(&["....", "...."]);
    assert_eq!(largest_blob(&m, w, h), None);
}

#[test]
fn largest_region_wins_with_sums_and_box() {
    let (m, w, h) = mask_from(&[
        "##...",
        "#..##",
        "...##",
        "....#",
    ]);
    let b = largest_blob(&m, w, h).unwrap();
    assert_eq!(
        b,
        Blob { area: 5, sum_x: 3 + 4 + 3 + 4 + 4, sum_y: 1 + 1 + 2 + 2 + 3, min_x: 3, min_y: 1, max_x: 4, max_y: 3 }
    );
}

#[test]
fn ties_go_to_the_first_region_in_scan_order() {
    let (m, w, h) = mask_from(&[
        "..#",
        "#..",
    ]);
    let b = largest_blob(&m, w, h).unwrap();
    assert_eq!((b.min_x, b.min_y, b.area), (2, 0, 1));
}

#[test]
fn diagonal_pixels_are_not_joined() {
    let (m, w, h) = mask_from(&[
        "#.#",
        ".#.",
        "#.#",
    ]);
    assert_eq!(largest_blob(&m, w, h).unwrap().area, 1);
    let (m, w, h) = mask_from(&[
        "###",
        "#.#",
        "###",
    ]);
    assert_eq!(largest_blob(&m, w, h).unwrap().area, 8);
}

#[test]
fn dark_band_sums() {
    // 3x2 image: pixels (0,0) and (2,1) dark.
    let mut rgb = vec![200u8; 3 * 2 * 3];
    for (x, y) in [(0usize, 0usize), (2, 1)] {
        let i = (y * 3 + x) * 3;
        rgb[i] = 10;
        rgb[i + 1] = 10;
        rgb[i + 2] = 10;
    }
    let d = dark_sums(&rgb, 3, 2, 0, 2, 0, 1);
    assert_eq!((d.n, d.sum_x, d.sum_y), (2, 2, 1));
    let d = dark_sums(&rgb, 3, 2, 1, 2, 0, 0);
    assert_eq!(d.n, 0);
}

#[test]
fn face_needs_eight_by_eight_and_enough_area() {
    let w = 16u32;
    let h = 16u32;
    let rgb = vec![200u8; (w * h * 3) as usize];
    let mut mask = vec![false; (w * h) as usize];
    assert!(face_sums(&rgb, &mask[..49], 7, 7).is_none());
    assert!(face_sums(&rgb, &mask, w, h).is_none());
    // A 4x4 block is 16 pixels: under the 24-pixel floor.
    for y in 2..6 {
        for x in 2..6 {
            mask[y * 16 + x] = true;
        }
    }
    assert!(face_sums(&rgb, &mask, w, h).is_none());
    // Grow it to 6x6 = 36 pixels.
    for y in 2..8 {
        for x in 2..8 {
            mask[y * 16 + x] = true;
        }
    }
    let f = face_sums(&rgb, &mask, w, h).unwrap();
    assert_eq!(f.blob.area, 36);
    assert_eq!((f.blob.min_x, f.blob.max_x, f.blob.min_y, f.blob.max_y), (2, 7, 2, 7));
    assert!(f.iris.is_none());
}

#[test]
fn iris_found_in_upper_band() {
    let w = 16u32;
    let h = 16u32;
    let mut rgb = vec![200u8; (w * h * 3) as usize];
    let mut mask = vec![false; (w * h) as usize];
    for y in 2..12 {
        for x in 2..12 {
            mask[y * 16 + x] = true;
        }
    }
    // Dark 3x2 patch at x 4..7, y 3..5 (inside rows 2..=6, the upper 45%).
    for y in 3..5 {
        for x in 4..7 {
            let i = (y * 16 + x) * 3;
            rgb[i] = 20;
            rgb[i + 1] = 18;
            rgb[i + 2] = 16;
        }
    }
    let f = face_sums(&rgb, &mask, w, h).unwrap();
    let d = f.iris.unwrap();
    assert_eq!(d.n, 6);
    assert_eq!(d.sum_x, 2 * (4 + 5 + 6));
    assert_eq!(d.sum_y, 3 * (3 + 4));
}
