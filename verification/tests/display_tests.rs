use buckyboi::display::{
    blit_argb, select_backend_kind, BackendKind, SelectError, BTN_LEFT, X11_BACKEND_NAME,
};

#[test]
fn auto_prefers_wayland_when_both_set() {
    assert_eq!(select_backend_kind(true, true, None).unwrap(), BackendKind::Wayland);
}

#[test]
fn auto_uses_x11_without_wayland() {
    assert_eq!(select_backend_kind(false, true, None).unwrap(), BackendKind::X11);
}

#[test]
fn force_x11_even_if_wayland_present() {
    assert_eq!(select_backend_kind(true, true, Some("x11")).unwrap(), BackendKind::X11);
}

#[test]
fn force_wayland_without_socket_fails() {
    assert_eq!(
        select_backend_kind(false, true, Some("wayland")),
        Err(SelectError::WaylandForcedMissing)
    );
}

#[test]
fn none_available() {
    assert_eq!(select_backend_kind(false, false, None), Err(SelectError::NoneAvailable));
}

#[test]
fn both_backends_are_linked() {
    let _ = BackendKind::Wayland;
    let _ = BackendKind::X11;
    let _ = BTN_LEFT;
    let _ = X11_BACKEND_NAME;
}

#[test]
fn left_button_is_linux_btn_left() {
    assert_eq!(BTN_LEFT, 0x110);
}

#[test]
fn blit_writes_origin() {
    let mut dst = vec![0u8; 8 * 4 * 4];
    let src = vec![9u8; 2 * 2 * 4];
    blit_argb(&mut dst, 8, 4, (1, 1, 2, 2), &src);
    let i = (1 * 8 + 1) * 4;
    assert_eq!(dst[i], 9);
    assert_eq!(dst[0], 0);
}

#[test]
fn force_words_are_trimmed_and_case_folded() {
    assert_eq!(select_backend_kind(true, true, Some("  X11 ")), Ok(BackendKind::X11));
    assert_eq!(select_backend_kind(true, false, Some("Native")), Ok(BackendKind::Wayland));
    assert_eq!(select_backend_kind(false, true, Some("auto")), Ok(BackendKind::X11));
}

#[test]
fn force_x11_without_display_fails() {
    assert_eq!(
        select_backend_kind(true, false, Some("x")),
        Err(SelectError::X11ForcedMissing)
    );
}

#[test]
fn unknown_force_word_is_an_error() {
    assert_eq!(select_backend_kind(true, true, Some("mir")), Err(SelectError::UnknownForce));
}

#[test]
fn blit_clips_left_and_bottom_edges() {
    // 3x2 destination, 2x2 source placed at (-1, 1): only source column 1 of row 0 lands.
    let mut dst = vec![0u8; 3 * 2 * 4];
    let src: Vec<u8> = (1..=16).collect();
    blit_argb(&mut dst, 3, 2, (-1, 1, 2, 2), &src);
    let row1 = 1 * 3 * 4;
    assert_eq!(&dst[row1..row1 + 4], &src[4..8]);
    assert!(dst[..row1].iter().all(|&b| b == 0));
    assert!(dst[row1 + 4..].iter().all(|&b| b == 0));
}

#[test]
fn blit_skips_rows_with_short_source() {
    let mut dst = vec![0u8; 4 * 4 * 4];
    let src = vec![7u8; 4];
    blit_argb(&mut dst, 4, 4, (0, 0, 2, 2), &src);
    assert!(dst.iter().all(|&b| b == 0));
}
