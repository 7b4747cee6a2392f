//! Display backend choice: native Wayland layer-shell or X11.

use vstd::prelude::*;
use crate::text::{norm, normalized, eq_str};

verus! {

#[derive(Clone, Copy, Debug, PartialEq, Eq, Structural)]
pub enum BackendKind {
    Wayland,
    X11,
}

#[derive(Clone, Copy, Debug, PartialEq, Eq, Structural)]
pub enum SelectError {
    NoneAvailable,
    WaylandForcedMissing,
    X11ForcedMissing,
    UnknownForce,
}

pub open spec fn auto_pick(wayland: bool, x11: bool) -> Result<BackendKind, SelectError> {
    if wayland {
        Ok(BackendKind::Wayland)
    } else if x11 {
        Ok(BackendKind::X11)
    } else {
        Err(SelectError::NoneAvailable)
    }
}

/// Which backend to open for the sessions present and an optional force word.
pub open spec fn select_spec(wayland: bool, x11: bool, force: Option<Seq<char>>) -> Result<
    BackendKind,
    SelectError,
> {
    match force {
        None => auto_pick(wayland, x11),
        Some(f) => {
            let w = norm(f);
            if w == "wayland"@ || w == "wl"@ || w == "native"@ {
                if wayland { Ok(BackendKind::Wayland) } else { Err(SelectError::WaylandForcedMissing) }
            } else if w == "x11"@ || w == "x"@ {
                if x11 { Ok(BackendKind::X11) } else { Err(SelectError::X11ForcedMissing) }
            } else if w == "auto"@ || w == "default"@ {
                auto_pick(wayland, x11)
            } else {
                Err(SelectError::UnknownForce)
            }
        },
    }
}

pub open spec fn force_view(force: Option<&str>) -> Option<Seq<char>> {
    match force {
        Some(s) => Some(s@),
        None => None,
    }
}

/// Choose a backend kind from environment presence + optional force flag.
pub fn select_backend_kind(wayland_display: bool, x11_display: bool, force: Option<&str>) -> (r: Result<
    BackendKind,
    SelectError,
>)
    ensures
        r == select_spec(wayland_display, x11_display, force_view(force)),
    decreases (if force is Some { 1int } else { 0int }),
{
    match force {
        None => {
            if wayland_display {
                Ok(BackendKind::Wayland)
            } else if x11_display {
                Ok(BackendKind::X11)
            } else {
                Err(SelectError::NoneAvailable)
            }
        },
        Some(f) => {
            let w = normalized(f);
            if eq_str(&w, "wayland") || eq_str(&w, "wl") || eq_str(&w, "native") {
                if wayland_display {
                    Ok(BackendKind::Wayland)
                } else {
                    Err(SelectError::WaylandForcedMissing)
                }
            } else if eq_str(&w, "x11") || eq_str(&w, "x") {
                if x11_display {
                    Ok(BackendKind::X11)
                } else {
                    Err(SelectError::X11ForcedMissing)
                }
            } else if eq_str(&w, "auto") || eq_str(&w, "default") {
                select_backend_kind(wayland_display, x11_display, None)
            } else {
                Err(SelectError::UnknownForce)
            }
        },
    }
}

/// Without a force word Wayland wins when both are present; a forced backend is
/// never swapped for the other one.
pub proof fn law_backend_choice(wayland: bool, x11: bool, f: Seq<char>)
    ensures
        wayland ==> select_spec(wayland, x11, None) == Ok::<BackendKind, SelectError>(
            BackendKind::Wayland,
        ),
        select_spec(wayland, x11, Some(f)) == Ok::<BackendKind, SelectError>(BackendKind::Wayland)
            ==> wayland,
        select_spec(wayland, x11, Some(f)) == Ok::<BackendKind, SelectError>(BackendKind::X11)
            ==> x11,
        select_spec(wayland, x11, None) is Err <==> !wayland && !x11,
{
}


/// Name the X11 backend reports itself by.
pub const X11_BACKEND_NAME: &'static str = "x11";

/// Linux evdev / Wayland `BTN_LEFT`.
pub const BTN_LEFT: u32 = 0x110;

/// The span of source row `row` that lands on the destination, as
/// (source byte offset, destination byte offset, byte count), or `None`
/// when the row falls outside the destination or either buffer is too short.
pub open spec fn blit_row(dst_len: int, dw: int, dh: int, ox: int, oy: int, sw: int, src_len: int, row: int) -> Option<(int, int, int)> {
    let dy = oy + row;
    let sx = if ox < 0 { -ox } else { 0 };
    let dx = if ox < 0 { 0 } else { ox };
    let cw = if dx + (sw - sx) > dw { dw - dx } else { sw - sx };
    let s = (row * sw + sx) * 4;
    let d = (dy * dw + dx) * 4;
    let n = cw * 4;
    if dw > i32::MAX || dh > i32::MAX || dy < 0 || dy >= dh || cw <= 0 || s + n > src_len || d + n > dst_len {
        None
    } else {
        Some((s, d, n))
    }
}

/// `dst` after copying rows `0..k` of the source block.
pub open spec fn blit_fold(dst: Seq<u8>, src: Seq<u8>, dw: int, dh: int, ox: int, oy: int, sw: int, k: int) -> Seq<u8>
    decreases k,
{
    if k <= 0 {
        dst
    } else {
        let prev = blit_fold(dst, src, dw, dh, ox, oy, sw, k - 1);
        match blit_row(dst.len() as int, dw, dh, ox, oy, sw, src.len() as int, k - 1) {
            Some((s, d, n)) => prev.subrange(0, d) + src.subrange(s, s + n) + prev.subrange(d + n, prev.len() as int),
            None => prev,
        }
    }
}

proof fn lemma_blit_fold_len(dst: Seq<u8>, src: Seq<u8>, dw: int, dh: int, ox: int, oy: int, sw: int, k: int)
    ensures
        blit_fold(dst, src, dw, dh, ox, oy, sw, k).len() == dst.len(),
    decreases k,
{
    if k > 0 {
        lemma_blit_fold_len(dst, src, dw, dh, ox, oy, sw, k - 1);
    }
}

/// Copy a `sw`×`sh` ARGB block to (`ox`, `oy`) of a `dw`×`dh` buffer, clipped
/// to the buffer; a row is skipped when either buffer is too short for it.
pub fn blit_argb(dst: &mut [u8], dw: u32, dh: u32, origin: (i16, i16, u16, u16), src: &[u8])
    ensures
        final(dst)@ == blit_fold(old(dst)@, src@, dw as int, dh as int, origin.0 as int, origin.1 as int, origin.2 as int, origin.3 as int),
{
    let (ox, oy, sw, sh) = origin;
    let ghost start = dst@;
    if dw > 0x7fff_ffff || dh > 0x7fff_ffff {
        proof {
            assert forall|k: int| 0 <= k <= sh implies #[trigger] blit_fold(start, src@, dw as int, dh as int, ox as int, oy as int, sw as int, k) == start by {
                lemma_fold_untouched(start, src@, dw as int, dh as int, ox as int, oy as int, sw as int, k);
            }
        }
        return;
    }
    let dw_i = dw as i32;
    let dh_i = dh as i32;
    let mut row: i32 = 0;
    while row < sh as i32
        invariant
            0 <= row <= sh,
            dw_i == dw,
            dh_i == dh,
            dw <= i32::MAX,
            dh <= i32::MAX,
            dst@.len() == start.len(),
            dst@ == blit_fold(start, src@, dw as int, dh as int, ox as int, oy as int, sw as int, row as int),
        decreases sh - row,
    {
        let ghost prev = dst@;
        let dy = oy as i32 + row;
        if dy >= 0 && dy < dh_i {
            let mut sx: i32 = 0;
            let mut dx: i32 = ox as i32;
            if dx < 0 {
                sx = -dx;
                dx = 0;
            }
            let mut copy_w: i32 = sw as i32 - sx;
            if dx + copy_w > dw_i {
                copy_w = dw_i - dx;
            }
            if copy_w > 0 {
                assert((row as int) * (sw as int) <= 0xffff * 0xffff) by (nonlinear_arith)
                    requires 0 <= row <= 0xffff, 0 <= sw <= 0xffff;
                assert((dy as int) * (dw as int) <= 0x7fff_ffff * 0x7fff_ffff) by (nonlinear_arith)
                    requires 0 <= dy <= 0x7fff_ffff, 0 <= dw <= 0x7fff_ffff;
                let s: u128 = (row as u128 * sw as u128 + sx as u128) * 4;
                let d: u128 = (dy as u128 * dw as u128 + dx as u128) * 4;
                let n: u128 = copy_w as u128 * 4;
                if s + n <= src.len() as u128 && d + n <= dst.len() as u128 {
                    let su = s as usize;
                    let du = d as usize;
                    let nu = n as usize;
                    let mut k: usize = 0;
                    while k < nu
                        invariant
                            su + nu <= src.len(),
                            du + nu <= dst.len(),
                            du + nu <= prev.len(),
                            k <= nu,
                            dst@.len() == prev.len(),
                            dst@ == prev.subrange(0, du as int) + src@.subrange(su as int, su + k) + prev.subrange(du + k, prev.len() as int),
                        decreases nu - k,
                    {
                        dst[du + k] = src[su + k];
                        k = k + 1;
                        assert(dst@ =~= prev.subrange(0, du as int) + src@.subrange(su as int, su + k) + prev.subrange(du + k, prev.len() as int));
                    }
                }
            }
        }
        row = row + 1;
    }
}

proof fn lemma_fold_untouched(dst: Seq<u8>, src: Seq<u8>, dw: int, dh: int, ox: int, oy: int, sw: int, k: int)
    requires
        dw > i32::MAX || dh > i32::MAX,
    ensures
        blit_fold(dst, src, dw, dh, ox, oy, sw, k) == dst,
    decreases k,
{
    if k > 0 {
        lemma_fold_untouched(dst, src, dw, dh, ox, oy, sw, k - 1);
    }
}


/// Bit `code` of an X key map (32 bytes, low bit first): whether that key is down.
pub open spec fn key_down(keys: Seq<u8>, code: int) -> bool {
    code < keys.len() * 8 && (keys[code / 8] as int / pow2_bit(code % 8)) % 2 == 1
}

pub open spec fn pow2_bit(i: int) -> int {
    if i == 0 { 1 } else if i == 1 { 2 } else if i == 2 { 4 } else if i == 3 { 8 }
    else if i == 4 { 16 } else if i == 5 { 32 } else if i == 6 { 64 } else { 128 }
}

pub fn keymap_has(keys: &[u8], code: u8) -> (b: bool)
    ensures
        b == key_down(keys@, code as int),
{
    let i = code as usize;
    if i / 8 >= keys.len() {
        return false;
    }
    let byte = keys[i / 8];
    let bit = i % 8;
    let set = match bit {
        0 => byte & 1u8 != 0,
        1 => byte & 2u8 != 0,
        2 => byte & 4u8 != 0,
        3 => byte & 8u8 != 0,
        4 => byte & 16u8 != 0,
        5 => byte & 32u8 != 0,
        6 => byte & 64u8 != 0,
        _ => byte & 128u8 != 0,
    };
    proof {
        assert((byte & 1u8 != 0) == ((byte / 1) % 2 == 1)) by (bit_vector);
        assert((byte & 2u8 != 0) == ((byte / 2) % 2 == 1)) by (bit_vector);
        assert((byte & 4u8 != 0) == ((byte / 4) % 2 == 1)) by (bit_vector);
        assert((byte & 8u8 != 0) == ((byte / 8) % 2 == 1)) by (bit_vector);
        assert((byte & 16u8 != 0) == ((byte / 16) % 2 == 1)) by (bit_vector);
        assert((byte & 32u8 != 0) == ((byte / 32) % 2 == 1)) by (bit_vector);
        assert((byte & 64u8 != 0) == ((byte / 64) % 2 == 1)) by (bit_vector);
        assert((byte & 128u8 != 0) == ((byte / 128) % 2 == 1)) by (bit_vector);
    }
    set
}

/// Whether any of the key codes `codes` is down in `keys`.
pub fn any_key_down(keys: &[u8], codes: &[u8]) -> (b: bool)
    ensures
        b == exists|i: int| 0 <= i < codes@.len() && key_down(keys@, #[trigger] codes@[i] as int),
{
    let mut i: usize = 0;
    while i < codes.len()
        invariant
            i <= codes@.len(),
            forall|j: int| 0 <= j < i ==> !key_down(keys@, #[trigger] codes@[j] as int),
        decreases codes@.len() - i,
    {
        if keymap_has(keys, codes[i]) {
            return true;
        }
        i = i + 1;
    }
    false
}

} // verus!
