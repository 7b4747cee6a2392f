//! Face-landmarker output layout: how many points a tensor holds, whether the
//! iris points are there, and whether the coordinates are stored planar.

use vstd::prelude::*;

verus! {

/// Points of the mesh with the two irises.
pub const MESH_IRIS: usize = 478;
/// Points of the mesh without irises.
pub const MESH_PLAIN: usize = 468;

/// The dimensions of `shape` that are larger than one, in order.
pub open spec fn big_dims(shape: Seq<i64>) -> Seq<i64>
    decreases shape.len(),
{
    if shape.len() == 0 {
        Seq::empty()
    } else {
        let rest = big_dims(shape.drop_last());
        if shape.last() > 1 { rest.push(shape.last()) } else { rest }
    }
}

pub open spec fn is_mesh(d: i64) -> bool {
    d == 478 || d == 468
}

/// `(points, has_iris, planar)`: the last two big dimensions name the layout
/// (`points × 3` interleaved, `3 × points` planar); failing that, the flat
/// length decides, iris mesh first.
pub open spec fn layout_spec(shape: Seq<i64>, len: int) -> Option<(usize, bool, bool)> {
    let d = big_dims(shape);
    let a = d[d.len() - 2];
    let b = d[d.len() - 1];
    if d.len() >= 2 && is_mesh(a) && b == 3 {
        Some((a as usize, a >= 478, false))
    } else if d.len() >= 2 && a == 3 && is_mesh(b) {
        Some((b as usize, b >= 478, true))
    } else if len >= 478 * 3 {
        Some((478usize, true, false))
    } else if len >= 468 * 3 {
        Some((468usize, false, false))
    } else {
        None
    }
}

pub fn layout(shape: &[i64], len: usize) -> (r: Option<(usize, bool, bool)>)
    ensures
        r == layout_spec(shape@, len as int),
{
    let mut dims: Vec<i64> = Vec::new();
    let mut i: usize = 0;
    while i < shape.len()
        invariant
            i <= shape.len(),
            dims@ == big_dims(shape@.take(i as int)),
        decreases shape.len() - i,
    {
        assert(shape@.take(i as int + 1).drop_last() == shape@.take(i as int));
        if shape[i] > 1 {
            dims.push(shape[i]);
        }
        i = i + 1;
    }
    assert(shape@.take(shape.len() as int) == shape@);
    let n = dims.len();
    if n >= 2 {
        let a = dims[n - 2];
        let b = dims[n - 1];
        if (a == 478 || a == 468) && b == 3 {
            let pts: usize = if a == 478 { 478 } else { 468 };
            return Some((pts, a >= 478, false));
        }
        if a == 3 && (b == 478 || b == 468) {
            let pts: usize = if b == 478 { 478 } else { 468 };
            return Some((pts, b >= 478, true));
        }
    }
    if len >= 478 * 3 {
        Some((478, true, false))
    } else if len >= 468 * 3 {
        Some((468, false, false))
    } else {
        None
    }
}

/// Point `i` of a tensor laid out as `layout` says.
pub open spec fn point_at<T>(data: Seq<T>, n: int, planar: bool, i: int) -> (T, T, T) {
    if planar {
        (data[i], data[n + i], data[2 * n + i])
    } else {
        (data[3 * i], data[3 * i + 1], data[3 * i + 2])
    }
}

/// The landmark triples of a landmarker output, in mesh order, and whether
/// the irises are among them; `None` for empty data or an unknown layout.
/// The tensor must hold every point its layout names.
pub fn unpack_points<T: Copy>(shape: &[i64], data: &[T]) -> (r: Option<(Vec<(T, T, T)>, bool)>)
    requires
        layout_spec(shape@, data@.len() as int) matches Some((n, _, _)) ==> 3 * n <= data@.len(),
    ensures
        data@.len() == 0 ==> r is None,
        data@.len() > 0 ==> match layout_spec(shape@, data@.len() as int) {
            None => r is None,
            Some((n, iris, planar)) => r matches Some((pts, has_iris)) && has_iris == iris
                && pts@.len() == n
                && forall|i: int| 0 <= i < n ==> #[trigger] pts@[i] == point_at(data@, n as int, planar, i),
        },
{
    if data.len() == 0 {
        return None;
    }
    let (n, has_iris, planar) = match layout(shape, data.len()) {
        Some(t) => t,
        None => return None,
    };
    let mut pts: Vec<(T, T, T)> = Vec::new();
    let mut i: usize = 0;
    while i < n
        invariant
            i <= n,
            3 * n <= data@.len(),
            data@.len() <= usize::MAX,
            pts@.len() == i,
            forall|k: int| 0 <= k < i ==> #[trigger] pts@[k] == point_at(data@, n as int, planar, k),
        decreases n - i,
    {
        if planar {
            pts.push((data[i], data[n + i], data[2 * n + i]));
        } else {
            pts.push((data[i * 3], data[i * 3 + 1], data[i * 3 + 2]));
        }
        i = i + 1;
    }
    Some((pts, has_iris))
}

} // verus!
