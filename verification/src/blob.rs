//! Connected regions of a pixel mask (4-neighbourhood): the largest region,
//! its pixel count, coordinate sums and bounding box.

use vstd::prelude::*;

verus! {

pub type Px = (int, int);

pub open spec fn in_grid(w: int, h: int, p: Px) -> bool {
    0 <= p.0 < w && 0 <= p.1 < h
}

/// Whether pixel `p` is set in a row-major mask of width `w`.
pub open spec fn on(mask: Seq<bool>, w: int, h: int, p: Px) -> bool {
    in_grid(w, h, p) && mask[p.1 * w + p.0]
}

pub open spec fn abs(v: int) -> int {
    if v < 0 { -v } else { v }
}

/// `p` and `q` share an edge.
pub open spec fn touching(p: Px, q: Px) -> bool {
    abs(p.0 - q.0) + abs(p.1 - q.1) == 1
}

/// Every set pixel touching a member of `s` is a member.
pub open spec fn closed(mask: Seq<bool>, w: int, h: int, s: Set<Px>) -> bool {
    forall|p: Px, q: Px| #![trigger s.contains(p), on(mask, w, h, q)]
        s.contains(p) && touching(p, q) && on(mask, w, h, q) ==> s.contains(q)
}

/// The region of `start`: the pixels in every closed set that holds `start`
/// (for a set pixel, those joined to it by a path of set pixels).
pub open spec fn region(mask: Seq<bool>, w: int, h: int, start: Px) -> Set<Px> {
    Set::new(|q: Px| forall|s: Set<Px>| #[trigger] closed(mask, w, h, s) && s.contains(start) ==> s.contains(q))
}

/// The set pixels, as a set.
pub open spec fn on_set(mask: Seq<bool>, w: int, h: int) -> Set<Px> {
    Set::new(|q: Px| on(mask, w, h, q))
}

pub proof fn lemma_region_basics(mask: Seq<bool>, w: int, h: int, start: Px)
    ensures
        region(mask, w, h, start).contains(start),
        closed(mask, w, h, region(mask, w, h, start)),
        on(mask, w, h, start) ==> forall|q: Px| #[trigger] region(mask, w, h, start).contains(q) ==> on(mask, w, h, q),
{
    let r = region(mask, w, h, start);
    assert forall|p: Px, q: Px| #![trigger r.contains(p), on(mask, w, h, q)]
        r.contains(p) && touching(p, q) && on(mask, w, h, q) implies r.contains(q) by {
        assert forall|s: Set<Px>| #[trigger] closed(mask, w, h, s) && s.contains(start) implies s.contains(q) by {
            assert(s.contains(p));
        }
    }
    if on(mask, w, h, start) {
        let m = on_set(mask, w, h);
        assert(closed(mask, w, h, m));
        assert forall|q: Px| #[trigger] r.contains(q) implies on(mask, w, h, q) by {
            assert(m.contains(start));
        }
    }
}

/// A closed set that holds the start holds its whole region.
pub proof fn lemma_region_within(mask: Seq<bool>, w: int, h: int, start: Px, s: Set<Px>)
    requires
        closed(mask, w, h, s),
        s.contains(start),
    ensures
        region(mask, w, h, start).subset_of(s),
{
}

/// A closed set of set pixels without the start misses its whole region.
pub proof fn lemma_region_avoids(mask: Seq<bool>, w: int, h: int, start: Px, s: Set<Px>)
    requires
        closed(mask, w, h, s),
        forall|q: Px| #[trigger] s.contains(q) ==> on(mask, w, h, q),
        on(mask, w, h, start),
        !s.contains(start),
    ensures
        region(mask, w, h, start).disjoint(s),
{
    let r = region(mask, w, h, start);
    lemma_region_basics(mask, w, h, start);
    let rest = r.difference(s);
    assert forall|p: Px, q: Px| #![trigger rest.contains(p), on(mask, w, h, q)]
        rest.contains(p) && touching(p, q) && on(mask, w, h, q) implies rest.contains(q) by {
        assert(r.contains(q));
        if s.contains(q) {
            assert(touching(q, p));
            assert(on(mask, w, h, p));
            assert(s.contains(p));
        }
    }
    lemma_region_within(mask, w, h, start, rest);
}

/// Regions of set pixels are equal or disjoint: a pixel's region is the
/// region of anything in it.
pub proof fn lemma_region_shared(mask: Seq<bool>, w: int, h: int, a: Px, b: Px)
    requires
        on(mask, w, h, a),
        region(mask, w, h, a).contains(b),
    ensures
        region(mask, w, h, b) == region(mask, w, h, a),
{
    lemma_region_basics(mask, w, h, a);
    lemma_region_basics(mask, w, h, b);
    let ra = region(mask, w, h, a);
    let rb = region(mask, w, h, b);
    assert(on(mask, w, h, b));
    lemma_region_within(mask, w, h, b, ra);
    if !rb.contains(a) {
        lemma_region_avoids(mask, w, h, a, rb);
        assert(ra.contains(b) && rb.contains(b));
    }
    lemma_region_within(mask, w, h, a, rb);
    assert(ra =~= rb);
}


/// Sum of `f` over the members of `s` in row `y`, columns `0..k`.
pub open spec fn row_sum(s: Set<Px>, f: spec_fn(Px) -> int, y: int, k: int) -> int
    decreases k,
{
    if k <= 0 {
        0
    } else {
        row_sum(s, f, y, k - 1) + if s.contains((k - 1, y)) { f((k - 1, y)) } else { 0 }
    }
}

/// Sum of `f` over the members of `s` in rows `0..n` of a `w`-wide grid.
pub open spec fn grid_sum(s: Set<Px>, f: spec_fn(Px) -> int, w: int, n: int) -> int
    decreases n,
{
    if n <= 0 {
        0
    } else {
        grid_sum(s, f, w, n - 1) + row_sum(s, f, n - 1, w)
    }
}

pub open spec fn one() -> spec_fn(Px) -> int {
    |p: Px| 1int
}

pub open spec fn xcoord() -> spec_fn(Px) -> int {
    |p: Px| p.0
}

pub open spec fn ycoord() -> spec_fn(Px) -> int {
    |p: Px| p.1
}

/// Number of members of `s` inside the `w`×`h` grid.
pub open spec fn size(s: Set<Px>, w: int, h: int) -> int {
    grid_sum(s, one(), w, h)
}

proof fn lemma_row_insert(s: Set<Px>, f: spec_fn(Px) -> int, y: int, k: int, p: Px)
    requires
        !s.contains(p),
    ensures
        row_sum(s.insert(p), f, y, k) == row_sum(s, f, y, k) + if p.1 == y && 0 <= p.0 < k { f(p) } else { 0 },
    decreases k,
{
    if k > 0 {
        lemma_row_insert(s, f, y, k - 1, p);
    }
}

/// Adding a new grid pixel adds its value to a grid sum.
pub proof fn lemma_sum_insert(s: Set<Px>, f: spec_fn(Px) -> int, w: int, n: int, p: Px)
    requires
        !s.contains(p),
    ensures
        grid_sum(s.insert(p), f, w, n) == grid_sum(s, f, w, n) + if 0 <= p.1 < n && 0 <= p.0 < w { f(p) } else { 0 },
    decreases n,
{
    if n > 0 {
        lemma_sum_insert(s, f, w, n - 1, p);
        lemma_row_insert(s, f, n - 1, w, p);
    }
}

pub proof fn lemma_sum_empty(f: spec_fn(Px) -> int, w: int, n: int)
    ensures
        grid_sum(Set::<Px>::empty(), f, w, n) == 0,
    decreases n,
{
    if n > 0 {
        lemma_sum_empty(f, w, n - 1);
        lemma_row_empty(f, n - 1, w);
    }
}

proof fn lemma_row_empty(f: spec_fn(Px) -> int, y: int, k: int)
    ensures
        row_sum(Set::<Px>::empty(), f, y, k) == 0,
    decreases k,
{
    if k > 0 {
        lemma_row_empty(f, y, k - 1);
    }
}

/// Sums only see members: equal sets within the grid give equal sums.
pub proof fn lemma_sum_ext(a: Set<Px>, b: Set<Px>, f: spec_fn(Px) -> int, w: int, n: int)
    requires
        forall|p: Px| 0 <= p.0 < w && 0 <= p.1 < n ==> (a.contains(p) <==> b.contains(p)),
    ensures
        grid_sum(a, f, w, n) == grid_sum(b, f, w, n),
    decreases n,
{
    if n > 0 {
        lemma_sum_ext(a, b, f, w, n - 1);
        lemma_row_ext(a, b, f, n - 1, w, w);
    }
}

proof fn lemma_row_ext(a: Set<Px>, b: Set<Px>, f: spec_fn(Px) -> int, y: int, k: int, w: int)
    requires
        k <= w,
        forall|p: Px| 0 <= p.0 < w && p.1 == y ==> (a.contains(p) <==> b.contains(p)),
    ensures
        row_sum(a, f, y, k) == row_sum(b, f, y, k),
    decreases k,
{
    if k > 0 {
        lemma_row_ext(a, b, f, y, k - 1, w);
        assert(a.contains((k - 1, y)) <==> b.contains((k - 1, y)));
    }
}

/// A count never exceeds the grid, and sums of coordinates stay below count × side.
pub proof fn lemma_sum_bounds(s: Set<Px>, w: int, n: int)
    requires
        w >= 0,
        n >= 0,
    ensures
        0 <= grid_sum(s, one(), w, n) <= w * n,
        0 <= grid_sum(s, xcoord(), w, n) <= grid_sum(s, one(), w, n) * w,
        0 <= grid_sum(s, ycoord(), w, n) <= grid_sum(s, one(), w, n) * n,
    decreases n,
{
    if n > 0 {
        lemma_sum_bounds(s, w, n - 1);
        lemma_row_bounds(s, n - 1, w, w);
        let c0 = grid_sum(s, one(), w, n - 1);
        let r1 = row_sum(s, one(), n - 1, w);
        assert(c0 * w + r1 * w == (c0 + r1) * w) by (nonlinear_arith);
        assert(c0 * (n - 1) + r1 * (n - 1) <= (c0 + r1) * n) by (nonlinear_arith)
            requires c0 >= 0, r1 >= 0, n >= 1;
        assert(w * (n - 1) + w == w * n) by (nonlinear_arith);
    }
}

proof fn lemma_row_bounds(s: Set<Px>, y: int, k: int, w: int)
    requires
        0 <= k <= w,
        y >= 0,
    ensures
        0 <= row_sum(s, one(), y, k) <= k,
        0 <= row_sum(s, xcoord(), y, k) <= row_sum(s, one(), y, k) * w,
        0 <= row_sum(s, ycoord(), y, k) == row_sum(s, one(), y, k) * y,
    decreases k,
{
    if k > 0 {
        lemma_row_bounds(s, y, k - 1, w);
        let c = row_sum(s, one(), y, k - 1);
        assert(c * w + w == (c + 1) * w) by (nonlinear_arith);
        assert(c * y + y == (c + 1) * y) by (nonlinear_arith);
    }
}


/// A region's pixel count, coordinate sums and bounding box.
#[derive(Clone, Copy, Debug, PartialEq, Eq, Structural)]
pub struct Blob {
    pub area: usize,
    pub sum_x: u64,
    pub sum_y: u64,
    pub min_x: usize,
    pub min_y: usize,
    pub max_x: usize,
    pub max_y: usize,
}

/// `b`'s box is the tightest around `s`: it holds every member and each
/// side touches one.
pub open spec fn boxed(s: Set<Px>, b: Blob) -> bool {
    &&& forall|p: Px| #[trigger] s.contains(p) ==> b.min_x <= p.0 <= b.max_x && b.min_y <= p.1 <= b.max_y
    &&& exists|p: Px| #[trigger] s.contains(p) && p.0 == b.min_x
    &&& exists|p: Px| #[trigger] s.contains(p) && p.0 == b.max_x
    &&& exists|p: Px| #[trigger] s.contains(p) && p.1 == b.min_y
    &&& exists|p: Px| #[trigger] s.contains(p) && p.1 == b.max_y
}

/// `b` is the pixel count, coordinate sums and bounding box of `s`.
pub open spec fn describes(s: Set<Px>, w: int, h: int, b: Blob) -> bool {
    &&& b.area == size(s, w, h)
    &&& b.sum_x == grid_sum(s, xcoord(), w, h)
    &&& b.sum_y == grid_sum(s, ycoord(), w, h)
    &&& boxed(s, b)
}

pub open spec fn idx(w: int, p: Px) -> int {
    p.1 * w + p.0
}

/// The grid pixels marked in a row-major flag array.
pub open spec fn seen_set(v: Seq<bool>, w: int, h: int) -> Set<Px> {
    Set::new(|p: Px| in_grid(w, h, p) && v[idx(w, p)])
}

pub open spec fn sp(e: (usize, usize)) -> Px {
    (e.0 as int, e.1 as int)
}

/// Number of unset flags.
pub open spec fn unseen(v: Seq<bool>) -> nat
    decreases v.len(),
{
    if v.len() == 0 {
        0
    } else {
        unseen(v.drop_last()) + if v.last() { 0nat } else { 1nat }
    }
}

proof fn lemma_unseen_update(v: Seq<bool>, j: int)
    requires
        0 <= j < v.len(),
        !v[j],
    ensures
        unseen(v.update(j, true)) + 1 == unseen(v),
    decreases v.len(),
{
    let u = v.update(j, true);
    if j < v.len() - 1 {
        assert(u.drop_last() =~= v.drop_last().update(j, true));
        lemma_unseen_update(v.drop_last(), j);
    } else {
        assert(u.drop_last() =~= v.drop_last());
    }
}

pub proof fn lemma_idx(w: int, h: int, p: Px)
    requires
        in_grid(w, h, p),
    ensures
        0 <= idx(w, p) < w * h,
        idx(w, p) % w == p.0,
        idx(w, p) / w == p.1,
{
    assert(0 <= p.1 * w + p.0 < w * h) by (nonlinear_arith)
        requires 0 <= p.0 < w, 0 <= p.1 < h;
    crate::draw::lemma_cell(idx(w, p), w, p.1, p.0);
}

proof fn lemma_idx_unique(w: int, h: int, p: Px, q: Px)
    requires
        in_grid(w, h, p),
        in_grid(w, h, q),
        idx(w, p) == idx(w, q),
    ensures
        p == q,
{
    lemma_idx(w, h, p);
    lemma_idx(w, h, q);
}

/// Setting the flag of grid pixel `q` adds exactly `q`.
proof fn lemma_seen_mark(v: Seq<bool>, w: int, h: int, q: Px)
    requires
        in_grid(w, h, q),
        v.len() == w * h,
    ensures
        seen_set(v.update(idx(w, q), true), w, h) == seen_set(v, w, h).insert(q),
{
    lemma_idx(w, h, q);
    let a = seen_set(v.update(idx(w, q), true), w, h);
    let b = seen_set(v, w, h).insert(q);
    assert forall|p: Px| a.contains(p) <==> b.contains(p) by {
        if in_grid(w, h, p) {
            lemma_idx(w, h, p);
            if idx(w, p) == idx(w, q) {
                lemma_idx_unique(w, h, p, q);
            }
        }
    }
    assert(a =~= b);
}


/// What a flood from `start` keeps true: the marks added since it began are
/// region pixels, each either taken (`taken`) or waiting on the stack once.
pub open spec fn flood_inv(mask: Seq<bool>, w: int, h: int, old_s: Set<Px>, start: Px, seen: Seq<bool>, stack: Seq<(usize, usize)>, taken: Set<Px>) -> bool {
    let cur = seen_set(seen, w, h);
    let r = region(mask, w, h, start);
    &&& seen.len() == w * h
    &&& old_s.subset_of(cur)
    &&& cur.contains(start)
    &&& forall|p: Px| #[trigger] cur.contains(p) && !old_s.contains(p) ==> r.contains(p)
    &&& forall|p: Px| #[trigger] taken.contains(p) ==> cur.contains(p) && !old_s.contains(p)
    &&& forall|i: int| 0 <= i < stack.len() ==> in_grid(w, h, sp(#[trigger] stack[i])) && cur.contains(sp(stack[i]))
        && !old_s.contains(sp(stack[i])) && !taken.contains(sp(stack[i]))
    &&& forall|i: int, j: int| 0 <= i < j < stack.len() ==> #[trigger] stack[i] != #[trigger] stack[j]
    &&& forall|p: Px| #[trigger] cur.contains(p) && !old_s.contains(p) && !taken.contains(p) ==>
        exists|i: int| 0 <= i < stack.len() && sp(#[trigger] stack[i]) == p
}

/// Every set pixel touching a taken pixel is marked.
pub open spec fn flood_done(mask: Seq<bool>, w: int, h: int, seen: Seq<bool>, taken: Set<Px>) -> bool {
    forall|p: Px, q: Px| #![trigger taken.contains(p), on(mask, w, h, q)]
        taken.contains(p) && touching(p, q) && on(mask, w, h, q) ==> seen_set(seen, w, h).contains(q)
}

fn visit(mask: &[bool], w: usize, h: usize, seen: &mut Vec<bool>, stack: &mut Vec<(usize, usize)>, nx: usize, ny: usize)
    requires
        mask@.len() == w * h,
        old(seen)@.len() == w * h,
        nx < w,
        ny < h,
    ensures
        on(mask@, w as int, h as int, (nx as int, ny as int)) && !old(seen)@[idx(w as int, (nx as int, ny as int))]
            ==> final(seen)@ == old(seen)@.update(idx(w as int, (nx as int, ny as int)), true) && final(stack)@ == old(stack)@.push((nx, ny)),
        !(on(mask@, w as int, h as int, (nx as int, ny as int)) && !old(seen)@[idx(w as int, (nx as int, ny as int))])
            ==> final(seen)@ == old(seen)@ && final(stack)@ == old(stack)@,
{
    proof {
        lemma_idx(w as int, h as int, (nx as int, ny as int));
    }
    assert(mask@.len() == mask.len());
    assert((ny as int) * (w as int) <= (ny as int) * (w as int) + (nx as int));
    let j = ny * w + nx;
    if mask[j] && !seen[j] {
        seen.set(j, true);
        stack.push((nx, ny));
    }
}

proof fn lemma_visit(
    mask: Seq<bool>, w: int, h: int, old_s: Set<Px>, start: Px,
    seen: Seq<bool>, stack: Seq<(usize, usize)>, taken: Set<Px>, p: Px, q: (usize, usize),
    seen2: Seq<bool>, stack2: Seq<(usize, usize)>,
)
    requires
        flood_inv(mask, w, h, old_s, start, seen, stack, taken),
        region(mask, w, h, start).contains(p),
        touching(p, sp(q)),
        in_grid(w, h, sp(q)),
        on(mask, w, h, sp(q)) && !seen[idx(w, sp(q))] ==> seen2 == seen.update(idx(w, sp(q)), true) && stack2 == stack.push(q),
        !(on(mask, w, h, sp(q)) && !seen[idx(w, sp(q))]) ==> seen2 == seen && stack2 == stack,
    ensures
        flood_inv(mask, w, h, old_s, start, seen2, stack2, taken),
        seen_set(seen, w, h).subset_of(seen_set(seen2, w, h)),
        on(mask, w, h, sp(q)) ==> seen_set(seen2, w, h).contains(sp(q)),
        2 * unseen(seen2) + stack2.len() <= 2 * unseen(seen) + stack.len(),
{
    let qq = sp(q);
    lemma_idx(w, h, qq);
    let cur = seen_set(seen, w, h);
    assert(cur.contains(qq) == seen[idx(w, qq)]);
    if on(mask, w, h, qq) && !seen[idx(w, qq)] {
        lemma_seen_mark(seen, w, h, qq);
        lemma_unseen_update(seen, idx(w, qq));
        lemma_region_basics(mask, w, h, start);
        let r = region(mask, w, h, start);
        assert(r.contains(qq));
        let cur2 = seen_set(seen2, w, h);
        assert(cur2 == cur.insert(qq));
        assert forall|i: int| 0 <= i < stack2.len() implies in_grid(w, h, sp(#[trigger] stack2[i])) && cur2.contains(sp(stack2[i]))
            && !old_s.contains(sp(stack2[i])) && !taken.contains(sp(stack2[i])) by {
            if i < stack.len() {
                assert(stack2[i] == stack[i]);
            }
        }
        assert forall|i: int, j: int| 0 <= i < j < stack2.len() implies #[trigger] stack2[i] != #[trigger] stack2[j] by {
            if j == stack.len() {
                assert(stack2[i] == stack[i]);
                assert(cur.contains(sp(stack[i])));
            } else {
                assert(stack2[i] == stack[i] && stack2[j] == stack[j]);
            }
        }
        assert forall|x: Px| #[trigger] cur2.contains(x) && !old_s.contains(x) && !taken.contains(x) implies
            exists|i: int| 0 <= i < stack2.len() && sp(#[trigger] stack2[i]) == x by {
            if x == qq {
                assert(sp(stack2[stack.len() as int]) == x);
            } else {
                assert(cur.contains(x));
                let i = choose|i: int| 0 <= i < stack.len() && sp(#[trigger] stack[i]) == x;
                assert(stack2[i] == stack[i]);
            }
        }
    }
}

proof fn lemma_take(mask: Seq<bool>, w: int, h: int, old_s: Set<Px>, start: Px, seen: Seq<bool>, stack: Seq<(usize, usize)>, taken: Set<Px>)
    requires
        flood_inv(mask, w, h, old_s, start, seen, stack, taken),
        stack.len() > 0,
    ensures
        flood_inv(mask, w, h, old_s, start, seen, stack.drop_last(), taken.insert(sp(stack.last()))),
        region(mask, w, h, start).contains(sp(stack.last())),
        in_grid(w, h, sp(stack.last())),
        !taken.contains(sp(stack.last())),
{
    let n = stack.len() - 1;
    let p = sp(stack[n]);
    let st = stack.drop_last();
    let t2 = taken.insert(p);
    let cur = seen_set(seen, w, h);
    assert(in_grid(w, h, sp(stack[n])));
    assert forall|i: int| 0 <= i < st.len() implies in_grid(w, h, sp(#[trigger] st[i])) && cur.contains(sp(st[i]))
        && !old_s.contains(sp(st[i])) && !t2.contains(sp(st[i])) by {
        assert(st[i] == stack[i]);
        assert(stack[i] != stack[n]);
        if sp(stack[i]) == p {
            assert(stack[i] == stack[n]);
        }
    }
    assert forall|i: int, j: int| 0 <= i < j < st.len() implies #[trigger] st[i] != #[trigger] st[j] by {
        assert(st[i] == stack[i] && st[j] == stack[j]);
    }
    assert forall|x: Px| #[trigger] cur.contains(x) && !old_s.contains(x) && !t2.contains(x) implies
        exists|i: int| 0 <= i < st.len() && sp(#[trigger] st[i]) == x by {
        let i = choose|i: int| 0 <= i < stack.len() && sp(#[trigger] stack[i]) == x;
        assert(i != n);
        assert(st[i] == stack[i]);
    }
}


proof fn lemma_box_insert(s: Set<Px>, b: Blob, p: Px, b2: Blob)
    requires
        boxed(s, b),
        b2.min_x == if p.0 < b.min_x { p.0 } else { b.min_x as int },
        b2.max_x == if p.0 > b.max_x { p.0 } else { b.max_x as int },
        b2.min_y == if p.1 < b.min_y { p.1 } else { b.min_y as int },
        b2.max_y == if p.1 > b.max_y { p.1 } else { b.max_y as int },
    ensures
        boxed(s.insert(p), b2),
{
    let t = s.insert(p);
    let a0 = choose|q: Px| #[trigger] s.contains(q) && q.0 == b.min_x;
    let a1 = choose|q: Px| #[trigger] s.contains(q) && q.0 == b.max_x;
    let a2 = choose|q: Px| #[trigger] s.contains(q) && q.1 == b.min_y;
    let a3 = choose|q: Px| #[trigger] s.contains(q) && q.1 == b.max_y;
    assert(t.contains(a0) && t.contains(a1) && t.contains(a2) && t.contains(a3) && t.contains(p));
    if p.0 < b.min_x { assert(t.contains(p) && p.0 == b2.min_x); } else { assert(t.contains(a0) && a0.0 == b2.min_x); }
    if p.0 > b.max_x { assert(t.contains(p) && p.0 == b2.max_x); } else { assert(t.contains(a1) && a1.0 == b2.max_x); }
    if p.1 < b.min_y { assert(t.contains(p) && p.1 == b2.min_y); } else { assert(t.contains(a2) && a2.1 == b2.min_y); }
    if p.1 > b.max_y { assert(t.contains(p) && p.1 == b2.max_y); } else { assert(t.contains(a3) && a3.1 == b2.max_y); }
}

/// Mark and measure the region of the unmarked set pixel (`x0`, `y0`), by a
/// depth-first walk over its 4-neighbours.
#[verifier::spinoff_prover]
#[verifier::rlimit(40)]
fn flood(mask: &[bool], w: usize, h: usize, seen: &mut Vec<bool>, x0: usize, y0: usize) -> (b: Blob)
    requires
        mask@.len() == w * h,
        old(seen)@.len() == w * h,
        x0 < w,
        y0 < h,
        on(mask@, w as int, h as int, (x0 as int, y0 as int)),
        !seen_set(old(seen)@, w as int, h as int).contains((x0 as int, y0 as int)),
        closed(mask@, w as int, h as int, seen_set(old(seen)@, w as int, h as int)),
        forall|q: Px| #[trigger] seen_set(old(seen)@, w as int, h as int).contains(q) ==> on(mask@, w as int, h as int, q),
        (w as int) * (h as int) * (w as int) <= u64::MAX,
        (w as int) * (h as int) * (h as int) <= u64::MAX,
    ensures
        final(seen)@.len() == w * h,
        seen_set(final(seen)@, w as int, h as int) == seen_set(old(seen)@, w as int, h as int).union(region(mask@, w as int, h as int, (x0 as int, y0 as int))),
        describes(region(mask@, w as int, h as int, (x0 as int, y0 as int)), w as int, h as int, b),
{
    let ghost wi = w as int;
    let ghost hi = h as int;
    let ghost start: Px = (x0 as int, y0 as int);
    let ghost old_s = seen_set(seen@, wi, hi);
    let ghost r = region(mask@, wi, hi, start);
    proof {
        lemma_region_avoids(mask@, wi, hi, start, old_s);
        lemma_region_basics(mask@, wi, hi, start);
        lemma_idx(wi, hi, start);
        lemma_seen_mark(seen@, wi, hi, start);
    }
    assert(mask@.len() == mask.len());
    assert((y0 as int) * wi <= (y0 as int) * wi + (x0 as int));
    let j0 = y0 * w + x0;
    assert(!seen@[j0 as int]);
    proof {
        lemma_unseen_update(seen@, j0 as int);
    }
    seen.set(j0, true);
    let mut stack: Vec<(usize, usize)> = Vec::new();
    stack.push((x0, y0));
    let ghost mut taken: Set<Px> = Set::empty();
    proof {
        lemma_sum_empty(one(), wi, hi);
        lemma_sum_empty(xcoord(), wi, hi);
        lemma_sum_empty(ycoord(), wi, hi);
        let cur = seen_set(seen@, wi, hi);
        assert(cur == old_s.insert(start));
        assert forall|x: Px| #[trigger] cur.contains(x) && !old_s.contains(x) && !taken.contains(x) implies
            exists|i: int| 0 <= i < stack@.len() && sp(#[trigger] stack@[i]) == x by {
            assert(sp(stack@[0]) == x);
        }
        assert(taken.insert(start) == set![start]);
    }
    let mut area: usize = 0;
    let mut sx: u64 = 0;
    let mut sy: u64 = 0;
    let mut min_x = x0;
    let mut max_x = x0;
    let mut min_y = y0;
    let mut max_y = y0;
    proof {
        let t = taken.insert(start);
        assert(t.contains(start));
        assert forall|q: Px| #[trigger] t.contains(q) implies min_x <= q.0 <= max_x && min_y <= q.1 <= max_y by {
            assert(q == start);
        }
    }
    while stack.len() > 0
        invariant
            mask@.len() == wi * hi,
            mask@.len() == mask.len(),
            wi == w,
            hi == h,
            start == (x0 as int, y0 as int),
            r == region(mask@, wi, hi, start),
            r.disjoint(old_s),
            r.contains(start),
            closed(mask@, wi, hi, old_s),
            closed(mask@, wi, hi, r),
            wi * hi * wi <= u64::MAX,
            wi * hi * hi <= u64::MAX,
            flood_inv(mask@, wi, hi, old_s, start, seen@, stack@, taken),
            flood_done(mask@, wi, hi, seen@, taken),
            area == size(taken, wi, hi),
            sx == grid_sum(taken, xcoord(), wi, hi),
            sy == grid_sum(taken, ycoord(), wi, hi),
            boxed(taken.insert(start), Blob { area, sum_x: sx, sum_y: sy, min_x, min_y, max_x, max_y }),
        decreases 2 * unseen(seen@) + stack@.len(),
    {
        let ghost stack0 = stack@;
        let ghost seen0 = seen@;
        let e = match stack.pop() {
            Some(e) => e,
            None => (x0, y0),
        };
        let (x, y) = e;
        let ghost p: Px = (x as int, y as int);
        proof {
            assert(stack@ == stack0.drop_last());
            assert(e == stack0.last());
            lemma_take(mask@, wi, hi, old_s, start, seen0, stack0, taken);
            lemma_sum_insert(taken, one(), wi, hi, p);
            lemma_sum_insert(taken, xcoord(), wi, hi, p);
            lemma_sum_insert(taken, ycoord(), wi, hi, p);
            let t2 = taken.insert(p);
            lemma_sum_bounds(t2, wi, hi);
            assert(size(t2, wi, hi) * wi <= wi * hi * wi) by (nonlinear_arith)
                requires size(t2, wi, hi) <= wi * hi, wi >= 0;
            assert(size(t2, wi, hi) * hi <= wi * hi * hi) by (nonlinear_arith)
                requires size(t2, wi, hi) <= wi * hi, hi >= 0;
        }
        let ghost b0 = Blob { area, sum_x: sx, sum_y: sy, min_x, min_y, max_x, max_y };
        area = area + 1;
        sx = sx + x as u64;
        sy = sy + y as u64;
        if x < min_x {
            min_x = x;
        }
        if x > max_x {
            max_x = x;
        }
        if y < min_y {
            min_y = y;
        }
        if y > max_y {
            max_y = y;
        }
        proof {
            lemma_box_insert(taken.insert(start), b0, p, Blob { area, sum_x: sx, sum_y: sy, min_x, min_y, max_x, max_y });
            assert(taken.insert(start).insert(p) =~= taken.insert(p).insert(start));
            taken = taken.insert(p);
        }
        let ghost s_a = seen@;
        let ghost st_a = stack@;
        if x > 0 {
            visit(mask, w, h, seen, &mut stack, x - 1, y);
            proof {
                lemma_visit(mask@, wi, hi, old_s, start, s_a, st_a, taken, p, ((x - 1) as usize, y), seen@, stack@);
            }
        }
        let ghost s_b = seen@;
        let ghost st_b = stack@;
        if x + 1 < w {
            visit(mask, w, h, seen, &mut stack, x + 1, y);
            proof {
                lemma_visit(mask@, wi, hi, old_s, start, s_b, st_b, taken, p, ((x + 1) as usize, y), seen@, stack@);
            }
        }
        let ghost s_c = seen@;
        let ghost st_c = stack@;
        if y > 0 {
            visit(mask, w, h, seen, &mut stack, x, y - 1);
            proof {
                lemma_visit(mask@, wi, hi, old_s, start, s_c, st_c, taken, p, (x, (y - 1) as usize), seen@, stack@);
            }
        }
        let ghost s_d = seen@;
        let ghost st_d = stack@;
        if y + 1 < h {
            visit(mask, w, h, seen, &mut stack, x, y + 1);
            proof {
                lemma_visit(mask@, wi, hi, old_s, start, s_d, st_d, taken, p, (x, (y + 1) as usize), seen@, stack@);
            }
        }
        proof {
            let fin = seen_set(seen@, wi, hi);
            assert(seen_set(seen0, wi, hi).subset_of(fin));
            assert forall|a: Px, q: Px| #![trigger taken.contains(a), on(mask@, wi, hi, q)]
                taken.contains(a) && touching(a, q) && on(mask@, wi, hi, q) implies fin.contains(q) by {
                if a != p {
                    assert(seen_set(seen0, wi, hi).contains(q));
                } else {
                    if q == (p.0 - 1, p.1) {
                        assert(seen_set(s_b, wi, hi).contains(q));
                    } else if q == (p.0 + 1, p.1) {
                        assert(seen_set(s_c, wi, hi).contains(q));
                    } else if q == (p.0, p.1 - 1) {
                        assert(seen_set(s_d, wi, hi).contains(q));
                    } else {
                        assert(q == (p.0, p.1 + 1));
                    }
                }
            }
        }
    }
    proof {
        let cur = seen_set(seen@, wi, hi);
        assert forall|x: Px| cur.contains(x) && !old_s.contains(x) implies #[trigger] taken.contains(x) by {
            if !taken.contains(x) {
                let i = choose|i: int| 0 <= i < stack@.len() && sp(#[trigger] stack@[i]) == x;
            }
        }
        assert forall|a: Px, q: Px| #![trigger cur.contains(a), on(mask@, wi, hi, q)]
            cur.contains(a) && touching(a, q) && on(mask@, wi, hi, q) implies cur.contains(q) by {
            if old_s.contains(a) {
                assert(old_s.contains(q));
            } else {
                assert(taken.contains(a));
            }
        }
        assert(closed(mask@, wi, hi, cur));
        lemma_region_within(mask@, wi, hi, start, cur);
        assert(taken =~= r);
        assert(cur =~= old_s.union(r));
        assert(taken.insert(start) =~= taken);
    }
    Blob { area, sum_x: sx, sum_y: sy, min_x, min_y, max_x, max_y }
}


/// Scan order: row by row, left to right.
pub open spec fn before(p: Px, q: Px) -> bool {
    p.1 < q.1 || (p.1 == q.1 && p.0 < q.0)
}

/// `s` is the first pixel, in scan order, whose region is as large as any.
pub open spec fn first_largest(mask: Seq<bool>, w: int, h: int, s: Px) -> bool {
    &&& on(mask, w, h, s)
    &&& forall|q: Px| #[trigger] on(mask, w, h, q) ==> size(region(mask, w, h, q), w, h) <= size(region(mask, w, h, s), w, h)
    &&& forall|q: Px| #[trigger] on(mask, w, h, q) && before(q, s) ==> size(region(mask, w, h, q), w, h) < size(region(mask, w, h, s), w, h)
}

proof fn lemma_size_positive(s: Set<Px>, w: int, h: int, p: Px)
    requires
        s.contains(p),
        in_grid(w, h, p),
    ensures
        size(s, w, h) >= 1,
{
    let t = s.remove(p);
    lemma_sum_insert(t, one(), w, h, p);
    assert(t.insert(p) =~= s);
    lemma_sum_bounds(t, w, h);
}

/// The search state after scanning every pixel before `pos`.
pub open spec fn scan_inv(mask: Seq<bool>, w: int, h: int, seen: Seq<bool>, pos: Px, best: Option<Blob>, best_s: Px) -> bool {
    let cur = seen_set(seen, w, h);
    &&& seen.len() == w * h
    &&& closed(mask, w, h, cur)
    &&& forall|q: Px| #[trigger] cur.contains(q) ==> on(mask, w, h, q)
    &&& forall|q: Px| #[trigger] on(mask, w, h, q) && before(q, pos) ==> cur.contains(q)
    &&& match best {
        None => forall|q: Px| !(#[trigger] cur.contains(q)),
        Some(b) => {
            &&& on(mask, w, h, best_s)
            &&& describes(region(mask, w, h, best_s), w, h, b)
            &&& forall|q: Px| #[trigger] cur.contains(q) ==> size(region(mask, w, h, q), w, h) <= b.area
            &&& forall|q: Px| #[trigger] on(mask, w, h, q) && before(q, best_s) ==> size(region(mask, w, h, q), w, h) < b.area
        },
    }
}

/// Fold one pixel into the search (the caller has just flooded it if it was
/// a fresh set pixel).
proof fn lemma_scan_step(
    mask: Seq<bool>, w: int, h: int, seen: Seq<bool>, seen2: Seq<bool>, p: Px,
    best: Option<Blob>, best_s: Px, flooded: Option<Blob>, best2: Option<Blob>, best_s2: Px,
)
    requires
        w > 0,
        in_grid(w, h, p),
        scan_inv(mask, w, h, seen, p, best, best_s),
        match flooded {
            None => seen2 == seen && (on(mask, w, h, p) ==> seen_set(seen, w, h).contains(p)),
            Some(b) => {
                &&& on(mask, w, h, p)
                &&& !seen_set(seen, w, h).contains(p)
                &&& seen2.len() == w * h
                &&& seen_set(seen2, w, h) == seen_set(seen, w, h).union(region(mask, w, h, p))
                &&& describes(region(mask, w, h, p), w, h, b)
            },
        },
        (best2, best_s2) == match flooded {
            Some(b) => if best is None || b.area > best->0.area { (Some(b), p) } else { (best, best_s) },
            None => (best, best_s),
        },
    ensures
        scan_inv(mask, w, h, seen2, if p.0 + 1 < w { (p.0 + 1, p.1) } else { (0, p.1 + 1) }, best2, best_s2),
{
    let cur = seen_set(seen, w, h);
    let cur2 = seen_set(seen2, w, h);
    let next = if p.0 + 1 < w { (p.0 + 1, p.1) } else { (0, p.1 + 1) };
    match flooded {
        None => {
            assert forall|q: Px| #[trigger] on(mask, w, h, q) && before(q, next) implies cur2.contains(q) by {
                if q != p {
                    assert(before(q, p));
                }
            }
        },
        Some(b) => {
            let r = region(mask, w, h, p);
            lemma_region_basics(mask, w, h, p);
            lemma_size_positive(r, w, h, p);
            assert forall|q: Px| #[trigger] r.contains(q) implies size(region(mask, w, h, q), w, h) == b.area by {
                lemma_region_shared(mask, w, h, p, q);
            }
            assert forall|a: Px, q: Px| #![trigger cur2.contains(a), on(mask, w, h, q)]
                cur2.contains(a) && touching(a, q) && on(mask, w, h, q) implies cur2.contains(q) by {
                if cur.contains(a) {
                    assert(cur.contains(q));
                } else {
                    assert(r.contains(q));
                }
            }
            assert forall|q: Px| #[trigger] on(mask, w, h, q) && before(q, next) implies cur2.contains(q) by {
                if q != p {
                    assert(before(q, p));
                }
            }
            if best is None || b.area > best->0.area {
                assert forall|q: Px| #[trigger] on(mask, w, h, q) && before(q, p) implies size(region(mask, w, h, q), w, h) < b.area by {
                    assert(cur.contains(q));
                }
            }
        },
    }
}

/// The largest 4-connected region of set pixels in a row-major `w`×`h`
/// mask (the first in scan order among equals), measured; `None` when no
/// pixel is set.
pub fn largest_blob(mask: &[bool], w: usize, h: usize) -> (r: Option<Blob>)
    requires
        mask@.len() == w * h,
        (w as int) * (h as int) * (w as int) <= u64::MAX,
        (w as int) * (h as int) * (h as int) <= u64::MAX,
    ensures
        match r {
            None => forall|q: Px| !on(mask@, w as int, h as int, q),
            Some(b) => exists|s: Px| first_largest(mask@, w as int, h as int, s) && describes(region(mask@, w as int, h as int, s), w as int, h as int, b),
        },
{
    let ghost wi = w as int;
    let ghost hi = h as int;
    assert(mask@.len() == mask.len());
    let mut seen = vec![false; w * h];
    let mut best: Option<Blob> = None;
    let ghost mut best_s: Px = (0, 0);
    proof {
        assert forall|q: Px| !(#[trigger] seen_set(seen@, wi, hi).contains(q)) by {
            if in_grid(wi, hi, q) {
                lemma_idx(wi, hi, q);
            }
        }
    }
    let mut y: usize = 0;
    while y < h
        invariant
            wi == w,
            hi == h,
            mask@.len() == wi * hi,
            wi * hi * wi <= u64::MAX,
            wi * hi * hi <= u64::MAX,
            y <= h,
            scan_inv(mask@, wi, hi, seen@, (0, y as int), best, best_s),
        decreases h - y,
    {
        let mut x: usize = 0;
        while x < w
            invariant
                wi == w,
                hi == h,
                mask@.len() == wi * hi,
                mask@.len() == mask.len(),
                wi * hi * wi <= u64::MAX,
                wi * hi * hi <= u64::MAX,
                y < h,
                x <= w,
                scan_inv(mask@, wi, hi, seen@, (x as int, y as int), best, best_s),
            decreases w - x,
        {
            let ghost p: Px = (x as int, y as int);
            let ghost seen0 = seen@;
            let ghost best0 = best;
            let ghost best_s0 = best_s;
            proof {
                lemma_idx(wi, hi, p);
            }
            assert((y as int) * wi <= (y as int) * wi + (x as int));
            let start = y * w + x;
            let mut flooded: Option<Blob> = None;
            if mask[start] && !seen[start] {
                let b = flood(mask, w, h, &mut seen, x, y);
                flooded = Some(b);
                let better = match best {
                    None => true,
                    Some(c) => b.area > c.area,
                };
                if better {
                    best = Some(b);
                    proof {
                        best_s = p;
                    }
                }
            }
            proof {
                lemma_scan_step(mask@, wi, hi, seen0, seen@, p, best0, best_s0, flooded, best, best_s);
            }
            x = x + 1;
        }
        proof {
            assert forall|q: Px| #[trigger] on(mask@, wi, hi, q) && before(q, (0, y + 1)) implies seen_set(seen@, wi, hi).contains(q) by {
                assert(before(q, (x as int, y as int)) || q.1 < y);
            }
        }
        y = y + 1;
    }
    proof {
        let cur = seen_set(seen@, wi, hi);
        assert forall|q: Px| #[trigger] on(mask@, wi, hi, q) implies cur.contains(q) by {
            assert(before(q, (0, hi)));
        }
        match best {
            None => {},
            Some(b) => {
                assert(first_largest(mask@, wi, hi, best_s));
            },
        }
    }
    best
}


/// Pixel (`x`, `y`) of a packed RGB8 image is dark: channel mean below 70.
pub open spec fn dark(rgb: Seq<u8>, w: int, x: int, y: int) -> bool {
    let i = (y * w + x) * 3;
    (rgb[i] as int + rgb[i + 1] as int + rgb[i + 2] as int) / 3 < 70
}

/// Sum of `f` over the dark pixels of row `y`, columns `xlo..k`.
pub open spec fn dark_row(rgb: Seq<u8>, w: int, y: int, xlo: int, k: int, f: spec_fn(Px) -> int) -> int
    decreases k - xlo,
{
    if k <= xlo {
        0
    } else {
        dark_row(rgb, w, y, xlo, k - 1, f) + if dark(rgb, w, k - 1, y) { f((k - 1, y)) } else { 0 }
    }
}

/// Sum of `f` over the dark pixels of columns `xlo..xhi`, rows `ylo..k`.
pub open spec fn dark_rect(rgb: Seq<u8>, w: int, xlo: int, xhi: int, ylo: int, k: int, f: spec_fn(Px) -> int) -> int
    decreases k - ylo,
{
    if k <= ylo {
        0
    } else {
        dark_rect(rgb, w, xlo, xhi, ylo, k - 1, f) + dark_row(rgb, w, k - 1, xlo, xhi, f)
    }
}

/// Dark pixels in the upper part of a face box: count and coordinate sums.
#[derive(Clone, Copy, Debug, PartialEq, Eq, Structural)]
pub struct DarkSums {
    pub n: u64,
    pub sum_x: u64,
    pub sum_y: u64,
}

/// The band searched for the iris: the box's columns, and its rows from the
/// top down to 45% of its height, inside the image.
pub open spec fn band(b: Blob, w: int, h: int) -> (int, int, int, int) {
    let mid = b.min_y + (b.max_y - b.min_y) * 45 / 100;
    (b.min_x as int, if b.max_x < w - 1 { b.max_x as int } else { w - 1 }, b.min_y as int, if mid < h - 1 { mid } else { h - 1 })
}

fn dark_px(rgb: &[u8], w: usize, x: usize, y: usize) -> (d: bool)
    requires
        x < w,
        (y as int) * (w as int) + (x as int) < rgb@.len() / 3,
    ensures
        d == dark(rgb@, w as int, x as int, y as int),
{
    assert(rgb@.len() == rgb.len());
    assert((y as int) * (w as int) <= (y as int) * (w as int) + (x as int));
    assert(((y as int) * (w as int) + (x as int)) * 3 + 2 < rgb@.len());
    let i = (y * w + x) * 3;
    let s = rgb[i] as u32 + rgb[i + 1] as u32 + rgb[i + 2] as u32;
    s / 3 < 70
}

/// Count and coordinate sums of the dark pixels in columns `x0..=x1`,
/// rows `y0..=y1` of a `w`×`h` RGB8 image.
pub fn dark_sums(rgb: &[u8], w: usize, h: usize, x0: usize, x1: usize, y0: usize, y1: usize) -> (d: DarkSums)
    requires
        rgb@.len() >= (w as int) * (h as int) * 3,
        x0 <= x1 < w,
        y0 <= y1 < h,
        (w as int) * (h as int) * (w as int) <= u64::MAX,
        (w as int) * (h as int) * (h as int) <= u64::MAX,
    ensures
        d.n == dark_rect(rgb@, w as int, x0 as int, x1 + 1, y0 as int, y1 + 1, one()),
        d.sum_x == dark_rect(rgb@, w as int, x0 as int, x1 + 1, y0 as int, y1 + 1, xcoord()),
        d.sum_y == dark_rect(rgb@, w as int, x0 as int, x1 + 1, y0 as int, y1 + 1, ycoord()),
{
    let ghost wi = w as int;
    let ghost hi = h as int;
    let mut n: u64 = 0;
    let mut sx: u64 = 0;
    let mut sy: u64 = 0;
    let mut y: usize = y0;
    while y <= y1
        invariant
            wi == w,
            hi == h,
            rgb@.len() >= wi * hi * 3,
            x0 <= x1 < w,
            y0 <= y <= y1 + 1,
            y1 < h,
            wi * hi * wi <= u64::MAX,
            wi * hi * hi <= u64::MAX,
            n == dark_rect(rgb@, wi, x0 as int, x1 + 1, y0 as int, y as int, one()),
            sx == dark_rect(rgb@, wi, x0 as int, x1 + 1, y0 as int, y as int, xcoord()),
            sy == dark_rect(rgb@, wi, x0 as int, x1 + 1, y0 as int, y as int, ycoord()),
            n <= (y - y0) * wi,
            sx <= n * wi,
            sy <= n * hi,
        decreases y1 + 1 - y,
    {
        let ghost n_row0 = n;
        let mut x: usize = x0;
        while x <= x1
            invariant
                wi == w,
                hi == h,
                rgb@.len() >= wi * hi * 3,
                x0 <= x <= x1 + 1,
                x1 < w,
                y0 <= y <= y1,
                y1 < h,
                wi * hi * wi <= u64::MAX,
                wi * hi * hi <= u64::MAX,
                n == n_row0 + dark_row(rgb@, wi, y as int, x0 as int, x as int, one()),
                sx == dark_rect(rgb@, wi, x0 as int, x1 + 1, y0 as int, y as int, xcoord()) + dark_row(rgb@, wi, y as int, x0 as int, x as int, xcoord()),
                sy == dark_rect(rgb@, wi, x0 as int, x1 + 1, y0 as int, y as int, ycoord()) + dark_row(rgb@, wi, y as int, x0 as int, x as int, ycoord()),
                n_row0 == dark_rect(rgb@, wi, x0 as int, x1 + 1, y0 as int, y as int, one()),
                n_row0 <= (y - y0) * wi,
                n <= n_row0 + (x - x0),
                sx <= n * wi,
                sy <= n * hi,
            decreases x1 + 1 - x,
        {
            proof {
                assert((y as int) * wi + (x as int) < wi * hi) by (nonlinear_arith)
                    requires y < hi, x < wi;
            }
            if dark_px(rgb, w, x, y) {
                proof {
                    assert(n + 1 <= wi * hi) by (nonlinear_arith)
                        requires n <= (y - y0) * wi + (x - x0), y - y0 < hi, x - x0 < wi, y0 >= 0, x0 >= 0, y < hi, wi > 0;
                    assert((n + 1) * wi <= wi * hi * wi) by (nonlinear_arith)
                        requires n + 1 <= wi * hi, wi >= 0;
                    assert((n + 1) * hi <= wi * hi * hi) by (nonlinear_arith)
                        requires n + 1 <= wi * hi, hi >= 0;
                    assert(n * wi + wi == (n + 1) * wi) by (nonlinear_arith);
                    assert(wi * hi <= wi * hi * wi) by (nonlinear_arith)
                        requires wi >= 1, hi >= 0;
                    assert(n * hi + hi == (n + 1) * hi) by (nonlinear_arith);
                }
                n = n + 1;
                sx = sx + x as u64;
                sy = sy + y as u64;
            }
            x = x + 1;
        }
        proof {
            assert(n <= (y + 1 - y0) * wi) by (nonlinear_arith)
                requires n <= n_row0 + (x - x0), n_row0 <= (y - y0) * wi, x == x1 + 1, x1 < wi, x0 >= 0;
        }
        y = y + 1;
    }
    DarkSums { n, sum_x: sx, sum_y: sy }
}


/// The skin region taken for a face and, when enough dark pixels sit in its
/// upper band, their sums (the iris estimate).
#[derive(Clone, Copy, Debug, PartialEq, Eq, Structural)]
pub struct FaceSums {
    pub blob: Blob,
    pub iris: Option<DarkSums>,
}

/// Smallest region taken for a face: 1/80 of the frame, at least 24 pixels.
pub open spec fn min_face_area(w: int, h: int) -> int {
    if w * h / 80 > 24 { w * h / 80 } else { 24 }
}

/// The iris sums over the band of `b`, kept only with more than four dark pixels.
pub open spec fn iris_of(rgb: Seq<u8>, w: int, h: int, b: Blob) -> Option<DarkSums> {
    let (xa, xb, ya, yb) = band(b, w, h);
    let d = DarkSums {
        n: dark_rect(rgb, w, xa, xb + 1, ya, yb + 1, one()) as u64,
        sum_x: dark_rect(rgb, w, xa, xb + 1, ya, yb + 1, xcoord()) as u64,
        sum_y: dark_rect(rgb, w, xa, xb + 1, ya, yb + 1, ycoord()) as u64,
    };
    if d.n > 4 { Some(d) } else { None }
}

/// Largest skin region (per `mask`) as the face, and the dark pixels in its
/// upper 45% as the iris. `None` for frames under 8×8, or when the largest
/// region is under `min_face_area`.
pub fn face_sums(rgb: &[u8], mask: &[bool], w: u32, h: u32) -> (r: Option<FaceSums>)
    requires
        rgb@.len() >= (w as int) * (h as int) * 3,
        mask@.len() == (w as int) * (h as int),
        (w as int) * (h as int) * (w as int) <= u64::MAX,
        (w as int) * (h as int) * (h as int) <= u64::MAX,
    ensures
        w < 8 || h < 8 ==> r is None,
        w >= 8 && h >= 8 ==> match r {
            None => (forall|q: Px| !on(mask@, w as int, h as int, q)) || exists|s: Px|
                first_largest(mask@, w as int, h as int, s) && size(region(mask@, w as int, h as int, s), w as int, h as int) < min_face_area(w as int, h as int),
            Some(f) => exists|s: Px| first_largest(mask@, w as int, h as int, s)
                && describes(region(mask@, w as int, h as int, s), w as int, h as int, f.blob)
                && f.blob.area >= min_face_area(w as int, h as int)
                && f.iris == iris_of(rgb@, w as int, h as int, f.blob),
        },
{
    if w < 8 || h < 8 {
        return None;
    }
    let wu = w as usize;
    let hu = h as usize;
    let best = largest_blob(mask, wu, hu);
    let b = match best {
        None => {
            return None;
        },
        Some(b) => b,
    };
    let ghost wi = w as int;
    let ghost hi = h as int;
    let ghost s = choose|s: Px| first_largest(mask@, wi, hi, s) && describes(region(mask@, wi, hi, s), wi, hi, b);
    proof {
        assert(wi * hi <= wi * hi * wi) by (nonlinear_arith)
            requires wi >= 8, hi >= 0;
    }
    let cells = (w as u64) * (h as u64);
    let min_area: u64 = if cells / 80 > 24 { cells / 80 } else { 24 };
    if (b.area as u64) < min_area {
        return None;
    }
    proof {
        let r = region(mask@, wi, hi, s);
        lemma_region_basics(mask@, wi, hi, s);
        assert(r.contains(s));
        assert(b.min_x <= s.0 <= b.max_x && b.min_y <= s.1 <= b.max_y);
        assert(on(mask@, wi, hi, s));
        let ax = choose|p: Px| #[trigger] r.contains(p) && p.0 == b.max_x;
        let ay = choose|p: Px| #[trigger] r.contains(p) && p.1 == b.max_y;
        assert(on(mask@, wi, hi, ax) && on(mask@, wi, hi, ay));
        assert(hi * hi <= wi * hi * hi) by (nonlinear_arith)
            requires wi >= 8, hi >= 0;
    }
    let span: u64 = (b.max_y - b.min_y) as u64;
    let mid: u64 = (b.min_y as u64) + span * 45 / 100;
    let yb: usize = if mid < (hu - 1) as u64 { mid as usize } else { hu - 1 };
    let xb: usize = if b.max_x < wu - 1 { b.max_x } else { wu - 1 };
    let d = dark_sums(rgb, wu, hu, b.min_x, xb, b.min_y, yb);
    let iris = if d.n > 4 { Some(d) } else { None };
    Some(FaceSums { blob: b, iris })
}


/// Two images whose dark pixels agree on columns `xlo..xhi` of rows `ylo..k`
/// give the same dark sums there.
proof fn lemma_dark_rect_agree(rgb1: Seq<u8>, rgb2: Seq<u8>, w: int, xlo: int, xhi: int, ylo: int, k: int, f: spec_fn(Px) -> int)
    requires
        forall|x: int, y: int| xlo <= x < xhi && ylo <= y < k ==> dark(rgb1, w, x, y) == dark(rgb2, w, x, y),
    ensures
        dark_rect(rgb1, w, xlo, xhi, ylo, k, f) == dark_rect(rgb2, w, xlo, xhi, ylo, k, f),
    decreases k - ylo,
{
    if k > ylo {
        lemma_dark_rect_agree(rgb1, rgb2, w, xlo, xhi, ylo, k - 1, f);
        lemma_dark_row_agree(rgb1, rgb2, w, k - 1, xlo, xhi, f);
    }
}

proof fn lemma_dark_row_agree(rgb1: Seq<u8>, rgb2: Seq<u8>, w: int, y: int, xlo: int, k: int, f: spec_fn(Px) -> int)
    requires
        forall|x: int| xlo <= x < k ==> dark(rgb1, w, x, y) == dark(rgb2, w, x, y),
    ensures
        dark_row(rgb1, w, y, xlo, k, f) == dark_row(rgb2, w, y, xlo, k, f),
    decreases k - xlo,
{
    if k > xlo {
        lemma_dark_row_agree(rgb1, rgb2, w, y, xlo, k - 1, f);
    }
}

/// Making one pixel of row `y` (inside `xlo..k`) dark adds `f` of it to the row sum.
proof fn lemma_dark_row_one_more(rgb1: Seq<u8>, rgb2: Seq<u8>, w: int, y: int, xlo: int, k: int, f: spec_fn(Px) -> int, px: int)
    requires
        xlo <= px < k,
        !dark(rgb1, w, px, y),
        dark(rgb2, w, px, y),
        forall|x: int| xlo <= x < k && x != px ==> dark(rgb1, w, x, y) == dark(rgb2, w, x, y),
    ensures
        dark_row(rgb2, w, y, xlo, k, f) == dark_row(rgb1, w, y, xlo, k, f) + f((px, y)),
    decreases k - xlo,
{
    if k - 1 == px {
        lemma_dark_row_agree(rgb1, rgb2, w, y, xlo, k - 1, f);
    } else {
        lemma_dark_row_one_more(rgb1, rgb2, w, y, xlo, k - 1, f, px);
    }
}

/// Making one pixel of the rectangle dark adds `f` of it to the rectangle sum.
proof fn lemma_dark_rect_one_more(rgb1: Seq<u8>, rgb2: Seq<u8>, w: int, xlo: int, xhi: int, ylo: int, k: int, f: spec_fn(Px) -> int, px: int, py: int)
    requires
        xlo <= px < xhi,
        ylo <= py < k,
        !dark(rgb1, w, px, py),
        dark(rgb2, w, px, py),
        forall|x: int, y: int| xlo <= x < xhi && ylo <= y < k && (x != px || y != py) ==> dark(rgb1, w, x, y) == dark(rgb2, w, x, y),
    ensures
        dark_rect(rgb2, w, xlo, xhi, ylo, k, f) == dark_rect(rgb1, w, xlo, xhi, ylo, k, f) + f((px, py)),
    decreases k - ylo,
{
    if k - 1 == py {
        lemma_dark_rect_agree(rgb1, rgb2, w, xlo, xhi, ylo, k - 1, f);
        lemma_dark_row_one_more(rgb1, rgb2, w, py, xlo, xhi, f, px);
    } else {
        lemma_dark_rect_one_more(rgb1, rgb2, w, xlo, xhi, ylo, k - 1, f, px, py);
        lemma_dark_row_agree(rgb1, rgb2, w, k - 1, xlo, xhi, f);
    }
}

/// A sum of `f` (between 0 and `m` on the rectangle) over the dark pixels of
/// a rectangle lies between 0 and `m` times its pixel count.
proof fn lemma_dark_rect_bound(rgb: Seq<u8>, w: int, xlo: int, xhi: int, ylo: int, k: int, f: spec_fn(Px) -> int, m: int)
    requires
        xlo <= xhi,
        ylo <= k,
        0 <= m,
        forall|x: int, y: int| xlo <= x < xhi && ylo <= y < k ==> 0 <= #[trigger] f((x, y)) <= m,
    ensures
        0 <= dark_rect(rgb, w, xlo, xhi, ylo, k, f) <= (xhi - xlo) * (k - ylo) * m,
    decreases k - ylo,
{
    if k > ylo {
        lemma_dark_rect_bound(rgb, w, xlo, xhi, ylo, k - 1, f, m);
        lemma_dark_row_bound(rgb, w, k - 1, xlo, xhi, f, m);
        assert((xhi - xlo) * (k - 1 - ylo) * m + (xhi - xlo) * m == (xhi - xlo) * (k - ylo) * m) by (nonlinear_arith);
    }
}

proof fn lemma_dark_row_bound(rgb: Seq<u8>, w: int, y: int, xlo: int, k: int, f: spec_fn(Px) -> int, m: int)
    requires
        xlo <= k,
        0 <= m,
        forall|x: int| xlo <= x < k ==> 0 <= #[trigger] f((x, y)) <= m,
    ensures
        0 <= dark_row(rgb, w, y, xlo, k, f) <= (k - xlo) * m,
    decreases k - xlo,
{
    if k > xlo {
        lemma_dark_row_bound(rgb, w, y, xlo, k - 1, f, m);
        assert((k - 1 - xlo) * m + m == (k - xlo) * m) by (nonlinear_arith);
    }
}

/// The iris is looked for only in the top 45% of the face box: two frames
/// whose dark pixels agree on every row down to
/// `min_y + (max_y - min_y) * 45 / 100` give the same iris, however their
/// lower rows (mouth, chin) differ.
pub proof fn law_iris_ignores_lower_face(rgb1: Seq<u8>, rgb2: Seq<u8>, w: int, h: int, b: Blob)
    requires
        forall|x: int, y: int| 0 <= x < w && 0 <= y <= b.min_y + (b.max_y - b.min_y) * 45 / 100
            ==> dark(rgb1, w, x, y) == dark(rgb2, w, x, y),
    ensures
        iris_of(rgb1, w, h, b) == iris_of(rgb2, w, h, b),
{
    let (xa, xb, ya, yb) = band(b, w, h);
    lemma_dark_rect_agree(rgb1, rgb2, w, xa, xb + 1, ya, yb + 1, one());
    lemma_dark_rect_agree(rgb1, rgb2, w, xa, xb + 1, ya, yb + 1, xcoord());
    lemma_dark_rect_agree(rgb1, rgb2, w, xa, xb + 1, ya, yb + 1, ycoord());
}

/// Every dark pixel of the box's columns in rows `min_y` down to
/// `min_y + (max_y - min_y) * 45 / 100` (inside the frame) is searched: a
/// frame with one more such dark pixel has an iris count one higher and
/// coordinate sums higher by that pixel's coordinates. An iris needs at
/// least five dark pixels, and the fifth one makes it appear.
pub proof fn law_iris_counts_upper_face(rgb1: Seq<u8>, rgb2: Seq<u8>, w: int, h: int, b: Blob, px: int, py: int)
    requires
        w * h * w < u64::MAX,
        w * h * h < u64::MAX,
        b.min_x <= px <= b.max_x,
        px < w,
        b.min_y <= py <= b.min_y + (b.max_y - b.min_y) * 45 / 100,
        py < h,
        !dark(rgb1, w, px, py),
        dark(rgb2, w, px, py),
        forall|x: int, y: int| x != px || y != py ==> dark(rgb1, w, x, y) == dark(rgb2, w, x, y),
    ensures
        iris_of(rgb1, w, h, b) matches Some(d) ==> (iris_of(rgb2, w, h, b) matches Some(d2)
            && d2.n == d.n + 1 && d2.sum_x == d.sum_x + px && d2.sum_y == d.sum_y + py),
        iris_of(rgb1, w, h, b) is None ==> (iris_of(rgb2, w, h, b) matches Some(d2) ==> d2.n == 5),
        iris_of(rgb1, w, h, b) matches Some(d) ==> d.n >= 5,
{
    let (xa, xb, ya, yb) = band(b, w, h);
    assert(xa <= px <= xb && ya <= py <= yb);
    let area = (xb + 1 - xa) * (yb + 1 - ya);
    assert(area <= w * h) by (nonlinear_arith)
        requires area == (xb + 1 - xa) * (yb + 1 - ya), 0 <= xb + 1 - xa <= w, 0 <= yb + 1 - ya <= h;
    assert(area * 1 <= w * h && area * w <= w * h * w && area * h <= w * h * h) by (nonlinear_arith)
        requires area <= w * h, 0 <= area, 0 <= w, 0 <= h;
    assert forall|x: int, y: int| xa <= x < xb + 1 && ya <= y < yb + 1 implies 0 <= #[trigger] xcoord()((x, y)) <= w by {}
    assert forall|x: int, y: int| xa <= x < xb + 1 && ya <= y < yb + 1 implies 0 <= #[trigger] ycoord()((x, y)) <= h by {}
    assert forall|x: int, y: int| xa <= x < xb + 1 && ya <= y < yb + 1 implies 0 <= #[trigger] one()((x, y)) <= 1 by {}
    lemma_dark_rect_one_more(rgb1, rgb2, w, xa, xb + 1, ya, yb + 1, one(), px, py);
    lemma_dark_rect_one_more(rgb1, rgb2, w, xa, xb + 1, ya, yb + 1, xcoord(), px, py);
    lemma_dark_rect_one_more(rgb1, rgb2, w, xa, xb + 1, ya, yb + 1, ycoord(), px, py);
    lemma_dark_rect_bound(rgb1, w, xa, xb + 1, ya, yb + 1, one(), 1);
    lemma_dark_rect_bound(rgb2, w, xa, xb + 1, ya, yb + 1, one(), 1);
    lemma_dark_rect_bound(rgb1, w, xa, xb + 1, ya, yb + 1, xcoord(), w);
    lemma_dark_rect_bound(rgb2, w, xa, xb + 1, ya, yb + 1, xcoord(), w);
    lemma_dark_rect_bound(rgb1, w, xa, xb + 1, ya, yb + 1, ycoord(), h);
    lemma_dark_rect_bound(rgb2, w, xa, xb + 1, ya, yb + 1, ycoord(), h);
    let n1 = dark_rect(rgb1, w, xa, xb + 1, ya, yb + 1, one());
    let n2 = dark_rect(rgb2, w, xa, xb + 1, ya, yb + 1, one());
    let x1 = dark_rect(rgb1, w, xa, xb + 1, ya, yb + 1, xcoord());
    let x2 = dark_rect(rgb2, w, xa, xb + 1, ya, yb + 1, xcoord());
    let y1 = dark_rect(rgb1, w, xa, xb + 1, ya, yb + 1, ycoord());
    let y2 = dark_rect(rgb2, w, xa, xb + 1, ya, yb + 1, ycoord());
    assert(n2 == n1 + 1 && x2 == x1 + px && y2 == y1 + py);
    assert(w * h <= w * h * w) by (nonlinear_arith)
        requires w >= 1, h >= 0;
    assert(0 <= n1 && n2 <= area * 1 && 0 <= x1 && x2 <= area * w && 0 <= y1 && y2 <= area * h);
    assert((n2 as u64) == (n1 as u64) + 1);
    assert((x2 as u64) == (x1 as u64) + px);
    assert((y2 as u64) == (y1 as u64) + py);
}

} // verus!
