//! The buddy's icosahedron wireframe: which of its 12 vertices are joined.

use vstd::prelude::*;

verus! {

pub const EDGES: [(usize, usize); 30] = [
    (0, 2), (0, 4), (0, 6), (0, 8), (0, 9),
    (1, 3), (1, 4), (1, 6), (1, 10), (1, 11),
    (2, 5), (2, 7), (2, 8), (2, 9),
    (3, 5), (3, 7), (3, 10), (3, 11),
    (4, 6), (4, 8), (4, 10),
    (5, 7), (5, 8), (5, 10),
    (6, 9), (6, 11),
    (7, 9), (7, 11),
    (8, 10),
    (9, 11),
];

/// Number of the first `n` edges of `es` that touch vertex `v`.
pub open spec fn degree_upto(es: Seq<(usize, usize)>, v: int, n: int) -> nat
    decreases n,
{
    if n <= 0 {
        0
    } else {
        degree_upto(es, v, n - 1) + if es[n - 1].0 == v || es[n - 1].1 == v { 1nat } else { 0nat }
    }
}

/// Number of edges of `es` that touch vertex `v`.
pub open spec fn degree(es: Seq<(usize, usize)>, v: int) -> nat {
    degree_upto(es, v, es.len() as int)
}

/// Position of an edge in the sorted order of vertex pairs.
pub open spec fn edge_key(e: (usize, usize)) -> int {
    e.0 * 12 + e.1
}

proof fn lemma_edge_step(i: int)
    requires
        0 <= i < 29,
    ensures
        edge_key(EDGES@[i]) < edge_key(EDGES@[i + 1]),
{
}

proof fn lemma_edges_increase(i: int, j: int)
    requires
        0 <= i < j < 30,
    ensures
        edge_key(EDGES@[i]) < edge_key(EDGES@[j]),
    decreases j - i,
{
    lemma_edge_step(j - 1);
    if i < j - 1 {
        lemma_edges_increase(i, j - 1);
    }
}

proof fn lemma_degree(v: int)
    requires
        0 <= v < 12,
    ensures
        degree(EDGES@, v) == 5,
{
    reveal_with_fuel(degree_upto, 31);
}

/// Every wireframe edge joins two distinct vertices of the 12, no edge is
/// listed twice, and each vertex meets exactly five edges: an icosahedron.
pub proof fn law_edges_form_icosahedron()
    ensures
        EDGES@.len() == 30,
        forall|i: int| 0 <= i < 30 ==> (#[trigger] EDGES@[i]).0 < EDGES@[i].1 && EDGES@[i].1 < 12,
        forall|i: int, j: int| 0 <= i < j < 30 ==> #[trigger] EDGES@[i] != #[trigger] EDGES@[j],
        forall|v: int| 0 <= v < 12 ==> #[trigger] degree(EDGES@, v) == 5,
{
    assert forall|i: int| 0 <= i < 30 implies (#[trigger] EDGES@[i]).0 < EDGES@[i].1 && EDGES@[i].1 < 12 by {}
    assert forall|i: int, j: int| 0 <= i < j < 30 implies #[trigger] EDGES@[i] != #[trigger] EDGES@[j] by {
        lemma_edges_increase(i, j);
    }
    assert forall|v: int| 0 <= v < 12 implies #[trigger] degree(EDGES@, v) == 5 by {
        lemma_degree(v);
    }
}

} // verus!
