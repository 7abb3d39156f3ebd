use vstd::prelude::*;

verus! {

/// The shape in which a group of nodes is connected.
#[derive(Clone, Copy, Debug, PartialEq, Eq, Structural)]
pub enum Topology {
    /// Each node connects to the next one.
    Line,
    /// A line whose last node also connects to the first (from three nodes on).
    Ring,
    /// Every node connects to every later one.
    Mesh,
    /// The first node connects to every other one.
    Star,
}

/// Whether node `i` initiates a connection to node `j` among `n` nodes.
pub open spec fn is_edge(t: Topology, n: nat, i: nat, j: nat) -> bool {
    match t {
        Topology::Line => j == i + 1 && j < n,
        Topology::Ring => (j == i + 1 && j < n) || (n >= 3 && i == n - 1 && j == 0),
        Topology::Mesh => i < j < n,
        Topology::Star => i == 0 && 0 < j < n,
    }
}

/// Edges listed in increasing order of initiator, then of target.
pub open spec fn lex_less(a: (usize, usize), b: (usize, usize)) -> bool {
    a.0 < b.0 || (a.0 == b.0 && a.1 < b.1)
}

/// `edges` holds each edge of the topology once, and nothing else.
pub open spec fn lists_edges(t: Topology, n: nat, edges: Seq<(usize, usize)>) -> bool {
    &&& forall|a: int| 0 <= a < edges.len() ==> is_edge(t, n, #[trigger] edges[a].0 as nat, edges[a].1 as nat)
    &&& forall|i: nat, j: nat| #[trigger] is_edge(t, n, i, j) ==> exists|a: int|
        0 <= a < edges.len() && #[trigger] edges[a] == (i as usize, j as usize)
    &&& forall|a: int, b: int| 0 <= a < b < edges.len() ==> #[trigger] edges[a] != #[trigger] edges[b]
}

/// The connections that `n` nodes in topology `t` make, as pairs of
/// (initiator, target) indices.
pub fn edges(t: Topology, n: usize) -> (r: Vec<(usize, usize)>)
    ensures
        lists_edges(t, n as nat, r@),
{
    let mut r: Vec<(usize, usize)> = Vec::new();
    let mut i: usize = 0;
    while i < n
        invariant
            i <= n,
            forall|a: int| 0 <= a < r@.len() ==> is_edge(t, n as nat, #[trigger] r@[a].0 as nat, r@[a].1 as nat),
            forall|a: int| 0 <= a < r@.len() ==> (#[trigger] r@[a]).0 < i && r@[a].1 != 0,
            forall|x: nat, j: nat| #[trigger] is_edge(t, n as nat, x, j) && x < i && j != 0 ==> exists|a: int|
                0 <= a < r@.len() && #[trigger] r@[a] == (x as usize, j as usize),
            forall|a: int, b: int| 0 <= a < b < r@.len() ==> lex_less(#[trigger] r@[a], #[trigger] r@[b]),
        decreases n - i,
    {
        let ghost before = r@;
        let lo: usize = match t {
            Topology::Line | Topology::Ring => i + 1,
            Topology::Mesh => i + 1,
            Topology::Star => if i == 0 { 1 } else { n },
        };
        let hi: usize = match t {
            Topology::Line | Topology::Ring => if i + 1 < n { i + 2 } else { n },
            _ => n,
        };
        let mut j: usize = lo;
        while j < hi
            invariant
                i < n,
                lo <= j <= hi <= n,
                1 <= lo,
                forall|y: nat| #[trigger] is_edge(t, n as nat, i as nat, y) && y != 0 <==> lo <= y < hi,
                r@.len() >= before.len(),
                r@.subrange(0, before.len() as int) == before,
                forall|a: int| before.len() <= a < r@.len() ==> (#[trigger] r@[a]).0 == i && lo <= r@[a].1 < j,
                forall|y: nat| #[trigger] is_edge(t, n as nat, i as nat, y) && y != 0 && y < j ==> exists|a: int|
                    0 <= a < r@.len() && #[trigger] r@[a] == (i as usize, y as usize),
                forall|a: int| 0 <= a < before.len() ==> is_edge(t, n as nat, #[trigger] before[a].0 as nat, before[a].1 as nat),
                forall|a: int| 0 <= a < before.len() ==> (#[trigger] before[a]).0 < i && before[a].1 != 0,
                forall|a: int, b: int| 0 <= a < b < r@.len() ==> lex_less(#[trigger] r@[a], #[trigger] r@[b]),
            decreases hi - j,
        {
            let ghost prev = r@;
            r.push((i, j));
            assert(r@.subrange(0, before.len() as int) =~= before);
            assert forall|a: int, b: int| 0 <= a < b < r@.len() implies lex_less(#[trigger] r@[a], #[trigger] r@[b]) by {
                if b < prev.len() {
                    assert(r@[a] == prev[a] && r@[b] == prev[b]);
                } else {
                    assert(r@[a] == prev[a]);
                    if a < before.len() {
                        assert(prev.subrange(0, before.len() as int)[a] == before[a]);
                    }
                }
            }
            assert forall|y: nat| #[trigger] is_edge(t, n as nat, i as nat, y) && y != 0 && y < j + 1 implies exists|a: int|
                0 <= a < r@.len() && #[trigger] r@[a] == (i as usize, y as usize) by {
                if y == j {
                    assert(r@[prev.len() as int] == (i as usize, y as usize));
                } else {
                    let a = choose|a: int| 0 <= a < prev.len() && #[trigger] prev[a] == (i as usize, y as usize);
                    assert(r@[a] == prev[a]);
                }
            }
            j = j + 1;
        }
        proof {
            assert forall|a: int| 0 <= a < r@.len() implies is_edge(t, n as nat, #[trigger] r@[a].0 as nat, r@[a].1 as nat) by {
                if a < before.len() {
                    assert(r@[a] == before[a]);
                }
            }
            assert forall|a: int| 0 <= a < r@.len() implies (#[trigger] r@[a]).0 < i + 1 && r@[a].1 != 0 by {
                if a < before.len() {
                    assert(r@[a] == before[a]);
                }
            }
            assert forall|x: nat, y: nat| #[trigger] is_edge(t, n as nat, x, y) && x < i + 1 && y != 0 implies exists|a: int|
                0 <= a < r@.len() && #[trigger] r@[a] == (x as usize, y as usize) by {
                if x < i {
                    let a = choose|a: int| 0 <= a < before.len() && #[trigger] before[a] == (x as usize, y as usize);
                    assert(r@[a] == before[a]);
                }
            }
        }
        i = i + 1;
    }
    let ghost lined = r@;
    if t == Topology::Ring && n >= 3 {
        r.push((n - 1, 0));
        proof {
            assert forall|a: int| 0 <= a < r@.len() implies is_edge(t, n as nat, #[trigger] r@[a].0 as nat, r@[a].1 as nat) by {
                if a < lined.len() {
                    assert(r@[a] == lined[a]);
                }
            }
            assert forall|x: nat, y: nat| #[trigger] is_edge(t, n as nat, x, y) implies exists|a: int|
                0 <= a < r@.len() && #[trigger] r@[a] == (x as usize, y as usize) by {
                if y != 0 {
                    let a = choose|a: int| 0 <= a < lined.len() && #[trigger] lined[a] == (x as usize, y as usize);
                    assert(r@[a] == lined[a]);
                } else {
                    assert(r@[lined.len() as int] == (x as usize, y as usize));
                }
            }
            assert forall|a: int, b: int| 0 <= a < b < r@.len() implies #[trigger] r@[a] != #[trigger] r@[b] by {
                if b < lined.len() {
                    assert(lex_less(lined[a], lined[b]));
                } else {
                    assert(r@[a] == lined[a]);
                    assert(lined[a].1 != 0);
                }
            }
        }
    } else {
        proof {
            assert forall|x: nat, y: nat| #[trigger] is_edge(t, n as nat, x, y) implies exists|a: int|
                0 <= a < r@.len() && #[trigger] r@[a] == (x as usize, y as usize) by {
                assert(x < n && y != 0);
            }
            assert forall|a: int, b: int| 0 <= a < b < r@.len() implies #[trigger] r@[a] != #[trigger] r@[b] by {
                assert(lex_less(r@[a], r@[b]));
            }
        }
    }
    r
}

} // verus!
