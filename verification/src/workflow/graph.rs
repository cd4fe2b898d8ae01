//! Directed graphs on the vertices `0..n`, given by adjacency lists, and
//! their topological order (Kahn's algorithm).

use vstd::prelude::*;
use vstd::set_lib::{lemma_int_range, lemma_subset_equality, set_int_range};

verus! {

/// The adjacency lists as sequences.
pub open spec fn lists_view(down: Seq<Vec<usize>>) -> Seq<Seq<usize>> {
    down.map_values(|l: Vec<usize>| l@)
}

/// Every target in the adjacency lists is a vertex.
pub open spec fn well_formed(down: Seq<Seq<usize>>) -> bool {
    forall|u: int, k: int|
        0 <= u < down.len() && 0 <= k < down[u].len() ==> (#[trigger] down[u][k] as int) < down.len()
}

/// There is an edge from `u` to `v`.
pub open spec fn has_edge(down: Seq<Seq<usize>>, u: int, v: int) -> bool {
    0 <= u < down.len() && down[u].contains(v as usize)
}

/// `order` lists each vertex of `0..n` once.
pub open spec fn is_permutation(order: Seq<usize>, n: int) -> bool {
    &&& order.len() == n
    &&& order.no_duplicates()
    &&& forall|i: int| 0 <= i < order.len() ==> (#[trigger] order[i] as int) < n
}

/// `order` lists each vertex once, and every edge goes from an earlier
/// vertex to a later one.
pub open spec fn is_topo_order(down: Seq<Seq<usize>>, order: Seq<usize>) -> bool {
    &&& is_permutation(order, down.len() as int)
    &&& forall|i: int, j: int|
        0 <= i < order.len() && 0 <= j < order.len() && #[trigger] has_edge(
            down,
            order[j] as int,
            order[i] as int,
        ) ==> j < i
}

/// The number of edges of the graph.
pub open spec fn edge_count(down: Seq<Seq<usize>>) -> int
    decreases down.len(),
{
    if down.len() == 0 {
        0
    } else {
        edge_count(down.drop_last()) + down.last().len()
    }
}

/// The number of occurrences of `v` in `s`.
pub open spec fn occ(s: Seq<usize>, v: usize) -> nat
    decreases s.len(),
{
    if s.len() == 0 {
        0
    } else {
        (if s[0] == v {
            1nat
        } else {
            0nat
        }) + occ(s.drop_first(), v)
    }
}

/// The number of edges into `v` from the vertices below `k` that are not
/// in `done`.
pub open spec fn in_degree(down: Seq<Seq<usize>>, v: usize, done: Set<usize>, k: int) -> nat
    decreases k,
{
    if k <= 0 {
        0
    } else {
        in_degree(down, v, done, k - 1) + if done.contains((k - 1) as usize) {
            0nat
        } else {
            occ(down[k - 1], v)
        }
    }
}

proof fn lemma_occ_contains(s: Seq<usize>, v: usize)
    ensures
        occ(s, v) > 0 <==> s.contains(v),
    decreases s.len(),
{
    if s.len() > 0 {
        lemma_occ_contains(s.drop_first(), v);
        if s.drop_first().contains(v) {
            let k = choose|k: int| 0 <= k < s.drop_first().len() && #[trigger] s.drop_first()[k] == v;
            assert(s[k + 1] == v);
        }
        if s.contains(v) && s[0] != v {
            let k = choose|k: int| 0 <= k < s.len() && #[trigger] s[k] == v;
            assert(s.drop_first()[k - 1] == v);
        }
    }
}

proof fn lemma_occ_push(s: Seq<usize>, x: usize, v: usize)
    ensures
        occ(s.push(x), v) == occ(s, v) + if x == v {
            1nat
        } else {
            0nat
        },
    decreases s.len(),
{
    if s.len() == 0 {
        assert(s.push(x).drop_first() =~= Seq::<usize>::empty());
        assert(s.push(x)[0] == x);
        assert(occ(s.push(x).drop_first(), v) == 0);
    } else {
        lemma_occ_push(s.drop_first(), x, v);
        assert(s.push(x).drop_first() =~= s.drop_first().push(x));
        assert(s.push(x)[0] == s[0]);
    }
}

proof fn lemma_occ_suffix(s: Seq<usize>, k: int, v: usize)
    requires
        0 <= k < s.len(),
    ensures
        occ(s.subrange(k, s.len() as int), v) == occ(s.subrange(k + 1, s.len() as int), v) + if s[k] == v {
            1nat
        } else {
            0nat
        },
{
    assert(s.subrange(k, s.len() as int).drop_first() =~= s.subrange(k + 1, s.len() as int));
}

proof fn lemma_occ_bound(s: Seq<usize>, v: usize)
    ensures
        occ(s, v) <= s.len(),
    decreases s.len(),
{
    if s.len() > 0 {
        lemma_occ_bound(s.drop_first(), v);
    }
}

/// Removing one more vertex takes its edges out of the in-degrees.
proof fn lemma_in_degree_insert(down: Seq<Seq<usize>>, v: usize, done: Set<usize>, x: usize, k: int)
    requires
        !done.contains(x),
        0 <= k <= usize::MAX + 1,
    ensures
        (x as int) < k ==> in_degree(down, v, done.insert(x), k) + occ(down[x as int], v) == in_degree(down, v, done, k),
        (x as int) >= k ==> in_degree(down, v, done.insert(x), k) == in_degree(down, v, done, k),
    decreases k,
{
    if k > 0 {
        lemma_in_degree_insert(down, v, done, x, k - 1);
        let last = (k - 1) as usize;
        assert(last as int == k - 1);
        assert(done.insert(x).contains(last) == (done.contains(last) || last == x));
    }
}

/// The in-degree is zero exactly when no remaining vertex has an edge in.
proof fn lemma_in_degree_zero(down: Seq<Seq<usize>>, v: usize, done: Set<usize>, k: int)
    requires
        0 <= k <= down.len(),
        k <= usize::MAX + 1,
    ensures
        in_degree(down, v, done, k) == 0 <==> forall|u: int|
            0 <= u < k && !done.contains(u as usize) ==> !(#[trigger] down[u]).contains(v),
    decreases k,
{
    if k > 0 {
        lemma_in_degree_zero(down, v, done, k - 1);
        lemma_occ_contains(down[k - 1], v);
        let last = (k - 1) as usize;
        assert(last as int == k - 1);
    }
}

/// An empty done set leaves every edge counted.
proof fn lemma_in_degree_empty_push(down: Seq<Seq<usize>>, v: usize, k: int)
    requires
        0 <= k < down.len(),
    ensures
        in_degree(down, v, Set::empty(), k + 1) == in_degree(down, v, Set::empty(), k) + occ(down[k], v),
{
}

/// A list that holds `n` distinct vertices below `n` holds all of them.
pub(crate) proof fn lemma_permutation_complete(order: Seq<usize>, n: int)
    requires
        is_permutation(order, n),
        n <= usize::MAX + 1,
    ensures
        forall|v: usize| (v as int) < n ==> #[trigger] order.contains(v),
{
    let s = order.to_set().map(|x: usize| x as int);
    order.unique_seq_to_set();
    lemma_int_range(0, n);
    assert(s.subset_of(set_int_range(0, n))) by {
        assert forall|x: int| s.contains(x) implies set_int_range(0, n).contains(x) by {
            let y = choose|y: usize| #[trigger] order.to_set().contains(y) && y as int == x;
            let i = choose|i: int| 0 <= i < order.len() && #[trigger] order[i] == y;
        }
    }
    vstd::set_lib::lemma_map_size(order.to_set(), s, |x: usize| x as int);
    assert(s.finite()) by {
        vstd::set_lib::lemma_len_subset(s, set_int_range(0, n));
    }
    lemma_subset_equality(s, set_int_range(0, n));
    assert forall|v: usize| (v as int) < n implies #[trigger] order.contains(v) by {
        assert(set_int_range(0, n).contains(v as int));
        assert(s.contains(v as int));
        let y = choose|y: usize| #[trigger] order.to_set().contains(y) && y as int == v as int;
        assert(y == v);
    }
}

/// A topological order of the graph, by Kahn's algorithm; none when the
/// graph has a cycle, that is when it has no topological order.
pub fn topo_order(down: &Vec<Vec<usize>>) -> (r: Option<Vec<usize>>)
    requires
        well_formed(lists_view(down@)),
        edge_count(lists_view(down@)) < usize::MAX,
    ensures
        match r {
            Some(order) => is_topo_order(lists_view(down@), order@),
            None => forall|order: Seq<usize>| !#[trigger] is_topo_order(lists_view(down@), order),
        },
{
    let ghost dv = lists_view(down@);
    let n = down.len();

    // In-degrees from all edges.
    let mut indeg: Vec<usize> = Vec::new();
    let mut v: usize = 0;
    while v < n
        invariant
            v <= n,
            n == down@.len(),
            indeg@.len() == v,
            forall|w: int| 0 <= w < v ==> indeg@[w] == 0,
        decreases n - v,
    {
        indeg.push(0);
        v = v + 1;
    }
    let ghost mut seen: int = 0;
    let mut u: usize = 0;
    while u < n
        invariant
            u <= n,
            n == down@.len(),
            dv == lists_view(down@),
            well_formed(dv),
            edge_count(dv) < usize::MAX,
            indeg@.len() == n,
            seen == edge_count(dv.subrange(0, u as int)),
            forall|w: int| 0 <= w < n ==> indeg@[w] == in_degree(dv, w as usize, Set::empty(), u as int),
            forall|w: int| 0 <= w < n ==> indeg@[w] <= seen,
        decreases n - u,
    {
        let list = &down[u];
        let mut k: usize = 0;
        proof {
            lemma_edge_count_prefix(dv, u as int);
        }
        while k < list.len()
            invariant
                u < n,
                k <= list@.len(),
                n == down@.len(),
                list@ == dv[u as int],
                dv == lists_view(down@),
                well_formed(dv),
                edge_count(dv) < usize::MAX,
                seen + list@.len() <= edge_count(dv),
                indeg@.len() == n,
                forall|w: int| 0 <= w < n ==> indeg@[w] == in_degree(dv, w as usize, Set::empty(), u as int) + occ(list@.subrange(0, k as int), w as usize),
                forall|w: int| 0 <= w < n ==> indeg@[w] <= seen + k,
            decreases list@.len() - k,
        {
            let w = list[k];
            assert(dv[u as int][k as int] == w);
            proof {
                assert(list@.subrange(0, k + 1) =~= list@.subrange(0, k as int).push(w));
                assert forall|x: int| 0 <= x < n implies #[trigger] occ(list@.subrange(0, k + 1), x as usize) == occ(list@.subrange(0, k as int), x as usize) + if w == x as usize { 1nat } else { 0nat } by {
                    lemma_occ_push(list@.subrange(0, k as int), w, x as usize);
                }
            }
            let d = indeg[w];
            indeg.set(w, d + 1);
            k = k + 1;
        }
        proof {
            assert(list@.subrange(0, list@.len() as int) =~= list@);
            assert forall|w: int| 0 <= w < n implies #[trigger] indeg@[w] == in_degree(dv, w as usize, Set::empty(), u + 1) by {
                lemma_in_degree_empty_push(dv, w as usize, u as int);
            }
            assert(dv.subrange(0, u + 1).drop_last() =~= dv.subrange(0, u as int));
            seen = seen + list@.len();
        }
        u = u + 1;
    }

    // The queue: order[..head] is processed, order[head..] waits.
    let mut order: Vec<usize> = Vec::new();
    let mut w: usize = 0;
    while w < n
        invariant
            w <= n,
            n == down@.len(),
            indeg@.len() == n,
            order@.len() <= w,
            dv == lists_view(down@),
            forall|x: int| 0 <= x < n ==> indeg@[x] == in_degree(dv, x as usize, Set::empty(), n as int),
            order@.no_duplicates(),
            forall|i: int| 0 <= i < order@.len() ==> (#[trigger] order@[i] as int) < w,
            forall|x: usize| (x as int) < w ==> (order@.contains(x) <==> #[trigger] indeg@[x as int] == 0),
        decreases n - w,
    {
        let ghost before = order@;
        if indeg[w] == 0 {
            order.push(w);
            proof {
                assert forall|a: int, b: int| 0 <= a < order@.len() && 0 <= b < order@.len() && a != b implies order@[a] != order@[b] by {
                    if a < before.len() && b < before.len() {
                        assert(before[a] == order@[a] && before[b] == order@[b]);
                    } else if a < before.len() {
                        assert(before[a] == order@[a]);
                        assert((before[a] as int) < w);
                    } else if b < before.len() {
                        assert(before[b] == order@[b]);
                        assert((before[b] as int) < w);
                    }
                }
            }
        }
        proof {
            assert forall|x: usize| (x as int) < w + 1 implies (order@.contains(x) <==> #[trigger] indeg@[x as int] == 0) by {
                if x == w {
                    if indeg@[x as int] == 0 {
                        assert(order@[order@.len() - 1] == x);
                    } else {
                        if order@.contains(x) {
                            let q = choose|q: int| 0 <= q < order@.len() && #[trigger] order@[q] == x;
                            assert(q < before.len());
                            assert((before[q] as int) < w);
                        }
                    }
                } else {
                    if order@.contains(x) {
                        let q = choose|q: int| 0 <= q < order@.len() && #[trigger] order@[q] == x;
                        if q < before.len() {
                            assert(before[q] == x);
                        }
                    }
                    if before.contains(x) {
                        let q = choose|q: int| 0 <= q < before.len() && #[trigger] before[q] == x;
                        assert(order@[q] == x);
                    }
                }
            }
        }
        w = w + 1;
    }
    assert(dv.subrange(0, n as int) =~= dv);

    let ghost mut done: Set<usize> = Set::empty();
    let mut head: usize = 0;
    assert forall|i: int, j: int|
        0 <= i < order@.len() && 0 <= j < order@.len() && has_edge(dv, order@[j] as int, order@[i] as int) implies j < i by {
        let v = order@[i];
        assert(order@.contains(v));
        assert(indeg@[v as int] == 0);
        assert(in_degree(dv, v, Set::empty(), n as int) == 0);
        lemma_in_degree_zero(dv, v, Set::empty(), n as int);
        let u = order@[j] as int;
        assert(dv[u].contains(v));
        assert(!Set::<usize>::empty().contains(u as usize));
    }
    while head < order.len()
        invariant
            head <= order@.len() <= n,
            n == down@.len(),
            dv == lists_view(down@),
            well_formed(dv),
            indeg@.len() == n,
            order@.no_duplicates(),
            forall|i: int| 0 <= i < order@.len() ==> (#[trigger] order@[i] as int) < n,
            done == order@.subrange(0, head as int).to_set(),
            forall|x: int| 0 <= x < n ==> indeg@[x] == in_degree(dv, x as usize, done, n as int),
            forall|x: usize| (x as int) < n ==> (order@.contains(x) <==> #[trigger] indeg@[x as int] == 0),
            forall|i: int, j: int|
                0 <= i < order@.len() && 0 <= j < order@.len() && #[trigger] has_edge(
                    dv,
                    order@[j] as int,
                    order@[i] as int,
                ) ==> j < i,
        decreases n - head,
    {
        let x = order[head];
        let ghost done2 = done.insert(x);
        proof {
            assert(!done.contains(x)) by {
                if done.contains(x) {
                    let q = choose|q: int| 0 <= q < head && #[trigger] order@.subrange(0, head as int)[q] == x;
                    assert(order@[q] == order@[head as int]);
                }
            }
            assert forall|y: int| 0 <= y < n implies #[trigger] in_degree(dv, y as usize, done2, n as int) + occ(dv[x as int], y as usize) == in_degree(dv, y as usize, done, n as int) by {
                lemma_in_degree_insert(dv, y as usize, done, x, n as int);
            }
        }
        let list = &down[x];
        let mut k: usize = 0;
        assert(list@.subrange(0, list@.len() as int) =~= list@);
        while k < list.len()
            invariant
                head < order@.len() <= n,
                x == order@[head as int],
                (x as int) < n,
                n == down@.len(),
                dv == lists_view(down@),
                well_formed(dv),
                list@ == dv[x as int],
                k <= list@.len(),
                indeg@.len() == n,
                order@.no_duplicates(),
                forall|i: int| 0 <= i < order@.len() ==> (#[trigger] order@[i] as int) < n,
                done == order@.subrange(0, head as int).to_set(),
                done2 == done.insert(x),
                forall|y: int| 0 <= y < n ==> indeg@[y] == in_degree(dv, y as usize, done2, n as int) + occ(list@.subrange(k as int, list@.len() as int), y as usize),
                forall|y: usize| (y as int) < n ==> (order@.contains(y) <==> #[trigger] indeg@[y as int] == 0),
                forall|i: int, j: int|
                    0 <= i < order@.len() && 0 <= j < order@.len() && #[trigger] has_edge(
                        dv,
                        order@[j] as int,
                        order@[i] as int,
                    ) ==> j < i,
            decreases list@.len() - k,
        {
            let y = list[k];
            assert(dv[x as int][k as int] == y);
            proof {
                assert forall|z: int| 0 <= z < n implies #[trigger] occ(list@.subrange(k as int, list@.len() as int), z as usize) == occ(list@.subrange(k + 1, list@.len() as int), z as usize) + if y == z as usize { 1nat } else { 0nat } by {
                    lemma_occ_suffix(list@, k as int, z as usize);
                }
            }
            let d = indeg[y];
            indeg.set(y, d - 1);
            if d - 1 == 0 {
                let ghost old_order = order@;
                proof {
                    assert(!old_order.contains(y));
                }
                order.push(y);
                proof {
                    lemma_push_fresh(old_order, y, n as int);
                    lemma_distinct_bound(order@, n as int);
                    assert(order@.subrange(0, head as int) =~= old_order.subrange(0, head as int));
                    assert forall|z: usize| (z as int) < n implies (order@.contains(z) <==> #[trigger] indeg@[z as int] == 0) by {
                        if z != y {
                            assert(order@.contains(z) == old_order.contains(z)) by {
                                if order@.contains(z) {
                                    let q = choose|q: int| 0 <= q < order@.len() && #[trigger] order@[q] == z;
                                    assert(old_order[q] == z);
                                }
                                if old_order.contains(z) {
                                    let q = choose|q: int| 0 <= q < old_order.len() && #[trigger] old_order[q] == z;
                                    assert(order@[q] == z);
                                }
                            }
                        } else {
                            assert(order@[old_order.len() as int] == y);
                        }
                    }
                    // Every edge into y comes from a processed vertex.
                    assert(in_degree(dv, y, done2, n as int) == 0);
                    lemma_in_degree_zero(dv, y, done2, n as int);
                    assert forall|i: int, j: int|
                        0 <= i < order@.len() && 0 <= j < order@.len() && #[trigger] has_edge(
                            dv,
                            order@[j] as int,
                            order@[i] as int,
                        ) implies j < i by {
                        let p = old_order.len() as int;
                        if i == p && j != p {
                            let src = order@[j];
                            assert(dv[src as int].contains(y));
                            assert(done2.contains(src)) by {
                                if !done2.contains(src) {
                                    assert(!dv[src as int].contains(y));
                                }
                            }
                            if done.contains(src) {
                                let q = choose|q: int| 0 <= q < head && #[trigger] order@.subrange(0, head as int)[q] == src;
                                assert(order@[q] == src);
                            } else {
                                assert(src == x);
                                assert(order@[head as int] == src);
                            }
                        } else if j == p && i != p {
                            let tgt = order@[i];
                            assert(old_order[i] == tgt);
                            assert(indeg@[tgt as int] == 0);
                            assert(in_degree(dv, tgt, done2, n as int) == 0);
                            lemma_in_degree_zero(dv, tgt, done2, n as int);
                            assert(!done.contains(y)) by {
                                if done.contains(y) {
                                    let q = choose|q: int| 0 <= q < head && #[trigger] order@.subrange(0, head as int)[q] == y;
                                    assert(old_order[q] == y);
                                }
                            }
                            assert(y != x) by {
                                assert(old_order[head as int] == x);
                            }
                            assert(dv[y as int].contains(tgt));
                            assert(false);
                        } else if i != p && j != p {
                            assert(old_order[i] == order@[i] && old_order[j] == order@[j]);
                        }
                    }
                }
            }
            k = k + 1;
        }
        proof {
            assert(list@.subrange(list@.len() as int, list@.len() as int) =~= Seq::<usize>::empty());
            assert(order@.subrange(0, head + 1) =~= order@.subrange(0, head as int).push(x));
            assert(order@.subrange(0, head + 1).to_set() =~= done2) by {
                assert forall|z: usize| order@.subrange(0, head + 1).to_set().contains(z) == done2.contains(z) by {
                    if order@.subrange(0, head + 1).to_set().contains(z) {
                        let q = choose|q: int| 0 <= q < head + 1 && #[trigger] order@.subrange(0, head + 1)[q] == z;
                        if q < head {
                            assert(order@.subrange(0, head as int)[q] == z);
                        }
                    }
                    if done.contains(z) {
                        let q = choose|q: int| 0 <= q < head && #[trigger] order@.subrange(0, head as int)[q] == z;
                        assert(order@.subrange(0, head + 1)[q] == z);
                    }
                    if z == x {
                        assert(order@.subrange(0, head + 1)[head as int] == z);
                    }
                }
            }
            done = done2;
        }
        head = head + 1;
    }

    if order.len() == n {
        Some(order)
    } else {
        proof {
            assert(order@.subrange(0, head as int) =~= order@);
            assert forall|x: usize| (x as int) < n implies (order@.contains(x) <==> #[trigger] in_degree(dv, x, done, n as int) == 0) by {
                assert(indeg@[x as int] == in_degree(dv, x as int as usize, done, n as int));
            }
            lemma_no_topo_order(dv, order@, done);
        }
        None
    }
}

/// The edge count of a prefix of the lists bounds what one more list adds.
proof fn lemma_edge_count_prefix(dv: Seq<Seq<usize>>, u: int)
    requires
        0 <= u < dv.len(),
    ensures
        edge_count(dv.subrange(0, u)) + dv[u].len() <= edge_count(dv),
    decreases dv.len() - u,
{
    if u + 1 < dv.len() {
        lemma_edge_count_prefix(dv, u + 1);
        assert(dv.subrange(0, u + 2).drop_last() =~= dv.subrange(0, u + 1));
        lemma_edge_count_mono(dv, u + 1);
    }
    assert(dv.subrange(0, u + 1).drop_last() =~= dv.subrange(0, u));
    if u + 1 == dv.len() {
        assert(dv.subrange(0, u + 1) =~= dv);
    }
}

proof fn lemma_edge_count_mono(dv: Seq<Seq<usize>>, u: int)
    requires
        0 <= u <= dv.len(),
    ensures
        edge_count(dv.subrange(0, u)) <= edge_count(dv),
    decreases dv.len() - u,
{
    if u < dv.len() {
        lemma_edge_count_mono(dv, u + 1);
        assert(dv.subrange(0, u + 1).drop_last() =~= dv.subrange(0, u));
    } else {
        assert(dv.subrange(0, u) =~= dv);
    }
}

/// Appending a vertex that is not yet listed keeps a list of distinct
/// vertices below `n`.
proof fn lemma_push_fresh(old: Seq<usize>, y: usize, n: int)
    requires
        old.no_duplicates(),
        !old.contains(y),
    ensures
        old.push(y).no_duplicates(),
{
    let s = old.push(y);
    assert forall|a: int, b: int| 0 <= a < s.len() && 0 <= b < s.len() && a != b implies s[a] != s[b] by {
        if a < old.len() && b < old.len() {
            assert(old[a] == s[a] && old[b] == s[b]);
        } else if a < old.len() {
            assert(old[a] == s[a]);
            assert(old.contains(old[a]));
        } else if b < old.len() {
            assert(old[b] == s[b]);
            assert(old.contains(old[b]));
        }
    }
}

/// A list of distinct vertices below `n` has at most `n` entries.
pub(crate) proof fn lemma_distinct_bound(order: Seq<usize>, n: int)
    requires
        order.no_duplicates(),
        forall|i: int| 0 <= i < order.len() ==> (#[trigger] order[i] as int) < n,
        0 <= n <= usize::MAX + 1,
    ensures
        order.len() <= n,
{
    let s = order.to_set();
    order.unique_seq_to_set();
    lemma_int_range(0, n);
    let m = s.map(|x: usize| x as int);
    assert(m.subset_of(set_int_range(0, n))) by {
        assert forall|v: int| m.contains(v) implies set_int_range(0, n).contains(v) by {
            let y = choose|y: usize| #[trigger] s.contains(y) && y as int == v;
            let i = choose|i: int| 0 <= i < order.len() && #[trigger] order[i] == y;
        }
    }
    assert(vstd::relations::injective_on(|x: usize| x as int, s));
    vstd::set_lib::lemma_map_size(s, m, |x: usize| x as int);
    vstd::set_lib::lemma_len_subset(m, set_int_range(0, n));
}

/// A list of fewer than `n` vertices misses one.
proof fn lemma_left_over(order: Seq<usize>, n: int) -> (v: usize)
    requires
        order.len() < n,
        order.no_duplicates(),
        0 <= n <= usize::MAX + 1,
    ensures
        (v as int) < n,
        !order.contains(v),
{
    if forall|v: usize| (v as int) < n ==> #[trigger] order.contains(v) {
        let s = order.to_set();
        order.unique_seq_to_set();
        lemma_int_range(0, n);
        let t = set_int_range(0, n);
        let m = s.map(|x: usize| x as int);
        assert(t.subset_of(m)) by {
            assert forall|v: int| t.contains(v) implies m.contains(v) by {
                let w = v as usize;
                assert(w as int == v);
                assert(order.contains(w));
                assert(s.contains(w));
            }
        }
        assert(vstd::relations::injective_on(|x: usize| x as int, s));
        vstd::set_lib::lemma_map_size(s, m, |x: usize| x as int);
        vstd::set_lib::lemma_len_subset(t, m);
    }
    choose|v: usize| (v as int) < n && !#[trigger] order.contains(v)
}

/// When Kahn's algorithm stops early, the vertices left over each have an
/// edge in from another one left over, so no order can put a first one
/// of them first.
proof fn lemma_no_topo_order(dv: Seq<Seq<usize>>, order: Seq<usize>, done: Set<usize>)
    requires
        well_formed(dv),
        dv.len() <= usize::MAX,
        order.len() < dv.len(),
        order.no_duplicates(),
        done == order.to_set(),
        forall|x: usize| (x as int) < dv.len() ==> (order.contains(x) <==> #[trigger] in_degree(dv, x, done, dv.len() as int) == 0),
    ensures
        forall|other: Seq<usize>| !#[trigger] is_topo_order(dv, other),
{
    let n = dv.len() as int;
    let left = lemma_left_over(order, n);
    assert forall|other: Seq<usize>| !#[trigger] is_topo_order(dv, other) by {
        if is_topo_order(dv, other) {
            lemma_permutation_complete(other, n);
            assert(other.contains(left));
            lemma_first_left_over(other, order, left);
            let pos = choose|p: int| 0 <= p < other.len() && !order.contains(#[trigger] other[p]) && forall|q: int| 0 <= q < p ==> order.contains(#[trigger] other[q]);
            let v = other[pos];
            assert((v as int) < n);
            assert(in_degree(dv, v, done, n) != 0);
            lemma_in_degree_zero(dv, v, done, n);
            let u = choose|u: int| 0 <= u < n && !done.contains(u as usize) && (#[trigger] dv[u]).contains(v);
            let uu = u as usize;
            assert(uu as int == u);
            assert(!order.contains(uu)) by {
                if order.contains(uu) {
                    assert(done.contains(uu));
                }
            }
            assert(other.contains(uu));
            let pu = choose|p: int| 0 <= p < other.len() && #[trigger] other[p] == uu;
            assert(has_edge(dv, other[pu] as int, other[pos] as int));
            assert(pu < pos);
            assert(order.contains(other[pu]));
        }
    }
}

proof fn lemma_first_left_over(other: Seq<usize>, order: Seq<usize>, left: usize)
    requires
        other.contains(left),
        !order.contains(left),
    ensures
        exists|p: int| 0 <= p < other.len() && !order.contains(#[trigger] other[p]) && forall|q: int| 0 <= q < p ==> order.contains(#[trigger] other[q]),
    decreases other.len(),
{
    if order.contains(other[0]) {
        let rest = other.drop_first();
        assert(rest.contains(left)) by {
            let k = choose|k: int| 0 <= k < other.len() && #[trigger] other[k] == left;
            assert(k > 0);
            assert(rest[k - 1] == left);
        }
        lemma_first_left_over(rest, order, left);
        let p = choose|p: int| 0 <= p < rest.len() && !order.contains(#[trigger] rest[p]) && forall|q: int| 0 <= q < p ==> order.contains(#[trigger] rest[q]);
        assert(!order.contains(other[p + 1]));
        assert forall|q: int| 0 <= q < p + 1 implies order.contains(#[trigger] other[q]) by {
            if q > 0 {
                assert(other[q] == rest[q - 1]);
            }
        }
    } else {
        assert(!order.contains(other[0]));
    }
}

} // verus!
