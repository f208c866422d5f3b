//! Picking the heaviest resources of a page: sorted by size, largest first,
//! resources of equal size keeping their order, and cut to a given count.
use vstd::prelude::*;

verus! {

/// In the order by size, largest first and equal sizes in their given
/// order, resource `i` comes before resource `j`.
pub open spec fn comes_before(sizes: Seq<usize>, i: int, j: int) -> bool {
    sizes[i] > sizes[j] || (sizes[i] == sizes[j] && i < j)
}

pub open spec fn min_len(count: int, len: int) -> int {
    if count < len {
        count
    } else {
        len
    }
}

/// `picked` holds the positions of the first `count` resources in that
/// order (all of them if there are fewer), in that order.
pub open spec fn is_heaviest_selection(sizes: Seq<usize>, picked: Seq<usize>, count: int) -> bool {
    &&& picked.len() == min_len(count, sizes.len() as int)
    &&& forall|a: int| 0 <= a < picked.len() ==> #[trigger] picked[a] < sizes.len()
    &&& forall|a: int, b: int|
        0 <= a < b < picked.len() ==> comes_before(sizes, #[trigger] picked[a] as int, #[trigger] picked[b] as int)
    &&& forall|a: int, j: int|
        0 <= a < picked.len() && 0 <= j < sizes.len() && !picked.contains(j as usize)
            ==> #[trigger] comes_before(sizes, picked[a] as int, j)
}

/// The positions of the `count` heaviest resources, heaviest first.
pub open spec fn heaviest_positions(sizes: Seq<usize>, count: int) -> Seq<usize> {
    choose|picked: Seq<usize>| is_heaviest_selection(sizes, picked, count)
}

/// The order is strict: no resource comes before itself, and of two
/// resources at most one comes before the other.
pub proof fn lemma_comes_before_strict(sizes: Seq<usize>, i: int, j: int)
    ensures
        !comes_before(sizes, i, i),
        comes_before(sizes, i, j) ==> !comes_before(sizes, j, i),
        i != j ==> comes_before(sizes, i, j) || comes_before(sizes, j, i),
{
}

/// The heaviest resources are determined: two selections of the same count
/// from the same sizes are equal.
pub proof fn lemma_heaviest_selection_unique(
    sizes: Seq<usize>,
    p1: Seq<usize>,
    p2: Seq<usize>,
    count: int,
)
    requires
        is_heaviest_selection(sizes, p1, count),
        is_heaviest_selection(sizes, p2, count),
    ensures
        p1 == p2,
{
    assert forall|a: int| 0 <= a < p1.len() implies p1[a] == p2[a] by {
        lemma_selection_agrees_at(sizes, p1, p2, count, a);
    }
    assert(p1 =~= p2);
}

proof fn lemma_selection_agrees_at(
    sizes: Seq<usize>,
    p1: Seq<usize>,
    p2: Seq<usize>,
    count: int,
    a: int,
)
    requires
        is_heaviest_selection(sizes, p1, count),
        is_heaviest_selection(sizes, p2, count),
        0 <= a < p1.len(),
    ensures
        p1[a] == p2[a],
    decreases a,
{
    if a > 0 {
        assert forall|c: int| 0 <= c < a implies p1[c] == p2[c] by {
            lemma_selection_agrees_at(sizes, p1, p2, count, c);
        }
    }
    let x = p1[a];
    let y = p2[a];
    if x != y {
        // x comes before y in p1's view, and y before x in p2's view.
        if p1.contains(y) {
            let b = choose|b: int| 0 <= b < p1.len() && p1[b] == y;
            if b < a {
                assert(p2[b] == y);
                assert(comes_before(sizes, p2[b] as int, p2[a] as int));
                assert(false);
            }
            assert(b != a);
            assert(comes_before(sizes, p1[a] as int, p1[b] as int));
        } else {
            assert(comes_before(sizes, p1[a] as int, y as int));
        }
        if p2.contains(x) {
            let b = choose|b: int| 0 <= b < p2.len() && p2[b] == x;
            if b < a {
                assert(p1[b] == x);
                assert(comes_before(sizes, p1[b] as int, p1[a] as int));
                assert(false);
            }
            assert(b != a);
            assert(comes_before(sizes, p2[a] as int, p2[b] as int));
        } else {
            assert(comes_before(sizes, p2[a] as int, x as int));
        }
        lemma_comes_before_strict(sizes, x as int, y as int);
    }
}

/// Position `m` is below `bound`, left out of `picked`, and comes before
/// every other such position.
pub open spec fn is_first_free(sizes: Seq<usize>, picked: Seq<usize>, bound: int, m: int) -> bool {
    &&& 0 <= m < bound
    &&& !picked.contains(m as usize)
    &&& forall|j: int|
        0 <= j < bound && !picked.contains(j as usize) && j != m ==> #[trigger] comes_before(
            sizes,
            m,
            j,
        )
}

/// Among the positions below `bound` that `picked` leaves out, if there is
/// one, one comes before all the others.
proof fn lemma_first_free(sizes: Seq<usize>, picked: Seq<usize>, bound: int) -> (m: int)
    requires
        0 <= bound <= sizes.len(),
        sizes.len() <= usize::MAX,
        exists|j: int| 0 <= j < bound && !#[trigger] picked.contains(j as usize),
    ensures
        is_first_free(sizes, picked, bound, m),
    decreases bound,
{
    let t = bound - 1;
    if picked.contains(t as usize) {
        let w = choose|j: int| 0 <= j < bound && !#[trigger] picked.contains(j as usize);
        assert(w != t);
        assert(0 <= w < t && !picked.contains(w as usize));
        let m = lemma_first_free(sizes, picked, t);
        assert forall|j: int|
            0 <= j < bound && !picked.contains(j as usize) && j != m implies #[trigger] comes_before(
                sizes,
                m,
                j,
            ) by {
            assert(j != t);
        }
        m
    } else if forall|j: int| 0 <= j < t ==> #[trigger] picked.contains(j as usize) {
        assert forall|j: int|
            0 <= j < bound && !picked.contains(j as usize) && j != t implies #[trigger] comes_before(
                sizes,
                t,
                j,
            ) by {
            if j < t {
                assert(picked.contains(j as usize));
            }
        }
        t
    } else {
        let w = choose|j: int| !(0 <= j < t ==> #[trigger] picked.contains(j as usize));
        assert(0 <= w < t && !picked.contains(w as usize));
        let m = lemma_first_free(sizes, picked, t);
        if comes_before(sizes, m, t) {
            assert forall|j: int|
                0 <= j < bound && !picked.contains(j as usize) && j != m implies #[trigger] comes_before(
                    sizes,
                    m,
                    j,
                ) by {
                if j < t {
                    assert(comes_before(sizes, m, j));
                }
            }
            m
        } else {
            assert(comes_before(sizes, t, m));
            assert forall|j: int|
                0 <= j < bound && !picked.contains(j as usize) && j != t implies #[trigger] comes_before(
                    sizes,
                    t,
                    j,
                ) by {
                if j != m {
                    assert(comes_before(sizes, m, j));
                }
            }
            t
        }
    }
}

/// For every count up to the number of resources, a selection exists.
proof fn lemma_selection_exists_upto(sizes: Seq<usize>, k: int) -> (p: Seq<usize>)
    requires
        0 <= k <= sizes.len(),
        sizes.len() <= usize::MAX,
    ensures
        is_heaviest_selection(sizes, p, k),
    decreases k,
{
    let n = sizes.len() as int;
    if k == 0 {
        Seq::<usize>::empty()
    } else {
        let p = lemma_selection_exists_upto(sizes, k - 1);
        lemma_free_position_exists(p, n);
        let m = lemma_first_free(sizes, p, n);
        let q = p.push(m as usize);
        assert(q[p.len() as int] == m as usize);
        assert forall|a: int| 0 <= a < q.len() implies #[trigger] q[a] < sizes.len() by {
            if a < p.len() {
                assert(q[a] == p[a]);
            }
        }
        assert forall|a: int, b: int|
            0 <= a < b < q.len() implies comes_before(sizes, #[trigger] q[a] as int, #[trigger] q[b] as int) by {
            assert(q[a] == p[a]);
            if b < p.len() {
                assert(q[b] == p[b]);
                assert(comes_before(sizes, p[a] as int, p[b] as int));
            } else {
                assert(comes_before(sizes, p[a] as int, m));
            }
        }
        assert forall|a: int, j: int|
            0 <= a < q.len() && 0 <= j < sizes.len() && !q.contains(j as usize)
                implies #[trigger] comes_before(sizes, q[a] as int, j) by {
            if p.contains(j as usize) {
                let c = choose|c: int| 0 <= c < p.len() && p[c] == j as usize;
                assert(q[c] == j as usize);
            }
            assert(j != m);
            assert(comes_before(sizes, m, j));
            if a < p.len() {
                assert(q[a] == p[a]);
                assert(comes_before(sizes, p[a] as int, j));
            }
        }
        q
    }
}

/// The heaviest positions exist for every count: `heaviest_positions` is a
/// selection of the heaviest resources.
pub proof fn lemma_heaviest_positions_select(sizes: Seq<usize>, count: int)
    requires
        count >= 0,
        sizes.len() <= usize::MAX,
    ensures
        is_heaviest_selection(sizes, heaviest_positions(sizes, count), count),
{
    let k = min_len(count, sizes.len() as int);
    let p = lemma_selection_exists_upto(sizes, k);
    assert(is_heaviest_selection(sizes, p, count));
}

/// The sizes of a list of (URL, size) resources.
pub open spec fn sizes_of(resources: Seq<(String, usize)>) -> Seq<usize> {
    resources.map_values(|r: (String, usize)| r.1)
}

/// Positions of the `count` heaviest resources, heaviest first; resources
/// of equal size keep their order.
pub fn select_heaviest(resources: &Vec<(String, usize)>, count: usize) -> (picked: Vec<usize>)
    ensures
        is_heaviest_selection(sizes_of(resources@), picked@, count as int),
        picked@ == heaviest_positions(sizes_of(resources@), count as int),
{
    let ghost sizes = sizes_of(resources@);
    let n = resources.len();
    let mut taken: Vec<bool> = Vec::new();
    let mut t: usize = 0;
    while t < n
        invariant
            t <= n,
            taken@.len() == t,
            forall|j: int| 0 <= j < t ==> !taken@[j],
        decreases n - t,
    {
        taken.push(false);
        t = t + 1;
    }
    let mut picked: Vec<usize> = Vec::new();
    while picked.len() < count && picked.len() < n
        invariant
            n == resources@.len(),
            sizes == sizes_of(resources@),
            taken@.len() == n,
            picked.len() <= count,
            picked.len() <= n,
            forall|a: int| 0 <= a < picked@.len() ==> #[trigger] picked@[a] < n,
            forall|j: int| 0 <= j < n ==> (taken@[j] <==> picked@.contains(j as usize)),
            forall|a: int, b: int|
                0 <= a < b < picked@.len() ==> comes_before(sizes, #[trigger] picked@[a] as int, #[trigger] picked@[b] as int),
            forall|a: int, j: int|
                0 <= a < picked@.len() && 0 <= j < n && !picked@.contains(j as usize)
                    ==> #[trigger] comes_before(sizes, picked@[a] as int, j),
        decreases n - picked.len(),
    {
        // Some resource is still free: there are fewer picked than resources.
        proof {
            lemma_free_position_exists(picked@, n as int);
            let free = choose|j: int| 0 <= j < n && !#[trigger] picked@.contains(j as usize);
            assert(!taken@[free]);
        }
        let mut first: usize = 0;
        while first < n && taken[first]
            invariant
                taken@.len() == n,
                first <= n,
                forall|j: int| 0 <= j < first ==> taken@[j],
                exists|j: int| 0 <= j < n && !taken@[j],
            decreases n - first,
        {
            first = first + 1;
        }
        let mut best: usize = first;
        let mut j: usize = first + 1;
        while j < n
            invariant
                n == resources@.len(),
                sizes == sizes_of(resources@),
                taken@.len() == n,
                best < n,
                !taken@[best as int],
                best < j <= n,
                forall|i: int| 0 <= i < j && !taken@[i] && i != best ==> comes_before(sizes, best as int, i),
            decreases n - j,
        {
            if !taken[j] && resources[j].1 > resources[best].1 {
                best = j;
            }
            j = j + 1;
        }
        let ghost old_picked = picked@;
        picked.push(best);
        taken.set(best, true);
        proof {
            assert(picked@ == old_picked.push(best));
            assert forall|i: int| 0 <= i < n implies (taken@[i] <==> picked@.contains(i as usize)) by {
                if i == best {
                    assert(picked@[old_picked.len() as int] == best);
                } else if old_picked.contains(i as usize) {
                    let k = choose|k: int| 0 <= k < old_picked.len() && old_picked[k] == i as usize;
                    assert(picked@[k] == i as usize);
                } else if picked@.contains(i as usize) {
                    let k = choose|k: int| 0 <= k < picked@.len() && picked@[k] == i as usize;
                    assert(old_picked[k] == i as usize);
                }
            }
            assert forall|a: int, b: int|
                0 <= a < b < picked@.len() implies comes_before(sizes, #[trigger] picked@[a] as int, #[trigger] picked@[b] as int) by {
                if b == old_picked.len() {
                    assert(!old_picked.contains(best));
                    assert(comes_before(sizes, old_picked[a] as int, best as int));
                } else {
                    assert(comes_before(sizes, old_picked[a] as int, old_picked[b] as int));
                }
            }
            assert forall|a: int, i: int|
                0 <= a < picked@.len() && 0 <= i < n && !picked@.contains(i as usize)
                    implies #[trigger] comes_before(sizes, picked@[a] as int, i) by {
                assert(picked@[old_picked.len() as int] == best);
                assert(i != best);
                if old_picked.contains(i as usize) {
                    let k = choose|k: int| 0 <= k < old_picked.len() && old_picked[k] == i as usize;
                    assert(picked@[k] == i as usize);
                }
                assert(!taken@[i]);
                if a < old_picked.len() {
                    assert(picked@[a] == old_picked[a]);
                    assert(comes_before(sizes, old_picked[a] as int, i));
                }
            }
        }
    }
    proof {
        assert(is_heaviest_selection(sizes, picked@, count as int));
        lemma_heaviest_selection_unique(sizes, picked@, heaviest_positions(sizes, count as int), count as int);
    }
    picked
}

/// A list shorter than `n` leaves out some position below `n`.
proof fn lemma_free_position_exists(picked: Seq<usize>, n: int)
    requires
        picked.len() < n,
        n <= usize::MAX + 1,
    ensures
        exists|j: int| 0 <= j < n && !#[trigger] picked.contains(j as usize),
    decreases n,
{
    let last = (n - 1) as usize;
    if !picked.contains(last) {
        assert(!picked.contains((n - 1) as usize));
    } else {
        let k = choose|k: int| 0 <= k < picked.len() && picked[k] == last;
        let rest = picked.remove(k);
        lemma_free_position_exists(rest, n - 1);
        let j = choose|j: int| 0 <= j < n - 1 && !#[trigger] rest.contains(j as usize);
        if picked.contains(j as usize) {
            let m = choose|m: int| 0 <= m < picked.len() && picked[m] == j as usize;
            assert(m != k);
            if m < k {
                assert(rest[m] == j as usize);
            } else {
                assert(rest[m - 1] == j as usize);
            }
        }
        assert(!picked.contains(j as usize));
    }
}

} // verus!
