use vstd::prelude::*;

verus! {

/// Index at which the label of `p` that spans its last `k` components starts:
/// just after the `k`-th separator counted from the end, or 0 when `p` has
/// fewer separators than that.
pub open spec fn label_start(p: Seq<char>, k: nat) -> int
    decreases p.len(),
{
    if p.len() == 0 {
        0
    } else if p.last() == '/' && k <= 1 {
        p.len() as int
    } else if p.last() == '/' {
        label_start(p.drop_last(), (k - 1) as nat)
    } else {
        label_start(p.drop_last(), k)
    }
}

/// The label of `p` made of its last `k` components (the whole of `p` when it
/// has no more than `k` components).
pub open spec fn label_at(p: Seq<char>, k: nat) -> Seq<char> {
    p.subrange(label_start(p, k), p.len() as int)
}

/// The last component of `p`: what follows its last separator.
pub open spec fn basename(p: Seq<char>) -> Seq<char> {
    label_at(p, 1)
}

/// Number of separators in `p`.
pub open spec fn separator_count(p: Seq<char>) -> nat
    decreases p.len(),
{
    if p.len() == 0 {
        0
    } else if p.last() == '/' {
        separator_count(p.drop_last()) + 1
    } else {
        separator_count(p.drop_last())
    }
}

/// No other path of `s` has the same `k`-component label as `p`.
pub open spec fn unique_at(s: Set<Seq<char>>, p: Seq<char>, k: nat) -> bool {
    forall|q: Seq<char>| #[trigger] s.contains(q) && q != p ==> label_at(q, k) != label_at(p, k)
}

/// `l` is the short label of `p` within `s`: the label over the fewest trailing
/// components of `p` that no other path of `s` shares.
pub open spec fn is_short_label(s: Set<Seq<char>>, p: Seq<char>, l: Seq<char>) -> bool {
    exists|k: nat|
        #![trigger label_at(p, k)]
        k >= 1 && unique_at(s, p, k) && (forall|j: nat| 1 <= j < k ==> !unique_at(s, p, j))
            && l == label_at(p, k)
}

/// The views of the strings of `v`.
pub open spec fn views(v: Seq<String>) -> Seq<Seq<char>> {
    v.map_values(|x: String| x@)
}

/// The set of the views of `v`.
pub open spec fn path_set(v: Seq<String>) -> Set<Seq<char>> {
    views(v).to_set()
}

/// `r` pairs each path of `s` exactly once with its short label within `s`.
pub open spec fn is_short_labelling(s: Set<Seq<char>>, r: Seq<(String, String)>) -> bool {
    &&& forall|i: int, j: int| 0 <= i < j < r.len() ==> r[i].1@ != r[j].1@
    &&& forall|i: int|
        0 <= i < r.len() ==> s.contains(#[trigger] r[i].1@) && is_short_label(s, r[i].1@, r[i].0@)
    &&& forall|p: Seq<char>| s.contains(p) ==> exists|i: int| 0 <= i < r.len() && #[trigger] r[i].1@ == p
}

pub proof fn lemma_label_start_bounds(p: Seq<char>, k: nat)
    ensures
        0 <= label_start(p, k) <= p.len(),
        k >= 1 && label_start(p, k) > 0 ==> p[label_start(p, k) - 1] == '/',
    decreases p.len(),
{
    if p.len() > 0 {
        if p.last() == '/' && k <= 1 {
        } else if p.last() == '/' {
            lemma_label_start_bounds(p.drop_last(), (k - 1) as nat);
        } else {
            lemma_label_start_bounds(p.drop_last(), k);
        }
    }
}

/// Widening a label by one component starts it at the last component of
/// what precedes the current label.
pub proof fn lemma_label_start_next(p: Seq<char>, k: nat)
    requires
        k >= 1,
    ensures
        label_start(p, k) == 0 ==> label_start(p, k + 1) == 0,
        label_start(p, k) > 0 ==> label_start(p, k + 1) == label_start(
            p.subrange(0, label_start(p, k) - 1),
            1,
        ),
    decreases p.len(),
{
    if p.len() > 0 {
        let q = p.drop_last();
        let s = label_start(p, k);
        if p.last() == '/' && k <= 1 {
            assert(p.subrange(0, s - 1) =~= q);
        } else if p.last() == '/' {
            lemma_label_start_next(q, (k - 1) as nat);
            lemma_label_start_bounds(q, (k - 1) as nat);
            if s > 0 {
                assert(p.subrange(0, s - 1) =~= q.subrange(0, s - 1));
            }
        } else {
            lemma_label_start_next(q, k);
            lemma_label_start_bounds(q, k);
            if s > 0 {
                assert(p.subrange(0, s - 1) =~= q.subrange(0, s - 1));
            }
        }
    }
}

proof fn lemma_label_push(q: Seq<char>, c: char, j: nat)
    requires
        j >= 1,
    ensures
        c != '/' ==> label_at(q.push(c), j) == label_at(q, j).push(c),
        c == '/' && j == 1 ==> label_at(q.push(c), j) == Seq::<char>::empty(),
        c == '/' && j >= 2 ==> label_at(q.push(c), j) == label_at(q, (j - 1) as nat).push(c),
{
    let p = q.push(c);
    assert(p.drop_last() =~= q);
    if c != '/' {
        lemma_label_start_bounds(q, j);
        assert(label_at(p, j) =~= label_at(q, j).push(c));
    } else if j >= 2 {
        lemma_label_start_bounds(q, (j - 1) as nat);
        assert(label_at(p, j) =~= label_at(q, (j - 1) as nat).push(c));
    } else {
        assert(label_at(p, j) =~= Seq::<char>::empty());
    }
}

/// A narrower label is determined by a wider one.
pub proof fn lemma_label_of_label(p: Seq<char>, k: nat, j: nat)
    requires
        1 <= j <= k,
    ensures
        label_at(label_at(p, k), j) == label_at(p, j),
    decreases p.len(),
{
    if p.len() == 0 {
        assert(label_at(p, k) =~= p);
    } else {
        let q = p.drop_last();
        let c = p.last();
        assert(q.push(c) =~= p);
        if c != '/' {
            lemma_label_of_label(q, k, j);
            lemma_label_push(q, c, k);
            lemma_label_push(q, c, j);
            lemma_label_push(label_at(q, k), c, j);
        } else if k == 1 {
            lemma_label_push(q, c, 1);
            assert(label_at(Seq::<char>::empty(), 1) =~= Seq::<char>::empty());
        } else if j == 1 {
            lemma_label_push(q, c, k);
            lemma_label_push(q, c, 1);
            lemma_label_push(label_at(q, (k - 1) as nat), c, 1);
        } else {
            lemma_label_of_label(q, (k - 1) as nat, (j - 1) as nat);
            lemma_label_push(q, c, k);
            lemma_label_push(q, c, j);
            lemma_label_push(label_at(q, (k - 1) as nat), c, j);
        }
    }
}

/// A label over more components than the path has is the whole path.
pub proof fn lemma_label_whole(p: Seq<char>, k: nat)
    requires
        k > separator_count(p),
    ensures
        label_start(p, k) == 0,
        label_at(p, k) == p,
    decreases p.len(),
{
    if p.len() > 0 {
        if p.last() == '/' {
            lemma_label_whole(p.drop_last(), (k - 1) as nat);
        } else {
            lemma_label_whole(p.drop_last(), k);
        }
    }
    assert(p.subrange(0, p.len() as int) =~= p);
}

/// Two paths that share a label share every narrower one, so a path that
/// collides with another at some width has collided at every smaller width.
pub proof fn lemma_collision_persists(s: Set<Seq<char>>, p: Seq<char>, q: Seq<char>, k: nat, j: nat)
    requires
        1 <= j <= k,
        s.contains(p),
        s.contains(q),
        p != q,
        label_at(p, k) == label_at(q, k),
    ensures
        !unique_at(s, p, j),
        !unique_at(s, q, j),
{
    lemma_label_of_label(p, k, j);
    lemma_label_of_label(q, k, j);
}

/// Every path of `s` is some element of `v`, and every element of `v` is in `s`.
spec fn lists_exactly(s: Set<Seq<char>>, v: Seq<String>) -> bool {
    &&& forall|a: int| 0 <= a < v.len() ==> s.contains(#[trigger] v[a]@)
    &&& forall|q: Seq<char>| #[trigger] s.contains(q) ==> exists|a: int| 0 <= a < v.len() && v[a]@ == q
}

spec fn listed(v: Seq<usize>, x: int) -> bool {
    exists|t: int| 0 <= t < v.len() && v[t] == x
}

spec fn recorded(d: Seq<int>, x: int) -> bool {
    exists|u: int| 0 <= u < d.len() && d[u] == x
}

/// `p` shares its label with some other path of `s` at every width below `k`.
pub open spec fn ambiguous_below(s: Set<Seq<char>>, p: Seq<char>, k: nat) -> bool {
    forall|j: nat| 1 <= j < k ==> !#[trigger] unique_at(s, p, j)
}

/// `paths` holds the paths of `s` once each, none with more than `m` separators.
spec fn paths_ok(s: Set<Seq<char>>, paths: Seq<String>, m: nat) -> bool {
    &&& forall|a: int, b: int| 0 <= a < b < paths.len() ==> paths[a]@ != paths[b]@
    &&& lists_exactly(s, paths)
    &&& forall|a: int| 0 <= a < paths.len() ==> separator_count(#[trigger] paths[a]@) <= m
}

/// `active` lists, in increasing order, paths still ambiguous below width `k`,
/// and `starts` where their `k`-component labels start.
spec fn frontier_ok(
    s: Set<Seq<char>>,
    paths: Seq<String>,
    active: Seq<usize>,
    starts: Seq<usize>,
    k: nat,
) -> bool {
    &&& active.len() == starts.len()
    &&& forall|t: int| 0 <= t < active.len() ==> active[t] < paths.len()
    &&& forall|t1: int, t2: int| 0 <= t1 < t2 < active.len() ==> active[t1] < active[t2]
    &&& forall|t: int|
        0 <= t < active.len() ==> starts[t] == label_start(paths[active[t] as int]@, k)
    &&& forall|t: int| 0 <= t < active.len() ==> ambiguous_below(s, paths[active[t] as int]@, k)
}

/// Every path still ambiguous below width `k` is listed in `active`.
spec fn frontier_complete(s: Set<Seq<char>>, paths: Seq<String>, active: Seq<usize>, k: nat) -> bool {
    forall|a: int|
        0 <= a < paths.len() && ambiguous_below(s, #[trigger] paths[a]@, k) ==> listed(active, a)
}

/// Each pair of `result` holds the path of `paths` at the matching index of
/// `done` with its short label; no index is recorded twice.
spec fn results_ok(
    s: Set<Seq<char>>,
    paths: Seq<String>,
    result: Seq<(String, String)>,
    done: Seq<int>,
) -> bool {
    &&& done.len() == result.len()
    &&& forall|u: int| 0 <= u < done.len() ==> 0 <= #[trigger] done[u] < paths.len()
    &&& forall|u: int|
        0 <= u < done.len() ==> result[u].1@ == paths[#[trigger] done[u]]@ && is_short_label(
            s,
            result[u].1@,
            result[u].0@,
        )
    &&& forall|u1: int, u2: int| 0 <= u1 < u2 < done.len() ==> done[u1] != done[u2]
}

proof fn lemma_separator_bound(v: Seq<String>) -> (m: nat)
    ensures
        forall|a: int| 0 <= a < v.len() ==> separator_count(#[trigger] v[a]@) <= m,
    decreases v.len(),
{
    if v.len() == 0 {
        0
    } else {
        let m0 = lemma_separator_bound(v.drop_last());
        let c = separator_count(v.last()@);
        let m = if c > m0 {
            c
        } else {
            m0
        };
        assert forall|a: int| 0 <= a < v.len() implies separator_count(#[trigger] v[a]@) <= m by {
            if a < v.len() - 1 {
                assert(v[a] == v.drop_last()[a]);
            }
        }
        m
    }
}

/// For a path on the frontier, sharing its label with no other frontier path
/// is the same as sharing it with no other path at all.
proof fn lemma_unique_on_frontier(
    s: Set<Seq<char>>,
    paths: Seq<String>,
    active: Seq<usize>,
    starts: Seq<usize>,
    labels: Seq<String>,
    k: nat,
    m: nat,
    a: int,
)
    requires
        k >= 1,
        paths_ok(s, paths, m),
        frontier_ok(s, paths, active, starts, k),
        frontier_complete(s, paths, active, k),
        labels.len() == active.len(),
        forall|t: int| 0 <= t < active.len() ==> labels[t]@ == label_at(paths[active[t] as int]@, k),
        0 <= a < active.len(),
    ensures
        unique_at(s, paths[active[a] as int]@, k) <==> (forall|b: int|
            0 <= b < labels.len() && b != a ==> labels[b]@ != labels[a]@),
        k > m ==> unique_at(s, paths[active[a] as int]@, k),
{
    let p = paths[active[a] as int]@;
    if forall|b: int| 0 <= b < labels.len() && b != a ==> labels[b]@ != labels[a]@ {
        assert forall|q: Seq<char>| #[trigger] s.contains(q) && q != p implies label_at(q, k)
            != label_at(p, k) by {
            if label_at(q, k) == label_at(p, k) {
                let c = choose|c: int| 0 <= c < paths.len() && paths[c]@ == q;
                assert(s.contains(p));
                assert forall|j: nat| 1 <= j < k implies !#[trigger] unique_at(s, q, j) by {
                    lemma_collision_persists(s, p, q, k, j);
                }
                assert(ambiguous_below(s, paths[c]@, k));
                assert(listed(active, c));
                let t1 = choose|t1: int| 0 <= t1 < active.len() && active[t1] == c;
                assert(labels[t1]@ == labels[a]@);
            }
        }
    } else {
        let b = choose|b: int| 0 <= b < labels.len() && b != a && labels[b]@ == labels[a]@;
        if b < a {
            assert(active[b] < active[a]);
        } else {
            assert(active[a] < active[b]);
        }
        let q = paths[active[b] as int]@;
        assert(s.contains(q));
    }
    if k > m {
        assert forall|q: Seq<char>| #[trigger] s.contains(q) && q != p implies label_at(q, k)
            != label_at(p, k) by {
            let c = choose|c: int| 0 <= c < paths.len() && paths[c]@ == q;
            lemma_label_whole(q, k);
            lemma_label_whole(p, k);
        }
    }
}

/// Index just after the last separator in the first `t` characters of `p`,
/// or 0 when there is none.
pub(crate) fn last_component_start(p: &str, t: usize) -> (r: usize)
    requires
        t <= p@.len(),
    ensures
        r == label_start(p@.subrange(0, t as int), 1),
{
    let mut i: usize = t;
    while i > 0
        invariant
            i <= t <= p@.len(),
            label_start(p@.subrange(0, t as int), 1) == label_start(p@.subrange(0, i as int), 1),
        decreases i,
    {
        let c = p.get_char(i - 1);
        let ghost q = p@.subrange(0, i as int);
        assert(q.drop_last() =~= p@.subrange(0, i - 1));
        if c == '/' {
            return i;
        }
        i -= 1;
    }
    0
}

/// Where the label of `p` one component wider than the one at `st` starts.
fn widen(p: &str, st: usize, Ghost(k): Ghost<nat>) -> (r: usize)
    requires
        k >= 1,
        st == label_start(p@, k),
    ensures
        r == label_start(p@, k + 1),
{
    proof {
        lemma_label_start_next(p@, k);
        lemma_label_start_bounds(p@, k);
    }
    if st == 0 {
        0
    } else {
        last_component_start(p, st - 1)
    }
}

/// The distinct strings of `filenames`, in order of first occurrence.
fn distinct_paths(filenames: &Vec<String>) -> (r: Vec<String>)
    ensures
        forall|a: int, b: int| 0 <= a < b < r.len() ==> r[a]@ != r[b]@,
        lists_exactly(path_set(filenames@), r@),
{
    let ghost s = path_set(filenames@);
    let mut paths: Vec<String> = Vec::new();
    let mut i: usize = 0;
    while i < filenames.len()
        invariant
            i <= filenames.len(),
            s == path_set(filenames@),
            forall|a: int, b: int| 0 <= a < b < paths.len() ==> paths[a]@ != paths[b]@,
            forall|a: int| 0 <= a < paths.len() ==> s.contains(#[trigger] paths[a]@),
            forall|j: int|
                0 <= j < i ==> exists|a: int| 0 <= a < paths.len() && paths[a]@ == #[trigger] filenames[j]@,
        decreases filenames.len() - i,
    {
        let mut found = false;
        let mut a: usize = 0;
        while a < paths.len()
            invariant
                a <= paths.len(),
                i < filenames.len(),
                found ==> exists|b: int| 0 <= b < paths.len() && paths[b]@ == filenames[i as int]@,
                !found ==> forall|b: int| 0 <= b < a ==> paths[b]@ != filenames[i as int]@,
            decreases paths.len() - a,
        {
            if paths[a] == filenames[i] {
                found = true;
            }
            a += 1;
        }
        assert(views(filenames@)[i as int] == filenames[i as int]@);
        let ghost before = paths@;
        if !found {
            paths.push(filenames[i].clone());
            assert(paths[paths.len() - 1]@ == filenames[i as int]@);
        }
        assert forall|j: int| 0 <= j < i + 1 implies exists|a: int|
            0 <= a < paths.len() && paths[a]@ == #[trigger] filenames[j]@ by {
            if j < i {
                let a = choose|a: int| 0 <= a < before.len() && before[a]@ == filenames[j]@;
                assert(paths[a] == before[a]);
            }
        }
        i += 1;
    }
    assert forall|q: Seq<char>| #[trigger] s.contains(q) implies exists|a: int|
        0 <= a < paths.len() && paths[a]@ == q by {
        let j = choose|j: int| 0 <= j < filenames.len() && #[trigger] views(filenames@)[j] == q;
        assert(filenames[j]@ == q);
    }
    paths
}

/// Whether no label of `labels` but the one at `a` equals it.
fn label_is_unique(labels: &Vec<String>, a: usize) -> (r: bool)
    requires
        a < labels.len(),
    ensures
        r == (forall|b: int| 0 <= b < labels.len() && b != a ==> labels[b]@ != labels[a as int]@),
{
    let mut b: usize = 0;
    while b < labels.len()
        invariant
            b <= labels.len(),
            a < labels.len(),
            forall|b0: int| 0 <= b0 < b && b0 != a ==> labels[b0]@ != labels[a as int]@,
        decreases labels.len() - b,
    {
        if b != a && labels[b] == labels[a] {
            return false;
        }
        b += 1;
    }
    true
}

/// The current label of each frontier path.
fn frontier_labels(paths: &Vec<String>, active: &Vec<usize>, starts: &Vec<usize>, Ghost(k): Ghost<nat>) -> (r: Vec<String>)
    requires
        active.len() == starts.len(),
        forall|t: int| 0 <= t < active.len() ==> active[t] < paths.len(),
        forall|t: int|
            0 <= t < active.len() ==> starts[t] == label_start(paths[active[t] as int]@, k),
    ensures
        r.len() == active.len(),
        forall|t: int| 0 <= t < active.len() ==> r[t]@ == label_at(paths[active[t] as int]@, k),
{
    let mut labels: Vec<String> = Vec::new();
    let mut t: usize = 0;
    while t < active.len()
        invariant
            t <= active.len() == starts.len(),
            labels.len() == t,
            forall|t0: int| 0 <= t0 < active.len() ==> active[t0] < paths.len(),
            forall|t0: int|
                0 <= t0 < active.len() ==> starts[t0] == label_start(paths[active[t0] as int]@, k),
            forall|t0: int| 0 <= t0 < t ==> labels[t0]@ == label_at(paths[active[t0] as int]@, k),
        decreases active.len() - t,
    {
        let p = paths[active[t]].as_str();
        let len = p.unicode_len();
        proof {
            lemma_label_start_bounds(p@, k);
        }
        let l = String::from_str(p.substring_char(starts[t], len));
        labels.push(l);
        t += 1;
    }
    labels
}

/// Settles one width: frontier paths whose label is unique get it recorded in
/// `result`; the others are returned with the start of their next-wider label.
#[verifier::rlimit(40)]
fn settle_width(
    paths: &Vec<String>,
    active: &Vec<usize>,
    starts: &Vec<usize>,
    result: &mut Vec<(String, String)>,
    Ghost(s): Ghost<Set<Seq<char>>>,
    Ghost(k): Ghost<nat>,
    Ghost(m): Ghost<nat>,
    Ghost(done): Ghost<Seq<int>>,
) -> (r: (Vec<usize>, Vec<usize>, Ghost<Seq<int>>))
    requires
        k >= 1,
        paths_ok(s, paths@, m),
        frontier_ok(s, paths@, active@, starts@, k),
        frontier_complete(s, paths@, active@, k),
        results_ok(s, paths@, old(result)@, done),
        forall|u: int, t: int| 0 <= u < done.len() && 0 <= t < active.len() ==> done[u] != active[t],
        forall|a: int| 0 <= a < paths.len() ==> #[trigger] listed(active@, a) || recorded(done, a),
    ensures
        frontier_ok(s, paths@, r.0@, r.1@, k + 1),
        frontier_complete(s, paths@, r.0@, k + 1),
        results_ok(s, paths@, final(result)@, r.2@),
        forall|u: int, t: int|
            0 <= u < r.2@.len() && 0 <= t < r.0.len() ==> r.2@[u] != r.0[t],
        forall|a: int| 0 <= a < paths.len() ==> #[trigger] listed(r.0@, a) || recorded(r.2@, a),
        k > m ==> r.0.len() == 0,
{
    let labels = frontier_labels(paths, active, starts, Ghost(k));
    let mut next_active: Vec<usize> = Vec::new();
    let mut next_starts: Vec<usize> = Vec::new();
    let ghost mut d = done;
    let mut a: usize = 0;
    while a < active.len()
        invariant
            k >= 1,
            paths_ok(s, paths@, m),
            frontier_ok(s, paths@, active@, starts@, k),
            frontier_complete(s, paths@, active@, k),
            labels.len() == active.len(),
            forall|t: int| 0 <= t < active.len() ==> labels[t]@ == label_at(paths[active[t] as int]@, k),
            a <= active.len(),
            frontier_ok(s, paths@, next_active@, next_starts@, k + 1),
            forall|t: int|
                0 <= t < next_active.len() ==> exists|t1: int|
                    0 <= t1 < a && active[t1] == #[trigger] next_active[t],
            forall|t: int|
                0 <= t < a && !unique_at(s, paths[active[t] as int]@, k) ==> #[trigger] listed(
                    next_active@,
                    active[t] as int,
                ),
            next_active.len() > 0 ==> next_active[next_active.len() - 1] < active[a as int] || a == active.len(),
            k > m ==> next_active.len() == 0,
            results_ok(s, paths@, result@, d),
            d.len() >= done.len(),
            forall|u: int| 0 <= u < done.len() ==> d[u] == done[u],
            forall|u: int, t: int| 0 <= u < done.len() && 0 <= t < active.len() ==> done[u] != active[t],
            forall|u: int|
                done.len() <= u < d.len() ==> exists|t1: int|
                    0 <= t1 < a && active[t1] == #[trigger] d[u],
            forall|t: int|
                0 <= t < a && unique_at(s, paths[active[t] as int]@, k) ==> #[trigger] recorded(
                    d,
                    active[t] as int,
                ),
            forall|u: int|
                done.len() <= u < d.len() ==> unique_at(s, paths[#[trigger] d[u]]@, k),
            forall|t: int|
                0 <= t < next_active.len() ==> !unique_at(s, paths[#[trigger] next_active[t] as int]@, k),
        decreases active.len() - a,
    {
        let i = active[a];
        let ghost p = paths[i as int]@;
        proof {
            lemma_unique_on_frontier(s, paths@, active@, starts@, labels@, k, m, a as int);
        }
        let unique = label_is_unique(&labels, a);
        let ghost d0 = d;
        let ghost na0 = next_active@;
        if unique {
            let full = paths[i].clone();
            let label = labels[a].clone();
            result.push((label, full));
            proof {
                d = d.push(i as int);
                assert(is_short_label(s, p, label_at(p, k)));
                assert(d[d.len() - 1] == i);
                assert(recorded(d, i as int));
            }
        } else {
            let next = widen(paths[i].as_str(), starts[a], Ghost(k));
            next_active.push(i);
            next_starts.push(next);
            proof {
                assert forall|j: nat| 1 <= j < k + 1 implies !#[trigger] unique_at(s, p, j) by {
                    if j < k {
                        assert(ambiguous_below(s, paths[active[a as int] as int]@, k));
                    }
                }
                assert(next_active[next_active.len() - 1] == i);
                assert(listed(next_active@, i as int));
            }
        }
        proof {
            assert forall|t: int|
                0 <= t < a + 1 && !unique_at(s, paths[active[t] as int]@, k) implies #[trigger] listed(
                next_active@,
                active[t] as int,
            ) by {
                if t < a {
                    assert(listed(na0, active[t] as int));
                    let w = choose|w: int| 0 <= w < na0.len() && na0[w] == active[t] as int;
                    assert(next_active[w] == na0[w]);
                }
            }
            assert forall|t: int|
                0 <= t < a + 1 && unique_at(s, paths[active[t] as int]@, k) implies #[trigger] recorded(
                d,
                active[t] as int,
            ) by {
                if t < a {
                    assert(recorded(d0, active[t] as int));
                    let w = choose|w: int| 0 <= w < d0.len() && d0[w] == active[t] as int;
                    assert(d[w] == d0[w]);
                }
            }
        }
        a += 1;
    }
    proof {
        assert forall|u: int, t: int|
            0 <= u < d.len() && 0 <= t < next_active.len() implies d[u] != next_active[t] by {
            let t1 = choose|t1: int| 0 <= t1 < a && active[t1] == next_active[t];
            if u >= done.len() {
                assert(unique_at(s, paths[d[u]]@, k));
                assert(!unique_at(s, paths[next_active[t] as int]@, k));
            }
        }
        assert forall|x: int| 0 <= x < paths.len() implies #[trigger] listed(next_active@, x)
            || recorded(d, x) by {
            if listed(active@, x) {
                let t = choose|t: int| 0 <= t < active.len() && active[t] == x;
                if unique_at(s, paths[active[t] as int]@, k) {
                    assert(recorded(d, active[t] as int));
                } else {
                    assert(listed(next_active@, active[t] as int));
                }
            } else {
                let u = choose|u: int| 0 <= u < done.len() && done[u] == x;
                assert(d[u] == x);
            }
        }
    }
    (next_active, next_starts, Ghost(d))
}

/// Maps each distinct path of `filenames` to the shortest trailing run of its
/// components that no other path ends with, widening a label one component
/// at a time while it is shared.
///
/// For `[a/b/c/d, a/b/d/d, e/f]` the pairs are `(f, e/f)`, `(c/d, a/b/c/d)`
/// and `(d/d, a/b/d/d)`. Each pair is `(label, full path)`; repeated input
/// paths count once.
pub fn map_filenames_to_short_names(filenames: Vec<String>) -> (r: Vec<(String, String)>)
    ensures
        is_short_labelling(path_set(filenames@), r@),
{
    let ghost s = path_set(filenames@);
    let paths = distinct_paths(&filenames);
    let n = paths.len();
    let ghost m = lemma_separator_bound(paths@);

    let mut active: Vec<usize> = Vec::new();
    let mut starts: Vec<usize> = Vec::new();
    let mut idx: usize = 0;
    while idx < n
        invariant
            idx <= n == paths.len(),
            active.len() == starts.len() == idx,
            forall|t: int| 0 <= t < idx ==> active[t] == t,
            forall|t: int| 0 <= t < idx ==> starts[t] == label_start(paths[t]@, 1),
        decreases n - idx,
    {
        let p = paths[idx].as_str();
        let len = p.unicode_len();
        let st = last_component_start(p, len);
        proof {
            assert(p@.subrange(0, len as int) =~= p@);
        }
        active.push(idx);
        starts.push(st);
        idx += 1;
    }

    let mut result: Vec<(String, String)> = Vec::new();
    let ghost mut done: Seq<int> = Seq::empty();
    let ghost mut k: nat = 1;
    proof {
        assert forall|a: int| 0 <= a < n implies #[trigger] listed(active@, a) by {
            assert(active[a] == a);
        }
    }
    while active.len() > 0
        invariant
            n == paths.len(),
            k >= 1,
            k <= m + 2,
            active.len() > 0 ==> k <= m + 1,
            paths_ok(s, paths@, m),
            frontier_ok(s, paths@, active@, starts@, k),
            frontier_complete(s, paths@, active@, k),
            results_ok(s, paths@, result@, done),
            forall|u: int, t: int| 0 <= u < done.len() && 0 <= t < active.len() ==> done[u] != active[t],
            forall|a: int| 0 <= a < n ==> #[trigger] listed(active@, a) || recorded(done, a),
        decreases m + 2 - k,
    {
        let (next_active, next_starts, Ghost(d)) = settle_width(
            &paths,
            &active,
            &starts,
            &mut result,
            Ghost(s),
            Ghost(k),
            Ghost(m),
            Ghost(done),
        );
        active = next_active;
        starts = next_starts;
        proof {
            done = d;
            k = k + 1;
        }
    }
    proof {
        assert forall|i: int, j: int| 0 <= i < j < result.len() implies result[i].1@ != result[j].1@ by {
            assert(done[i] != done[j]);
        }
        assert forall|i: int| 0 <= i < result.len() implies s.contains(#[trigger] result[i].1@)
            && is_short_label(s, result[i].1@, result[i].0@) by {
            assert(result[i].1@ == paths[done[i]]@);
        }
        assert forall|q: Seq<char>| s.contains(q) implies exists|i: int|
            0 <= i < result.len() && #[trigger] result[i].1@ == q by {
            let c = choose|c: int| 0 <= c < paths.len() && paths[c]@ == q;
            assert(listed(active@, c) || recorded(done, c));
            let u = choose|u: int| 0 <= u < done.len() && done[u] == c;
            assert(result[u].1@ == q);
        }
    }
    result
}

/// Short labels never coincide: no label is given to two different paths.
pub proof fn short_labels_are_pairwise_distinct(s: Set<Seq<char>>, r: Seq<(String, String)>)
    requires
        is_short_labelling(s, r),
    ensures
        forall|i: int, j: int| 0 <= i < j < r.len() ==> r[i].0@ != r[j].0@,
{
    assert forall|i: int, j: int| 0 <= i < j < r.len() implies r[i].0@ != r[j].0@ by {
        let p = r[i].1@;
        let q = r[j].1@;
        assert(s.contains(p) && is_short_label(s, p, r[i].0@));
        assert(s.contains(q) && is_short_label(s, q, r[j].0@));
        let kp = choose|kp: nat|
            #![trigger label_at(p, kp)]
            kp >= 1 && unique_at(s, p, kp) && (forall|j: nat| 1 <= j < kp ==> !unique_at(s, p, j))
                && r[i].0@ == label_at(p, kp);
        let kq = choose|kq: nat|
            #![trigger label_at(q, kq)]
            kq >= 1 && unique_at(s, q, kq) && (forall|j: nat| 1 <= j < kq ==> !unique_at(s, q, j))
                && r[j].0@ == label_at(q, kq);
        if r[i].0@ == r[j].0@ {
            if kp <= kq {
                lemma_label_of_label(q, kq, kp);
                lemma_label_of_label(p, kp, kp);
                assert(label_at(q, kp) == label_at(p, kp));
            } else {
                lemma_label_of_label(p, kp, kq);
                lemma_label_of_label(q, kq, kq);
                assert(label_at(p, kq) == label_at(q, kq));
            }
        }
    }
}

/// When no two paths share their last component, every path is labelled by
/// its last component alone.
pub proof fn distinct_basenames_are_their_own_labels(s: Set<Seq<char>>, r: Seq<(String, String)>)
    requires
        is_short_labelling(s, r),
        forall|p: Seq<char>, q: Seq<char>|
            s.contains(p) && s.contains(q) && p != q ==> basename(p) != basename(q),
    ensures
        forall|i: int| 0 <= i < r.len() ==> r[i].0@ == basename(#[trigger] r[i].1@),
{
    assert forall|i: int| 0 <= i < r.len() implies r[i].0@ == basename(#[trigger] r[i].1@) by {
        let p = r[i].1@;
        assert(s.contains(p) && is_short_label(s, p, r[i].0@));
        let k = choose|k: nat|
            #![trigger label_at(p, k)]
            k >= 1 && unique_at(s, p, k) && (forall|j: nat| 1 <= j < k ==> !unique_at(s, p, j))
                && r[i].0@ == label_at(p, k);
        assert forall|q: Seq<char>| #[trigger] s.contains(q) && q != p implies label_at(q, 1)
            != label_at(p, 1) by {
            assert(basename(q) != basename(p));
        }
        assert(unique_at(s, p, 1));
        if k > 1 {
            assert(!unique_at(s, p, 1));
        }
    }
}

/// `rel` joined onto `base` as a path: an absolute `rel` stands alone,
/// otherwise a separator goes between the two unless `base` is empty or
/// already ends with one.
pub open spec fn path_join(base: Seq<char>, rel: Seq<char>) -> Seq<char> {
    if rel.len() > 0 && rel[0] == '/' {
        rel
    } else if base.len() == 0 || base.last() == '/' {
        base + rel
    } else {
        base + seq!['/'] + rel
    }
}

/// Joins `rel` onto `base` as a path.
pub fn join_paths(base: &str, rel: &str) -> (r: String)
    ensures
        r@ == path_join(base@, rel@),
{
    let rel_len = rel.unicode_len();
    if rel_len > 0 && rel.get_char(0) == '/' {
        return String::from_str(rel);
    }
    let base_len = base.unicode_len();
    let mut out = String::from_str(base);
    if base_len > 0 && base.get_char(base_len - 1) != '/' {
        proof {
            reveal_strlit("/");
        }
        out.append("/");
    }
    out.append(rel);
    out
}

} // verus!
