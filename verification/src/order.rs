//! Ordering by a number: the stable order of a list of keys.

use vstd::prelude::*;

verus! {

/// `order` with the index `x` put behind everything whose key is not larger
/// than its own.
pub open spec fn placed(order: Seq<int>, keys: Seq<i64>, x: int) -> Seq<int>
    decreases order.len(),
{
    if order.len() == 0 || keys[order.last()] <= keys[x] {
        order.push(x)
    } else {
        placed(order.drop_last(), keys, x).push(order.last())
    }
}

/// The indices of the first `n` keys in the order of their keys, equal keys in
/// the order in which they stand.
pub open spec fn order_of_first(keys: Seq<i64>, n: nat) -> Seq<int>
    decreases n,
{
    if n == 0 {
        seq![]
    } else {
        placed(order_of_first(keys, (n - 1) as nat), keys, n - 1)
    }
}

/// The indices of `keys` in the order of their keys.
pub open spec fn stable_order(keys: Seq<i64>) -> Seq<int> {
    order_of_first(keys, keys.len())
}

/// `items` put in the order of `order`.
pub open spec fn arranged<T>(items: Seq<T>, order: Seq<int>) -> Seq<T> {
    Seq::new(order.len(), |i: int| items[order[i]])
}

/// Whether the indices of `order` are in ascending order of their keys, equal
/// keys keeping their places.
pub open spec fn in_stable_order(order: Seq<int>, keys: Seq<i64>) -> bool {
    forall|i: int, j: int|
        0 <= i < j < order.len() ==> (keys[#[trigger] order[i]] < keys[#[trigger] order[j]] || (
        keys[order[i]] == keys[order[j]] && order[i] < order[j]))
}

/// Whether `order` holds each index below `n` exactly once.
pub open spec fn lists_each_once(order: Seq<int>, n: nat) -> bool {
    &&& order.len() == n
    &&& order.no_duplicates()
    &&& forall|i: int| 0 <= i < order.len() ==> 0 <= #[trigger] order[i] < n
}

proof fn lemma_placed(order: Seq<int>, keys: Seq<i64>, x: int, p: int)
    requires
        0 <= p <= order.len(),
        forall|j: int| p <= j < order.len() ==> keys[#[trigger] order[j]] > keys[x],
        p == 0 || keys[order[p - 1]] <= keys[x],
    ensures
        placed(order, keys, x) == order.insert(p, x),
    decreases order.len(),
{
    if p == order.len() {
        assert(order.insert(p, x) =~= order.push(x));
    } else {
        assert(keys[order[order.len() - 1]] > keys[x]);
        lemma_placed(order.drop_last(), keys, x, p);
        assert(order.insert(p, x) =~= order.drop_last().insert(p, x).push(order.last()));
    }
}

/// In the stable order every index stands once, smaller keys come first, and
/// equal keys keep the order in which they stood.
pub proof fn law_stable_order(keys: Seq<i64>, n: nat)
    requires
        n <= keys.len(),
    ensures
        lists_each_once(order_of_first(keys, n), n),
        in_stable_order(order_of_first(keys, n), keys),
        forall|y: int| 0 <= y < n ==> order_of_first(keys, n).contains(y),
    decreases n,
{
    if n > 0 {
        let o = order_of_first(keys, (n - 1) as nat);
        let x = n - 1;
        law_stable_order(keys, (n - 1) as nat);
        lemma_place_exists(o, keys, x, o.len() as int);
        let p = choose|p: int|
            0 <= p <= o.len() && (forall|j: int|
                p <= j < o.len() ==> keys[#[trigger] o[j]] > keys[x]) && (p == 0 || keys[o[p - 1]]
                <= keys[x]) && #[trigger] o.insert(p, x) == placed(o, keys, x);
        let r = o.insert(p, x);
        assert forall|i: int, j: int| 0 <= i < j < r.len() implies (keys[#[trigger] r[i]]
            < keys[#[trigger] r[j]] || (keys[r[i]] == keys[r[j]] && r[i] < r[j])) by {
            let a = if i < p { i } else { i - 1 };
            let b = if j < p { j } else { j - 1 };
            if i == p {
                assert(r[j] == o[b]);
            } else if j == p {
                assert(r[i] == o[a]);
                if i < p - 1 {
                    assert(r[p - 1] == o[p - 1]);
                    assert(keys[o[a]] <= keys[o[p - 1]]);
                }
            } else {
                assert(r[i] == o[a]);
                assert(r[j] == o[b]);
            }
        }
        assert forall|i: int, j: int| 0 <= i < j < r.len() implies r[i] != r[j] by {
            assert(keys[r[i]] < keys[r[j]] || r[i] < r[j]);
        }
        assert forall|y: int| 0 <= y < n implies r.contains(y) by {
            if y == x {
                assert(r[p] == x);
            } else {
                assert(o.contains(y));
                let k = choose|k: int| 0 <= k < o.len() && o[k] == y;
                assert(r[if k < p {
                    k
                } else {
                    k + 1
                }] == y);
            }
        }
    }
}

proof fn lemma_place_exists(o: Seq<int>, keys: Seq<i64>, x: int, q: int)
    requires
        0 <= q <= o.len(),
        forall|j: int| q <= j < o.len() ==> keys[#[trigger] o[j]] > keys[x],
    ensures
        exists|p: int|
            0 <= p <= o.len() && (forall|j: int|
                p <= j < o.len() ==> keys[#[trigger] o[j]] > keys[x]) && (p == 0 || keys[o[p - 1]]
                <= keys[x]) && #[trigger] o.insert(p, x) == placed(o, keys, x),
    decreases q,
{
    if q == 0 || keys[o[q - 1]] <= keys[x] {
        lemma_placed(o, keys, x, q);
        assert(o.insert(q, x) == placed(o, keys, x));
    } else {
        lemma_place_exists(o, keys, x, q - 1);
    }
}

/// The indices below `n` that `p` holds of, in ascending order.
pub open spec fn indices_where(n: nat, p: spec_fn(int) -> bool) -> Seq<int>
    decreases n,
{
    if n == 0 {
        seq![]
    } else if p(n - 1) {
        indices_where((n - 1) as nat, p).push(n - 1)
    } else {
        indices_where((n - 1) as nat, p)
    }
}

/// The first `n` items, or all where there are fewer.
pub open spec fn first_of<T>(s: Seq<T>, n: nat) -> Seq<T> {
    if s.len() <= n {
        s
    } else {
        s.take(n as int)
    }
}

/// The last `n` items, or all where there are fewer.
pub open spec fn last_of<T>(s: Seq<T>, n: nat) -> Seq<T> {
    if s.len() <= n {
        s
    } else {
        s.skip(s.len() - n)
    }
}

/// Whether `indices_where` gives just the indices that `p` holds of.
pub proof fn lemma_indices_where(n: nat, p: spec_fn(int) -> bool)
    ensures
        indices_where(n, p).len() <= n,
        forall|k: int|
            0 <= k < indices_where(n, p).len() ==> 0 <= #[trigger] indices_where(n, p)[k] < n && p(
                indices_where(n, p)[k],
            ),
    decreases n,
{
    if n > 0 {
        lemma_indices_where((n - 1) as nat, p);
    }
}

/// The indices of `v` in the opposite order, where `flip` is set, and at most
/// `n` of them.
pub fn pick(v: &Vec<usize>, flip: bool, n: usize) -> (r: Vec<usize>)
    ensures
        as_ints(r@) == first_of(
            if flip {
                as_ints(v@).reverse()
            } else {
                as_ints(v@)
            },
            n as nat,
        ),
{
    let mut out: Vec<usize> = Vec::new();
    let ghost whole = if flip { as_ints(v@).reverse() } else { as_ints(v@) };
    let mut i: usize = 0;
    while i < v.len() && i < n
        invariant
            i <= v.len(),
            i <= n,
            whole == (if flip { as_ints(v@).reverse() } else { as_ints(v@) }),
            as_ints(out@) =~= whole.take(i as int),
        decreases v.len() - i,
    {
        let x: usize = if flip { v[v.len() - 1 - i] } else { v[i] };
        assert(whole[i as int] == x);
        let ghost before = as_ints(out@);
        out.push(x);
        assert(as_ints(out@) =~= before.push(x as int));
        i += 1;
    }
    assert(as_ints(out@) =~= first_of(whole, n as nat));
    out
}

/// Drops the oldest items so that at most `max` stay, and at least one.
pub open spec fn trimmed_to<T>(s: Seq<T>, max: nat) -> Seq<T> {
    last_of(
        s,
        if max < 1 {
            1
        } else {
            max
        },
    )
}

/// Drops the oldest items so that at most `max` stay; a `max` of zero counts as
/// one.
pub fn trim_vec<T>(values: &mut Vec<T>, max: usize)
    ensures
        final(values)@ == trimmed_to(old(values)@, max as nat),
{
    let bound: usize = if max < 1 { 1 } else { max };
    let len: usize = values.len();
    if len > bound {
        let tail: Vec<T> = values.split_off(len - bound);
        assert(tail@ =~= trimmed_to(old(values)@, max as nat));
        *values = tail;
    }
}

/// A trimmed list ends as the untrimmed one did and is never longer than the
/// bound.
pub proof fn law_trim_keeps_the_newest<T>(s: Seq<T>, max: nat)
    ensures
        trimmed_to(s, max).len() <= (if max < 1 { 1nat } else { max }),
        s.len() > 0 ==> trimmed_to(s, max).len() > 0 && trimmed_to(s, max).last() == s.last(),
        trimmed_to(trimmed_to(s, max), max) == trimmed_to(s, max),
{
}

/// The indices as integers.
pub open spec fn as_ints(v: Seq<usize>) -> Seq<int> {
    v.map_values(|i: usize| i as int)
}

/// The indices of `keys` in the order of their keys, equal keys in the order in
/// which they stand.
pub fn sort_indices(keys: &Vec<i64>) -> (order: Vec<usize>)
    ensures
        as_ints(order@) == stable_order(keys@),
        lists_each_once(as_ints(order@), keys.len() as nat),
        forall|i: int| 0 <= i < order.len() ==> #[trigger] order@[i] < keys.len(),
{
    let mut order: Vec<usize> = Vec::new();
    let mut n: usize = 0;
    assert(as_ints(order@) =~= order_of_first(keys@, 0));
    while n < keys.len()
        invariant
            n <= keys.len(),
            as_ints(order@) == order_of_first(keys@, n as nat),
            order.len() == n,
            forall|i: int| 0 <= i < order.len() ==> #[trigger] order@[i] < n,
        decreases keys.len() - n,
    {
        let ghost o = as_ints(order@);
        let mut p: usize = order.len();
        while p > 0 && keys[order[p - 1]] > keys[n]
            invariant
                n < keys.len(),
                p <= order.len(),
                o == as_ints(order@),
                forall|i: int| 0 <= i < order.len() ==> #[trigger] order@[i] < n,
                forall|j: int| p <= j < order.len() ==> keys@[#[trigger] o[j]] > keys@[n as int],
            decreases p,
        {
            p -= 1;
            assert(o[p as int] == order@[p as int]);
        }
        proof {
            if p > 0 {
                assert(o[p - 1] == order@[p - 1]);
            }
            lemma_placed(o, keys@, n as int, p as int);
        }
        order.insert(p, n);
        assert(as_ints(order@) =~= o.insert(p as int, n as int));
        n += 1;
    }
    proof {
        law_stable_order(keys@, keys.len() as nat);
    }
    order
}

/// The indices that something holds of are listed in their order, each once, and all of
/// them.
pub proof fn law_indices_where(n: nat, p: spec_fn(int) -> bool)
    ensures
        forall|a: int, b: int|
            0 <= a < b < indices_where(n, p).len() ==> (#[trigger] indices_where(n, p)[a]) < (
            #[trigger] indices_where(n, p)[b]),
        forall|i: int| 0 <= i < n && #[trigger] p(i) ==> indices_where(n, p).contains(i),
        forall|i: int| indices_where(n, p).contains(i) ==> 0 <= i < n && #[trigger] p(i),
    decreases n,
{
    if n > 0 {
        let before = indices_where((n - 1) as nat, p);
        let now = indices_where(n, p);
        law_indices_where((n - 1) as nat, p);
        lemma_indices_where((n - 1) as nat, p);
        assert forall|i: int| 0 <= i < n && #[trigger] p(i) implies now.contains(i) by {
            if i < n - 1 {
                let k = choose|k: int| 0 <= k < before.len() && before[k] == i;
                assert(now[k] == i);
            } else {
                assert(now[before.len() as int] == i);
            }
        }
        assert forall|i: int| now.contains(i) implies 0 <= i < n && #[trigger] p(i) by {
            let k = choose|k: int| 0 <= k < now.len() && now[k] == i;
            if k < before.len() {
                assert(before[k] == i);
                assert(before.contains(i));
            }
        }
    }
}

/// The first or the last few of a list are an end of it, as many as were asked for where
/// there are so many.
pub proof fn law_ends_of_a_list<T>(s: Seq<T>, n: nat)
    ensures
        first_of(s, n).len() == (if s.len() < n {
            s.len()
        } else {
            n
        }),
        last_of(s, n).len() == first_of(s, n).len(),
        forall|i: int| 0 <= i < first_of(s, n).len() ==> first_of(s, n)[i] == s[i],
        forall|i: int|
            0 <= i < last_of(s, n).len() ==> last_of(s, n)[i] == s[s.len() - last_of(s, n).len()
                + i],
{
}

} // verus!
