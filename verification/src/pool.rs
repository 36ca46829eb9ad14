//! Lookup-or-insert on a pool of values, and the search that underlies it.

use vstd::prelude::*;
use vstd::std_specs::cmp::PartialEqSpec;

verus! {

/// `r` is the first index below `n` at which `p` holds, or `n` when there is none.
pub open spec fn is_first(n: nat, p: spec_fn(int) -> bool, r: int) -> bool {
    &&& 0 <= r <= n
    &&& forall|j: int| 0 <= j < r ==> !#[trigger] p(j)
    &&& r < n ==> p(r)
}

/// The first index below `n` at which `p` holds, or `n` when there is none.
pub open spec fn first_where(n: nat, p: spec_fn(int) -> bool) -> int
    decreases n,
{
    if n == 0 {
        0
    } else {
        let before = first_where((n - 1) as nat, p);
        if before < n - 1 || p(n - 1) {
            before
        } else {
            n as int
        }
    }
}

/// `first_where` is the one index that `is_first` admits.
pub proof fn lemma_first_where(n: nat, p: spec_fn(int) -> bool)
    ensures
        is_first(n, p, first_where(n, p)),
        forall|r: int| is_first(n, p, r) ==> r == first_where(n, p),
    decreases n,
{
    if n > 0 {
        lemma_first_where((n - 1) as nat, p);
    }
    let f = first_where(n, p);
    assert forall|r: int| is_first(n, p, r) implies r == f by {
        if r < f {
            assert(p(r));
        } else if f < r {
            assert(p(f));
        }
    }
}

/// Two searches agree when their predicates agree below `n`.
pub proof fn lemma_first_where_agrees(n: nat, p: spec_fn(int) -> bool, q: spec_fn(int) -> bool)
    requires
        forall|i: int| 0 <= i < n ==> #[trigger] p(i) == q(i),
    ensures
        first_where(n, p) == first_where(n, q),
{
    lemma_first_where(n, p);
    lemma_first_where(n, q);
    let f = first_where(n, p);
    assert(is_first(n, q, f)) by {
        assert forall|j: int| 0 <= j < f implies !#[trigger] q(j) by {
            assert(!p(j));
        }
    }
}

/// A search that finds something below `n` finds the same below any larger bound.
pub proof fn lemma_first_where_extends(n: nat, k: nat, p: spec_fn(int) -> bool)
    requires
        n <= k,
        first_where(n, p) < n,
    ensures
        first_where(k, p) == first_where(n, p),
{
    lemma_first_where(n, p);
    lemma_first_where(k, p);
}

/// The index of the first element of `s` that is `v`, or the length of `s` when
/// `v` does not occur.
pub open spec fn index_of<V>(s: Seq<V>, v: V) -> int {
    first_where(s.len(), |i: int| s[i] == v)
}

/// The index of the first element of `pool` that equals `val`, or the length of
/// the pool when there is none.
pub open spec fn position_of<T: PartialEq>(pool: Seq<T>, val: T) -> int {
    first_where(pool.len(), |i: int| pool[i].eq_spec(&val))
}

/// The pool after `val` has been interned: unchanged when `val` occurs in it,
/// else with `val` appended.
pub open spec fn interned<T: PartialEq>(pool: Seq<T>, val: T) -> Seq<T> {
    if position_of(pool, val) < pool.len() {
        pool
    } else {
        pool.push(val)
    }
}

/// Where equality goes by a key, a value is found in a pool where its key is
/// found among the keys.
pub proof fn lemma_position_by_key<T: PartialEq, K>(pool: Seq<T>, val: T, key: spec_fn(T) -> K)
    requires
        forall|x: T, y: T| #[trigger] x.eq_spec(&y) <==> key(x) == key(y),
    ensures
        position_of(pool, val) == index_of(pool.map_values(key), key(val)),
{
    let keys = pool.map_values(key);
    lemma_first_where_agrees(
        pool.len(),
        |i: int| pool[i].eq_spec(&val),
        |i: int| keys[i] == key(val),
    );
}

/// Returns the index of the first element of `pool` equal to `val`; when there is
/// none, appends `val` and returns its index.
pub fn get_or_add<T: PartialEq>(pool: &mut Vec<T>, val: T) -> (idx: usize)
    ensures
        idx <= old(pool).len(),
        idx < old(pool).len() ==> final(pool)@ == old(pool)@,
        idx == old(pool).len() ==> final(pool)@ == old(pool)@.push(val),
        T::obeys_eq_spec() ==> idx == position_of(old(pool)@, val),
        T::obeys_eq_spec() ==> final(pool)@ == interned(old(pool)@, val),
{
    let ghost found = |i: int| pool@[i].eq_spec(&val);
    let mut i: usize = 0;
    while i < pool.len()
        invariant
            i <= pool.len(),
            pool@ == old(pool)@,
            found == (|i: int| old(pool)@[i].eq_spec(&val)),
            T::obeys_eq_spec() ==> forall|j: int| 0 <= j < i ==> !#[trigger] found(j),
        decreases pool.len() - i,
    {
        if pool[i] == val {
            proof {
                lemma_first_where(pool@.len(), found);
                if T::obeys_eq_spec() {
                    assert(found(i as int));
                    assert(is_first(pool@.len(), found, i as int));
                }
            }
            return i;
        }
        proof {
            if T::obeys_eq_spec() {
                assert(!found(i as int));
            }
        }
        i += 1;
    }
    proof {
        lemma_first_where(pool@.len(), found);
        if T::obeys_eq_spec() {
            assert(is_first(pool@.len(), found, i as int));
        }
    }
    pool.push(val);
    i
}

/// Interning a value that equals itself a second time finds it where the first
/// call left it, and leaves the pool as the first call left it.
pub proof fn lemma_intern_idempotent<T: PartialEq>(pool: Seq<T>, val: T)
    requires
        val.eq_spec(&val),
    ensures
        position_of(interned(pool, val), val) == position_of(pool, val),
        position_of(interned(pool, val), val) < interned(pool, val).len(),
        interned(interned(pool, val), val) == interned(pool, val),
{
    let once = interned(pool, val);
    let p = position_of(pool, val);
    let found = |i: int| pool[i].eq_spec(&val);
    let found_once = |i: int| once[i].eq_spec(&val);
    lemma_first_where(pool.len(), found);
    lemma_first_where(once.len(), found_once);
    assert(is_first(once.len(), found_once, p)) by {
        assert forall|j: int| 0 <= j < p implies !#[trigger] found_once(j) by {
            assert(!found(j));
        }
        if p < pool.len() {
            assert(found(p));
        }
        assert(found_once(p));
    }
}

} // verus!
