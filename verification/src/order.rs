//! The order of paths: sequences are compared at the first place where they
//! differ, and a sequence comes before every other that it begins.

use vstd::prelude::*;
use crate::pool::{first_where, is_first, lemma_first_where, lemma_first_where_agrees};

verus! {

/// The shorter of two lengths.
pub open spec fn shorter(a: nat, b: nat) -> nat {
    if a <= b {
        a
    } else {
        b
    }
}

/// The first place at which `a` and `b` differ, or the length of the shorter one
/// where it begins the other.
pub open spec fn first_difference<T>(a: Seq<T>, b: Seq<T>) -> int {
    first_where(shorter(a.len(), b.len()), |i: int| a[i] != b[i])
}

/// Whether `a` comes before `b`: at the first place where they differ `a` has
/// the smaller element, or `a` is shorter and begins `b`.
pub open spec fn lex_lt<T>(a: Seq<T>, b: Seq<T>, lt: spec_fn(T, T) -> bool) -> bool {
    let d = first_difference(a, b);
    if d < shorter(a.len(), b.len()) {
        lt(a[d], b[d])
    } else {
        a.len() < b.len()
    }
}

/// `lt` orders the values of `T` strictly and totally.
pub open spec fn strict_total<T>(lt: spec_fn(T, T) -> bool) -> bool {
    &&& forall|x: T| !#[trigger] lt(x, x)
    &&& forall|x: T, y: T| x != y ==> #[trigger] lt(x, y) || lt(y, x)
    &&& forall|x: T, y: T, z: T| #[trigger] lt(x, y) && #[trigger] lt(y, z) ==> lt(x, z)
}

/// What `first_difference` is: before it the two agree, and at it, where both
/// reach so far, they differ.
pub proof fn lemma_first_difference<T>(a: Seq<T>, b: Seq<T>)
    ensures
        0 <= first_difference(a, b) <= shorter(a.len(), b.len()),
        forall|i: int| 0 <= i < first_difference(a, b) ==> a[i] == b[i],
        first_difference(a, b) < shorter(a.len(), b.len()) ==> a[first_difference(a, b)]
            != b[first_difference(a, b)],
        first_difference(a, b) == first_difference(b, a),
{
    let n = shorter(a.len(), b.len());
    let p = |i: int| a[i] != b[i];
    let q = |i: int| b[i] != a[i];
    lemma_first_where(n, p);
    lemma_first_where_agrees(n, p, q);
    assert forall|i: int| 0 <= i < first_difference(a, b) implies a[i] == b[i] by {
        assert(!p(i));
    }
}

/// A place before which two sequences agree, and at which they differ or the
/// shorter one ends, is their first difference.
pub proof fn lemma_is_first_difference<T>(a: Seq<T>, b: Seq<T>, d: int)
    requires
        0 <= d <= shorter(a.len(), b.len()),
        forall|i: int| 0 <= i < d ==> a[i] == b[i],
        d < shorter(a.len(), b.len()) ==> a[d] != b[d],
    ensures
        d == first_difference(a, b),
{
    let n = shorter(a.len(), b.len());
    let p = |i: int| a[i] != b[i];
    lemma_first_where(n, p);
    assert forall|j: int| 0 <= j < d implies !#[trigger] p(j) by {
        assert(a[j] == b[j]);
    }
    assert(is_first(n, p, d));
}

/// Sequences over a strict total order are ordered strictly and totally.
pub proof fn lemma_lex_strict_total<T>(lt: spec_fn(T, T) -> bool)
    requires
        strict_total(lt),
    ensures
        forall|a: Seq<T>| !#[trigger] lex_lt(a, a, lt),
        forall|a: Seq<T>, b: Seq<T>| a != b ==> #[trigger] lex_lt(a, b, lt) || lex_lt(b, a, lt),
        forall|a: Seq<T>, b: Seq<T>, c: Seq<T>| #[trigger]
            lex_lt(a, b, lt) && #[trigger] lex_lt(b, c, lt) ==> lex_lt(a, c, lt),
{
    assert forall|a: Seq<T>| !#[trigger] lex_lt(a, a, lt) by {
        lemma_first_difference(a, a);
    }
    assert forall|a: Seq<T>, b: Seq<T>| a != b implies #[trigger] lex_lt(a, b, lt) || lex_lt(
        b,
        a,
        lt,
    ) by {
        lemma_first_difference(a, b);
        if first_difference(a, b) >= shorter(a.len(), b.len()) && a.len() == b.len() {
            assert(a =~= b);
        }
    }
    assert forall|a: Seq<T>, b: Seq<T>, c: Seq<T>| #[trigger]
        lex_lt(a, b, lt) && #[trigger] lex_lt(b, c, lt) implies lex_lt(a, c, lt) by {
        lemma_lex_transitive(a, b, c, lt);
    }
}

/// The order of sequences carries over: what comes before a sequence comes
/// before all that the sequence comes before.
pub proof fn lemma_lex_transitive<T>(a: Seq<T>, b: Seq<T>, c: Seq<T>, lt: spec_fn(T, T) -> bool)
    requires
        strict_total(lt),
        lex_lt(a, b, lt),
        lex_lt(b, c, lt),
    ensures
        lex_lt(a, c, lt),
{
    lemma_first_difference(a, b);
    lemma_first_difference(b, c);
    lemma_first_difference(a, c);
    let d1 = first_difference(a, b);
    let d2 = first_difference(b, c);
    let ab = shorter(a.len(), b.len());
    let bc = shorter(b.len(), c.len());
    let ac = shorter(a.len(), c.len());
    let d = if d1 <= d2 {
        d1
    } else {
        d2
    };
    assert forall|i: int| 0 <= i < d implies a[i] == c[i] by {
        assert(a[i] == b[i]);
        assert(b[i] == c[i]);
    }
    if d1 < ab && d2 < bc {
        if d1 < d2 {
            assert(b[d1] == c[d1]);
            assert(lt(a[d1], c[d1]));
        } else if d2 < d1 {
            assert(a[d2] == b[d2]);
            assert(lt(a[d2], c[d2]));
        } else {
            assert(lt(a[d], c[d]));
        }
        assert(a[d] != c[d]);
        lemma_is_first_difference(a, c, d);
    } else if d1 < ab {
        // `b` is shorter than `c` and begins it
        assert(b[d1] == c[d1]);
        assert(lt(a[d1], c[d1]));
        assert(a[d1] != c[d1]);
        lemma_is_first_difference(a, c, d1);
    } else if d2 < bc {
        // `a` is shorter than `b` and begins it
        if d2 < a.len() {
            assert(a[d2] == b[d2]);
            assert(lt(a[d2], c[d2]));
            assert(a[d2] != c[d2]);
            lemma_is_first_difference(a, c, d2);
        } else {
            assert forall|i: int| 0 <= i < a.len() implies a[i] == c[i] by {
                assert(a[i] == b[i]);
                assert(b[i] == c[i]);
            }
            lemma_is_first_difference(a, c, a.len() as int);
        }
    } else {
        assert forall|i: int| 0 <= i < a.len() implies a[i] == c[i] by {
            assert(a[i] == b[i]);
            assert(b[i] == c[i]);
        }
        lemma_is_first_difference(a, c, a.len() as int);
    }
}

/// The order of bytes.
pub open spec fn byte_lt() -> spec_fn(u8, u8) -> bool {
    |x: u8, y: u8| x < y
}

/// The order of path components: byte strings, compared byte by byte.
pub open spec fn component_lt() -> spec_fn(Seq<u8>, Seq<u8>) -> bool {
    |a: Seq<u8>, b: Seq<u8>| lex_lt(a, b, byte_lt())
}

/// Whether the path `a` comes before the path `b`: paths are compared
/// component by component.
pub open spec fn path_lt(a: Seq<Seq<u8>>, b: Seq<Seq<u8>>) -> bool {
    lex_lt(a, b, component_lt())
}

/// Paths are ordered strictly and totally.
pub proof fn lemma_path_order()
    ensures
        strict_total(component_lt()),
        forall|a: Seq<Seq<u8>>| !#[trigger] path_lt(a, a),
        forall|a: Seq<Seq<u8>>, b: Seq<Seq<u8>>| a != b ==> #[trigger] path_lt(a, b) || path_lt(b, a),
        forall|a: Seq<Seq<u8>>, b: Seq<Seq<u8>>, c: Seq<Seq<u8>>| #[trigger]
            path_lt(a, b) && #[trigger] path_lt(b, c) ==> path_lt(a, c),
{
    assert(strict_total(byte_lt()));
    lemma_lex_strict_total(byte_lt());
    let order = component_lt();
    assert(strict_total(order)) by {
        assert forall|x: Seq<u8>| !#[trigger] order(x, x) by {
            assert(!lex_lt(x, x, byte_lt()));
        }
        assert forall|x: Seq<u8>, y: Seq<u8>| x != y implies #[trigger] order(x, y) || order(
            y,
            x,
        ) by {
            assert(lex_lt(x, y, byte_lt()) || lex_lt(y, x, byte_lt()));
        }
        assert forall|x: Seq<u8>, y: Seq<u8>, z: Seq<u8>| #[trigger]
            order(x, y) && #[trigger] order(y, z) implies order(x, z) by {
            assert(lex_lt(x, y, byte_lt()) && lex_lt(y, z, byte_lt()));
        }
    }
    lemma_lex_strict_total(component_lt());
}

/// A path as a mathematical value: the byte strings of its components.
pub open spec fn path_view(path: Vec<Vec<u8>>) -> Seq<Seq<u8>> {
    path@.map_values(|component: Vec<u8>| component@)
}

/// Whether two byte strings are the same.
pub fn bytes_eq(a: &Vec<u8>, b: &Vec<u8>) -> (r: bool)
    ensures
        r == (a@ == b@),
{
    let r = *a == *b;
    assert(r ==> a@ =~= b@);
    r
}

/// Whether the component `a` comes before the component `b`.
pub fn component_before(a: &Vec<u8>, b: &Vec<u8>) -> (r: bool)
    ensures
        r == component_lt()(a@, b@),
{
    let mut i: usize = 0;
    while i < a.len() && i < b.len()
        invariant
            i <= a.len(),
            i <= b.len(),
            forall|j: int| 0 <= j < i ==> a@[j] == b@[j],
        decreases a.len() - i,
    {
        if a[i] != b[i] {
            proof {
                lemma_is_first_difference(a@, b@, i as int);
            }
            return a[i] < b[i];
        }
        i += 1;
    }
    proof {
        lemma_is_first_difference(a@, b@, i as int);
    }
    a.len() < b.len()
}

/// Whether the path `a` comes before the path `b`.
pub fn path_before(a: &Vec<Vec<u8>>, b: &Vec<Vec<u8>>) -> (r: bool)
    ensures
        r == path_lt(path_view(*a), path_view(*b)),
{
    let mut i: usize = 0;
    while i < a.len() && i < b.len()
        invariant
            i <= a.len(),
            i <= b.len(),
            forall|j: int| 0 <= j < i ==> path_view(*a)[j] == path_view(*b)[j],
        decreases a.len() - i,
    {
        if !bytes_eq(&a[i], &b[i]) {
            proof {
                lemma_is_first_difference(path_view(*a), path_view(*b), i as int);
            }
            return component_before(&a[i], &b[i]);
        }
        i += 1;
    }
    proof {
        lemma_is_first_difference(path_view(*a), path_view(*b), i as int);
    }
    a.len() < b.len()
}

} // verus!
