//! Lists: filtering in place, and what filtering keeps.

use vstd::prelude::*;

verus! {

/// Filtering one more element of a sequence.
pub proof fn filter_step<T>(s: Seq<T>, i: int, p: spec_fn(T) -> bool)
    requires
        0 <= i < s.len(),
    ensures
        s.take(i + 1).filter(p) == if p(s[i]) {
            s.take(i).filter(p).push(s[i])
        } else {
            s.take(i).filter(p)
        },
{
    reveal(Seq::filter);
    assert(s.take(i + 1).drop_last() =~= s.take(i));
}

/// Keep the elements that satisfy a predicate, in their order.
pub(crate) fn retain<T, F: Fn(&T) -> bool>(v: &mut Vec<T>, keep: F, Ghost(p): Ghost<spec_fn(T) -> bool>)
    requires
        forall|t: &T| keep.requires((t,)),
        forall|t: &T, b: bool| keep.ensures((t,), b) ==> b == p(*t),
    ensures
        final(v)@ == old(v)@.filter(p),
{
    let mut all: Vec<T> = Vec::new();
    core::mem::swap(v, &mut all);
    let ghost s = all@;
    assert(s.take(0).filter(p) =~= Seq::<T>::empty()) by {
        reveal(Seq::filter);
    }
    for x in it: all
        invariant
            it.seq() == s,
            forall|t: &T| keep.requires((t,)),
            forall|t: &T, b: bool| keep.ensures((t,), b) ==> b == p(*t),
            v@ == s.take(it.index() as int).filter(p),
    {
        proof {
            filter_step(s, it.index() as int, p);
        }
        if keep(&x) {
            v.push(x);
        }
    }
    assert(s.take(s.len() as int) =~= s);
}

/// The position of the first element that satisfies a predicate; the length
/// where there is none.
pub open spec fn first<T>(s: Seq<T>, p: spec_fn(T) -> bool) -> int
    decreases s.len(),
{
    if s.len() == 0 || p(s[0]) {
        0
    } else {
        1 + first(s.skip(1), p)
    }
}

/// What `first` is: everything before it fails the predicate, and it satisfies
/// it unless it is the length.
pub proof fn first_is_least<T>(s: Seq<T>, p: spec_fn(T) -> bool)
    ensures
        0 <= first(s, p) <= s.len(),
        first(s, p) < s.len() ==> p(s[first(s, p)]),
        forall|j: int| 0 <= j < first(s, p) ==> !p(#[trigger] s[j]),
    decreases s.len(),
{
    if s.len() == 0 || p(s[0]) {
    } else {
        let t = s.skip(1);
        first_is_least(t, p);
        assert forall|j: int| 0 <= j < first(s, p) implies !p(#[trigger] s[j]) by {
            if j > 0 {
                assert(t[j - 1] == s[j]);
            }
        }
    }
}

/// A position with those properties is `first`.
pub proof fn first_is_at<T>(s: Seq<T>, p: spec_fn(T) -> bool, i: int)
    requires
        0 <= i <= s.len(),
        i < s.len() ==> p(s[i]),
        forall|j: int| 0 <= j < i ==> !p(#[trigger] s[j]),
    ensures
        first(s, p) == i,
{
    first_is_least(s, p);
    let f = first(s, p);
    if f < i {
        assert(!p(s[f]));
    } else if i < f {
        assert(!p(s[i]));
    }
}

/// An element that satisfies the predicate is not before `first`.
pub proof fn first_exists<T>(s: Seq<T>, p: spec_fn(T) -> bool, i: int)
    requires
        0 <= i < s.len(),
        p(s[i]),
    ensures
        first(s, p) <= i,
{
    first_is_least(s, p);
    if first(s, p) > i {
        assert(!p(s[i]));
    }
}

/// What filtering keeps satisfies the predicate and was there before.
pub proof fn filter_keeps<T>(s: Seq<T>, p: spec_fn(T) -> bool)
    ensures
        s.filter(p).len() <= s.len(),
        forall|i: int| 0 <= i < s.filter(p).len() ==> p(#[trigger] s.filter(p)[i]) && s.contains(s.filter(p)[i]),
    decreases s.len(),
{
    reveal(Seq::filter);
    if s.len() > 0 {
        let t = s.drop_last();
        filter_keeps(t, p);
        assert forall|i: int| 0 <= i < s.filter(p).len() implies p(#[trigger] s.filter(p)[i]) && s.contains(
            s.filter(p)[i],
        ) by {
            if i < t.filter(p).len() {
                let x = t.filter(p)[i];
                assert(t.contains(x));
                let k = choose|k: int| 0 <= k < t.len() && t[k] == x;
                assert(s[k] == x);
            } else {
                assert(s[s.len() - 1] == s.last());
            }
        }
    }
}

/// Filtering loses nothing that satisfies the predicate.
pub proof fn filter_loses_nothing<T>(s: Seq<T>, p: spec_fn(T) -> bool, i: int)
    requires
        0 <= i < s.len(),
        p(s[i]),
    ensures
        s.filter(p).contains(s[i]),
    decreases s.len(),
{
    reveal(Seq::filter);
    let t = s.drop_last();
    if i < t.len() {
        filter_loses_nothing(t, p, i);
        let k = choose|k: int| 0 <= k < t.filter(p).len() && t.filter(p)[k] == s[i];
        assert(s.filter(p)[k] == s[i]);
    } else {
        assert(s.filter(p).last() == s[i]);
        assert(s.filter(p)[s.filter(p).len() - 1] == s[i]);
    }
}

/// Filtering a sequence whose elements all satisfy the predicate changes nothing.
pub proof fn filter_all<T>(s: Seq<T>, p: spec_fn(T) -> bool)
    requires
        forall|i: int| 0 <= i < s.len() ==> p(#[trigger] s[i]),
    ensures
        s.filter(p) == s,
    decreases s.len(),
{
    reveal(Seq::filter);
    if s.len() > 0 {
        let t = s.drop_last();
        assert forall|i: int| 0 <= i < t.len() implies p(#[trigger] t[i]) by {
            assert(t[i] == s[i]);
        }
        filter_all(t, p);
        assert(t.push(s.last()) =~= s);
    } else {
        assert(s.filter(p) =~= s);
    }
}

/// Filtering that keeps whatever satisfies another predicate keeps the first
/// element that does.
pub proof fn filter_keeps_first<T>(s: Seq<T>, p: spec_fn(T) -> bool, q: spec_fn(T) -> bool)
    requires
        forall|i: int| 0 <= i < s.len() && q(#[trigger] s[i]) ==> p(s[i]),
    ensures
        first(s.filter(p), q) < s.filter(p).len() <==> first(s, q) < s.len(),
        first(s, q) < s.len() ==> s.filter(p)[first(s.filter(p), q)] == s[first(s, q)],
    decreases s.len(),
{
    reveal(Seq::filter);
    let t = s.filter(p);
    if s.len() > 0 {
        let a = s.drop_last();
        let b = a.filter(p);
        filter_keeps_first(a, p, q);
        first_is_least(a, q);
        first_is_least(b, q);
        assert(forall|j: int| 0 <= j < a.len() ==> #[trigger] s[j] == a[j]);
        if first(a, q) < a.len() {
            first_is_at(s, q, first(a, q));
            first_is_at(t, q, first(b, q));
        } else if q(s.last()) {
            first_is_at(s, q, a.len() as int);
            first_is_at(t, q, b.len() as int);
        } else {
            first_is_at(s, q, s.len() as int);
            first_is_at(t, q, t.len() as int);
        }
    }
}

/// Where the elements that filtering keeps stood, in increasing order.
pub proof fn filter_positions<T>(s: Seq<T>, p: spec_fn(T) -> bool) -> (f: Seq<int>)
    ensures
        f.len() == s.filter(p).len(),
        forall|i: int|
            0 <= i < f.len() ==> 0 <= #[trigger] f[i] < s.len() && s[f[i]] == s.filter(p)[i] && p(s[f[i]]),
        forall|i: int, j: int| 0 <= i < j < f.len() ==> #[trigger] f[i] < #[trigger] f[j],
    decreases s.len(),
{
    reveal(Seq::filter);
    if s.len() == 0 {
        Seq::empty()
    } else {
        let t = s.drop_last();
        let g = filter_positions(t, p);
        if p(s.last()) {
            g.push(s.len() - 1)
        } else {
            g
        }
    }
}

} // verus!
