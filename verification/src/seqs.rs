//! Selection of elements from sequences, in order, as the stores and filters
//! of the engine perform it.
use vstd::prelude::*;

verus! {

/// The elements of `s` that satisfy `p`, in their original order.
pub open spec fn keep<T>(s: Seq<T>, p: spec_fn(T) -> bool) -> Seq<T>
    decreases s.len(),
{
    if s.len() == 0 {
        Seq::empty()
    } else {
        let r = keep(s.drop_last(), p);
        if p(s.last()) {
            r.push(s.last())
        } else {
            r
        }
    }
}

/// The first `n` elements of `s` (all of them when `s` is shorter).
pub open spec fn prefix<T>(s: Seq<T>, n: int) -> Seq<T> {
    if n < s.len() {
        s.subrange(0, n)
    } else {
        s
    }
}

/// `keep` over a prefix extended by one element.
pub proof fn lemma_keep_step<T>(s: Seq<T>, p: spec_fn(T) -> bool, i: int)
    requires
        0 <= i < s.len(),
    ensures
        keep(s.subrange(0, i + 1), p) == (if p(s[i]) {
            keep(s.subrange(0, i), p).push(s[i])
        } else {
            keep(s.subrange(0, i), p)
        }),
{
    let q = s.subrange(0, i + 1);
    assert(q.drop_last() =~= s.subrange(0, i));
}

/// `keep` over an extended sequence.
pub proof fn lemma_keep_push<T>(s: Seq<T>, p: spec_fn(T) -> bool, x: T)
    ensures
        keep(s.push(x), p) == (if p(x) {
            keep(s, p).push(x)
        } else {
            keep(s, p)
        }),
{
    assert(s.push(x).drop_last() =~= s);
}

/// Every kept element satisfies `p` and is an element of `s`.
pub proof fn lemma_keep_sound<T>(s: Seq<T>, p: spec_fn(T) -> bool)
    ensures
        forall|k: int| 0 <= k < keep(s, p).len() ==> p(#[trigger] keep(s, p)[k]) && s.contains(
            keep(s, p)[k],
        ),
        keep(s, p).len() <= s.len(),
    decreases s.len(),
{
    if s.len() > 0 {
        lemma_keep_sound(s.drop_last(), p);
        let r = keep(s.drop_last(), p);
        assert forall|k: int| 0 <= k < keep(s, p).len() implies p(#[trigger] keep(s, p)[k])
            && s.contains(keep(s, p)[k]) by {
            if k < r.len() {
                assert(s.drop_last().contains(r[k]));
                let j = choose|j: int| 0 <= j < s.drop_last().len() && s.drop_last()[j] == r[k];
                assert(s[j] == r[k]);
            } else {
                assert(s[s.len() - 1] == s.last());
            }
        }
    }
}

/// `prefix` of a sequence extended by one element, when the limit has not
/// yet been reached.
pub proof fn lemma_prefix_push<T>(s: Seq<T>, x: T, n: int)
    requires
        0 <= n,
    ensures
        prefix(s.push(x), n) == (if s.len() < n {
            prefix(s, n).push(x)
        } else {
            prefix(s, n)
        }),
{
    if s.len() < n {
        assert(prefix(s, n) =~= s);
    } else {
        assert(s.push(x).subrange(0, n) =~= prefix(s, n));
    }
}

/// An element is kept exactly when it occurs in `s` and satisfies `p`.
pub proof fn lemma_keep_contains<T>(s: Seq<T>, p: spec_fn(T) -> bool)
    ensures
        forall|x: T| keep(s, p).contains(x) <==> (s.contains(x) && p(x)),
    decreases s.len(),
{
    if s.len() > 0 {
        lemma_keep_contains(s.drop_last(), p);
        let d = s.drop_last();
        let r = keep(d, p);
        assert(keep(s, p) == (if p(s.last()) { r.push(s.last()) } else { r }));
        assert(forall|x: T| r.contains(x) <==> (d.contains(x) && p(x)));
        assert forall|x: T| keep(s, p).contains(x) <==> (s.contains(x) && p(x)) by {
            if keep(s, p).contains(x) {
                let k = choose|k: int| 0 <= k < keep(s, p).len() && keep(s, p)[k] == x;
                if k < r.len() {
                    assert(r[k] == x);
                    assert(r.contains(x));
                    let m = choose|m: int| 0 <= m < d.len() && d[m] == x;
                    assert(s[m] == x);
                } else {
                    assert(s[s.len() - 1] == x);
                }
            }
            if s.contains(x) && p(x) {
                let m = choose|m: int| 0 <= m < s.len() && s[m] == x;
                if m < d.len() {
                    assert(d[m] == x);
                    assert(r.contains(x));
                    let k = choose|k: int| 0 <= k < r.len() && r[k] == x;
                    assert(keep(s, p)[k] == x);
                } else {
                    assert(keep(s, p)[r.len() as int] == x);
                }
            }
        }
    }
}

/// Keeping elements of a sequence without duplicates gives one without duplicates.
pub proof fn lemma_keep_no_duplicates<T>(s: Seq<T>, p: spec_fn(T) -> bool)
    requires
        s.no_duplicates(),
    ensures
        keep(s, p).no_duplicates(),
    decreases s.len(),
{
    if s.len() > 0 {
        let d = s.drop_last();
        assert(d.no_duplicates()) by {
            assert forall|i: int, j: int| 0 <= i < d.len() && 0 <= j < d.len() && i != j implies d[i] != d[j] by {
                assert(d[i] == s[i] && d[j] == s[j]);
            }
        }
        lemma_keep_no_duplicates(d, p);
        lemma_keep_contains(d, p);
        let r = keep(d, p);
        if p(s.last()) {
            assert(!d.contains(s.last())) by {
                if d.contains(s.last()) {
                    let m = choose|m: int| 0 <= m < d.len() && d[m] == s.last();
                    assert(s[m] == s[s.len() - 1]);
                }
            }
            assert forall|i: int, j: int| 0 <= i < keep(s, p).len() && 0 <= j < keep(s, p).len() && i != j implies keep(s, p)[i] != keep(s, p)[j] by {
                if i < r.len() && j < r.len() {
                } else if i < r.len() {
                    assert(r.contains(r[i]));
                } else {
                    assert(r.contains(r[j]));
                }
            }
        }
    }
}

} // verus!
