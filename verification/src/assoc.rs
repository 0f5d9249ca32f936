//! Keyed stores held as lists of entries: the value of a key is that of its
//! last entry, so storing a key again replaces what it held.
use vstd::prelude::*;
use crate::text::str_eq;

verus! {

/// The entries with their keys taken as character sequences.
pub open spec fn entries_view<T>(v: Seq<(String, T)>) -> Seq<(Seq<char>, T)> {
    v.map_values(|e: (String, T)| (e.0@, e.1))
}

/// The map a list of entries stands for: each entry stores its value under
/// its key, later entries over earlier ones.
pub open spec fn assoc_map<T>(entries: Seq<(Seq<char>, T)>) -> Map<Seq<char>, T>
    decreases entries.len(),
{
    if entries.len() == 0 {
        Map::empty()
    } else {
        assoc_map(entries.drop_last()).insert(entries.last().0, entries.last().1)
    }
}

/// The index of the last entry with key `k` among the first `n`, or -1.
pub open spec fn last_index<T>(entries: Seq<(Seq<char>, T)>, k: Seq<char>, n: int) -> int
    decreases n,
{
    if n <= 0 {
        -1
    } else if entries[n - 1].0 == k {
        n - 1
    } else {
        last_index(entries, k, n - 1)
    }
}

/// The map of the first `n` entries holds `k` exactly when one of them has
/// key `k`, and then holds the value of the last such entry.
pub proof fn lemma_assoc_last<T>(entries: Seq<(Seq<char>, T)>, k: Seq<char>, n: int)
    requires
        0 <= n <= entries.len(),
    ensures
        assoc_map(entries.subrange(0, n)).contains_key(k) <==> last_index(entries, k, n) >= 0,
        last_index(entries, k, n) >= 0 ==> last_index(entries, k, n) < n && entries[last_index(
            entries,
            k,
            n,
        )].0 == k && assoc_map(entries.subrange(0, n))[k] == entries[last_index(entries, k, n)].1,
        last_index(entries, k, n) < 0 ==> last_index(entries, k, n) == -1,
    decreases n,
{
    if n > 0 {
        let s = entries.subrange(0, n);
        assert(s.drop_last() =~= entries.subrange(0, n - 1));
        lemma_assoc_last(entries, k, n - 1);
    } else {
        assert(entries.subrange(0, 0) =~= Seq::<(Seq<char>, T)>::empty());
    }
}

/// The map after one more entry.
pub proof fn lemma_assoc_push<T>(entries: Seq<(Seq<char>, T)>, k: Seq<char>, x: T)
    ensures
        assoc_map(entries.push((k, x))) == assoc_map(entries).insert(k, x),
{
    assert(entries.push((k, x)).drop_last() =~= entries);
}

/// The index of the entry that holds `key`'s value, if `key` is stored.
pub fn assoc_find<T>(v: &Vec<(String, T)>, key: &str) -> (r: Option<usize>)
    ensures
        match r {
            Some(i) => i < v@.len() && i as int == last_index(entries_view(v@), key@, v@.len() as int)
                && v@[i as int].0@ == key@ && assoc_map(entries_view(v@)).contains_key(
                key@,
            ) && assoc_map(entries_view(v@))[key@] == v@[i as int].1,
            None => !assoc_map(entries_view(v@)).contains_key(key@),
        },
{
    let ghost es = entries_view(v@);
    let mut n = v.len();
    while n > 0
        invariant
            es == entries_view(v@),
            n <= v@.len(),
            last_index(es, key@, v@.len() as int) == last_index(es, key@, n as int),
        decreases n,
    {
        if str_eq(v[n - 1].0.as_str(), key) {
            proof {
                assert(es[n - 1].0 == key@);
                lemma_assoc_last(es, key@, v@.len() as int);
                assert(es.subrange(0, v@.len() as int) =~= es);
            }
            return Some(n - 1);
        }
        proof {
            assert(es[n - 1].0 != key@);
        }
        n = n - 1;
    }
    proof {
        lemma_assoc_last(es, key@, v@.len() as int);
        assert(es.subrange(0, v@.len() as int) =~= es);
    }
    None
}

/// Stores `x` under `key`, replacing what the key held.
pub fn assoc_insert<T>(v: &mut Vec<(String, T)>, key: String, x: T)
    ensures
        assoc_map(entries_view(final(v)@)) == assoc_map(entries_view(old(v)@)).insert(key@, x),
        entries_view(final(v)@) == entries_view(old(v)@).push((key@, x)),
{
    let ghost k = key@;
    v.push((key, x));
    proof {
        assert(entries_view(v@) =~= entries_view(old(v)@).push((k, x)));
        lemma_assoc_push(entries_view(old(v)@), k, x);
    }
}

/// Giving the last entry of a key a new value stores that value under the key.
pub proof fn lemma_assoc_update<T>(es: Seq<(Seq<char>, T)>, i: int, x: T)
    requires
        0 <= i < es.len(),
        i == last_index(es, es[i].0, es.len() as int),
    ensures
        assoc_map(es.update(i, (es[i].0, x))) == assoc_map(es).insert(es[i].0, x),
        last_index(es.update(i, (es[i].0, x)), es[i].0, es.len() as int) == i,
    decreases es.len(),
{
    let k = es[i].0;
    let u = es.update(i, (k, x));
    if i == es.len() - 1 {
        assert(u.drop_last() =~= es.drop_last());
    } else {
        let d = es.drop_last();
        assert(es[es.len() - 1].0 != k);
        assert(u.drop_last() =~= d.update(i, (k, x)));
        lemma_last_index_prefix(es, k, es.len() as int);
        assert(d[i] == es[i]);
        lemma_last_index_drop(es, k);
        lemma_assoc_update(d, i, x);
        lemma_last_index_update(es, i, x, es.len() as int);
        assert(assoc_map(u) =~= assoc_map(es).insert(k, x));
    }
}

/// `last_index` over the first `n` entries reads only those entries.
proof fn lemma_last_index_prefix<T>(es: Seq<(Seq<char>, T)>, k: Seq<char>, n: int)
    requires
        0 <= n <= es.len(),
    ensures
        last_index(es, k, n) < n,
        last_index(es, k, n) >= -1,
    decreases n,
{
    if n > 0 {
        lemma_last_index_prefix(es, k, n - 1);
    }
}

/// When the last entry has another key, dropping it keeps the last index of `k`.
proof fn lemma_last_index_drop<T>(es: Seq<(Seq<char>, T)>, k: Seq<char>)
    requires
        es.len() > 0,
        es[es.len() - 1].0 != k,
    ensures
        last_index(es.drop_last(), k, es.len() - 1) == last_index(es, k, es.len() as int),
{
    lemma_last_index_same(es.drop_last(), es, k, es.len() - 1);
}

/// Two lists that agree on their first `n` entries agree on `last_index`.
proof fn lemma_last_index_same<T>(a: Seq<(Seq<char>, T)>, b: Seq<(Seq<char>, T)>, k: Seq<char>, n: int)
    requires
        0 <= n <= a.len(),
        n <= b.len(),
        forall|j: int| 0 <= j < n ==> a[j] == b[j],
    ensures
        last_index(a, k, n) == last_index(b, k, n),
    decreases n,
{
    if n > 0 {
        lemma_last_index_same(a, b, k, n - 1);
    }
}

/// Updating the value at `i` keeps every key's last index.
proof fn lemma_last_index_update<T>(es: Seq<(Seq<char>, T)>, i: int, x: T, n: int)
    requires
        0 <= i < es.len(),
        0 <= n <= es.len(),
    ensures
        forall|k2: Seq<char>| last_index(es.update(i, (es[i].0, x)), k2, n) == last_index(es, k2, n),
    decreases n,
{
    let u = es.update(i, (es[i].0, x));
    if n > 0 {
        lemma_last_index_update(es, i, x, n - 1);
        assert(u[n - 1].0 == es[n - 1].0);
        assert forall|k2: Seq<char>| last_index(u, k2, n) == last_index(es, k2, n) by {
            assert(last_index(u, k2, n - 1) == last_index(es, k2, n - 1));
        }
    }
}

/// Replaces the value of entry `i`, the last entry of its key; returns the value it held.
pub fn assoc_replace<T>(v: &mut Vec<(String, T)>, i: usize, x: T) -> (prev: T)
    requires
        i < old(v)@.len(),
        i as int == last_index(entries_view(old(v)@), old(v)@[i as int].0@, old(v)@.len() as int),
    ensures
        prev == old(v)@[i as int].1,
        final(v)@.len() == old(v)@.len(),
        final(v)@[i as int].0 == old(v)@[i as int].0,
        assoc_map(entries_view(final(v)@)) == assoc_map(entries_view(old(v)@)).insert(
            old(v)@[i as int].0@,
            x,
        ),
        i as int == last_index(entries_view(final(v)@), final(v)@[i as int].0@, final(v)@.len() as int),
        entries_view(final(v)@) == entries_view(old(v)@).update(i as int, (old(v)@[i as int].0@, x)),
{
    let ghost es = entries_view(v@);
    let (k, prev) = v.remove(i);
    v.insert(i, (k, x));
    proof {
        assert(v@ =~= old(v)@.update(i as int, (old(v)@[i as int].0, x)));
        assert(entries_view(v@) =~= es.update(i as int, (es[i as int].0, x)));
        lemma_assoc_update(es, i as int, x);
    }
    prev
}

/// No key occurs in two entries.
pub open spec fn keys_unique<T>(es: Seq<(Seq<char>, T)>) -> bool {
    forall|i: int, j: int| 0 <= i < j < es.len() ==> es[i].0 != es[j].0
}

/// With unique keys, an entry is the last of its key among the first `n` entries that include it.
proof fn lemma_unique_last<T>(es: Seq<(Seq<char>, T)>, i: int, n: int)
    requires
        keys_unique(es),
        0 <= i < n <= es.len(),
    ensures
        last_index(es, es[i].0, n) == i,
    decreases n,
{
    if n - 1 > i {
        assert(es[n - 1].0 != es[i].0);
        lemma_unique_last(es, i, n - 1);
    }
}

/// With unique keys, every entry is what the map holds under its key.
pub proof fn lemma_unique_lookup<T>(es: Seq<(Seq<char>, T)>, i: int)
    requires
        keys_unique(es),
        0 <= i < es.len(),
    ensures
        assoc_map(es).contains_key(es[i].0),
        assoc_map(es)[es[i].0] == es[i].1,
{
    lemma_unique_last(es, i, es.len() as int);
    lemma_assoc_last(es, es[i].0, es.len() as int);
    assert(es.subrange(0, es.len() as int) =~= es);
}

/// A key the map holds is the key of an entry that holds its value.
pub proof fn lemma_map_entry<T>(es: Seq<(Seq<char>, T)>, k: Seq<char>)
    requires
        assoc_map(es).contains_key(k),
    ensures
        exists|i: int| 0 <= i < es.len() && es[i].0 == k && assoc_map(es)[k] == #[trigger] es[i].1,
{
    lemma_assoc_last(es, k, es.len() as int);
    assert(es.subrange(0, es.len() as int) =~= es);
    let i = last_index(es, k, es.len() as int);
    assert(es[i].0 == k && assoc_map(es)[k] == es[i].1);
}

/// Stores `x` under `key`, replacing the entry of that key in place or
/// adding one; keys stay unique.
pub fn assoc_upsert<T>(v: &mut Vec<(String, T)>, key: String, x: T)
    requires
        keys_unique(entries_view(old(v)@)),
    ensures
        keys_unique(entries_view(final(v)@)),
        assoc_map(entries_view(final(v)@)) == assoc_map(entries_view(old(v)@)).insert(key@, x),
{
    match assoc_find(v, key.as_str()) {
        Some(i) => {
            let ghost es0 = entries_view(v@);
            assoc_replace(v, i, x);
            proof {
                let es1 = entries_view(v@);
                assert forall|a: int, b: int| 0 <= a < b < es1.len() implies es1[a].0 != es1[b].0 by {
                    assert(es1[a].0 == es0[a].0);
                    assert(es1[b].0 == es0[b].0);
                }
            }
        },
        None => {
            let ghost es0 = entries_view(v@);
            proof {
                assert forall|j: int| 0 <= j < es0.len() implies es0[j].0 != key@ by {
                    if es0[j].0 == key@ {
                        lemma_unique_lookup(es0, j);
                    }
                }
            }
            let ghost k = key@;
            assoc_insert(v, key, x);
            proof {
                let es1 = entries_view(v@);
                assert forall|a: int, b: int| 0 <= a < b < es1.len() implies es1[a].0 != es1[b].0 by {
                    assert(es1[a] == es0[a]);
                    if b < es0.len() {
                        assert(es1[b] == es0[b]);
                    } else {
                        assert(es1[b].0 == k);
                    }
                }
            }
        },
    }
}

} // verus!
