//! Maps from byte-string keys held as sequences of entries in strictly
//! increasing key order: the listing in which the state is committed.
use vstd::prelude::*;

use crate::state::byte_order::{bytes_lt, lemma_bytes_lt_asymmetric, lemma_bytes_lt_irreflexive, lemma_bytes_lt_total, lemma_bytes_lt_transitive};

verus! {

/// The keys of `s` strictly increase.
pub open spec fn sorted_keys<V>(s: Seq<(Seq<u8>, V)>) -> bool {
    forall|i: int, j: int| 0 <= i < j < s.len() ==> bytes_lt(#[trigger] s[i].0, #[trigger] s[j].0)
}

/// Some entry of `s` has key `k`.
pub open spec fn has_key<V>(s: Seq<(Seq<u8>, V)>, k: Seq<u8>) -> bool {
    exists|i: int| 0 <= i < s.len() && #[trigger] s[i].0 == k
}

/// The map that a listing of entries stands for.
pub open spec fn map_of<V>(s: Seq<(Seq<u8>, V)>) -> Map<Seq<u8>, V> {
    Map::new(
        |k: Seq<u8>| has_key(s, k),
        |k: Seq<u8>| s[choose|i: int| 0 <= i < s.len() && #[trigger] s[i].0 == k].1,
    )
}

/// `s` with `(k, v)` put at position `i`, in place of the entry there when
/// `replace` holds.
pub open spec fn splice<V>(s: Seq<(Seq<u8>, V)>, i: int, k: Seq<u8>, v: V, replace: bool) -> Seq<(Seq<u8>, V)> {
    s.take(i) + seq![(k, v)] + s.skip(if replace { i + 1 } else { i })
}

/// `i` is where key `k` belongs in the listing `s`: every key before it is
/// smaller, and the key at it (if any) is not.
pub open spec fn is_position<V>(s: Seq<(Seq<u8>, V)>, k: Seq<u8>, i: int) -> bool {
    &&& 0 <= i <= s.len()
    &&& forall|j: int| 0 <= j < i ==> bytes_lt(#[trigger] s[j].0, k)
    &&& i < s.len() ==> !bytes_lt(s[i].0, k)
}

/// In a sorted listing, an entry's key leads to its value.
pub proof fn lemma_map_of_at<V>(s: Seq<(Seq<u8>, V)>, i: int)
    requires
        sorted_keys(s),
        0 <= i < s.len(),
    ensures
        map_of(s).contains_key(s[i].0),
        map_of(s)[s[i].0] == s[i].1,
{
    assert(has_key(s, s[i].0));
    let j = choose|j: int| 0 <= j < s.len() && #[trigger] s[j].0 == s[i].0;
    if j != i {
        if j < i {
            assert(bytes_lt(s[j].0, s[i].0));
        } else {
            assert(bytes_lt(s[i].0, s[j].0));
        }
        lemma_bytes_lt_irreflexive(s[i].0);
    }
}

/// Putting an entry where its key belongs keeps the listing sorted, and the
/// listing then stands for the map with that key set to that value.
pub proof fn lemma_splice<V>(s: Seq<(Seq<u8>, V)>, i: int, k: Seq<u8>, v: V)
    requires
        sorted_keys(s),
        is_position(s, k, i),
    ensures
        ({
            let replace = i < s.len() && s[i].0 == k;
            let t = splice(s, i, k, v, replace);
            &&& sorted_keys(t)
            &&& map_of(t) =~= map_of(s).insert(k, v)
        }),
{
    let replace = i < s.len() && s[i].0 == k;
    let ip = if replace { i + 1 } else { i };
    let t = splice(s, i, k, v, replace);
    assert(t.len() == s.len() - ip + i + 1);
    assert forall|p: int| 0 <= p < i implies #[trigger] t[p] == s[p] by {}
    assert(t[i] == (k, v));
    assert forall|p: int| i < p < t.len() implies #[trigger] t[p] == s[p - i - 1 + ip] by {}
    // every key from `ip` on is larger than `k`
    assert forall|j: int| ip <= j < s.len() implies bytes_lt(k, #[trigger] s[j].0) by {
        if replace {
            assert(bytes_lt(s[i].0, s[j].0));
        } else {
            lemma_bytes_lt_total(s[i].0, k);
            if j > i {
                assert(bytes_lt(s[i].0, s[j].0));
                lemma_bytes_lt_transitive(k, s[i].0, s[j].0);
            }
        }
    }
    assert forall|p: int, q: int| 0 <= p < q < t.len() implies bytes_lt(#[trigger] t[p].0, #[trigger] t[q].0) by {
        if q < i {
        } else if q == i {
        } else if p < i {
            let jq = q - i - 1 + ip;
            assert(t[q] == s[jq]);
            assert(bytes_lt(s[p].0, s[jq].0));
        } else if p == i {
            assert(t[q] == s[q - i - 1 + ip]);
        } else {
            assert(t[p] == s[p - i - 1 + ip]);
            assert(t[q] == s[q - i - 1 + ip]);
        }
    }
    assert forall|k2: Seq<u8>| #[trigger] map_of(t).contains_key(k2) == map_of(s).insert(k, v).contains_key(k2) by {
        if has_key(t, k2) {
            let p = choose|p: int| 0 <= p < t.len() && #[trigger] t[p].0 == k2;
            if p < i {
                assert(s[p].0 == k2);
            } else if p > i {
                assert(s[p - i - 1 + ip].0 == k2);
            }
        }
        if has_key(s, k2) && k2 != k {
            let j = choose|j: int| 0 <= j < s.len() && #[trigger] s[j].0 == k2;
            if j < i {
                assert(t[j].0 == k2);
            } else if j >= ip {
                assert(t[j - ip + i + 1].0 == k2);
            }
        }
        if k2 == k {
            assert(t[i].0 == k2);
        }
    }
    assert forall|k2: Seq<u8>| #[trigger] map_of(t).contains_key(k2) implies map_of(t)[k2] == map_of(s).insert(k, v)[k2] by {
        if k2 == k {
            lemma_map_of_at(t, i);
        } else {
            let j = choose|j: int| 0 <= j < s.len() && #[trigger] s[j].0 == k2;
            lemma_map_of_at(s, j);
            if j < i {
                lemma_map_of_at(t, j);
            } else {
                assert(j >= ip);
                lemma_map_of_at(t, j - ip + i + 1);
            }
        }
    }
}

/// Dropping the first entry of a sorted listing removes its key from the map.
pub proof fn lemma_map_of_drop_first<V>(s: Seq<(Seq<u8>, V)>)
    requires
        sorted_keys(s),
        s.len() > 0,
    ensures
        sorted_keys(s.drop_first()),
        map_of(s.drop_first()) =~= map_of(s).remove(s[0].0),
{
    let d = s.drop_first();
    assert forall|p: int, q: int| 0 <= p < q < d.len() implies bytes_lt(#[trigger] d[p].0, #[trigger] d[q].0) by {
        assert(d[p] == s[p + 1] && d[q] == s[q + 1]);
    }
    assert forall|k2: Seq<u8>| #[trigger] map_of(d).contains_key(k2) == map_of(s).remove(s[0].0).contains_key(k2) by {
        if has_key(d, k2) {
            let p = choose|p: int| 0 <= p < d.len() && #[trigger] d[p].0 == k2;
            assert(s[p + 1].0 == k2);
            assert(bytes_lt(s[0].0, s[p + 1].0));
            lemma_bytes_lt_irreflexive(k2);
        }
        if has_key(s, k2) && k2 != s[0].0 {
            let j = choose|j: int| 0 <= j < s.len() && #[trigger] s[j].0 == k2;
            assert(d[j - 1].0 == k2);
        }
    }
    assert forall|k2: Seq<u8>| #[trigger] map_of(d).contains_key(k2) implies map_of(d)[k2] == map_of(s)[k2] by {
        let p = choose|p: int| 0 <= p < d.len() && #[trigger] d[p].0 == k2;
        lemma_map_of_at(d, p);
        lemma_map_of_at(s, p + 1);
    }
}

/// A map has only one sorted listing.
pub proof fn lemma_sorted_listing_unique<V>(s: Seq<(Seq<u8>, V)>, t: Seq<(Seq<u8>, V)>)
    requires
        sorted_keys(s),
        sorted_keys(t),
        map_of(s) == map_of(t),
    ensures
        s == t,
    decreases s.len(),
{
    if s.len() == 0 || t.len() == 0 {
        if s.len() > 0 {
            assert(map_of(s).contains_key(s[0].0));
            assert(!has_key(t, s[0].0));
        }
        if t.len() > 0 {
            assert(map_of(t).contains_key(t[0].0));
            assert(!has_key(s, t[0].0));
        }
        assert(s =~= t);
    } else {
        let k0 = s[0].0;
        let l0 = t[0].0;
        lemma_map_of_at(s, 0);
        lemma_map_of_at(t, 0);
        if k0 != l0 {
            assert(map_of(t).contains_key(k0));
            let j = choose|j: int| 0 <= j < t.len() && #[trigger] t[j].0 == k0;
            assert(j != 0);
            assert(bytes_lt(t[0].0, t[j].0));
            assert(map_of(s).contains_key(l0));
            let i = choose|i: int| 0 <= i < s.len() && #[trigger] s[i].0 == l0;
            assert(i != 0);
            assert(bytes_lt(s[0].0, s[i].0));
            lemma_bytes_lt_asymmetric(k0, l0);
        }
        assert(s[0] == t[0]);
        lemma_map_of_drop_first(s);
        lemma_map_of_drop_first(t);
        lemma_sorted_listing_unique(s.drop_first(), t.drop_first());
        assert(s =~= t) by {
            assert forall|i: int| 0 <= i < s.len() implies s[i] == t[i] by {
                if i > 0 {
                    assert(s[i] == s.drop_first()[i - 1]);
                    assert(t[i] == t.drop_first()[i - 1]);
                }
            }
        }
    }
}

/// The sorted listing of a map that has one.
pub open spec fn sorted_listing<V>(m: Map<Seq<u8>, V>) -> Seq<(Seq<u8>, V)> {
    choose|s: Seq<(Seq<u8>, V)>| sorted_keys(s) && map_of(s) == m
}

/// A sorted listing is the sorted listing of the map it stands for.
pub proof fn lemma_sorted_listing_of<V>(s: Seq<(Seq<u8>, V)>)
    requires
        sorted_keys(s),
    ensures
        sorted_listing(map_of(s)) == s,
{
    let t = sorted_listing(map_of(s));
    assert(sorted_keys(s) && map_of(s) == map_of(s));
    lemma_sorted_listing_unique(s, t);
}

} // verus!

verus! {

/// Removing an entry from a sorted listing keeps it sorted and removes the
/// entry's key from the map.
pub proof fn lemma_remove_at<V>(s: Seq<(Seq<u8>, V)>, i: int)
    requires
        sorted_keys(s),
        0 <= i < s.len(),
    ensures
        sorted_keys(s.remove(i)),
        map_of(s.remove(i)) =~= map_of(s).remove(s[i].0),
{
    let t = s.remove(i);
    assert forall|p: int| 0 <= p < t.len() implies #[trigger] t[p] == if p < i { s[p] } else { s[p + 1] } by {}
    assert forall|p: int, q: int| 0 <= p < q < t.len() implies bytes_lt(#[trigger] t[p].0, #[trigger] t[q].0) by {
        let sp = if p < i { p } else { p + 1 };
        let sq = if q < i { q } else { q + 1 };
        assert(t[p] == s[sp] && t[q] == s[sq]);
    }
    assert forall|k2: Seq<u8>| #[trigger] map_of(t).contains_key(k2) == map_of(s).remove(s[i].0).contains_key(k2) by {
        if has_key(t, k2) {
            let p = choose|p: int| 0 <= p < t.len() && #[trigger] t[p].0 == k2;
            let sp = if p < i { p } else { p + 1 };
            assert(s[sp].0 == k2);
            if k2 == s[i].0 {
                if sp < i {
                    assert(bytes_lt(s[sp].0, s[i].0));
                } else {
                    assert(bytes_lt(s[i].0, s[sp].0));
                }
                lemma_bytes_lt_irreflexive(k2);
            }
        }
        if has_key(s, k2) && k2 != s[i].0 {
            let j = choose|j: int| 0 <= j < s.len() && #[trigger] s[j].0 == k2;
            if j < i {
                assert(t[j].0 == k2);
            } else {
                assert(t[j - 1].0 == k2);
            }
        }
    }
    assert forall|k2: Seq<u8>| #[trigger] map_of(t).contains_key(k2) implies map_of(t)[k2] == map_of(s)[k2] by {
        let p = choose|p: int| 0 <= p < t.len() && #[trigger] t[p].0 == k2;
        lemma_map_of_at(t, p);
        let sp = if p < i { p } else { p + 1 };
        lemma_map_of_at(s, sp);
    }
}

/// At the position where a key belongs, the key is present exactly when the
/// entry there holds it.
pub proof fn lemma_position_lookup<V>(s: Seq<(Seq<u8>, V)>, k: Seq<u8>, i: int)
    requires
        sorted_keys(s),
        is_position(s, k, i),
    ensures
        has_key(s, k) <==> (i < s.len() && s[i].0 == k),
{
    if has_key(s, k) && !(i < s.len() && s[i].0 == k) {
        let j = choose|j: int| 0 <= j < s.len() && #[trigger] s[j].0 == k;
        if j < i {
            assert(bytes_lt(s[j].0, k));
            lemma_bytes_lt_irreflexive(k);
        } else {
            lemma_bytes_lt_total(s[i].0, k);
            assert(j > i);
            assert(bytes_lt(s[i].0, s[j].0));
            lemma_bytes_lt_transitive(k, s[i].0, k);
            lemma_bytes_lt_irreflexive(k);
        }
    }
}

} // verus!
