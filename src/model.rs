use vstd::prelude::*;

use crate::entity::BookView;

verus! {

/// Every record of the sequence carries an identifier.
pub open spec fn all_identified(s: Seq<BookView>) -> bool {
    forall|i: int| 0 <= i < s.len() ==> (#[trigger] s[i]).id is Some
}

/// No two records of the sequence carry the same identifier.
pub open spec fn ids_distinct(s: Seq<BookView>) -> bool {
    forall|i: int, j: int|
        0 <= i < s.len() && 0 <= j < s.len() && i != j ==> (#[trigger] s[i]).id != (#[trigger] s[j]).id
}

/// A sequence of records fit to stand for a store.
pub open spec fn well_keyed(s: Seq<BookView>) -> bool {
    all_identified(s) && ids_distinct(s)
}

/// The map from identifier to record that a sequence of records stands for.
pub open spec fn map_of(s: Seq<BookView>) -> Map<Seq<char>, BookView>
    decreases s.len(),
{
    if s.len() == 0 {
        Map::empty()
    } else {
        map_of(s.drop_last()).insert(s.last().id->Some_0, s.last())
    }
}

/// An identifier is a key of the map exactly where some record of the sequence carries it.
pub proof fn lemma_map_of_domain(s: Seq<BookView>, k: Seq<char>)
    requires
        all_identified(s),
    ensures
        map_of(s).contains_key(k) <==> exists|i: int| 0 <= i < s.len() && (#[trigger] s[i]).id == Some(k),
    decreases s.len(),
{
    if s.len() > 0 {
        let t = s.drop_last();
        assert forall|i: int| 0 <= i < t.len() implies (#[trigger] t[i]).id is Some by {
            assert(t[i] == s[i]);
        }
        lemma_map_of_domain(t, k);
        if map_of(s).contains_key(k) {
            if k == s.last().id->Some_0 {
                assert(s[s.len() - 1].id == Some(k));
            } else {
                let i = choose|i: int| 0 <= i < t.len() && (#[trigger] t[i]).id == Some(k);
                assert(s[i] == t[i]);
            }
        }
        if exists|i: int| 0 <= i < s.len() && (#[trigger] s[i]).id == Some(k) {
            let i = choose|i: int| 0 <= i < s.len() && (#[trigger] s[i]).id == Some(k);
            if i < s.len() - 1 {
                assert(t[i] == s[i]);
            }
        }
    }
}

/// Under distinct identifiers, each record sits in the map under its own identifier.
pub proof fn lemma_map_of_value(s: Seq<BookView>, i: int)
    requires
        well_keyed(s),
        0 <= i < s.len(),
    ensures
        map_of(s).contains_key(s[i].id->Some_0),
        map_of(s)[s[i].id->Some_0] == s[i],
    decreases s.len(),
{
    let t = s.drop_last();
    if i < s.len() - 1 {
        assert(t[i] == s[i]);
        assert(well_keyed(t)) by {
            assert forall|a: int| 0 <= a < t.len() implies (#[trigger] t[a]).id is Some by {
                assert(t[a] == s[a]);
            }
            assert forall|a: int, b: int|
                0 <= a < t.len() && 0 <= b < t.len() && a != b implies (#[trigger] t[a]).id != (#[trigger] t[b]).id by {
                assert(t[a] == s[a] && t[b] == s[b]);
            }
        }
        lemma_map_of_value(t, i);
        assert(s[i].id != s[s.len() - 1].id);
    }
}

/// Dropping the last record keeps the sequence well keyed.
pub proof fn lemma_well_keyed_prefix(s: Seq<BookView>)
    requires
        well_keyed(s),
        s.len() > 0,
    ensures
        well_keyed(s.drop_last()),
{
    let t = s.drop_last();
    assert forall|a: int| 0 <= a < t.len() implies (#[trigger] t[a]).id is Some by {
        assert(t[a] == s[a]);
    }
    assert forall|a: int, b: int|
        0 <= a < t.len() && 0 <= b < t.len() && a != b implies (#[trigger] t[a]).id != (#[trigger] t[b]).id by {
        assert(t[a] == s[a] && t[b] == s[b]);
    }
}

/// Under distinct identifiers, the map has one key per record.
pub proof fn lemma_map_of_len(s: Seq<BookView>)
    requires
        well_keyed(s),
    ensures
        map_of(s).dom().finite(),
        map_of(s).len() == s.len(),
    decreases s.len(),
{
    if s.len() > 0 {
        let t = s.drop_last();
        lemma_well_keyed_prefix(s);
        lemma_map_of_len(t);
        let k = s.last().id->Some_0;
        lemma_map_of_domain(t, k);
        if map_of(t).contains_key(k) {
            let i = choose|i: int| 0 <= i < t.len() && (#[trigger] t[i]).id == Some(k);
            assert(s[i] == t[i]);
            assert(s[i].id == s[s.len() - 1].id);
        }
    }
}

/// Replacing a record by one with the same identifier replaces that entry of the map.
pub proof fn lemma_map_of_update(s: Seq<BookView>, i: int, v: BookView)
    requires
        well_keyed(s),
        0 <= i < s.len(),
        v.id == s[i].id,
    ensures
        well_keyed(s.update(i, v)),
        map_of(s.update(i, v)) == map_of(s).insert(s[i].id->Some_0, v),
    decreases s.len(),
{
    let u = s.update(i, v);
    assert(well_keyed(u)) by {
        assert forall|a: int, b: int|
            0 <= a < u.len() && 0 <= b < u.len() && a != b implies (#[trigger] u[a]).id != (#[trigger] u[b]).id by {
            assert(u[a].id == s[a].id && u[b].id == s[b].id);
        }
    }
    let t = s.drop_last();
    let k = s[i].id->Some_0;
    if i == s.len() - 1 {
        assert(u.drop_last() =~= t);
        assert(map_of(u) =~= map_of(s).insert(k, v));
    } else {
        lemma_well_keyed_prefix(s);
        assert(t[i] == s[i]);
        lemma_map_of_update(t, i, v);
        assert(u.drop_last() =~= t.update(i, v));
        assert(s[i].id != s[s.len() - 1].id);
        assert(map_of(u) =~= map_of(s).insert(k, v));
    }
}

/// Removing a record removes its identifier from the map.
pub proof fn lemma_map_of_remove(s: Seq<BookView>, i: int)
    requires
        well_keyed(s),
        0 <= i < s.len(),
    ensures
        well_keyed(s.remove(i)),
        map_of(s.remove(i)) == map_of(s).remove(s[i].id->Some_0),
    decreases s.len(),
{
    let r = s.remove(i);
    assert(well_keyed(r)) by {
        assert forall|a: int| 0 <= a < r.len() implies (#[trigger] r[a]).id is Some by {
            if a < i {
                assert(r[a] == s[a]);
            } else {
                assert(r[a] == s[a + 1]);
            }
        }
        assert forall|a: int, b: int|
            0 <= a < r.len() && 0 <= b < r.len() && a != b implies (#[trigger] r[a]).id != (#[trigger] r[b]).id by {
            let sa = if a < i { a } else { a + 1 };
            let sb = if b < i { b } else { b + 1 };
            assert(r[a] == s[sa] && r[b] == s[sb]);
        }
    }
    let t = s.drop_last();
    let k = s[i].id->Some_0;
    lemma_well_keyed_prefix(s);
    if i == s.len() - 1 {
        assert(r =~= t);
        lemma_map_of_domain(t, k);
        if map_of(t).contains_key(k) {
            let j = choose|j: int| 0 <= j < t.len() && (#[trigger] t[j]).id == Some(k);
            assert(s[j] == t[j]);
        }
        assert(map_of(r) =~= map_of(s).remove(k));
    } else {
        assert(t[i] == s[i]);
        lemma_map_of_remove(t, i);
        assert(r.drop_last() =~= t.remove(i));
        assert(r.last() == s.last());
        assert(s[i].id != s[s.len() - 1].id);
        assert(map_of(r) =~= map_of(s).remove(k));
    }
}

/// Appending a record under a new identifier adds that entry to the map.
pub proof fn lemma_map_of_push(s: Seq<BookView>, v: BookView)
    requires
        well_keyed(s),
        v.id is Some,
        !map_of(s).contains_key(v.id->Some_0),
    ensures
        well_keyed(s.push(v)),
        map_of(s.push(v)) == map_of(s).insert(v.id->Some_0, v),
{
    let p = s.push(v);
    assert(p.drop_last() =~= s);
    assert(well_keyed(p)) by {
        assert forall|a: int| 0 <= a < p.len() implies (#[trigger] p[a]).id is Some by {
            if a < s.len() {
                assert(p[a] == s[a]);
            }
        }
        assert forall|a: int, b: int|
            0 <= a < p.len() && 0 <= b < p.len() && a != b implies (#[trigger] p[a]).id != (#[trigger] p[b]).id by {
            if a == s.len() || b == s.len() {
                let c = if a == s.len() { b } else { a };
                assert(p[c] == s[c]);
                lemma_map_of_domain(s, v.id->Some_0);
            } else {
                assert(p[a] == s[a] && p[b] == s[b]);
            }
        }
    }
}

} // verus!
