use vstd::prelude::*;

use crate::entity::BookView;
use crate::repository::{added, keyed, lists, lookup, not_found, not_found_message, updated};

verus! {

/// A record just added is found under the identifier it was given, exactly as the add
/// returned it.
pub proof fn lemma_add_then_find(m: Map<Seq<char>, BookView>, id: Seq<char>, book: BookView)
    ensures
        lookup(added(m, id, book), id) == Ok::<BookView, crate::error::SocketErrorView>(book.with_id(id)),
{
}

/// Two listings of one store hold the same records.
pub proof fn lemma_listing_stable(m: Map<Seq<char>, BookView>, s1: Seq<BookView>, s2: Seq<BookView>)
    requires
        lists(m, s1),
        lists(m, s2),
    ensures
        s1.len() == s2.len(),
        forall|b: BookView| s1.contains(b) <==> s2.contains(b),
{
    assert forall|b: BookView| s1.contains(b) implies s2.contains(b) by {
        let i = choose|i: int| 0 <= i < s1.len() && s1[i] == b;
        let k = s1[i].id->Some_0;
        assert(m.contains_key(k));
        let j = choose|j: int| 0 <= j < s2.len() && (#[trigger] s2[j]).id == Some(k);
        assert(s2[j] == b);
    }
    assert forall|b: BookView| s2.contains(b) implies s1.contains(b) by {
        let i = choose|i: int| 0 <= i < s2.len() && s2[i] == b;
        let k = s2[i].id->Some_0;
        assert(m.contains_key(k));
        let j = choose|j: int| 0 <= j < s1.len() && (#[trigger] s1[j]).id == Some(k);
        assert(s1[j] == b);
    }
}

/// On an identifier that no record has, lookup, update and delete all fail with the
/// not-found error, whose message holds that identifier, and change nothing.
pub proof fn lemma_absent_id(m: Map<Seq<char>, BookView>, id: Seq<char>, book: BookView)
    requires
        !m.contains_key(id),
    ensures
        lookup(m, id) == Err::<BookView, _>(not_found(id)),
        updated(m, id, book) == m,
        lookup(updated(m, id, book), id) == Err::<BookView, _>(not_found(id)),
        m.remove(id) == m,
        not_found_message(id).subrange(14, 14 + id.len() as int) == id,
{
    assert(m.remove(id) =~= m);
    reveal_strlit("Book with id: ");
    reveal_strlit(" not found");
    assert(not_found_message(id).subrange(14, 14 + id.len() as int) =~= id);
}

/// An update keeps the record's identifier, takes every other field from the new
/// record, and keeps the number of records.
pub proof fn lemma_update_keeps_identity(m: Map<Seq<char>, BookView>, id: Seq<char>, book: BookView)
    requires
        keyed(m),
        m.dom().finite(),
        m.contains_key(id),
    ensures
        lookup(updated(m, id, book), id) is Ok,
        updated(m, id, book)[id].id == Some(id),
        updated(m, id, book)[id].title == book.title,
        updated(m, id, book)[id].author == book.author,
        updated(m, id, book)[id].year == book.year,
        updated(m, id, book).len() == m.len(),
{
    assert(updated(m, id, book).dom() =~= m.dom());
}

/// A successful delete removes exactly one record, and its identifier is then not found.
pub proof fn lemma_delete_shrinks(m: Map<Seq<char>, BookView>, id: Seq<char>)
    requires
        m.dom().finite(),
        m.contains_key(id),
    ensures
        m.remove(id).len() == m.len() - 1,
        lookup(m.remove(id), id) == Err::<BookView, _>(not_found(id)),
{
}

/// The store after adding `books[i]` under `ids[i]`, one after the other, in order.
pub open spec fn added_all(m: Map<Seq<char>, BookView>, ids: Seq<Seq<char>>, books: Seq<BookView>) -> Map<
    Seq<char>,
    BookView,
>
    decreases ids.len(),
{
    if ids.len() == 0 {
        m
    } else {
        added(added_all(m, ids.drop_last(), books), ids.last(), books[ids.len() - 1])
    }
}

/// Adds performed one at a time on an empty store, under pairwise distinct identifiers,
/// leave as many records as there were adds, each under its own identifier.
pub proof fn lemma_serialized_adds(ids: Seq<Seq<char>>, books: Seq<BookView>)
    requires
        ids.len() == books.len(),
        ids.no_duplicates(),
    ensures
        added_all(Map::empty(), ids, books).dom().finite(),
        added_all(Map::empty(), ids, books).len() == ids.len(),
        forall|i: int|
            0 <= i < ids.len() ==> #[trigger] added_all(Map::empty(), ids, books).contains_key(ids[i])
                && added_all(Map::empty(), ids, books)[ids[i]] == books[i].with_id(ids[i]),
    decreases ids.len(),
{
    if ids.len() > 0 {
        let n = ids.len() - 1;
        let prefix = ids.drop_last();
        let before = added_all(Map::empty(), prefix, books);
        lemma_serialized_adds(prefix, books.take(n));
        lemma_added_all_prefix(prefix, books);
        assert forall|i: int| 0 <= i < n implies #[trigger] before.contains_key(prefix[i]) && before[prefix[i]]
            == books[i].with_id(prefix[i]) by {
            assert(books.take(n)[i] == books[i]);
        }
        assert(!before.contains_key(ids[n])) by {
            assert forall|k: Seq<char>| before.contains_key(k) implies k != ids[n] by {
                lemma_added_all_domain(prefix, books.take(n), k);
                let i = choose|i: int| 0 <= i < prefix.len() && prefix[i] == k;
                assert(ids[i] == prefix[i]);
            }
        }
        assert forall|i: int| 0 <= i < ids.len() implies #[trigger] added_all(Map::empty(), ids, books).contains_key(
            ids[i],
        ) && added_all(Map::empty(), ids, books)[ids[i]] == books[i].with_id(ids[i]) by {
            if i < n {
                assert(prefix[i] == ids[i]);
            }
        }
    }
}

proof fn lemma_added_all_prefix(ids: Seq<Seq<char>>, books: Seq<BookView>)
    requires
        ids.len() <= books.len(),
    ensures
        added_all(Map::empty(), ids, books) == added_all(Map::empty(), ids, books.take(ids.len() as int)),
    decreases ids.len(),
{
    if ids.len() > 0 {
        let n = ids.len() - 1;
        lemma_added_all_prefix(ids.drop_last(), books);
        lemma_added_all_prefix(ids.drop_last(), books.take(ids.len() as int));
        assert(books.take(ids.len() as int).take(n) =~= books.take(n));
    }
}

proof fn lemma_added_all_domain(ids: Seq<Seq<char>>, books: Seq<BookView>, k: Seq<char>)
    ensures
        added_all(Map::empty(), ids, books).contains_key(k) ==> exists|i: int| 0 <= i < ids.len() && ids[i] == k,
    decreases ids.len(),
{
    if ids.len() > 0 {
        lemma_added_all_domain(ids.drop_last(), books, k);
        if added_all(Map::empty(), ids.drop_last(), books).contains_key(k) {
            let i = choose|i: int| 0 <= i < ids.len() - 1 && ids.drop_last()[i] == k;
            assert(ids[i] == k);
        } else if added_all(Map::empty(), ids, books).contains_key(k) {
            assert(ids[ids.len() - 1] == k);
        }
    }
}

} // verus!
