use vstd::prelude::*;
use vstd::string::*;

use crate::entity::{Book, BookView};
use crate::error::code::NOT_FOUND;
use crate::error::{SocketError, SocketErrorView};
use crate::ident::timestamp_id;
use crate::entity::copy_string;
use crate::model::{
    ids_distinct, lemma_map_of_domain, lemma_map_of_len, lemma_map_of_push, lemma_map_of_remove,
    lemma_map_of_update, lemma_map_of_value, map_of, well_keyed,
};

verus! {

/// The view of a sequence of books, record by record.
pub open spec fn views(v: Seq<Book>) -> Seq<BookView> {
    v.map_values(|b: Book| b@)
}

/// The message of the error for an identifier that no record has.
pub open spec fn not_found_message(id: Seq<char>) -> Seq<char> {
    "Book with id: "@ + id + " not found"@
}

/// The error for an identifier that no record has.
pub open spec fn not_found(id: Seq<char>) -> SocketErrorView {
    SocketErrorView { code: NOT_FOUND, message: not_found_message(id) }
}

/// Every record of the store sits under its own identifier.
pub open spec fn keyed(m: Map<Seq<char>, BookView>) -> bool {
    forall|k: Seq<char>| #[trigger] m.contains_key(k) ==> m[k].id == Some(k)
}

/// The outcome of looking an identifier up in a store.
pub open spec fn lookup(m: Map<Seq<char>, BookView>, id: Seq<char>) -> Result<BookView, SocketErrorView> {
    if m.contains_key(id) {
        Ok(m[id])
    } else {
        Err(not_found(id))
    }
}

/// The store after adding `book` under the identifier `id`.
pub open spec fn added(m: Map<Seq<char>, BookView>, id: Seq<char>, book: BookView) -> Map<Seq<char>, BookView> {
    m.insert(id, book.with_id(id))
}

/// The store after overwriting the record of `id`, if there is one, with the fields of `book`.
pub open spec fn updated(m: Map<Seq<char>, BookView>, id: Seq<char>, book: BookView) -> Map<Seq<char>, BookView> {
    if m.contains_key(id) {
        m.insert(id, m[id].overwritten_by(book))
    } else {
        m
    }
}

/// `s` lists the records of the store `m`, each once, in some order.
pub open spec fn lists(m: Map<Seq<char>, BookView>, s: Seq<BookView>) -> bool {
    &&& s.len() == m.len()
    &&& forall|i: int|
        0 <= i < s.len() ==> (#[trigger] s[i]).id is Some && m.contains_key(s[i].id->Some_0) && m[s[i].id->Some_0] == s[i]
    &&& forall|k: Seq<char>| #[trigger] m.contains_key(k) ==> exists|i: int| 0 <= i < s.len() && (#[trigger] s[i]).id == Some(k)
    &&& ids_distinct(s)
}

/// The view of the result of a store operation.
pub open spec fn result_view(r: Result<Book, SocketError>) -> Result<BookView, SocketErrorView> {
    match r {
        Ok(b) => Ok(b@),
        Err(e) => Err(e@),
    }
}

/// The in-memory store of books, keyed by identifier.
pub struct BooksRepository {
    books: Vec<Book>,
}

impl View for BooksRepository {
    type V = Map<Seq<char>, BookView>;

    closed spec fn view(&self) -> Map<Seq<char>, BookView> {
        map_of(views(self.books@))
    }
}

/// The error for an identifier that no record has.
fn not_found_error(id: &String) -> (r: SocketError)
    ensures
        r@ == not_found(id@),
{
    let message = String::from_str("Book with id: ").concat(id.as_str()).concat(" not found");
    SocketError { code: NOT_FOUND, message }
}

impl BooksRepository {
    /// The store's internal invariant: records carry distinct identifiers.
    pub closed spec fn wf(&self) -> bool {
        well_keyed(views(self.books@))
    }

    /// A well-formed store keeps each record under its own identifier, and is finite.
    pub proof fn lemma_wf_keyed(&self)
        requires
            self.wf(),
        ensures
            keyed(self@),
            self@.dom().finite(),
    {
        let s = views(self.books@);
        lemma_map_of_len(s);
        assert forall|k: Seq<char>| #[trigger] self@.contains_key(k) implies self@[k].id == Some(k) by {
            lemma_map_of_domain(s, k);
            let i = choose|i: int| 0 <= i < s.len() && (#[trigger] s[i]).id == Some(k);
            lemma_map_of_value(s, i);
        }
    }

    /// An empty store.
    pub fn new() -> (r: Self)
        ensures
            r.wf(),
            r@ == Map::<Seq<char>, BookView>::empty(),
    {
        let r = BooksRepository { books: Vec::new() };
        assert(views(r.books@) =~= Seq::<BookView>::empty());
        r
    }

    /// The index of the record with identifier `id`, if there is one.
    fn position(&self, id: &String) -> (r: Option<usize>)
        requires
            self.wf(),
        ensures
            match r {
                Some(i) => i < self.books@.len() && self.books@[i as int]@.id == Some(id@),
                None => !self@.contains_key(id@),
            },
    {
        let ghost s = views(self.books@);
        let mut i: usize = 0;
        while i < self.books.len()
            invariant
                s == views(self.books@),
                i <= self.books@.len(),
                forall|j: int| 0 <= j < i ==> (#[trigger] s[j]).id != Some(id@),
            decreases self.books@.len() - i,
        {
            let found = match &self.books[i].id {
                Some(k) => *k == *id,
                None => false,
            };
            if found {
                return Some(i);
            }
            i += 1;
        }
        proof {
            lemma_map_of_domain(s, id@);
        }
        None
    }

    /// Stores `entity` under the identifier `id`, replacing any record that has it,
    /// and returns the stored record.
    pub fn add_with_id(&mut self, id: String, entity: Book) -> (r: Book)
        requires
            old(self).wf(),
        ensures
            final(self).wf(),
            r@ == entity@.with_id(id@),
            final(self)@ == added(old(self)@, id@, entity@),
    {
        let pos = self.position(&id);
        let stored = Book { id: Some(id), ..entity };
        let ghost s = views(self.books@);
        match pos {
            Some(i) => {
                self.books.set(i, stored.duplicate());
                proof {
                    assert(views(self.books@) =~= s.update(i as int, stored@));
                    lemma_map_of_update(s, i as int, stored@);
                }
            },
            None => {
                self.books.push(stored.duplicate());
                proof {
                    assert(views(self.books@) =~= s.push(stored@));
                    lemma_map_of_push(s, stored@);
                }
            },
        }
        stored
    }

    /// Stores `entity` under a fresh identifier made from the current time, and returns
    /// the stored record. An identifier that a record already has replaces that record.
    pub fn add(&mut self, entity: Book) -> (r: Book)
        requires
            old(self).wf(),
        ensures
            final(self).wf(),
            r@.id is Some,
            r@ == entity@.with_id(r@.id->Some_0),
            final(self)@ == added(old(self)@, r@.id->Some_0, entity@),
    {
        let id = timestamp_id();
        self.add_with_id(id, entity)
    }

    /// All records of the store, each once, in no promised order.
    pub fn find_all(&self) -> (r: Vec<Book>)
        requires
            self.wf(),
        ensures
            lists(self@, views(r@)),
    {
        let ghost s = views(self.books@);
        let mut out: Vec<Book> = Vec::new();
        let mut i: usize = 0;
        while i < self.books.len()
            invariant
                s == views(self.books@),
                i <= self.books@.len(),
                views(out@) =~= s.take(i as int),
            decreases self.books@.len() - i,
        {
            let ghost prev = out@;
            let b = self.books[i].duplicate();
            out.push(b);
            proof {
                assert(views(out@) =~= views(prev).push(b@));
                assert(s.take(i + 1) =~= s.take(i as int).push(s[i as int]));
            }
            i += 1;
        }
        proof {
            assert(s.take(i as int) =~= s);
            let m = self@;
            lemma_map_of_len(s);
            assert forall|j: int| 0 <= j < s.len() implies (#[trigger] s[j]).id is Some && m.contains_key(
                s[j].id->Some_0,
            ) && m[s[j].id->Some_0] == s[j] by {
                lemma_map_of_value(s, j);
            }
            assert forall|k: Seq<char>| #[trigger] m.contains_key(k) implies exists|j: int|
                0 <= j < s.len() && (#[trigger] s[j]).id == Some(k) by {
                lemma_map_of_domain(s, k);
            }
        }
        out
    }

    /// The record with identifier `id`, or the not-found error for `id`.
    pub fn find_by_id(&self, id: String) -> (r: Result<Book, SocketError>)
        requires
            self.wf(),
        ensures
            result_view(r) == lookup(self@, id@),
    {
        match self.position(&id) {
            Some(i) => {
                proof {
                    lemma_map_of_value(views(self.books@), i as int);
                }
                Ok(self.books[i].duplicate())
            },
            None => Err(not_found_error(&id)),
        }
    }

    /// Overwrites the title, author and year of the record with identifier `id` by those
    /// of `entity`, keeping its identifier, and returns the record as now stored; the
    /// not-found error for `id` where no record has it.
    pub fn update(&mut self, id: String, entity: Book) -> (r: Result<Book, SocketError>)
        requires
            old(self).wf(),
        ensures
            final(self).wf(),
            final(self)@ == updated(old(self)@, id@, entity@),
            result_view(r) == lookup(final(self)@, id@),
    {
        match self.position(&id) {
            Some(i) => {
                let ghost s = views(self.books@);
                proof {
                    lemma_map_of_value(s, i as int);
                }
                let kept = match &self.books[i].id {
                    Some(k) => Some(copy_string(k)),
                    None => None,
                };
                let book = Book { id: kept, title: entity.title, author: entity.author, year: entity.year };
                self.books.set(i, book.duplicate());
                proof {
                    assert(views(self.books@) =~= s.update(i as int, book@));
                    lemma_map_of_update(s, i as int, book@);
                    assert(book@ == s[i as int].overwritten_by(entity@));
                }
                Ok(book)
            },
            None => Err(not_found_error(&id)),
        }
    }

    /// Removes the record with identifier `id` and returns it; the not-found error for
    /// `id` where no record has it.
    pub fn delete(&mut self, id: String) -> (r: Result<Book, SocketError>)
        requires
            old(self).wf(),
        ensures
            final(self).wf(),
            final(self)@ == old(self)@.remove(id@),
            result_view(r) == lookup(old(self)@, id@),
    {
        match self.position(&id) {
            Some(i) => {
                let ghost s = views(self.books@);
                proof {
                    lemma_map_of_value(s, i as int);
                }
                let book = self.books.remove(i);
                proof {
                    assert(views(self.books@) =~= s.remove(i as int));
                    lemma_map_of_remove(s, i as int);
                }
                Ok(book)
            },
            None => {
                assert(old(self)@.remove(id@) =~= old(self)@);
                Err(not_found_error(&id))
            },
        }
    }
}

} // verus!
