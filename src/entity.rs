use vstd::prelude::*;

verus! {

/// A stored record: a book with an identifier assigned by the store.
#[derive(Clone, Debug)]
pub struct Book {
    pub id: Option<String>,
    pub title: String,
    pub author: String,
    pub year: u32,
}

/// The mathematical value of a [`Book`].
pub struct BookView {
    pub id: Option<Seq<char>>,
    pub title: Seq<char>,
    pub author: Seq<char>,
    pub year: u32,
}

/// The characters of an optional identifier.
pub open spec fn id_view(id: &Option<String>) -> Option<Seq<char>> {
    match id {
        Some(s) => Some(s@),
        None => None,
    }
}

impl View for Book {
    type V = BookView;

    open spec fn view(&self) -> BookView {
        BookView { id: id_view(&self.id), title: self.title@, author: self.author@, year: self.year }
    }
}

impl BookView {
    /// The same fields under another identifier.
    pub open spec fn with_id(self, id: Seq<char>) -> BookView {
        BookView { id: Some(id), ..self }
    }

    /// The domain fields of `other` under this record's identifier.
    pub open spec fn overwritten_by(self, other: BookView) -> BookView {
        BookView { id: self.id, ..other }
    }
}

/// Copies a string, keeping its characters.
pub fn copy_string(s: &String) -> (r: String)
    ensures
        r@ == s@,
{
    s.clone()
}

impl Book {
    /// A copy of the record, field for field.
    pub fn duplicate(&self) -> (r: Book)
        ensures
            r@ == self@,
    {
        let id = match &self.id {
            Some(s) => Some(copy_string(s)),
            None => None,
        };
        Book { id, title: copy_string(&self.title), author: copy_string(&self.author), year: self.year }
    }
}

} // verus!
