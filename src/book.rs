use vstd::prelude::*;

verus! {

/// Identifier of a book, assigned by the library that holds it.
pub type BookId = u16;

/// The mathematical content of a [`Book`].
pub struct BookView {
    pub id: BookId,
    pub title: Seq<char>,
    pub author: Seq<char>,
    pub year: u16,
    pub available: bool,
}

/// One catalog entry: identity, descriptive fields and whether it can be lent.
pub struct Book {
    book_id: BookId,
    title: String,
    author: String,
    year: u16,
    available: bool,
}

impl View for Book {
    type V = BookView;

    closed spec fn view(&self) -> BookView {
        BookView {
            id: self.book_id,
            title: self.title@,
            author: self.author@,
            year: self.year,
            available: self.available,
        }
    }
}

impl Book {
    /// A new record, available for lending.
    pub fn new(book_id: BookId, title: String, author: String, year: u16) -> (r: Book)
        ensures
            r@ == (BookView { id: book_id, title: title@, author: author@, year, available: true }),
    {
        Book { book_id, title, author, year, available: true }
    }

    pub fn id(&self) -> (r: BookId)
        ensures
            r == self@.id,
    {
        self.book_id
    }

    pub fn title(&self) -> (r: &String)
        ensures
            r@ == self@.title,
    {
        &self.title
    }

    pub fn author(&self) -> (r: &String)
        ensures
            r@ == self@.author,
    {
        &self.author
    }

    pub fn year(&self) -> (r: u16)
        ensures
            r == self@.year,
    {
        self.year
    }

    pub fn is_available(&self) -> (r: bool)
        ensures
            r == self@.available,
    {
        self.available
    }

    /// Marks the book as lent out, whatever its state was.
    pub fn borrow_book(&mut self)
        ensures
            final(self)@ == (BookView { available: false, ..old(self)@ }),
    {
        self.available = false;
    }

    /// Marks the book as back on the shelf, whatever its state was.
    pub fn return_book(&mut self)
        ensures
            final(self)@ == (BookView { available: true, ..old(self)@ }),
    {
        self.available = true;
    }
}

} // verus!
