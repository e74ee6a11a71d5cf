use std::collections::HashMap;
use vstd::prelude::*;
use vstd::std_specs::iter::IteratorSpec;

use crate::book::{Book, BookId, BookView};

verus! {

broadcast use vstd::std_specs::hash::group_hash_axioms;

/// Why a borrow or a return by identifier was refused.
#[derive(Clone, Copy, Debug, PartialEq, Eq, Structural)]
pub enum LendError {
    /// No live book has that identifier.
    NotFound,
    /// The book is already lent out.
    Unavailable,
    /// The book is on the shelf, so there is nothing to return.
    NotBorrowed,
}

/// A text field of a book that a search can match on.
#[derive(Clone, Copy, Debug, PartialEq, Eq, Structural)]
pub enum BookField {
    Title,
    Author,
}

/// The value of `field` in `b`.
pub open spec fn field_of(b: BookView, field: BookField) -> Seq<char> {
    match field {
        BookField::Title => b.title,
        BookField::Author => b.author,
    }
}

/// Whether a book passes a search criterion; no criterion passes every book.
pub open spec fn passes(criterion: Option<(BookField, &String)>, b: BookView) -> bool {
    match criterion {
        Some((field, value)) => field_of(b, field) == value@,
        None => true,
    }
}

/// An add of one title of the demonstration catalog.
pub open spec fn demo_add(title: Seq<char>, year: u16) -> LibraryOp {
    LibraryOp::Add { title, author: "Jo Nesbø"@, year }
}

/// The books that a listing hands out, as values.
pub open spec fn listed(r: Seq<&Book>) -> Seq<BookView> {
    r.map_values(|b: &Book| b@)
}

/// The mathematical content of a [`Library`]: the counter that the next
/// identifier comes from, and the live books by identifier.
pub struct LibraryView {
    pub next_id: nat,
    pub books: Map<BookId, BookView>,
}

/// One mutating operation on a library, as a value.
pub enum LibraryOp {
    Add { title: Seq<char>, author: Seq<char>, year: u16 },
    Remove { id: BookId },
    Borrow { id: BookId },
    Return { id: BookId },
}

impl LibraryView {
    /// Every stored book sits under its own identifier, every identifier is
    /// below the counter, and the counter fits an identifier.
    pub open spec fn is_consistent(self) -> bool {
        &&& self.next_id <= u16::MAX
        &&& forall|k: BookId| #[trigger]
            self.books.contains_key(k) ==> k < self.next_id && self.books[k].id == k
    }

    /// A live book has identifier `id`.
    pub open spec fn holds(self, id: BookId) -> bool {
        self.books.contains_key(id)
    }

    /// The book under `id` is live and on the shelf.
    pub open spec fn is_lendable(self, id: BookId) -> bool {
        self.holds(id) && self.books[id].available
    }

    /// The book under `id` is live and lent out.
    pub open spec fn is_lent(self, id: BookId) -> bool {
        self.holds(id) && !self.books[id].available
    }

    /// `r` holds each live book that `keep` accepts exactly once, as it is
    /// stored, and nothing else.
    pub open spec fn lists_exactly(self, r: Seq<BookView>, keep: spec_fn(BookView) -> bool) -> bool {
        &&& forall|i: int| #![trigger r[i]]
            0 <= i < r.len() ==> self.holds(r[i].id) && r[i] == self.books[r[i].id] && keep(r[i])
        &&& forall|k: BookId| #![trigger self.books[k]]
            self.holds(k) && keep(self.books[k]) ==> exists|i: int| 0 <= i < r.len() && r[i].id == k
        &&& forall|i: int, j: int| 0 <= i < j < r.len() ==> r[i].id != r[j].id
    }

    /// The book that an `Add` stores.
    pub open spec fn fresh_book(self, title: Seq<char>, author: Seq<char>, year: u16) -> BookView {
        BookView { id: self.next_id as BookId, title, author, year, available: true }
    }

    /// The state after `op`; a refused borrow or return leaves it unchanged.
    pub open spec fn apply(self, op: LibraryOp) -> LibraryView {
        match op {
            LibraryOp::Add { title, author, year } => LibraryView {
                next_id: self.next_id + 1,
                books: self.books.insert(
                    self.next_id as BookId,
                    self.fresh_book(title, author, year),
                ),
            },
            LibraryOp::Remove { id } => LibraryView { books: self.books.remove(id), ..self },
            LibraryOp::Borrow { id } => if self.is_lendable(id) {
                LibraryView {
                    books: self.books.insert(id, BookView { available: false, ..self.books[id] }),
                    ..self
                }
            } else {
                self
            },
            LibraryOp::Return { id } => if self.is_lent(id) {
                LibraryView {
                    books: self.books.insert(id, BookView { available: true, ..self.books[id] }),
                    ..self
                }
            } else {
                self
            },
        }
    }

    /// The state after the operations of `ops`, in order.
    pub open spec fn apply_all(self, ops: Seq<LibraryOp>) -> LibraryView
        decreases ops.len(),
    {
        if ops.len() == 0 {
            self
        } else {
            self.apply(ops[0]).apply_all(ops.drop_first())
        }
    }

    /// The identifiers that the adds among `ops` return, in order.
    pub open spec fn issued_ids(self, ops: Seq<LibraryOp>) -> Seq<nat>
        decreases ops.len(),
    {
        if ops.len() == 0 {
            Seq::empty()
        } else {
            let rest = self.apply(ops[0]).issued_ids(ops.drop_first());
            match ops[0] {
                LibraryOp::Add { .. } => seq![self.next_id] + rest,
                _ => rest,
            }
        }
    }

    /// The state after the demonstration catalog has been added.
    pub open spec fn with_demo_books(self) -> LibraryView {
        self.apply(demo_add("Snømannen"@, 2007))
            .apply(demo_add("Panserhjerte"@, 2009))
            .apply(demo_add("Gjenferd"@, 2011))
            .apply(demo_add("Politi"@, 2013))
            .apply(demo_add("Tørst"@, 2017))
            .apply(demo_add("Kniv"@, 2019))
            .apply(demo_add("Blodmåne"@, 2022))
    }

    /// What a borrow of `id` answers.
    pub open spec fn borrow_outcome(self, id: BookId) -> Result<(), LendError> {
        if !self.holds(id) {
            Err(LendError::NotFound)
        } else if !self.books[id].available {
            Err(LendError::Unavailable)
        } else {
            Ok(())
        }
    }

    /// What a return of `id` answers.
    pub open spec fn return_outcome(self, id: BookId) -> Result<(), LendError> {
        if !self.holds(id) {
            Err(LendError::NotFound)
        } else if self.books[id].available {
            Err(LendError::NotBorrowed)
        } else {
            Ok(())
        }
    }
}

/// An owning collection of books under identifiers that are never reused.
pub struct Library {
    id_counter: BookId,
    books: HashMap<BookId, Book>,
}

impl View for Library {
    type V = LibraryView;

    closed spec fn view(&self) -> LibraryView {
        LibraryView {
            next_id: self.id_counter as nat,
            books: self.books@.map_values(|b: Book| b@),
        }
    }
}

impl Library {
    /// The library's view is consistent; every operation keeps it so.
    pub open spec fn wf(&self) -> bool {
        self@.is_consistent()
    }

    /// An empty library whose first identifier is zero.
    pub fn new() -> (r: Library)
        ensures
            r.wf(),
            r@.next_id == 0,
            r@.books == Map::<BookId, BookView>::empty(),
    {
        let r = Library { id_counter: 0, books: HashMap::new() };
        assert(r@.books =~= Map::<BookId, BookView>::empty());
        r
    }

    /// The identifier that the next added book gets.
    pub fn next_id(&self) -> (r: BookId)
        ensures
            r == self@.next_id,
    {
        self.id_counter
    }

    /// Stores a new available book under the next identifier and returns
    /// that identifier.
    pub fn add_book(&mut self, title: String, author: String, year: u16) -> (r: BookId)
        requires
            old(self).wf(),
            old(self)@.next_id < u16::MAX,
        ensures
            final(self).wf(),
            r == old(self)@.next_id,
            final(self)@ == old(self)@.apply(LibraryOp::Add { title: title@, author: author@, year }),
    {
        let id: BookId = self.id_counter;
        let book = Book::new(id, title, author, year);
        self.books.insert(id, book);
        self.id_counter = self.id_counter + 1;
        let ghost added = old(self)@.apply(LibraryOp::Add { title: title@, author: author@, year });
        assert(self@.books =~= added.books);
        id
    }

    /// Adds the seven titles of the demonstration catalog, in order of year.
    pub fn fill_with_books(&mut self)
        requires
            old(self).wf(),
            old(self)@.next_id + 7 <= u16::MAX,
        ensures
            final(self).wf(),
            final(self)@ == old(self)@.with_demo_books(),
    {
        self.add_book("Snømannen".to_string(), "Jo Nesbø".to_string(), 2007);
        self.add_book("Panserhjerte".to_string(), "Jo Nesbø".to_string(), 2009);
        self.add_book("Gjenferd".to_string(), "Jo Nesbø".to_string(), 2011);
        self.add_book("Politi".to_string(), "Jo Nesbø".to_string(), 2013);
        self.add_book("Tørst".to_string(), "Jo Nesbø".to_string(), 2017);
        self.add_book("Kniv".to_string(), "Jo Nesbø".to_string(), 2019);
        self.add_book("Blodmåne".to_string(), "Jo Nesbø".to_string(), 2022);
    }

    /// Deletes the book under `id`; answers whether there was one.
    pub fn remove_book(&mut self, id: BookId) -> (r: bool)
        requires
            old(self).wf(),
        ensures
            final(self).wf(),
            r == old(self)@.holds(id),
            final(self)@ == old(self)@.apply(LibraryOp::Remove { id }),
    {
        let removed = self.books.remove(&id);
        assert(self@.books =~= old(self)@.books.remove(id));
        removed.is_some()
    }

    /// The number of live books.
    pub fn count(&self) -> (r: usize)
        ensures
            r == self@.books.len(),
    {
        assert(self@.books.dom() =~= self.books@.dom());
        self.books.len()
    }

    /// The live books that pass `criterion`, each once.
    fn books_passing(&self, criterion: Option<(BookField, &String)>) -> (r: Vec<&Book>)
        requires
            self.wf(),
        ensures
            self@.lists_exactly(listed(r@), |b: BookView| passes(criterion, b)),
    {
        let mut r: Vec<&Book> = Vec::new();
        let ghost mut pos: Seq<int> = Seq::empty();
        let entries = self.books.iter();
        let ghost all = entries.remaining();
        for item in it: entries
            invariant
                self.wf(),
                it.seq() == all,
                all == vstd::std_specs::hash::spec_hash_map_iter(&self.books).remaining(),
                pos.len() == r.len(),
                forall|i: int| #![trigger pos[i]]
                    0 <= i < r.len() ==> 0 <= pos[i] < it.index() && r@[i] == it.seq()[pos[i]].1,
                forall|i: int, j: int| 0 <= i < j < r.len() ==> pos[i] < pos[j],
                forall|i: int| #![trigger r@[i]]
                    0 <= i < r.len() ==> passes(criterion, r@[i]@),
                forall|j: int| #![trigger it.seq()[j]]
                    0 <= j < it.index() && passes(criterion, it.seq()[j].1@)
                        ==> exists|i: int| 0 <= i < r.len() && pos[i] == j,
        {
            let ghost idx = it.index();
            let ghost old_pos = pos;
            let ghost old_len = r.len();
            let (_, b) = item;
            let hit = match criterion {
                Some((BookField::Title, value)) => *b.title() == *value,
                Some((BookField::Author, value)) => *b.author() == *value,
                None => true,
            };
            if hit {
                proof {
                    pos = pos.push(idx);
                }
                r.push(b);
            }
            proof {
                assert forall|j: int| #![trigger it.seq()[j]]
                    0 <= j <= idx && passes(criterion, it.seq()[j].1@)
                        implies exists|i: int| 0 <= i < r.len() && pos[i] == j by {
                    if j < idx {
                        let i = choose|i: int| 0 <= i < old_len && old_pos[i] == j;
                        assert(pos[i] == j);
                    } else {
                        assert(pos[old_len as int] == j);
                    }
                }
            }
        }
        proof {
            let v = self@;
            let rv = listed(r@);
            assert forall|i: int| #![trigger rv[i]] 0 <= i < rv.len() implies v.holds(rv[i].id)
                && rv[i] == v.books[rv[i].id] && passes(criterion, rv[i]) by {
                let k = *all[pos[i]].0;
                assert(self.books@.contains_key(k));
                assert(v.books[k] == rv[i]);
            }
            assert forall|k: BookId| #![trigger v.books[k]]
                v.holds(k) && passes(criterion, v.books[k])
                    implies exists|i: int| 0 <= i < rv.len() && rv[i].id == k by {
                assert(self.books@.contains_key(k));
                assert(all.contains((&k, &self.books@[k])));
                let j = choose|j: int| 0 <= j < all.len() && all[j] == (&k, &self.books@[k]);
                assert(passes(criterion, all[j].1@));
                let i = choose|i: int| 0 <= i < r.len() && pos[i] == j;
                assert(rv[i].id == k);
            }
            assert forall|i: int, j: int| 0 <= i < j < rv.len() implies rv[i].id != rv[j].id by {
                let ki = *all[pos[i]].0;
                let kj = *all[pos[j]].0;
                assert(v.books[ki].id == ki);
                assert(v.books[kj].id == kj);
                if ki == kj {
                    assert(all[pos[i]] == all[pos[j]]);
                }
            }
        }
        r
    }

    /// The live books whose title equals `title` character for character,
    /// each once, in no particular order.
    pub fn get_books_by_title(&self, title: String) -> (r: Vec<&Book>)
        requires
            self.wf(),
        ensures
            self@.lists_exactly(listed(r@), |b: BookView| b.title == title@),
    {
        let r = self.books_passing(Some((BookField::Title, &title)));
        proof {
            let keep = |b: BookView| passes(Some((BookField::Title, &title)), b);
            assert forall|b: BookView| #[trigger] keep(b) == (b.title == title@) by {}
        }
        r
    }

    /// The live books whose author equals `author` character for character,
    /// each once, in no particular order.
    pub fn get_books_by_author(&self, author: String) -> (r: Vec<&Book>)
        requires
            self.wf(),
        ensures
            self@.lists_exactly(listed(r@), |b: BookView| b.author == author@),
    {
        let r = self.books_passing(Some((BookField::Author, &author)));
        proof {
            let keep = |b: BookView| passes(Some((BookField::Author, &author)), b);
            assert forall|b: BookView| #[trigger] keep(b) == (b.author == author@) by {}
        }
        r
    }

    /// Every live book once, in no particular order.
    pub fn list_all(&self) -> (r: Vec<&Book>)
        requires
            self.wf(),
        ensures
            self@.lists_exactly(listed(r@), |b: BookView| true),
    {
        self.books_passing(None)
    }

    /// Lends out the book under `id` if it is on the shelf; otherwise says
    /// why not and changes nothing.
    pub fn borrow_book_by_id(&mut self, id: BookId) -> (r: Result<(), LendError>)
        requires
            old(self).wf(),
        ensures
            final(self).wf(),
            r == old(self)@.borrow_outcome(id),
            final(self)@ == old(self)@.apply(LibraryOp::Borrow { id }),
    {
        match self.books.remove(&id) {
            None => {
                assert(self@.books =~= old(self)@.books);
                Err(LendError::NotFound)
            },
            Some(mut book) => {
                let result = if book.is_available() {
                    book.borrow_book();
                    Ok(())
                } else {
                    Err(LendError::Unavailable)
                };
                self.books.insert(id, book);
                assert(self@.books =~= old(self)@.apply(LibraryOp::Borrow { id }).books);
                result
            },
        }
    }

    /// Takes back the book under `id` if it is lent out; otherwise says why
    /// not and changes nothing.
    pub fn return_book_by_id(&mut self, id: BookId) -> (r: Result<(), LendError>)
        requires
            old(self).wf(),
        ensures
            final(self).wf(),
            r == old(self)@.return_outcome(id),
            final(self)@ == old(self)@.apply(LibraryOp::Return { id }),
    {
        match self.books.remove(&id) {
            None => {
                assert(self@.books =~= old(self)@.books);
                Err(LendError::NotFound)
            },
            Some(mut book) => {
                let result = if book.is_available() {
                    Err(LendError::NotBorrowed)
                } else {
                    book.return_book();
                    Ok(())
                };
                self.books.insert(id, book);
                assert(self@.books =~= old(self)@.apply(LibraryOp::Return { id }).books);
                result
            },
        }
    }

    /// The book under `id`, if there is one.
    pub fn get_book_by_id(&self, id: BookId) -> (r: Option<&Book>)
        ensures
            match r {
                Some(b) => self@.holds(id) && b@ == self@.books[id],
                None => !self@.holds(id),
            },
    {
        self.books.get(&id)
    }
}

} // verus!
