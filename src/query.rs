use vstd::prelude::*;

use crate::book::{Book, BookView};
use crate::library::{field_of, listed, BookField, Library};

verus! {

/// The field that a search names: `title` or `author`.
pub open spec fn field_named(name: Seq<char>) -> Option<BookField> {
    if name == "title"@ {
        Some(BookField::Title)
    } else if name == "author"@ {
        Some(BookField::Author)
    } else {
        None
    }
}

/// The live books whose field named `field_name` equals `value`; no books
/// when the name is neither `title` nor `author`.
pub fn user_get_books_by_string(library: &Library, field_name: String, value: String) -> (r: Vec<
    &Book,
>)
    requires
        library.wf(),
    ensures
        match field_named(field_name@) {
            Some(field) => library@.lists_exactly(
                listed(r@),
                |b: BookView| field_of(b, field) == value@,
            ),
            None => r.len() == 0,
        },
{
    if field_name == "title".to_string() {
        library.get_books_by_title(value)
    } else if field_name == "author".to_string() {
        library.get_books_by_author(value)
    } else {
        Vec::new()
    }
}

/// The live books titled `title`.
pub fn user_get_books_by_title(library: &Library, title: String) -> (r: Vec<&Book>)
    requires
        library.wf(),
    ensures
        library@.lists_exactly(listed(r@), |b: BookView| b.title == title@),
{
    let r = user_get_books_by_string(library, "title".to_string(), title);
    proof {
        reveal_strlit("title");
        assert(field_named("title"@) == Some(BookField::Title));
        let keep = |b: BookView| field_of(b, BookField::Title) == title@;
        assert forall|b: BookView| #[trigger] keep(b) == (b.title == title@) by {}
    }
    r
}

/// The live books by `author`.
pub fn user_get_books_by_author(library: &Library, author: String) -> (r: Vec<&Book>)
    requires
        library.wf(),
    ensures
        library@.lists_exactly(listed(r@), |b: BookView| b.author == author@),
{
    let r = user_get_books_by_string(library, "author".to_string(), author);
    proof {
        reveal_strlit("title");
        reveal_strlit("author");
        assert("author"@[0] != "title"@[0]);
        assert(field_named("author"@) == Some(BookField::Author));
        let keep = |b: BookView| field_of(b, BookField::Author) == author@;
        assert forall|b: BookView| #[trigger] keep(b) == (b.author == author@) by {}
    }
    r
}

} // verus!
