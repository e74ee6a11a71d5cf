pub mod book;
pub mod lemmas;
pub mod library;
pub mod query;

pub use book::{Book, BookId};
pub use library::{BookField, LendError, Library};
pub use query::{user_get_books_by_author, user_get_books_by_string, user_get_books_by_title};
