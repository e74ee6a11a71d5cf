use book_catalog::{
    user_get_books_by_author, user_get_books_by_string, user_get_books_by_title, Book, BookId,
    LendError, Library,
};

fn ids(list: &[&Book]) -> Vec<BookId> {
    let mut v: Vec<BookId> = list.iter().map(|b| b.id()).collect();
    v.sort();
    v
}

#[test]
fn scenario_add_remove_find_by_author() {
    let mut lib = Library::new();
    assert_eq!(lib.add_book("Snømannen".to_string(), "Jo Nesbø".to_string(), 2007), 0);
    assert_eq!(lib.add_book("Kniv".to_string(), "Jo Nesbø".to_string(), 2019), 1);
    assert!(lib.remove_book(0));
    assert!(lib.get_book_by_id(0).is_none());
    assert_eq!(lib.count(), 1);
    let found = lib.get_books_by_author("Jo Nesbø".to_string());
    assert_eq!(ids(&found), vec![1]);
    assert_eq!(found[0].title(), "Kniv");
}

#[test]
fn ids_increase_and_are_not_reused_after_remove() {
    let mut lib = Library::new();
    let a = lib.add_book("A".to_string(), "X".to_string(), 1);
    let b = lib.add_book("B".to_string(), "X".to_string(), 2);
    assert!(lib.remove_book(b));
    let c = lib.add_book("C".to_string(), "X".to_string(), 3);
    assert!(lib.remove_book(a));
    assert!(lib.remove_book(c));
    let d = lib.add_book("D".to_string(), "X".to_string(), 4);
    assert_eq!((a, b, c, d), (0, 1, 2, 3));
    assert_eq!(lib.next_id(), 4);
    assert_eq!(lib.count(), 1);
}

#[test]
fn add_then_find_by_id_gives_the_same_fields() {
    let mut lib = Library::new();
    lib.fill_with_books();
    let id = lib.add_book("Tittel".to_string(), "Forfatter".to_string(), 1999);
    assert_eq!(id, 7);
    let book = lib.get_book_by_id(id).unwrap();
    assert_eq!(book.id(), 7);
    assert_eq!(book.title(), "Tittel");
    assert_eq!(book.author(), "Forfatter");
    assert_eq!(book.year(), 1999);
    assert!(book.is_available());
}

#[test]
fn remove_succeeds_once() {
    let mut lib = Library::new();
    let id = lib.add_book("A".to_string(), "B".to_string(), 2000);
    assert!(lib.remove_book(id));
    assert!(!lib.remove_book(id));
    assert!(lib.get_book_by_id(id).is_none());
    assert_eq!(lib.count(), 0);
    assert!(!lib.remove_book(42));
}

#[test]
fn borrow_twice_is_refused() {
    let mut lib = Library::new();
    let id = lib.add_book("A".to_string(), "B".to_string(), 2000);
    assert_eq!(lib.borrow_book_by_id(id), Ok(()));
    assert!(!lib.get_book_by_id(id).unwrap().is_available());
    assert_eq!(lib.borrow_book_by_id(id), Err(LendError::Unavailable));
    assert!(!lib.get_book_by_id(id).unwrap().is_available());
}

#[test]
fn return_twice_is_refused() {
    let mut lib = Library::new();
    let id = lib.add_book("A".to_string(), "B".to_string(), 2000);
    assert_eq!(lib.return_book_by_id(id), Err(LendError::NotBorrowed));
    assert_eq!(lib.borrow_book_by_id(id), Ok(()));
    assert_eq!(lib.return_book_by_id(id), Ok(()));
    assert!(lib.get_book_by_id(id).unwrap().is_available());
    assert_eq!(lib.return_book_by_id(id), Err(LendError::NotBorrowed));
    assert!(lib.get_book_by_id(id).unwrap().is_available());
}

#[test]
fn lending_an_unknown_id_is_not_found() {
    let mut lib = Library::new();
    lib.fill_with_books();
    assert_eq!(lib.borrow_book_by_id(7), Err(LendError::NotFound));
    assert_eq!(lib.return_book_by_id(7), Err(LendError::NotFound));
    assert!(lib.remove_book(3));
    assert_eq!(lib.borrow_book_by_id(3), Err(LendError::NotFound));
    assert_eq!(lib.count(), 6);
}

#[test]
fn find_by_title_is_exact_and_case_sensitive() {
    let mut lib = Library::new();
    lib.add_book("Kniv".to_string(), "Jo Nesbø".to_string(), 2019);
    lib.add_book("kniv".to_string(), "Jo Nesbø".to_string(), 2019);
    lib.add_book("Kniv ".to_string(), "Jo Nesbø".to_string(), 2019);
    lib.add_book("Kniv".to_string(), "Someone Else".to_string(), 2001);
    assert_eq!(ids(&lib.get_books_by_title("Kniv".to_string())), vec![0, 3]);
    assert_eq!(ids(&lib.get_books_by_title("kniv".to_string())), vec![1]);
    assert!(lib.get_books_by_title("Kni".to_string()).is_empty());
    assert_eq!(ids(&lib.get_books_by_author("Someone Else".to_string())), vec![3]);
    assert_eq!(ids(&lib.get_books_by_author("Jo Nesbø".to_string())), vec![0, 1, 2]);
}

#[test]
fn empty_library_finds_nothing() {
    let lib = Library::new();
    assert!(lib.get_books_by_title("Kniv".to_string()).is_empty());
    assert!(lib.get_books_by_author("Jo Nesbø".to_string()).is_empty());
    assert!(lib.get_books_by_title(String::new()).is_empty());
    assert!(lib.list_all().is_empty());
    assert_eq!(lib.count(), 0);
    assert_eq!(lib.next_id(), 0);
}

#[test]
fn list_all_gives_every_live_book_once() {
    let mut lib = Library::new();
    lib.fill_with_books();
    assert!(lib.remove_book(0));
    assert!(lib.remove_book(4));
    assert_eq!(ids(&lib.list_all()), vec![1, 2, 3, 5, 6]);
}

#[test]
fn demo_catalog_contents() {
    let mut lib = Library::new();
    lib.fill_with_books();
    assert_eq!(lib.count(), 7);
    assert_eq!(lib.next_id(), 7);
    let first = lib.get_book_by_id(0).unwrap();
    assert_eq!(first.title(), "Snømannen");
    assert_eq!(first.year(), 2007);
    let last = lib.get_book_by_id(6).unwrap();
    assert_eq!(last.title(), "Blodmåne");
    assert_eq!(last.author(), "Jo Nesbø");
    assert_eq!(last.year(), 2022);
    assert_eq!(ids(&lib.get_books_by_title("Tørst".to_string())), vec![4]);
}

#[test]
fn search_by_field_name() {
    let mut lib = Library::new();
    lib.fill_with_books();
    assert_eq!(
        ids(&user_get_books_by_string(&lib, "title".to_string(), "Politi".to_string())),
        vec![3]
    );
    assert_eq!(
        ids(&user_get_books_by_string(&lib, "author".to_string(), "Jo Nesbø".to_string())).len(),
        7
    );
    assert!(user_get_books_by_string(&lib, "year".to_string(), "2013".to_string()).is_empty());
    assert!(user_get_books_by_string(&lib, "Title".to_string(), "Politi".to_string()).is_empty());
    assert_eq!(ids(&user_get_books_by_title(&lib, "Gjenferd".to_string())), vec![2]);
    assert!(user_get_books_by_author(&lib, "Gjenferd".to_string()).is_empty());
}

#[test]
fn book_borrow_and_return_are_unconditional() {
    let mut book = Book::new(5, "T".to_string(), "A".to_string(), 65535);
    assert!(book.is_available());
    book.return_book();
    assert!(book.is_available());
    book.borrow_book();
    assert!(!book.is_available());
    book.borrow_book();
    assert!(!book.is_available());
    book.return_book();
    assert!(book.is_available());
    assert_eq!((book.id(), book.year()), (5, 65535));
}
