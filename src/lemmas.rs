use vstd::prelude::*;

use crate::book::{BookId, BookView};
use crate::library::{LendError, LibraryOp, LibraryView};

verus! {

/// Every operation keeps a consistent library consistent, as long as an add
/// still has an identifier to hand out.
pub proof fn lemma_apply_keeps_consistency(v: LibraryView, op: LibraryOp)
    requires
        v.is_consistent(),
        op is Add ==> v.next_id < u16::MAX,
    ensures
        v.apply(op).is_consistent(),
        v.apply(op).next_id >= v.next_id,
{
}

/// Over any sequence of operations, the identifiers that the adds return
/// are strictly increasing, so none repeats, and none of them is the
/// identifier of a book that was live before the sequence began.
pub proof fn lemma_issued_ids_increase(v: LibraryView, ops: Seq<LibraryOp>)
    requires
        v.is_consistent(),
    ensures
        forall|i: int, j: int|
            0 <= i < j < v.issued_ids(ops).len() ==> v.issued_ids(ops)[i] < v.issued_ids(ops)[j],
        forall|i: int| #![trigger v.issued_ids(ops)[i]]
            0 <= i < v.issued_ids(ops).len() ==> v.next_id <= v.issued_ids(ops)[i],
        forall|i: int, k: BookId|
            0 <= i < v.issued_ids(ops).len() && #[trigger] v.books.contains_key(k) ==> k
                < #[trigger] v.issued_ids(ops)[i],
    decreases ops.len(),
{
    lemma_issued_ids_at_least(v, ops);
}

proof fn lemma_issued_ids_at_least(v: LibraryView, ops: Seq<LibraryOp>)
    ensures
        forall|i: int, j: int|
            0 <= i < j < v.issued_ids(ops).len() ==> v.issued_ids(ops)[i] < v.issued_ids(ops)[j],
        forall|i: int| #![trigger v.issued_ids(ops)[i]]
            0 <= i < v.issued_ids(ops).len() ==> v.next_id <= v.issued_ids(ops)[i],
    decreases ops.len(),
{
    if ops.len() > 0 {
        let w = v.apply(ops[0]);
        let rest = w.issued_ids(ops.drop_first());
        lemma_issued_ids_at_least(w, ops.drop_first());
        assert(w.next_id >= v.next_id);
        if ops[0] is Add {
            let all = seq![v.next_id] + rest;
            assert(v.issued_ids(ops) == all);
            assert(w.next_id == v.next_id + 1);
            assert forall|i: int| 0 <= i < all.len() implies v.next_id <= #[trigger] all[i] by {
                if i > 0 {
                    assert(all[i] == rest[i - 1]);
                }
            }
            assert forall|i: int, j: int| 0 <= i < j < all.len() implies all[i] < all[j] by {
                assert(all[j] == rest[j - 1]);
                if i > 0 {
                    assert(all[i] == rest[i - 1]);
                }
            }
        } else {
            assert(v.issued_ids(ops) == rest);
        }
    }
}

/// Right after an add, looking up the returned identifier gives a book with
/// exactly the given title, author and year, available for lending.
pub proof fn lemma_add_then_find(v: LibraryView, title: Seq<char>, author: Seq<char>, year: u16)
    requires
        v.is_consistent(),
        v.next_id < u16::MAX,
    ensures
        ({
            let w = v.apply(LibraryOp::Add { title, author, year });
            let id = v.next_id as BookId;
            &&& v.issued_ids(seq![LibraryOp::Add { title, author, year }]) == seq![id as nat]
            &&& w.holds(id)
            &&& w.books[id] == (BookView { id, title, author, year, available: true })
        }),
{
    let op = LibraryOp::Add { title, author, year };
    let w = v.apply(op);
    assert(seq![op].drop_first() =~= Seq::<LibraryOp>::empty());
    assert(w.issued_ids(Seq::<LibraryOp>::empty()) == Seq::<nat>::empty());
    assert(seq![v.next_id] + Seq::<nat>::empty() =~= seq![v.next_id]);
}

/// A remove of a live book succeeds, the book can no longer be found, a
/// second remove of the same identifier fails and changes nothing, and no
/// later sequence of operations brings the identifier back.
pub proof fn lemma_remove_once(v: LibraryView, id: BookId, later: Seq<LibraryOp>)
    requires
        v.is_consistent(),
        v.holds(id),
        v.next_id + later.len() <= u16::MAX,
    ensures
        ({
            let w = v.apply(LibraryOp::Remove { id });
            &&& !w.holds(id)
            &&& w.apply(LibraryOp::Remove { id }) == w
            &&& !w.apply_all(later).holds(id)
        }),
{
    let w = v.apply(LibraryOp::Remove { id });
    assert(w.books =~= w.books.remove(id));
    lemma_gone_stays_gone(w, id, later);
}

proof fn lemma_gone_stays_gone(v: LibraryView, id: BookId, ops: Seq<LibraryOp>)
    requires
        v.is_consistent(),
        !v.holds(id),
        id < v.next_id,
        v.next_id + ops.len() <= u16::MAX,
    ensures
        !v.apply_all(ops).holds(id),
    decreases ops.len(),
{
    if ops.len() > 0 {
        lemma_apply_keeps_consistency(v, ops[0]);
        lemma_gone_stays_gone(v.apply(ops[0]), id, ops.drop_first());
    }
}

/// Borrowing a book on the shelf succeeds and lends it out; a second borrow
/// is refused as unavailable and leaves it lent out.
pub proof fn lemma_borrow_twice(v: LibraryView, id: BookId)
    requires
        v.is_lendable(id),
    ensures
        ({
            let w = v.apply(LibraryOp::Borrow { id });
            &&& v.borrow_outcome(id) == Ok::<(), LendError>(())
            &&& w.holds(id) && !w.books[id].available
            &&& w.borrow_outcome(id) == Err::<(), LendError>(LendError::Unavailable)
            &&& w.apply(LibraryOp::Borrow { id }) == w
        }),
{
}

/// Returning a lent-out book succeeds and puts it back on the shelf; a
/// second return is refused as not borrowed and leaves it available.
pub proof fn lemma_return_twice(v: LibraryView, id: BookId)
    requires
        v.is_lent(id),
    ensures
        ({
            let w = v.apply(LibraryOp::Return { id });
            &&& v.return_outcome(id) == Ok::<(), LendError>(())
            &&& w.holds(id) && w.books[id].available
            &&& w.return_outcome(id) == Err::<(), LendError>(LendError::NotBorrowed)
            &&& w.apply(LibraryOp::Return { id }) == w
        }),
{
}

/// A search of an empty library lists nothing.
pub proof fn lemma_empty_library_lists_nothing(
    v: LibraryView,
    r: Seq<BookView>,
    keep: spec_fn(BookView) -> bool,
)
    requires
        v.books.is_empty(),
        v.lists_exactly(r, keep),
    ensures
        r.len() == 0,
{
    if r.len() > 0 {
        assert(v.books.dom().contains(r[0].id));
    }
}

} // verus!
