//! A book: a pool of recorded balance-flow transactions, each stored
//! under the transaction id that recorded it. The account keeps three
//! such pools (active, disputed, charged back); this module gives the
//! mathematical vocabulary shared by their contracts, together with
//! the lemmas the state machine needs, and the executable lookups.

use vstd::prelude::*;

use crate::transaction::LedgerBookEntry;

verus! {

/// One recorded balance-flow transaction: its id and its stored tag.
pub type BookRecord = (u32, LedgerBookEntry);

/// Whether some record of the book carries the given id.
pub open spec fn has_id(book: Seq<BookRecord>, id: u32) -> bool {
    exists|i: int| 0 <= i < book.len() && book[i].0 == id
}

/// The position of the record carrying the given id; meaningful only
/// when `has_id` holds and the ids of the book are unique.
pub open spec fn index_of(book: Seq<BookRecord>, id: u32) -> int {
    choose|i: int| 0 <= i < book.len() && book[i].0 == id
}

/// The entry stored under the given id.
pub open spec fn entry_for(book: Seq<BookRecord>, id: u32) -> LedgerBookEntry {
    book[index_of(book, id)].1
}

/// No id occurs twice within the book.
pub open spec fn unique_ids(book: Seq<BookRecord>) -> bool {
    forall|i: int, j: int| 0 <= i < j < book.len() ==> book[i].0 != book[j].0
}

/// No id occurs in both books.
pub open spec fn disjoint_ids(a: Seq<BookRecord>, b: Seq<BookRecord>) -> bool {
    forall|i: int, j: int| 0 <= i < a.len() && 0 <= j < b.len() ==> a[i].0 != b[j].0
}

/// Every record of the book stores a deposit.
pub open spec fn all_deposits(book: Seq<BookRecord>) -> bool {
    forall|i: int| 0 <= i < book.len() ==> book[i].1.spec_is_deposit()
}

/// Every record of the book stores a non-negative amount.
pub open spec fn nonneg_amounts(book: Seq<BookRecord>) -> bool {
    forall|i: int| 0 <= i < book.len() ==> (#[trigger] book[i]).1.spec_nonneg()
}

/// The net effect of the book on the available balance: deposits count
/// positively, withdrawals negatively.
pub open spec fn sum_signed(book: Seq<BookRecord>) -> int
    decreases book.len(),
{
    if book.len() == 0 {
        0
    } else {
        sum_signed(book.drop_last()) + book.last().1.signed_amount()
    }
}

/// The sum of the deposit amounts recorded in the book.
pub open spec fn sum_deposits(book: Seq<BookRecord>) -> int
    decreases book.len(),
{
    if book.len() == 0 {
        0
    } else {
        sum_deposits(book.drop_last()) + book.last().1.spec_deposit_amount()
    }
}

/// The sum of the withdrawal amounts recorded in the book.
pub open spec fn sum_withdrawals(book: Seq<BookRecord>) -> int
    decreases book.len(),
{
    if book.len() == 0 {
        0
    } else {
        sum_withdrawals(book.drop_last()) + (
        if book.last().1.spec_is_withdrawal() {
            -book.last().1.signed_amount()
        } else {
            0
        })
    }
}

pub proof fn lemma_sum_push(book: Seq<BookRecord>, record: BookRecord)
    ensures
        sum_signed(book.push(record)) == sum_signed(book) + record.1.signed_amount(),
{
    assert(book.push(record).drop_last() =~= book);
}

pub proof fn lemma_sum_remove(book: Seq<BookRecord>, i: int)
    requires
        0 <= i < book.len(),
    ensures
        sum_signed(book.remove(i)) == sum_signed(book) - book[i].1.signed_amount(),
    decreases book.len(),
{
    if i == book.len() - 1 {
        assert(book.remove(i) =~= book.drop_last());
    } else {
        assert(book.remove(i).drop_last() =~= book.drop_last().remove(i));
        assert(book.remove(i).last() == book.last());
        lemma_sum_remove(book.drop_last(), i);
    }
}

/// The signed sum splits into the deposit total minus the withdrawal
/// total.
pub proof fn lemma_sum_split(book: Seq<BookRecord>)
    ensures
        sum_signed(book) == sum_deposits(book) - sum_withdrawals(book),
    decreases book.len(),
{
    if book.len() > 0 {
        lemma_sum_split(book.drop_last());
    }
}

/// Over a book of deposits only, the signed sum is the deposit total.
pub proof fn lemma_sum_all_deposits(book: Seq<BookRecord>)
    requires
        all_deposits(book),
    ensures
        sum_signed(book) == sum_deposits(book),
        sum_withdrawals(book) == 0,
    decreases book.len(),
{
    if book.len() > 0 {
        assert(book.drop_last() =~= book.subrange(0, book.len() - 1));
        assert(all_deposits(book.drop_last()));
        lemma_sum_all_deposits(book.drop_last());
    }
}

/// With unique ids, the record found at any position is the record
/// `index_of` designates for its id.
pub proof fn lemma_entry_at(book: Seq<BookRecord>, i: int)
    requires
        unique_ids(book),
        0 <= i < book.len(),
    ensures
        has_id(book, book[i].0),
        index_of(book, book[i].0) == i,
        entry_for(book, book[i].0) == book[i].1,
{
    assert(has_id(book, book[i].0));
    let j = index_of(book, book[i].0);
    assert(0 <= j < book.len() && book[j].0 == book[i].0);
}

/// Appending a record under a fresh id keeps the ids unique.
pub proof fn lemma_push_fresh(book: Seq<BookRecord>, record: BookRecord)
    requires
        unique_ids(book),
        !has_id(book, record.0),
    ensures
        unique_ids(book.push(record)),
{
}

/// Removing the sole record of an id removes that id and keeps the
/// remaining ids unique and untouched.
pub proof fn lemma_remove_at(book: Seq<BookRecord>, i: int)
    requires
        unique_ids(book),
        0 <= i < book.len(),
    ensures
        unique_ids(book.remove(i)),
        !has_id(book.remove(i), book[i].0),
        forall|id: u32| id != book[i].0 ==> has_id(book.remove(i), id) == has_id(book, id),
{
    let removed = book.remove(i);
    assert forall|id: u32| id != book[i].0 && has_id(book, id) implies has_id(
        removed,
        id,
    ) by {
        let j = choose|j: int| 0 <= j < book.len() && book[j].0 == id;
        if j < i {
            assert(removed[j].0 == id);
        } else {
            assert(removed[j - 1].0 == id);
        }
    }
}

/// Exec lookup: the position of the record carrying the given id, or
/// `None` when the book does not hold the id.
pub fn find_index(book: &Vec<BookRecord>, id: u32) -> (r: Option<usize>)
    ensures
        match r {
            Some(i) => i < book@.len() && book@[i as int].0 == id,
            None => !has_id(book@, id),
        },
{
    let mut i: usize = 0;
    while i < book.len()
        invariant
            i <= book@.len(),
            forall|j: int| 0 <= j < i ==> book@[j].0 != id,
        decreases book@.len() - i,
    {
        if book[i].0 == id {
            return Some(i);
        }
        i = i + 1;
    }
    None
}

/// Exec membership test for an id.
pub fn contains_id(book: &Vec<BookRecord>, id: u32) -> (r: bool)
    ensures
        r == has_id(book@, id),
{
    match find_index(book, id) {
        Some(i) => {
            proof {
                assert(has_id(book@, id));
            }
            true
        },
        None => false,
    }
}

} // verus!
