use vstd::prelude::*;
use bigdecimal::BigDecimal;
use crate::time::Timestamp;

verus! {

/// A category of a user's transactions.
pub struct Category {
    pub id: i32,
    pub name: String,
    pub created_at: Timestamp,
}

/// A category to be created, or the new name of one.
pub struct NewCategory {
    pub name: String,
}

/// A stored transaction together with its category.
pub struct Transaction {
    pub id: i32,
    pub category: Category,
    pub description: String,
    pub amount: BigDecimal,
    pub created_at: Timestamp,
}

/// A row read from the store together with the id of the user who owns it.
pub struct Owned<T> {
    pub owner: u128,
    pub row: T,
}

/// What the store answered when asked for one row.
pub enum RowLookup<T> {
    Found(Owned<T>),
    Missing,
    Failed,
}

/// Why a record operation failed.
#[derive(Clone, Copy, Debug, PartialEq, Eq, Structural)]
pub enum RecordError {
    /// No such row among the user's own.
    NotFound,
    /// The store failed.
    Unavailable,
}

impl RecordError {
    /// The HTTP status of the error.
    pub fn status(&self) -> (r: u16)
        ensures
            *self is NotFound ==> r == 404,
            *self is Unavailable ==> r == 500,
    {
        match self {
            RecordError::NotFound => 404,
            RecordError::Unavailable => 500,
        }
    }
}

/// The rows of `rows` that `user_id` owns, in their order.
pub open spec fn visible<T>(rows: Seq<Owned<T>>, user_id: u128) -> Seq<T>
    decreases rows.len(),
{
    if rows.len() == 0 {
        Seq::empty()
    } else {
        let rest = visible(rows.drop_first(), user_id);
        if rows[0].owner == user_id {
            seq![rows[0].row] + rest
        } else {
            rest
        }
    }
}

/// The one accessor through which a single row reaches a user: the row when
/// that user owns it, and `NotFound` when it is missing or owned by anyone else.
pub fn owned_row<T>(user_id: u128, lookup: RowLookup<T>) -> (r: Result<T, RecordError>)
    ensures
        match lookup {
            RowLookup::Found(o) => if o.owner == user_id {
                r == Ok::<T, RecordError>(o.row)
            } else {
                r == Err::<T, RecordError>(RecordError::NotFound)
            },
            RowLookup::Missing => r == Err::<T, RecordError>(RecordError::NotFound),
            RowLookup::Failed => r == Err::<T, RecordError>(RecordError::Unavailable),
        },
{
    match lookup {
        RowLookup::Found(o) => if o.owner == user_id {
            Ok(o.row)
        } else {
            Err(RecordError::NotFound)
        },
        RowLookup::Missing => Err(RecordError::NotFound),
        RowLookup::Failed => Err(RecordError::Unavailable),
    }
}

/// The accessor through which a list of rows reaches a user: the rows that the
/// user owns, in their order.
pub fn owned_rows<T>(user_id: u128, rows: Vec<Owned<T>>) -> (r: Vec<T>)
    ensures
        r@ == visible(rows@, user_id),
{
    let ghost all = rows@;
    let mut rows = rows;
    let mut r: Vec<T> = Vec::new();
    while rows.len() > 0
        invariant
            visible(all, user_id) == r@ + visible(rows@, user_id),
        decreases rows.len(),
    {
        let ghost before = rows@;
        let o = rows.remove(0);
        proof {
            assert(rows@ =~= before.drop_first());
        }
        let ghost r_before = r@;
        let ghost row = o.row;
        if o.owner == user_id {
            r.push(o.row);
            proof {
                let rest = visible(rows@, user_id);
                assert(r_before + (seq![row] + rest) =~= r@ + rest);
            }
        }
    }
    proof {
        assert(r@ + Seq::<T>::empty() =~= r@);
    }
    r
}

/// The outcome of a scoped deletion, from the number of rows that it removed.
pub fn deletion_outcome(removed: Option<u64>) -> (r: Result<(), RecordError>)
    ensures
        match removed {
            Some(n) => if n == 0 {
                r == Err::<(), RecordError>(RecordError::NotFound)
            } else {
                r is Ok
            },
            None => r == Err::<(), RecordError>(RecordError::Unavailable),
        },
{
    match removed {
        Some(n) => if n == 0 {
            Err(RecordError::NotFound)
        } else {
            Ok(())
        },
        None => Err(RecordError::Unavailable),
    }
}

/// Rows that another user owns never reach this one.
pub proof fn lemma_foreign_rows_invisible<T>(rows: Seq<Owned<T>>, owner: u128, user_id: u128)
    requires
        owner != user_id,
        forall|i: int| 0 <= i < rows.len() ==> (#[trigger] rows[i]).owner == owner,
    ensures
        visible(rows, user_id) == Seq::<T>::empty(),
    decreases rows.len(),
{
    if rows.len() > 0 {
        assert(rows[0].owner == owner);
        let rest = rows.drop_first();
        assert forall|i: int| 0 <= i < rest.len() implies (#[trigger] rest[i]).owner == owner by {
            assert(rest[i] == rows[i + 1]);
        }
        lemma_foreign_rows_invisible(rest, owner, user_id);
    }
}

} // verus!
