//! The persistence gateway abstraction: the closed error taxonomy, a
//! mathematical model of the `todos` table as a sequence of rows in listing
//! order (newest id first), and the repository trait whose contracts every
//! backend answers to.

use vstd::prelude::*;

use crate::todo::{apply_update_spec, CreateTodo, CreateTodoView, Todo, TodoView, UpdateTodo,
    UpdateTodoView};

verus! {

/// The only two failure kinds a gateway operation surfaces: the referenced
/// row does not exist, or the store failed for any other reason.
#[derive(Debug, PartialEq)]
pub enum RepositoryError {
    /// Any store-level failure other than a missing row.
    Unexpected(String),
    /// No row with the given id exists.
    NotFound(i32),
}

/// The decision behind a deletion: a delete statement that matched no row
/// is not a store error, so the gateway itself must turn an affected-row
/// count of zero into `NotFound`; any positive count is success.
pub fn delete_outcome(rows_affected: u64, id: i32) -> (r: Result<(), RepositoryError>)
    ensures
        match r {
            Ok(_) => rows_affected > 0,
            Err(e) => rows_affected == 0 && e == RepositoryError::NotFound(id),
        },
{
    if rows_affected == 0 {
        Err(RepositoryError::NotFound(id))
    } else {
        Ok(())
    }
}

/// There is a row with the given id.
pub open spec fn contains_id(rows: Seq<TodoView>, id: int) -> bool {
    exists|i: int| 0 <= i < rows.len() && rows[i].id == id
}

/// The position of the row with the given id (meaningful when
/// `contains_id(rows, id)` holds and ids are unique).
pub open spec fn idx_of(rows: Seq<TodoView>, id: int) -> int {
    choose|i: int| 0 <= i < rows.len() && rows[i].id == id
}

/// The row with the given id.
pub open spec fn row_at(rows: Seq<TodoView>, id: int) -> TodoView {
    rows[idx_of(rows, id)]
}

/// No two rows share an id.
pub open spec fn unique_ids(rows: Seq<TodoView>) -> bool {
    forall|i: int, j: int|
        0 <= i < rows.len() && 0 <= j < rows.len() && i != j ==> rows[i].id != rows[j].id
}

/// The rows are in listing order: strictly descending ids, newest first.
pub open spec fn sorted_by_id_desc(rows: Seq<TodoView>) -> bool {
    forall|i: int, j: int| 0 <= i < j < rows.len() ==> rows[i].id > rows[j].id
}

/// The views of a sequence of stored rows.
pub open spec fn views_of(todos: Seq<Todo>) -> Seq<TodoView> {
    todos.map_values(|t: Todo| t@)
}

/// The table after the row with the given id has been replaced by the merge
/// of the update payload into it; every other row is untouched.
pub open spec fn update_rows(rows: Seq<TodoView>, id: int, payload: UpdateTodoView) -> Seq<
    TodoView,
> {
    Seq::new(
        rows.len(),
        |i: int|
            if rows[i].id == id {
                apply_update_spec(rows[i], payload)
            } else {
                rows[i]
            },
    )
}

/// The table after the row with the given id has been removed.
pub open spec fn remove_id(rows: Seq<TodoView>, id: int) -> Seq<TodoView> {
    rows.remove(idx_of(rows, id))
}

/// What a successful creation did: the new row carries the payload's text,
/// starts out not completed, got an id larger than every existing one, and
/// now stands first in listing order with the old rows after it.
pub open spec fn create_ok(
    pre: Seq<TodoView>,
    post: Seq<TodoView>,
    payload: CreateTodoView,
    t: TodoView,
) -> bool {
    &&& t.text == payload.text
    &&& t.completed == false
    &&& forall|i: int| 0 <= i < pre.len() ==> (#[trigger] pre[i]).id < t.id
    &&& post == seq![t] + pre
}

/// The five operations of the persistence gateway, as any backend must
/// behave: one implementation talks to the relational store, the in-memory
/// one serves tests. A backend reports each failure as one of the two
/// [`RepositoryError`] kinds; only a store-level fault may surface as
/// `Unexpected`, and a missing row always surfaces as `NotFound`.
pub trait TodoRepository: Sized {
    /// The rows the backend currently holds, in listing order.
    spec fn rows(&self) -> Seq<TodoView>;

    /// The backend's internal well-formedness.
    spec fn inv(&self) -> bool;

    /// A well-formed backend holds rows in listing order; in particular no
    /// two rows share an id.
    proof fn inv_properties(&self)
        requires
            self.inv(),
        ensures
            sorted_by_id_desc(self.rows()),
            unique_ids(self.rows()),
    ;

    /// Inserts a new row with `completed = false` and a fresh id and returns
    /// it; on a store-level failure the table is unchanged.
    fn create(&mut self, payload: CreateTodo) -> (r: Result<Todo, RepositoryError>)
        requires
            old(self).inv(),
        ensures
            final(self).inv(),
            match r {
                Ok(t) => create_ok(old(self).rows(), final(self).rows(), payload@, t@),
                Err(e) => e is Unexpected && final(self).rows() == old(self).rows(),
            },
    ;

    /// Fetches the row with the given id; fails with `NotFound(id)` when no
    /// such row exists, and with `Unexpected` only on a store-level failure.
    fn find(&self, id: i32) -> (r: Result<Todo, RepositoryError>)
        requires
            self.inv(),
        ensures
            match r {
                Ok(t) => contains_id(self.rows(), id as int) && t@ == row_at(
                    self.rows(),
                    id as int,
                ),
                Err(e) => match e {
                    RepositoryError::NotFound(i) => i == id && !contains_id(
                        self.rows(),
                        id as int,
                    ),
                    RepositoryError::Unexpected(_) => true,
                },
            },
    ;

    /// Returns every row, in listing order (newest id first); an empty table
    /// yields an empty sequence, not an error.
    fn all(&self) -> (r: Result<Vec<Todo>, RepositoryError>)
        requires
            self.inv(),
        ensures
            match r {
                Ok(v) => views_of(v@) == self.rows(),
                Err(e) => e is Unexpected,
            },
    ;

    /// Read-modify-write: merges the payload into the stored row and writes
    /// the merged row back, returning it. Fails with `NotFound(id)` when no
    /// such row exists; on any failure the table is unchanged.
    fn update(&mut self, id: i32, payload: UpdateTodo) -> (r: Result<Todo, RepositoryError>)
        requires
            old(self).inv(),
        ensures
            final(self).inv(),
            match r {
                Ok(t) => contains_id(old(self).rows(), id as int) && t@ == apply_update_spec(
                    row_at(old(self).rows(), id as int),
                    payload@,
                ) && final(self).rows() == update_rows(old(self).rows(), id as int, payload@),
                Err(e) => final(self).rows() == old(self).rows() && match e {
                    RepositoryError::NotFound(i) => i == id && !contains_id(
                        old(self).rows(),
                        id as int,
                    ),
                    RepositoryError::Unexpected(_) => true,
                },
            },
    ;

    /// Removes the row with the given id. Fails with `NotFound(id)` when no
    /// row was affected; on any failure the table is unchanged.
    fn delete(&mut self, id: i32) -> (r: Result<(), RepositoryError>)
        requires
            old(self).inv(),
        ensures
            final(self).inv(),
            match r {
                Ok(_) => contains_id(old(self).rows(), id as int) && final(self).rows() == remove_id(
                    old(self).rows(),
                    id as int,
                ),
                Err(e) => final(self).rows() == old(self).rows() && match e {
                    RepositoryError::NotFound(i) => i == id && !contains_id(
                        old(self).rows(),
                        id as int,
                    ),
                    RepositoryError::Unexpected(_) => true,
                },
            },
    ;
}

/// With unique ids, a row found at some position is the row the model
/// designates for its id.
pub proof fn lemma_idx_of_unique(rows: Seq<TodoView>, id: int, i: int)
    requires
        unique_ids(rows),
        0 <= i < rows.len(),
        rows[i].id == id,
    ensures
        contains_id(rows, id),
        idx_of(rows, id) == i,
        row_at(rows, id) == rows[i],
{
    assert(contains_id(rows, id));
    let k = idx_of(rows, id);
    assert(0 <= k < rows.len() && rows[k].id == id);
    if k != i {
        assert(rows[i].id != rows[k].id);
    }
}

/// Round trip: a created row is found again under the id the creation
/// returned, with the text of the payload and `completed == false`.
pub proof fn lemma_create_then_find(
    pre: Seq<TodoView>,
    post: Seq<TodoView>,
    payload: CreateTodoView,
    t: TodoView,
)
    requires
        unique_ids(pre),
        create_ok(pre, post, payload, t),
    ensures
        unique_ids(post),
        contains_id(post, t.id),
        row_at(post, t.id) == t,
        t.text == payload.text,
        t.completed == false,
{
    assert(post[0] == t);
    assert forall|i: int, j: int|
        0 <= i < post.len() && 0 <= j < post.len() && i != j implies post[i].id
        != post[j].id by {
        if i > 0 && j > 0 {
            assert(post[i] == pre[i - 1]);
            assert(post[j] == pre[j - 1]);
        } else if i == 0 {
            assert(post[j] == pre[j - 1]);
            assert(pre[j - 1].id < t.id);
        } else {
            assert(post[i] == pre[i - 1]);
            assert(pre[i - 1].id < t.id);
        }
    }
    lemma_idx_of_unique(post, t.id, 0);
}

/// Listing order: a creation puts the new row first and keeps every older
/// row behind it in its old order, so a listing after creations in id
/// order 1, 2, 3 reads 3, 2, 1.
pub proof fn lemma_listing_order(
    pre: Seq<TodoView>,
    post: Seq<TodoView>,
    payload: CreateTodoView,
    t: TodoView,
)
    requires
        sorted_by_id_desc(pre),
        create_ok(pre, post, payload, t),
    ensures
        sorted_by_id_desc(post),
        post.len() == pre.len() + 1,
        post[0] == t,
        forall|i: int| 1 <= i < post.len() ==> post[i] == pre[i - 1],
{
    assert forall|i: int, j: int| 0 <= i < j < post.len() implies post[i].id > post[j].id by {
        assert(post[j] == pre[j - 1]);
        if i > 0 {
            assert(post[i] == pre[i - 1]);
        }
    }
}

/// A deletion removes exactly its row: the deleted id is no longer present,
/// and every other id is present afterwards if and only if it was before.
pub proof fn lemma_delete_removes(rows: Seq<TodoView>, id: int)
    requires
        unique_ids(rows),
        contains_id(rows, id),
    ensures
        !contains_id(remove_id(rows, id), id),
        forall|j: int|
            j != id ==> (contains_id(remove_id(rows, id), j) <==> contains_id(rows, j)),
{
    let i = idx_of(rows, id);
    assert(0 <= i < rows.len() && rows[i].id == id);
    let post = remove_id(rows, id);
    assert forall|k: int| 0 <= k < post.len() implies #[trigger] post[k].id != id by {
        let ki: int = if k < i {
            k
        } else {
            k + 1
        };
        assert(post[k] == rows[ki]);
        assert(rows[ki].id != rows[i].id);
    }
    assert forall|j: int| j != id implies (contains_id(post, j) <==> contains_id(rows, j)) by {
        if contains_id(post, j) {
            let k = choose|k: int| 0 <= k < post.len() && post[k].id == j;
            let ki: int = if k < i {
                k
            } else {
                k + 1
            };
            assert(post[k] == rows[ki]);
            assert(contains_id(rows, j));
        }
        if contains_id(rows, j) {
            let k = choose|k: int| 0 <= k < rows.len() && rows[k].id == j;
            assert(k != i);
            let kp: int = if k < i {
                k
            } else {
                k - 1
            };
            assert(post[kp] == rows[k]);
            assert(contains_id(post, j));
        }
    }
}

/// Listing is idempotent: the listing contract pins the result to the rows
/// the backend holds, so two listings with no mutation in between return
/// the same sequence.
pub proof fn lemma_list_all_idempotent(
    rows: Seq<TodoView>,
    first: Seq<TodoView>,
    second: Seq<TodoView>,
)
    requires
        first == rows,
        second == rows,
    ensures
        first == second,
{
}

} // verus!
