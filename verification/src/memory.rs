//! An in-memory persistence gateway: the rows live in a vector kept in
//! listing order (newest id first) and ids are handed out from a counter.
//! It answers to every contract of [`TodoRepository`] and serves wherever a
//! relational store is not wanted, tests above all.

use vstd::prelude::*;
use vstd::string::StringExecFns;

use crate::todo::{apply_update, CreateTodo, Todo, TodoView, UpdateTodo};
use crate::todorepository::{contains_id, create_ok, idx_of, lemma_idx_of_unique, remove_id,
    row_at, sorted_by_id_desc, unique_ids, update_rows, views_of, RepositoryError,
    TodoRepository};

verus! {

/// The in-memory backend: `todos` holds the table in listing order, and
/// `next_id` is the id the next created row receives.
#[derive(Debug)]
pub struct TodoRepositoryForMemory {
    /// The rows, sorted by id in strictly descending order.
    pub todos: Vec<Todo>,
    /// The next id to assign; larger than the id of every stored row.
    pub next_id: i32,
}

/// Strictly descending ids imply that no id occurs twice.
proof fn lemma_sorted_implies_unique(rows: Seq<TodoView>)
    requires
        sorted_by_id_desc(rows),
    ensures
        unique_ids(rows),
{
    assert forall|i: int, j: int|
        0 <= i < rows.len() && 0 <= j < rows.len() && i != j implies rows[i].id
        != rows[j].id by {
        if i < j {
            assert(rows[i].id > rows[j].id);
        } else {
            assert(rows[j].id > rows[i].id);
        }
    }
}

impl TodoRepositoryForMemory {
    /// The table this backend holds, in listing order.
    pub open spec fn table(&self) -> Seq<TodoView> {
        views_of(self.todos@)
    }

    /// Well-formedness: ids are positive, below the counter, and strictly
    /// descending along the vector.
    pub open spec fn wf(&self) -> bool {
        &&& 1 <= self.next_id
        &&& forall|i: int|
            0 <= i < self.todos@.len() ==> 1 <= (#[trigger] self.todos@[i])@.id
                < self.next_id as int
        &&& sorted_by_id_desc(self.table())
    }

    /// An empty backend that will assign id 1 first.
    pub fn new() -> (r: Self)
        ensures
            r.wf(),
            r.table() == Seq::<TodoView>::empty(),
            r.next_id == 1,
    {
        let r = TodoRepositoryForMemory { todos: Vec::new(), next_id: 1 };
        proof {
            assert(r.table() =~= Seq::<TodoView>::empty());
        }
        r
    }

    /// The position of the row with the given id, if any.
    fn position_of(&self, id: i32) -> (r: Option<usize>)
        requires
            self.wf(),
        ensures
            match r {
                Some(i) => i < self.todos@.len() && self.todos@[i as int]@.id == id as int
                    && contains_id(self.table(), id as int) && idx_of(self.table(), id as int)
                    == i as int,
                None => !contains_id(self.table(), id as int),
            },
    {
        let n = self.todos.len();
        let mut i: usize = 0;
        while i < n
            invariant
                self.wf(),
                n == self.todos@.len(),
                i <= n,
                forall|j: int| 0 <= j < i ==> (#[trigger] self.todos@[j])@.id != id as int,
            decreases n - i,
        {
            if self.todos[i].id == id {
                proof {
                    lemma_sorted_implies_unique(self.table());
                    lemma_idx_of_unique(self.table(), id as int, i as int);
                }
                return Some(i);
            }
            i = i + 1;
        }
        proof {
            assert forall|k: int|
                0 <= k < self.table().len() implies #[trigger] self.table()[k].id
                != id as int by {
                assert(self.todos@[k]@.id != id as int);
            }
        }
        None
    }
}

impl TodoRepository for TodoRepositoryForMemory {
    open spec fn rows(&self) -> Seq<TodoView> {
        self.table()
    }

    open spec fn inv(&self) -> bool {
        self.wf()
    }

    proof fn inv_properties(&self) {
        lemma_sorted_implies_unique(self.table());
    }

    fn create(&mut self, payload: CreateTodo) -> (r: Result<Todo, RepositoryError>)
        ensures
            r is Ok <==> old(self).next_id < i32::MAX,
            match r {
                Ok(t) => t@.id == old(self).next_id as int && final(self).next_id == old(
                    self,
                ).next_id + 1,
                Err(_) => final(self).next_id == old(self).next_id,
            },
    {
        if self.next_id == i32::MAX {
            return Err(RepositoryError::Unexpected(String::from_str("id space exhausted")));
        }
        let t = Todo { id: self.next_id, text: payload.text, completed: false };
        self.todos.insert(0, t.clone());
        self.next_id = self.next_id + 1;
        proof {
            let pre = old(self).table();
            let post = self.table();
            assert(post =~= seq![t@] + pre);
            assert(create_ok(pre, post, payload@, t@));
            assert forall|i: int, j: int| 0 <= i < j < post.len() implies post[i].id
                > post[j].id by {
                if i > 0 {
                    assert(post[i] == pre[i - 1]);
                }
                assert(post[j] == pre[j - 1]);
            }
        }
        Ok(t)
    }

    fn find(&self, id: i32) -> (r: Result<Todo, RepositoryError>)
        ensures
            match r {
                Ok(_) => true,
                Err(e) => e == RepositoryError::NotFound(id) && !contains_id(
                    self.table(),
                    id as int,
                ),
            },
    {
        match self.position_of(id) {
            Some(i) => Ok(self.todos[i].clone()),
            None => Err(RepositoryError::NotFound(id)),
        }
    }

    fn all(&self) -> (r: Result<Vec<Todo>, RepositoryError>)
        ensures
            r is Ok,
    {
        let n = self.todos.len();
        let mut v: Vec<Todo> = Vec::new();
        let mut i: usize = 0;
        while i < n
            invariant
                n == self.todos@.len(),
                i <= n,
                v@.len() == i,
                forall|j: int| 0 <= j < i ==> #[trigger] v@[j] == self.todos@[j],
            decreases n - i,
        {
            v.push(self.todos[i].clone());
            i = i + 1;
        }
        proof {
            assert(views_of(v@) =~= self.table());
        }
        Ok(v)
    }

    fn update(&mut self, id: i32, payload: UpdateTodo) -> (r: Result<Todo, RepositoryError>)
        ensures
            match r {
                Ok(_) => true,
                Err(e) => e == RepositoryError::NotFound(id),
            },
            final(self).next_id == old(self).next_id,
    {
        match self.position_of(id) {
            None => Err(RepositoryError::NotFound(id)),
            Some(i) => {
                let merged = apply_update(&self.todos[i], payload);
                let result = merged.clone();
                self.todos[i] = merged;
                proof {
                    let pre = old(self).table();
                    let post = self.table();
                    lemma_sorted_implies_unique(pre);
                    assert forall|j: int| 0 <= j < pre.len() && j != i as int implies (
                    #[trigger] pre[j]).id != id as int by {
                        assert(pre[j].id != pre[i as int].id);
                    }
                    assert(post =~= update_rows(pre, id as int, payload@));
                    assert forall|j: int| 0 <= j < post.len() implies (#[trigger] post[j]).id
                        == pre[j].id by {}
                }
                Ok(result)
            },
        }
    }

    fn delete(&mut self, id: i32) -> (r: Result<(), RepositoryError>)
        ensures
            match r {
                Ok(_) => true,
                Err(e) => e == RepositoryError::NotFound(id),
            },
            final(self).next_id == old(self).next_id,
    {
        match self.position_of(id) {
            None => Err(RepositoryError::NotFound(id)),
            Some(i) => {
                self.todos.remove(i);
                proof {
                    let pre = old(self).table();
                    let post = self.table();
                    assert(post =~= remove_id(pre, id as int));
                    assert forall|a: int, b: int| 0 <= a < b < post.len() implies post[a].id
                        > post[b].id by {
                        let ai: int = if a < i as int {
                            a
                        } else {
                            a + 1
                        };
                        let bi: int = if b < i as int {
                            b
                        } else {
                            b + 1
                        };
                        assert(post[a] == pre[ai]);
                        assert(post[b] == pre[bi]);
                    }
                }
                Ok(())
            },
        }
    }
}

} // verus!
