//! The data model: the stored entity and the two request payloads.

use vstd::prelude::*;

verus! {

/// A single item of the `todos` table.
#[derive(Debug, PartialEq)]
pub struct Todo {
    /// Unique key, assigned by the store on creation and immutable afterwards.
    pub id: i32,
    /// Content of the item.
    pub text: String,
    /// Whether the item is done; starts out `false`.
    pub completed: bool,
}

/// Mathematical value of a [`Todo`].
pub ghost struct TodoView {
    pub id: int,
    pub text: Seq<char>,
    pub completed: bool,
}

impl View for Todo {
    type V = TodoView;

    open spec fn view(&self) -> TodoView {
        TodoView { id: self.id as int, text: self.text@, completed: self.completed }
    }
}

impl Clone for Todo {
    fn clone(&self) -> (r: Self)
        ensures
            r == *self,
    {
        Todo { id: self.id, text: self.text.clone(), completed: self.completed }
    }
}

/// Payload for creating an item: the text alone; `completed` always starts
/// out `false` on the server side.
#[derive(Debug, PartialEq)]
pub struct CreateTodo {
    /// Content of the item to create.
    pub text: String,
}

/// Mathematical value of a [`CreateTodo`].
pub ghost struct CreateTodoView {
    pub text: Seq<char>,
}

impl View for CreateTodo {
    type V = CreateTodoView;

    open spec fn view(&self) -> CreateTodoView {
        CreateTodoView { text: self.text@ }
    }
}

impl Clone for CreateTodo {
    fn clone(&self) -> (r: Self)
        ensures
            r == *self,
    {
        CreateTodo { text: self.text.clone() }
    }
}

/// Partial payload for updating an item: a field left as `None` keeps its
/// stored value.
#[derive(Debug, PartialEq)]
pub struct UpdateTodo {
    /// Replacement text, if any.
    pub text: Option<String>,
    /// Replacement completion flag, if any.
    pub completed: Option<bool>,
}

/// Mathematical value of an [`UpdateTodo`].
pub ghost struct UpdateTodoView {
    pub text: Option<Seq<char>>,
    pub completed: Option<bool>,
}

impl View for UpdateTodo {
    type V = UpdateTodoView;

    open spec fn view(&self) -> UpdateTodoView {
        UpdateTodoView {
            text: match self.text {
                Some(t) => Some(t@),
                None => None,
            },
            completed: self.completed,
        }
    }
}

impl Clone for UpdateTodo {
    fn clone(&self) -> (r: Self)
        ensures
            r == *self,
    {
        UpdateTodo {
            text: match &self.text {
                Some(t) => Some(t.clone()),
                None => None,
            },
            completed: self.completed,
        }
    }
}

/// The read-modify-write merge of an update payload into a stored row:
/// a field present in the payload replaces the stored one, a field absent
/// keeps it; the id is never touched.
pub open spec fn apply_update_spec(current: TodoView, payload: UpdateTodoView) -> TodoView {
    TodoView {
        id: current.id,
        text: match payload.text {
            Some(t) => t,
            None => current.text,
        },
        completed: match payload.completed {
            Some(c) => c,
            None => current.completed,
        },
    }
}

/// A partial update preserves untouched fields: the merged row keeps the
/// stored id always, keeps the stored text when the payload carries none,
/// keeps the stored completion flag when the payload carries none, and
/// takes each payload field that is present.
pub proof fn lemma_partial_update(current: TodoView, payload: UpdateTodoView)
    ensures
        apply_update_spec(current, payload).id == current.id,
        match payload.text {
            Some(t) => apply_update_spec(current, payload).text == t,
            None => apply_update_spec(current, payload).text == current.text,
        },
        match payload.completed {
            Some(c) => apply_update_spec(current, payload).completed == c,
            None => apply_update_spec(current, payload).completed == current.completed,
        },
{
}

/// Merges a partial update into the current stored row, producing the full
/// row that the store is to be written with.
pub fn apply_update(current: &Todo, payload: UpdateTodo) -> (r: Todo)
    ensures
        r@ == apply_update_spec(current@, payload@),
{
    Todo {
        id: current.id,
        text: match payload.text {
            Some(t) => t,
            None => current.text.clone(),
        },
        completed: match payload.completed {
            Some(c) => c,
            None => current.completed,
        },
    }
}

} // verus!
