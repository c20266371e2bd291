//! A small todo library: the data model, a repository abstraction over the
//! `todos` table with full functional contracts, a verified in-memory
//! backend, and the request-handling decisions of the HTTP layer.

pub mod handler;
pub mod memory;
pub mod todo;
pub mod todorepository;

pub use handler::{all_todo, create_todo, delete_todo, find_todo, parse_id, status_code, update_todo};
pub use memory::TodoRepositoryForMemory;
pub use todo::{apply_update, CreateTodo, Todo, UpdateTodo};
pub use todorepository::{delete_outcome, RepositoryError, TodoRepository};
