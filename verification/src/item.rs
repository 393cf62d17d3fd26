//! Todo entries and the draggable blocks that show them.

use crate::geometry::Position;
use crate::ident::{fresh_id, hyphenated, id_text, is_random_id};
use crate::label::{rendered_label, truncate_label};
use vstd::prelude::*;

verus! {

/// One todo entry. Its identifier never changes and tells it apart from every
/// other entry.
#[derive(Debug)]
pub struct Todo {
    pub todo_id: u128,
    pub name: String,
    pub description: String,
    pub start_time: Option<i32>,
    pub end_time: Option<i32>,
    pub time_cost: Option<i32>,
    pub done: bool,
}

impl Todo {
    /// The placeholder entry with the identifier `id`.
    pub fn placeholder(id: u128) -> (todo: Todo)
        ensures
            todo.todo_id == id,
            todo.name@ == "placeholder"@,
            todo.description@ == "Placeholder decription"@,
            todo.start_time == Some(1i32),
            todo.end_time == Some(2i32),
            todo.time_cost == Some(3i32),
            !todo.done,
    {
        Todo {
            todo_id: id,
            name: "placeholder".to_string(),
            description: "Placeholder decription".to_string(),
            start_time: Some(1),
            end_time: Some(2),
            time_cost: Some(3),
            done: false,
        }
    }

    /// The sample entry with the identifier `id`.
    pub fn sample(id: u128) -> (todo: Todo)
        ensures
            todo.todo_id == id,
            todo.name@ == "deez"@,
            todo.description@ == "description"@,
            todo.start_time == Some(1i32),
            todo.end_time == Some(2i32),
            todo.time_cost == Some(3i32),
            !todo.done,
    {
        Todo {
            todo_id: id,
            name: "deez".to_string(),
            description: "description".to_string(),
            start_time: Some(1),
            end_time: Some(2),
            time_cost: Some(3),
            done: false,
        }
    }

    /// A placeholder entry with a fresh random identifier: the identifier is
    /// drawn, and the entry is `placeholder` of what was drawn.
    pub fn new() -> (todo: Todo)
        ensures
            is_random_id(todo.todo_id),
            todo.name@ == "placeholder"@,
            todo.description@ == "Placeholder decription"@,
            todo.start_time == Some(1i32),
            todo.end_time == Some(2i32),
            todo.time_cost == Some(3i32),
            !todo.done,
    {
        Todo::placeholder(fresh_id())
    }

    /// The identifier written as hyphenated lower-case hexadecimal text.
    pub fn id_string(&self) -> (text: String)
        ensures
            text@ == hyphenated(self.todo_id),
    {
        id_text(self.todo_id)
    }
}

/// A sample entry with a fresh random identifier: the identifier is drawn,
/// and the entry is `Todo::sample` of what was drawn.
pub fn generate_todo() -> (todo: Todo)
    ensures
        is_random_id(todo.todo_id),
        todo.name@ == "deez"@,
        todo.description@ == "description"@,
        todo.start_time == Some(1i32),
        todo.end_time == Some(2i32),
        todo.time_cost == Some(3i32),
        !todo.done,
{
    Todo::sample(fresh_id())
}

/// A todo entry together with the rectangle it is drawn in.
///
/// While the block rests in a container the rectangle follows from the
/// container and the block's place in it.
#[derive(Debug)]
pub struct TodoBlock {
    pub todo: Todo,
    pub position: Position,
}

impl TodoBlock {
    /// The block that shows `todo`, one row high and thirty cells wide, with
    /// its corner at `(x, y)`.
    pub fn holding(todo: Todo, x: i32, y: i32) -> (block: TodoBlock)
        ensures
            block.todo == todo,
            block.position == (Position { x: x, y: y, width: 30, height: 1 }),
    {
        TodoBlock { todo: todo, position: Position::default(x, y, 30, 1) }
    }

    /// A block for a placeholder entry with a fresh random identifier, one
    /// row high and thirty cells wide, with its corner at `(x, y)`.
    pub fn new(x: i32, y: i32) -> (block: TodoBlock)
        ensures
            block.position == (Position { x: x, y: y, width: 30, height: 1 }),
            is_random_id(block.todo.todo_id),
            block.todo.name@ == "placeholder"@,
            block.todo.description@ == "Placeholder decription"@,
            block.todo.start_time == Some(1i32),
            block.todo.end_time == Some(2i32),
            block.todo.time_cost == Some(3i32),
            !block.todo.done,
    {
        TodoBlock::holding(Todo::new(), x, y)
    }

    /// The text drawn for this block: its identifier, cut to the block's width.
    pub open spec fn label_spec(self) -> Seq<char> {
        rendered_label(hyphenated(self.todo.todo_id), self.position.width as int)
    }

    /// The text to draw for this block.
    pub fn label(&self) -> (text: String)
        requires
            self.position.width >= 5,
        ensures
            text@ == self.label_spec(),
    {
        let full = self.todo.id_string();
        truncate_label(full.as_str(), self.position.width)
    }
}

} // verus!
