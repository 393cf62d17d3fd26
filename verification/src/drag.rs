//! The drag controller: a two-state machine that turns pointer events into
//! moves of items between containers.

use crate::board::{
    board_wf, distinct_ids, handle, holds_todo, item_at, lemma_container_wf, names_item,
    total_items, Address,
};
use crate::container::DayModel;
use crate::error::PlannerError;
use crate::geometry::Position;
use crate::grid::Grid;
use crate::hit_test::{lemma_locate_resolves, locate_spec};
use crate::ident::hyphenated;
use crate::item::Todo;
use crate::label::{rendered_label, truncate_label};
use crate::moves::{lemma_move_conserves, lemma_moved, lemma_removed, move_spec, moved};
use crate::render::Label;
use vstd::prelude::*;

verus! {

/// What the controller remembers between events.
#[derive(Clone, Copy, Debug, PartialEq, Eq, Structural)]
pub enum DragState {
    /// No item is held.
    Idle,
    /// An item is held: where it was picked up, which item it is, and the
    /// rectangle in which it is shown while it follows the pointer. The item
    /// itself stays in its container until it is dropped elsewhere.
    Dragging { source: Address, item_id: u128, hover: Position },
}

/// A button of the pointing device.
#[derive(Clone, Copy, Debug, PartialEq, Eq, Structural)]
pub enum MouseButton {
    Left,
    Right,
    Middle,
}

/// An input to the controller. Coordinates are screen cells. Items are
/// dragged with the left button; the other buttons do nothing.
#[derive(Clone, Copy, Debug, PartialEq, Eq, Structural)]
pub enum Event {
    /// A frame passed without input for the controller.
    FrameTick,
    /// The cancel key was pressed.
    Cancel,
    /// A button went down at `(x, y)`.
    MousePress { button: MouseButton, x: i32, y: i32 },
    /// A button is held down and the pointer is at `(x, y)`.
    MouseHeld { button: MouseButton, x: i32, y: i32 },
    /// A button went up at `(x, y)`.
    MouseReleased { button: MouseButton, x: i32, y: i32 },
}

/// What an event did.
#[derive(Clone, Copy, Debug, PartialEq, Eq, Structural)]
pub enum Outcome {
    /// Nothing: the event does not concern the controller in its state.
    Ignored,
    /// An item was picked up.
    PickedUp,
    /// The held item follows the pointer.
    Tracking,
    /// The held item was dropped into another container; `to` is its new
    /// address.
    Moved { to: Address },
    /// The held item was dropped over its own container or outside every
    /// container: it stays where it was.
    Returned,
    /// The drag was called off; the item stays where it was.
    Cancelled,
    /// The remembered source no longer names the held item; the drag was
    /// given up and the board left alone.
    Aborted { fault: PlannerError },
}

/// The result of one step of the controller.
pub struct Transition {
    pub state: DragState,
    pub board: Seq<DayModel>,
    pub outcome: Outcome,
}

/// Whether two addresses lie in the same container.
pub open spec fn same_container(a: Address, b: Address) -> bool {
    a.row == b.row && a.col == b.col
}

/// Whether `source` still names the item with identifier `item_id`.
pub open spec fn source_is_current(g: Seq<DayModel>, source: Address, item_id: u128) -> bool {
    names_item(g, source) && item_at(g, source).todo.todo_id == item_id
}

/// The address at which an item moved into the container of `target` arrives:
/// the end of that container's stack.
pub open spec fn arrival(g: Seq<DayModel>, target: Address) -> Address {
    Address {
        row: target.row,
        col: target.col,
        item_index: Some(g[handle(target.row as int, target.col as int)].items.len() as usize),
    }
}

/// A press of the left button at `(x, y)`: on an item, the controller picks
/// it up, whatever it held before; anywhere else it ends up idle.
pub open spec fn press_spec(state: DragState, g: Seq<DayModel>, x: int, y: int) -> Transition {
    match locate_spec(g, x, y) {
        Some(address) if address.item_index is Some => Transition {
            state: DragState::Dragging {
                source: address,
                item_id: item_at(g, address).todo.todo_id,
                hover: item_at(g, address).position,
            },
            board: g,
            outcome: Outcome::PickedUp,
        },
        _ => Transition {
            state: DragState::Idle,
            board: g,
            outcome: if state is Dragging {
                Outcome::Cancelled
            } else {
                Outcome::Ignored
            },
        },
    }
}

/// The pointer at `(x, y)` with the left button held: the shown rectangle of
/// a held item moves there, keeping its extent. The board plays no part.
pub open spec fn hold_spec(state: DragState, x: i32, y: i32) -> (DragState, Outcome) {
    match state {
        DragState::Idle => (state, Outcome::Ignored),
        DragState::Dragging { source, item_id, hover } => (
            DragState::Dragging {
                source: source,
                item_id: item_id,
                hover: Position { x: x, y: y, width: hover.width, height: hover.height },
            },
            Outcome::Tracking,
        ),
    }
}

/// A release of the left button at `(x, y)`: a held item dropped over another
/// container moves to the end of that container, provided the remembered
/// source still names it; dropped anywhere else it stays. The controller ends
/// up idle.
pub open spec fn release_spec(state: DragState, g: Seq<DayModel>, x: int, y: int) -> Transition {
    match state {
        DragState::Idle => Transition { state: state, board: g, outcome: Outcome::Ignored },
        DragState::Dragging { source, item_id, hover } => match locate_spec(g, x, y) {
            None => Transition { state: DragState::Idle, board: g, outcome: Outcome::Returned },
            Some(target) => if same_container(source, target) {
                Transition { state: DragState::Idle, board: g, outcome: Outcome::Returned }
            } else if !source_is_current(g, source, item_id) {
                Transition {
                    state: DragState::Idle,
                    board: g,
                    outcome: Outcome::Aborted { fault: PlannerError::IndexOutOfRange },
                }
            } else {
                Transition {
                    state: DragState::Idle,
                    board: move_spec(g, source, target),
                    outcome: Outcome::Moved { to: arrival(g, target) },
                }
            },
        },
    }
}

/// The cancel key: a held item is let go where it was. The board plays no
/// part.
pub open spec fn cancel_spec(state: DragState) -> (DragState, Outcome) {
    (
        DragState::Idle,
        if state is Dragging {
            Outcome::Cancelled
        } else {
            Outcome::Ignored
        },
    )
}

/// One step of the controller: the next state, the board and what happened.
pub open spec fn step_spec(state: DragState, g: Seq<DayModel>, event: Event) -> Transition {
    match event {
        Event::Cancel => Transition {
            state: cancel_spec(state).0,
            board: g,
            outcome: cancel_spec(state).1,
        },
        Event::MousePress { button: MouseButton::Left, x, y } => press_spec(
            state,
            g,
            x as int,
            y as int,
        ),
        Event::MouseHeld { button: MouseButton::Left, x, y } => Transition {
            state: hold_spec(state, x, y).0,
            board: g,
            outcome: hold_spec(state, x, y).1,
        },
        Event::MouseReleased { button: MouseButton::Left, x, y } => release_spec(
            state,
            g,
            x as int,
            y as int,
        ),
        _ => Transition { state: state, board: g, outcome: Outcome::Ignored },
    }
}

/// The board after a sequence of events, and the state the controller is in
/// then, starting from `state` and `g`.
pub open spec fn run_spec(state: DragState, g: Seq<DayModel>, events: Seq<Event>) -> Transition
    decreases events.len(),
{
    if events.len() == 0 {
        Transition { state: state, board: g, outcome: Outcome::Ignored }
    } else {
        let before = run_spec(state, g, events.drop_last());
        step_spec(before.state, before.board, events.last())
    }
}

/// Whatever the controller's state and the event, a step leaves a board that
/// holds as many items and shows the same entries, none of them twice.
pub proof fn lemma_step_conserves(state: DragState, g: Seq<DayModel>, event: Event)
    requires
        board_wf(g),
    ensures
        board_wf(step_spec(state, g, event).board),
        distinct_ids(step_spec(state, g, event).board),
        total_items(step_spec(state, g, event).board) == total_items(g),
        forall|entry: Todo|
            holds_todo(step_spec(state, g, event).board, entry) <==> holds_todo(g, entry),
{
    if let Event::MouseReleased { button: MouseButton::Left, x, y } = event {
        if let DragState::Dragging { source, item_id, hover } = state {
            if let Some(target) = locate_spec(g, x as int, y as int) {
                lemma_move_conserves(g, source, target);
            }
        }
    }
}

/// Whatever sequence of events the controller is fed, the board at the end
/// holds as many items as at the start and shows the same entries, none of
/// them twice.
pub proof fn lemma_run_conserves(state: DragState, g: Seq<DayModel>, events: Seq<Event>)
    requires
        board_wf(g),
    ensures
        board_wf(run_spec(state, g, events).board),
        distinct_ids(run_spec(state, g, events).board),
        total_items(run_spec(state, g, events).board) == total_items(g),
        forall|entry: Todo|
            holds_todo(run_spec(state, g, events).board, entry) <==> holds_todo(g, entry),
    decreases events.len(),
{
    if events.len() > 0 {
        lemma_run_conserves(state, g, events.drop_last());
        let before = run_spec(state, g, events.drop_last());
        lemma_step_conserves(before.state, before.board, events.last());
    }
}

/// Only a release changes the board, and only while an item is held.
pub proof fn lemma_board_changes_on_release_only(state: DragState, g: Seq<DayModel>, event: Event)
    ensures
        !(event is MouseReleased && state is Dragging) ==> step_spec(state, g, event).board == g,
{
}

/// A press where the hit test finds no item leaves an idle controller idle
/// and the board as it was.
pub proof fn lemma_press_on_nothing(g: Seq<DayModel>, x: int, y: int)
    requires
        locate_spec(g, x, y) matches Some(address) ==> address.item_index is None,
    ensures
        press_spec(DragState::Idle, g, x, y).state == DragState::Idle,
        press_spec(DragState::Idle, g, x, y).board == g,
        press_spec(DragState::Idle, g, x, y).outcome == Outcome::Ignored,
{
}

/// A held item dropped over the container it was picked up from, or outside
/// every container, stays where it was: the board is as before and the
/// controller is idle.
pub proof fn lemma_drop_without_move(state: DragState, g: Seq<DayModel>, x: int, y: int)
    requires
        state is Dragging,
        locate_spec(g, x, y) matches Some(target) ==> same_container(state->source, target),
    ensures
        release_spec(state, g, x, y).state == DragState::Idle,
        release_spec(state, g, x, y).board == g,
        release_spec(state, g, x, y).outcome == Outcome::Returned,
{
}

/// A held item dropped over another container, while its source still names
/// it, leaves its container and stands at the end of the other one: there
/// the outcome's address finds it, with its entry unchanged.
pub proof fn lemma_drop_moves(state: DragState, g: Seq<DayModel>, x: int, y: int)
    requires
        board_wf(g),
        state is Dragging,
        source_is_current(g, state->source, state->item_id),
        locate_spec(g, x, y) matches Some(target) && !same_container(state->source, target),
    ensures
        ({
            let after = release_spec(state, g, x, y);
            let source = state->source;
            let target = locate_spec(g, x, y).unwrap();
            let src = handle(source.row as int, source.col as int);
            let dst = handle(target.row as int, target.col as int);
            &&& after.state == DragState::Idle
            &&& after.outcome == (Outcome::Moved { to: arrival(g, target) })
            &&& after.board == moved(g, src, source.item_index.unwrap() as int, dst)
            &&& names_item(after.board, arrival(g, target))
            &&& item_at(after.board, arrival(g, target)).todo == item_at(g, source).todo
            &&& after.board[src].items.len() == g[src].items.len() - 1
            &&& after.board[dst].items.len() == g[dst].items.len() + 1
        }),
{
    let source = state->source;
    let target = locate_spec(g, x, y).unwrap();
    let src = handle(source.row as int, source.col as int);
    let dst = handle(target.row as int, target.col as int);
    let index = source.item_index.unwrap() as int;
    lemma_locate_resolves(g, x, y);
    lemma_moved(g, src, index, dst);
    lemma_removed(g, src, index);
    lemma_container_wf(g, dst);
}

impl DragState {
    /// Handles a press of the left button at `(x, y)`.
    pub fn press(self, grid: &Grid, x: i32, y: i32) -> (next: (DragState, Outcome))
        requires
            grid.wf(),
        ensures
            next.0 == press_spec(self, grid@, x as int, y as int).state,
            next.1 == press_spec(self, grid@, x as int, y as int).outcome,
    {
        let was_dragging = match self {
            DragState::Idle => false,
            DragState::Dragging { .. } => true,
        };
        let idle = if was_dragging {
            (DragState::Idle, Outcome::Cancelled)
        } else {
            (DragState::Idle, Outcome::Ignored)
        };
        proof {
            lemma_locate_resolves(grid@, x as int, y as int);
        }
        match grid.locate(x, y) {
            Some(address) => {
                match grid.item(address) {
                    Some(block) => (
                        DragState::Dragging {
                            source: address,
                            item_id: block.todo.todo_id,
                            hover: block.position,
                        },
                        Outcome::PickedUp,
                    ),
                    None => idle,
                }
            },
            None => idle,
        }
    }

    /// Handles the pointer at `(x, y)` with the left button held.
    pub fn hold(self, x: i32, y: i32) -> (next: (DragState, Outcome))
        ensures
            next == hold_spec(self, x, y),
    {
        match self {
            DragState::Idle => (DragState::Idle, Outcome::Ignored),
            DragState::Dragging { source, item_id, hover } => (
                DragState::Dragging {
                    source,
                    item_id,
                    hover: Position { x, y, width: hover.width, height: hover.height },
                },
                Outcome::Tracking,
            ),
        }
    }

    /// Handles a release of the left button at `(x, y)`.
    pub fn release(self, grid: &mut Grid, x: i32, y: i32) -> (next: (DragState, Outcome))
        requires
            old(grid).wf(),
        ensures
            final(grid).wf(),
            next.0 == release_spec(self, old(grid)@, x as int, y as int).state,
            next.1 == release_spec(self, old(grid)@, x as int, y as int).outcome,
            final(grid)@ == release_spec(self, old(grid)@, x as int, y as int).board,
            total_items(final(grid)@) == total_items(old(grid)@),
    {
        match self {
            DragState::Idle => (DragState::Idle, Outcome::Ignored),
            DragState::Dragging { source, item_id, hover } => {
                proof {
                    lemma_locate_resolves(grid@, x as int, y as int);
                }
                match grid.locate(x, y) {
                    None => (DragState::Idle, Outcome::Returned),
                    Some(target) => {
                        if source.row == target.row && source.col == target.col {
                            (DragState::Idle, Outcome::Returned)
                        } else {
                            let current = match grid.item(source) {
                                Some(block) => block.todo.todo_id == item_id,
                                None => false,
                            };
                            let end: usize = match grid.container(target.row, target.col) {
                                Some(day) => day.len(),
                                None => 0,
                            };
                            if !current {
                                (
                                    DragState::Idle,
                                    Outcome::Aborted { fault: PlannerError::IndexOutOfRange },
                                )
                            } else {
                                match grid.move_item(source, target) {
                                    Ok(()) => (
                                        DragState::Idle,
                                        Outcome::Moved {
                                            to: Address {
                                                row: target.row,
                                                col: target.col,
                                                item_index: Some(end),
                                            },
                                        },
                                    ),
                                    Err(fault) => (DragState::Idle, Outcome::Aborted { fault }),
                                }
                            }
                        }
                    },
                }
            },
        }
    }

    /// Handles the cancel key.
    pub fn cancel(self) -> (next: (DragState, Outcome))
        ensures
            next == cancel_spec(self),
    {
        match self {
            DragState::Idle => (DragState::Idle, Outcome::Ignored),
            DragState::Dragging { .. } => (DragState::Idle, Outcome::Cancelled),
        }
    }

    /// The line to print for the held item while it follows the pointer: its
    /// label, cut to the width of the shown rectangle, at that rectangle's
    /// corner. `None` when no item is held or the remembered source no
    /// longer names the held item.
    pub fn floating_label(&self, grid: &Grid) -> (label: Option<Label>)
        requires
            grid.wf(),
            self is Dragging ==> self->hover.width >= 5,
        ensures
            label is Some <==> self is Dragging && source_is_current(
                grid@,
                self->source,
                self->item_id,
            ),
            label matches Some(line) ==> {
                &&& line.x == self->hover.x
                &&& line.y == self->hover.y
                &&& line.text@ == rendered_label(
                    hyphenated(self->item_id),
                    self->hover.width as int,
                )
            },
    {
        match *self {
            DragState::Idle => None,
            DragState::Dragging { source, item_id, hover } => match grid.item(source) {
                Some(block) => {
                    if block.todo.todo_id == item_id {
                        let full = block.todo.id_string();
                        Some(
                            Label {
                                x: hover.x,
                                y: hover.y,
                                text: truncate_label(full.as_str(), hover.width),
                            },
                        )
                    } else {
                        None
                    }
                },
                None => None,
            },
        }
    }

    /// Handles one event: the next state and what happened. Only a release
    /// that drops a held item into another container changes the board.
    pub fn step(self, grid: &mut Grid, event: Event) -> (next: (DragState, Outcome))
        requires
            old(grid).wf(),
        ensures
            final(grid).wf(),
            next.0 == step_spec(self, old(grid)@, event).state,
            next.1 == step_spec(self, old(grid)@, event).outcome,
            final(grid)@ == step_spec(self, old(grid)@, event).board,
            total_items(final(grid)@) == total_items(old(grid)@),
    {
        match event {
            Event::Cancel => self.cancel(),
            Event::MousePress { button: MouseButton::Left, x, y } => self.press(grid, x, y),
            Event::MouseHeld { button: MouseButton::Left, x, y } => self.hold(x, y),
            Event::MouseReleased { button: MouseButton::Left, x, y } => self.release(grid, x, y),
            _ => (self, Outcome::Ignored),
        }
    }
}

} // verus!
