use week_planner::board::Address;
use week_planner::drag::{DragState, Event, MouseButton, Outcome};
use week_planner::error::PlannerError;
use week_planner::geometry::Position;
use week_planner::grid::Grid;
use week_planner::item::{Todo, TodoBlock};

fn drag_block(id: u128, name: &str) -> TodoBlock {
    TodoBlock {
        todo: Todo {
            todo_id: id,
            name: String::from(name),
            description: String::new(),
            start_time: None,
            end_time: None,
            time_cost: None,
            done: false,
        },
        position: Position::new(),
    }
}

fn board_with_a_and_b() -> Grid {
    let mut grid = Grid::new();
    grid.insert(0, 0, drag_block(1, "A")).unwrap();
    grid.insert(0, 0, drag_block(2, "B")).unwrap();
    grid
}

fn cell_names(grid: &Grid, row: usize, col: usize) -> Vec<String> {
    grid.container(row, col).unwrap().todo_blocks.iter().map(|b| b.todo.name.clone()).collect()
}

fn press(x: i32, y: i32) -> Event {
    Event::MousePress { button: MouseButton::Left, x, y }
}

fn held(x: i32, y: i32) -> Event {
    Event::MouseHeld { button: MouseButton::Left, x, y }
}

fn released(x: i32, y: i32) -> Event {
    Event::MouseReleased { button: MouseButton::Left, x, y }
}

fn all_ids(grid: &Grid) -> Vec<u128> {
    let mut ids = Vec::new();
    for row in 0..8 {
        for col in 0..7 {
            if let Some(day) = grid.container(row, col) {
                ids.extend(day.todo_blocks.iter().map(|b| b.todo.todo_id));
            }
        }
    }
    ids.sort();
    ids
}

#[test]
fn drag_b_from_the_first_cell_to_the_next() {
    let mut grid = board_with_a_and_b();
    let b_slot = grid.container(0, 0).unwrap().todo_blocks[1].position;
    assert_eq!(b_slot, Position { x: 1, y: 2, width: 30, height: 1 });

    let (state, outcome) = DragState::Idle.step(&mut grid, press(b_slot.x, b_slot.y));
    assert_eq!(outcome, Outcome::PickedUp);
    assert_eq!(
        state,
        DragState::Dragging {
            source: Address { row: 0, col: 0, item_index: Some(1) },
            item_id: 2,
            hover: b_slot,
        }
    );

    let (state, outcome) = state.step(&mut grid, held(40, 5));
    assert_eq!(outcome, Outcome::Tracking);
    assert_eq!(cell_names(&grid, 0, 0), vec!["A", "B"]);

    let (state, outcome) = state.step(&mut grid, released(40, 5));
    assert_eq!(state, DragState::Idle);
    assert_eq!(outcome, Outcome::Moved { to: Address { row: 0, col: 1, item_index: Some(0) } });
    assert_eq!(cell_names(&grid, 0, 0), vec!["A"]);
    assert_eq!(cell_names(&grid, 0, 1), vec!["B"]);
    let moved = &grid.container(0, 1).unwrap().todo_blocks[0];
    assert_eq!(moved.todo.todo_id, 2);
    assert_eq!(moved.position, Position { x: 31, y: 1, width: 30, height: 1 });
    let stayed = &grid.container(0, 0).unwrap().todo_blocks[0];
    assert_eq!(stayed.position, Position { x: 1, y: 1, width: 30, height: 1 });
}

#[test]
fn press_where_no_container_lies_stays_idle() {
    let mut grid = board_with_a_and_b();
    let (state, outcome) = DragState::Idle.step(&mut grid, press(230, 5));
    assert_eq!(state, DragState::Idle);
    assert_eq!(outcome, Outcome::Ignored);
    let (state, outcome) = state.step(&mut grid, press(-4, -4));
    assert_eq!(state, DragState::Idle);
    assert_eq!(outcome, Outcome::Ignored);
    let (state, outcome) = state.step(&mut grid, released(40, 5));
    assert_eq!(state, DragState::Idle);
    assert_eq!(outcome, Outcome::Ignored);
    assert_eq!(cell_names(&grid, 0, 0), vec!["A", "B"]);
    assert!(cell_names(&grid, 0, 1).is_empty());
    assert_eq!(grid.item_count(), 2);
}

#[test]
fn press_on_an_empty_slot_stays_idle() {
    let mut grid = board_with_a_and_b();
    let (state, outcome) = DragState::Idle.step(&mut grid, press(5, 0));
    assert_eq!((state, outcome), (DragState::Idle, Outcome::Ignored));
    let (state, outcome) = DragState::Idle.step(&mut grid, press(5, 3));
    assert_eq!((state, outcome), (DragState::Idle, Outcome::Ignored));
    let (state, outcome) = DragState::Idle.step(&mut grid, press(100, 25));
    assert_eq!((state, outcome), (DragState::Idle, Outcome::Ignored));
    assert_eq!(cell_names(&grid, 0, 0), vec!["A", "B"]);
}

#[test]
fn release_over_the_same_container_changes_nothing() {
    let mut grid = board_with_a_and_b();
    let (state, _) = DragState::Idle.step(&mut grid, press(10, 1));
    let (state, _) = state.step(&mut grid, held(12, 7));
    let (state, outcome) = state.step(&mut grid, released(12, 7));
    assert_eq!(state, DragState::Idle);
    assert_eq!(outcome, Outcome::Returned);
    assert_eq!(cell_names(&grid, 0, 0), vec!["A", "B"]);
    let day = grid.container(0, 0).unwrap();
    assert_eq!(day.todo_blocks[0].position, Position { x: 1, y: 1, width: 30, height: 1 });
    assert_eq!(day.todo_blocks[1].position, Position { x: 1, y: 2, width: 30, height: 1 });
    assert_eq!(grid.item_count(), 2);
}

#[test]
fn release_over_another_item_of_the_same_container_does_not_reorder() {
    let mut grid = board_with_a_and_b();
    let (state, _) = DragState::Idle.step(&mut grid, press(10, 1));
    let (state, outcome) = state.step(&mut grid, released(10, 2));
    assert_eq!((state, outcome), (DragState::Idle, Outcome::Returned));
    assert_eq!(cell_names(&grid, 0, 0), vec!["A", "B"]);
}

#[test]
fn release_outside_every_container_aborts_the_move() {
    let mut grid = board_with_a_and_b();
    let (state, _) = DragState::Idle.step(&mut grid, press(10, 2));
    let (state, outcome) = state.step(&mut grid, released(230, 75));
    assert_eq!((state, outcome), (DragState::Idle, Outcome::Returned));
    assert_eq!(cell_names(&grid, 0, 0), vec!["A", "B"]);
    assert_eq!(grid.item_count(), 2);
}

#[test]
fn hold_moves_the_shown_rectangle_and_not_the_item() {
    let mut grid = board_with_a_and_b();
    let (state, _) = DragState::Idle.step(&mut grid, press(10, 2));
    let (state, outcome) = state.step(&mut grid, held(77, 33));
    assert_eq!(outcome, Outcome::Tracking);
    assert_eq!(
        state,
        DragState::Dragging {
            source: Address { row: 0, col: 0, item_index: Some(1) },
            item_id: 2,
            hover: Position { x: 77, y: 33, width: 30, height: 1 },
        }
    );
    let (state, _) = state.step(&mut grid, held(-5, 400));
    assert_eq!(
        state,
        DragState::Dragging {
            source: Address { row: 0, col: 0, item_index: Some(1) },
            item_id: 2,
            hover: Position { x: -5, y: 400, width: 30, height: 1 },
        }
    );
    let day = grid.container(0, 0).unwrap();
    assert_eq!(day.todo_blocks[1].position, Position { x: 1, y: 2, width: 30, height: 1 });
}

#[test]
fn hold_and_tick_while_idle_do_nothing() {
    let mut grid = board_with_a_and_b();
    assert_eq!(DragState::Idle.step(&mut grid, held(10, 2)), (DragState::Idle, Outcome::Ignored));
    assert_eq!(
        DragState::Idle.step(&mut grid, Event::FrameTick),
        (DragState::Idle, Outcome::Ignored)
    );
    assert_eq!(DragState::Idle.step(&mut grid, Event::Cancel), (DragState::Idle, Outcome::Ignored));
}

#[test]
fn frame_tick_keeps_a_drag_going() {
    let mut grid = board_with_a_and_b();
    let (state, _) = DragState::Idle.step(&mut grid, press(10, 2));
    let (after, outcome) = state.step(&mut grid, Event::FrameTick);
    assert_eq!(after, state);
    assert_eq!(outcome, Outcome::Ignored);
}

#[test]
fn cancel_returns_to_idle_without_moving() {
    let mut grid = board_with_a_and_b();
    let (state, _) = DragState::Idle.step(&mut grid, press(10, 2));
    let (state, _) = state.step(&mut grid, held(40, 5));
    let (state, outcome) = state.step(&mut grid, Event::Cancel);
    assert_eq!((state, outcome), (DragState::Idle, Outcome::Cancelled));
    let (state, outcome) = state.step(&mut grid, released(40, 5));
    assert_eq!((state, outcome), (DragState::Idle, Outcome::Ignored));
    assert_eq!(cell_names(&grid, 0, 0), vec!["A", "B"]);
    assert!(cell_names(&grid, 0, 1).is_empty());
}

#[test]
fn other_buttons_do_nothing() {
    let mut grid = board_with_a_and_b();
    for button in [MouseButton::Right, MouseButton::Middle] {
        let (state, outcome) =
            DragState::Idle.step(&mut grid, Event::MousePress { button, x: 10, y: 2 });
        assert_eq!((state, outcome), (DragState::Idle, Outcome::Ignored));
    }
    let (held_state, _) = DragState::Idle.step(&mut grid, press(10, 2));
    for button in [MouseButton::Right, MouseButton::Middle] {
        let (state, outcome) =
            held_state.step(&mut grid, Event::MouseReleased { button, x: 40, y: 5 });
        assert_eq!(state, held_state);
        assert_eq!(outcome, Outcome::Ignored);
        let (state, outcome) = held_state.step(&mut grid, Event::MouseHeld { button, x: 40, y: 5 });
        assert_eq!(state, held_state);
        assert_eq!(outcome, Outcome::Ignored);
    }
    assert_eq!(cell_names(&grid, 0, 0), vec!["A", "B"]);
}

#[test]
fn a_new_press_replaces_the_held_item() {
    let mut grid = board_with_a_and_b();
    let (state, _) = DragState::Idle.step(&mut grid, press(10, 2));
    let (state, outcome) = state.step(&mut grid, press(10, 1));
    assert_eq!(outcome, Outcome::PickedUp);
    assert_eq!(
        state,
        DragState::Dragging {
            source: Address { row: 0, col: 0, item_index: Some(0) },
            item_id: 1,
            hover: Position { x: 1, y: 1, width: 30, height: 1 },
        }
    );
    let (state, outcome) = state.step(&mut grid, press(100, 50));
    assert_eq!((state, outcome), (DragState::Idle, Outcome::Cancelled));
    assert_eq!(cell_names(&grid, 0, 0), vec!["A", "B"]);
}

#[test]
fn drop_into_a_bucket_and_back() {
    let mut grid = board_with_a_and_b();
    let (state, _) = DragState::Idle.step(&mut grid, press(10, 1));
    let (state, outcome) = state.step(&mut grid, released(260, 40));
    assert_eq!(state, DragState::Idle);
    assert_eq!(outcome, Outcome::Moved { to: Address { row: 7, col: 1, item_index: Some(0) } });
    assert_eq!(cell_names(&grid, 0, 0), vec!["B"]);
    assert_eq!(cell_names(&grid, 7, 1), vec!["A"]);
    let (state, outcome) = state.step(&mut grid, press(260, 34));
    assert_eq!(outcome, Outcome::PickedUp);
    let (_, outcome) = state.step(&mut grid, released(5, 5));
    assert_eq!(outcome, Outcome::Moved { to: Address { row: 0, col: 0, item_index: Some(1) } });
    assert_eq!(cell_names(&grid, 0, 0), vec!["B", "A"]);
    assert!(cell_names(&grid, 7, 1).is_empty());
}

#[test]
fn a_stale_source_aborts_the_drag() {
    let mut grid = board_with_a_and_b();
    let gone = DragState::Dragging {
        source: Address { row: 0, col: 0, item_index: Some(5) },
        item_id: 2,
        hover: Position::new(),
    };
    let fault = Outcome::Aborted { fault: PlannerError::IndexOutOfRange };
    assert_eq!(gone.step(&mut grid, released(40, 5)), (DragState::Idle, fault));
    let other_item = DragState::Dragging {
        source: Address { row: 0, col: 0, item_index: Some(0) },
        item_id: 2,
        hover: Position::new(),
    };
    assert_eq!(other_item.step(&mut grid, released(40, 5)), (DragState::Idle, fault));
    let no_container = DragState::Dragging {
        source: Address { row: 9, col: 9, item_index: Some(0) },
        item_id: 2,
        hover: Position::new(),
    };
    assert_eq!(no_container.step(&mut grid, released(40, 5)), (DragState::Idle, fault));
    let no_index = DragState::Dragging {
        source: Address { row: 0, col: 0, item_index: None },
        item_id: 2,
        hover: Position::new(),
    };
    assert_eq!(no_index.step(&mut grid, released(40, 5)), (DragState::Idle, fault));
    assert_eq!(cell_names(&grid, 0, 0), vec!["A", "B"]);
    assert!(cell_names(&grid, 0, 1).is_empty());
}

#[test]
fn the_separate_handlers_agree_with_step() {
    let mut grid = board_with_a_and_b();
    let (state, outcome) = DragState::Idle.press(&grid, 10, 2);
    assert_eq!(outcome, Outcome::PickedUp);
    let (state, outcome) = state.hold(50, 50);
    assert_eq!(outcome, Outcome::Tracking);
    let (cancelled, outcome) = state.cancel();
    assert_eq!((cancelled, outcome), (DragState::Idle, Outcome::Cancelled));
    let (state, outcome) = state.release(&mut grid, 50, 50);
    assert_eq!(state, DragState::Idle);
    assert_eq!(outcome, Outcome::Moved { to: Address { row: 5, col: 1, item_index: Some(0) } });
    assert_eq!(cell_names(&grid, 5, 1), vec!["B"]);
}

#[test]
fn any_run_of_events_keeps_every_item_exactly_once() {
    let mut grid = Grid::new();
    for id in 0..30u128 {
        grid.insert((id % 5) as usize, (id % 3) as usize, drag_block(id, "x")).unwrap();
    }
    for id in 30..36u128 {
        grid.add_item(drag_block(id, "u")).unwrap();
    }
    let before = all_ids(&grid);
    let mut seed: u64 = 99;
    let mut next = |bound: u64| {
        seed = seed.wrapping_mul(6364136223846793005).wrapping_add(1442695040888963407);
        ((seed >> 33) % bound) as i32
    };
    let mut state = DragState::Idle;
    let mut moves = 0;
    for _ in 0..4000 {
        let (x, y) = (next(330) - 10, next(90) - 10);
        let event = match next(6) {
            0 | 1 => press(x, y),
            2 => held(x, y),
            3 | 4 => released(x, y),
            _ => {
                if next(4) == 0 {
                    Event::Cancel
                } else {
                    Event::FrameTick
                }
            }
        };
        let (after, outcome) = state.step(&mut grid, event);
        if let Outcome::Moved { .. } = outcome {
            moves += 1;
        }
        state = after;
        assert_eq!(grid.item_count(), 36);
    }
    assert!(moves > 0);
    assert_eq!(all_ids(&grid), before);
    let mut unique = before.clone();
    unique.dedup();
    assert_eq!(unique.len(), 36);
}
