//! The board as a value of the program: one flat arena of containers,
//! reached only through checked addresses.

use crate::board::{
    board_wf, cell_position, handle, holds_id, id_at, is_item, item_at, lemma_container_wf,
    lemma_total_monotone, lemma_total_of_empty, names_item, resolves, total_items, total_upto,
    Address, BUCKET_COUNT, BUCKET_ROW, CELL_HEIGHT, CELL_WIDTH, CONTAINER_COUNT, GRID_COLS,
    GRID_ROWS, MAX_ITEMS, UNASSIGNED_COL,
};
use crate::hit_test::{address_in, locate_bucket_spec, locate_spec};
use crate::moves::{
    can_move, insert_check, insert_spec, inserted, lemma_inserted, lemma_marked_done, lemma_moved,
    lemma_removed, mark_done_spec, marked_done, move_spec, removed,
};
use crate::container::{Day, DayModel};
use crate::error::PlannerError;
use crate::geometry::Position;
use crate::item::TodoBlock;
use vstd::prelude::*;

verus! {

/// The board: forty-nine day cells in row-major order, then the unassigned
/// bucket, then the done bucket.
///
/// The containers are private. `new` makes a well-formed board and every
/// method leaves the board well formed, so every board a caller can hold is
/// well formed; a move borrows the whole board, so no reader ever sees an
/// item taken out of one container and not yet put into the other.
#[derive(Debug)]
pub struct Grid {
    containers: Vec<Day>,
}

impl View for Grid {
    type V = Seq<DayModel>;

    closed spec fn view(&self) -> Seq<DayModel> {
        Seq::new(self.containers@.len(), |h: int| self.containers@[h]@)
    }
}

impl Grid {
    /// The board is laid out, packed, free of duplicates and within capacity.
    pub open spec fn wf(&self) -> bool {
        board_wf(self@)
    }

    /// The empty board: seven rows of seven day cells, thirty by ten each,
    /// tiled from the screen's origin, and the two buckets to their right.
    pub fn new() -> (grid: Grid)
        ensures
            grid.wf(),
            forall|h: int| 0 <= h < CONTAINER_COUNT ==> (#[trigger] grid@[h]).items.len() == 0,
            total_items(grid@) == 0,
    {
        let mut containers: Vec<Day> = Vec::new();
        let mut row: usize = 0;
        while row < GRID_ROWS
            invariant
                row <= GRID_ROWS,
                containers@.len() == row * GRID_COLS,
                forall|h: int|
                    0 <= h < containers@.len() ==> {
                        &&& (#[trigger] containers@[h])@.items.len() == 0
                        &&& containers@[h]@.position == cell_position(
                            h / (GRID_COLS as int),
                            h % (GRID_COLS as int),
                        )
                    },
            decreases GRID_ROWS - row,
        {
            let mut col: usize = 0;
            while col < GRID_COLS
                invariant
                    row < GRID_ROWS,
                    col <= GRID_COLS,
                    containers@.len() == row * GRID_COLS + col,
                    forall|h: int|
                        0 <= h < containers@.len() ==> {
                            &&& (#[trigger] containers@[h])@.items.len() == 0
                            &&& containers@[h]@.position == cell_position(
                                h / (GRID_COLS as int),
                                h % (GRID_COLS as int),
                            )
                        },
                decreases GRID_COLS - col,
            {
                let x: i32 = (col as i32) * CELL_WIDTH;
                let y: i32 = (row as i32) * CELL_HEIGHT;
                containers.push(Day::new(x, y));
                col += 1;
            }
            row += 1;
        }
        containers.push(
            Day {
                todo_blocks: Vec::new(),
                position: Position { x: 251, y: 1, width: 60, height: 30 },
            },
        );
        containers.push(
            Day {
                todo_blocks: Vec::new(),
                position: Position { x: 251, y: 33, width: 60, height: 30 },
            },
        );
        let grid = Grid { containers };
        proof {
            lemma_total_of_empty(grid@, CONTAINER_COUNT as int);
        }
        grid
    }

    /// The place in the arena of container `(row, col)`, if there is one.
    fn resolve(row: usize, col: usize) -> (h: Option<usize>)
        ensures
            h is Some <==> resolves(row as int, col as int),
            h matches Some(k) ==> k == handle(row as int, col as int) && k < CONTAINER_COUNT,
    {
        if row < GRID_ROWS && col < GRID_COLS {
            Some(row * GRID_COLS + col)
        } else if row == BUCKET_ROW && col < BUCKET_COUNT {
            Some(row * GRID_COLS + col)
        } else {
            None
        }
    }

    /// The container at `(row, col)`, if the board has one there.
    pub fn container(&self, row: usize, col: usize) -> (found: Option<&Day>)
        requires
            self.wf(),
        ensures
            found is Some <==> resolves(row as int, col as int),
            found matches Some(day) ==> day@ == self@[handle(row as int, col as int)],
    {
        match Grid::resolve(row, col) {
            Some(h) => Some(&self.containers[h]),
            None => None,
        }
    }

    /// The item that `address` names, if it names one.
    pub fn item(&self, address: Address) -> (found: Option<&TodoBlock>)
        requires
            self.wf(),
        ensures
            found is Some <==> names_item(self@, address),
            found matches Some(block) ==> *block == item_at(self@, address),
    {
        match (Grid::resolve(address.row, address.col), address.item_index) {
            (Some(h), Some(i)) => {
                if i < self.containers[h].todo_blocks.len() {
                    Some(&self.containers[h].todo_blocks[i])
                } else {
                    None
                }
            },
            _ => None,
        }
    }

    /// The rectangle of the item that `address` names, if it names one.
    pub fn get_position(&self, address: Address) -> (found: Option<Position>)
        requires
            self.wf(),
        ensures
            found is Some <==> names_item(self@, address),
            found matches Some(p) ==> p == item_at(self@, address).position,
    {
        match self.item(address) {
            Some(block) => Some(block.position),
            None => None,
        }
    }

    /// The number of items on the board.
    pub fn item_count(&self) -> (n: usize)
        requires
            self.wf(),
        ensures
            n == total_items(self@),
    {
        let mut n: usize = 0;
        let mut h: usize = 0;
        while h < CONTAINER_COUNT
            invariant
                self.wf(),
                h <= CONTAINER_COUNT,
                n == total_upto(self@, h as int),
            decreases CONTAINER_COUNT - h,
        {
            proof {
                lemma_total_monotone(self@, h + 1, CONTAINER_COUNT as int);
            }
            n = n + self.containers[h].todo_blocks.len();
            h += 1;
        }
        n
    }

    /// The address of the item with identifier `id`, if the board holds it.
    pub fn find(&self, id: u128) -> (found: Option<Address>)
        requires
            self.wf(),
        ensures
            found is Some <==> holds_id(self@, id),
            found matches Some(address) ==> names_item(self@, address) && item_at(
                self@,
                address,
            ).todo.todo_id == id,
    {
        let mut h: usize = 0;
        while h < CONTAINER_COUNT
            invariant
                self.wf(),
                h <= CONTAINER_COUNT,
                forall|k: int, i: int|
                    0 <= k < h && is_item(self@, k, i) ==> #[trigger] id_at(self@, k, i) != id,
            decreases CONTAINER_COUNT - h,
        {
            let day = &self.containers[h];
            let count: usize = day.todo_blocks.len();
            let mut i: usize = 0;
            while i < count
                invariant
                    self.wf(),
                    h < CONTAINER_COUNT,
                    day@ == self@[h as int],
                    count == day@.items.len(),
                    i <= count,
                    forall|j: int| 0 <= j < i ==> #[trigger] id_at(self@, h as int, j) != id,
                decreases count - i,
            {
                if day.todo_blocks[i].todo.todo_id == id {
                    assert(is_item(self@, h as int, i as int) && id_at(self@, h as int, i as int)
                        == id);
                    return Some(
                        Address { row: h / GRID_COLS, col: h % GRID_COLS, item_index: Some(i) },
                    );
                }
                i += 1;
            }
            h += 1;
        }
        None
    }

    /// Puts `item` at the end of container `(row, col)`.
    ///
    /// Refused, with the board unchanged, when there is no such container,
    /// when the board already holds an item of the same identifier, or when
    /// the board is full.
    pub fn insert(&mut self, row: usize, col: usize, item: TodoBlock) -> (done: Result<
        (),
        PlannerError,
    >)
        requires
            old(self).wf(),
        ensures
            final(self).wf(),
            done == insert_check(old(self)@, row as int, col as int, item),
            final(self)@ == insert_spec(old(self)@, row as int, col as int, item),
    {
        let h: usize = match Grid::resolve(row, col) {
            Some(h) => h,
            None => {
                return Err(PlannerError::IndexOutOfRange);
            },
        };
        if self.find(item.todo.todo_id).is_some() {
            return Err(PlannerError::DuplicateItem);
        }
        if self.item_count() >= MAX_ITEMS {
            return Err(PlannerError::BoardFull);
        }
        proof {
            lemma_container_wf(self@, h as int);
            lemma_inserted(self@, h as int, item);
        }
        self.containers[h].append(item);
        proof {
            assert(self@ =~= inserted(old(self)@, h as int, item));
        }
        Ok(())
    }

    /// Puts a newly created item at the end of the unassigned bucket.
    pub fn add_item(&mut self, item: TodoBlock) -> (done: Result<(), PlannerError>)
        requires
            old(self).wf(),
        ensures
            final(self).wf(),
            done == insert_check(old(self)@, BUCKET_ROW as int, UNASSIGNED_COL as int, item),
            final(self)@ == insert_spec(old(self)@, BUCKET_ROW as int, UNASSIGNED_COL as int, item),
    {
        self.insert(BUCKET_ROW, UNASSIGNED_COL, item)
    }

    /// Moves the item that `from` names to the end of the container of `to`;
    /// the item index of `to` plays no part.
    ///
    /// The item leaves its container, whose stack closes the gap, and joins
    /// the other container, whose stack is packed again. Moving an item to
    /// the container it is in changes nothing. Fails, with the board
    /// unchanged, when `from` names no item or `to` names no container.
    pub fn move_item(&mut self, from: Address, to: Address) -> (done: Result<(), PlannerError>)
        requires
            old(self).wf(),
        ensures
            final(self).wf(),
            done is Ok <==> can_move(old(self)@, from, to),
            done matches Err(e) ==> e == PlannerError::IndexOutOfRange,
            final(self)@ == move_spec(old(self)@, from, to),
            total_items(final(self)@) == total_items(old(self)@),
    {
        let src: usize = match Grid::resolve(from.row, from.col) {
            Some(h) => h,
            None => {
                return Err(PlannerError::IndexOutOfRange);
            },
        };
        let index: usize = match from.item_index {
            Some(i) => i,
            None => {
                return Err(PlannerError::IndexOutOfRange);
            },
        };
        let dst: usize = match Grid::resolve(to.row, to.col) {
            Some(h) => h,
            None => {
                return Err(PlannerError::IndexOutOfRange);
            },
        };
        if index >= self.containers[src].todo_blocks.len() {
            return Err(PlannerError::IndexOutOfRange);
        }
        if src == dst {
            return Ok(());
        }
        proof {
            lemma_container_wf(self@, src as int);
            lemma_removed(self@, src as int, index as int);
            lemma_moved(self@, src as int, index as int, dst as int);
        }
        let item = match self.containers[src].remove_at(index) {
            Ok(item) => item,
            Err(e) => {
                return Err(e);
            },
        };
        proof {
            assert(self@ =~= removed(old(self)@, src as int, index as int));
            lemma_container_wf(self@, dst as int);
        }
        self.containers[dst].append(item);
        proof {
            assert(self@ =~= inserted(
                removed(old(self)@, src as int, index as int),
                dst as int,
                item,
            ));
        }
        Ok(())
    }

    /// Marks the item that `address` names as done, where it stands.
    ///
    /// Fails, with the board unchanged, when `address` names no item.
    pub fn mark_done(&mut self, address: Address) -> (done: Result<(), PlannerError>)
        requires
            old(self).wf(),
        ensures
            final(self).wf(),
            done is Ok <==> names_item(old(self)@, address),
            done matches Err(e) ==> e == PlannerError::IndexOutOfRange,
            final(self)@ == mark_done_spec(old(self)@, address),
    {
        match (Grid::resolve(address.row, address.col), address.item_index) {
            (Some(h), Some(i)) => {
                if i < self.containers[h].todo_blocks.len() {
                    proof {
                        lemma_marked_done(self@, h as int, i as int);
                    }
                    self.containers[h].todo_blocks[i].todo.done = true;
                    proof {
                        assert(self@[h as int].items =~= marked_done(
                            old(self)@,
                            h as int,
                            i as int,
                        )[h as int].items);
                        assert(self@ =~= marked_done(old(self)@, h as int, i as int));
                    }
                    Ok(())
                } else {
                    Err(PlannerError::IndexOutOfRange)
                }
            },
            _ => Err(PlannerError::IndexOutOfRange),
        }
    }

    /// The address that row `py` of the screen selects in container
    /// `(row, col)`, whose top edge is not below that row.
    fn address_at(&self, row: usize, col: usize, py: i32) -> (address: Address)
        requires
            self.wf(),
            resolves(row as int, col as int),
            self@[handle(row as int, col as int)].position.y <= py,
        ensures
            address == address_in(self@, row as int, col as int, py as int),
    {
        let day = &self.containers[row * GRID_COLS + col];
        let offset: i64 = py as i64 - day.position.y as i64;
        let slot: i64 = offset % (CELL_HEIGHT as i64) - 1;
        if 0 <= slot && (slot as usize) < day.todo_blocks.len() {
            Address { row, col, item_index: Some(slot as usize) }
        } else {
            Address { row, col, item_index: None }
        }
    }

    /// The address in the first bucket, in the order unassigned then done,
    /// whose rectangle holds the screen cell `(px, py)`.
    pub fn locate_bucket(&self, px: i32, py: i32) -> (hit: Option<Address>)
        requires
            self.wf(),
        ensures
            hit == locate_bucket_spec(self@, px as int, py as int),
    {
        let mut index: usize = 0;
        while index < BUCKET_COUNT
            invariant
                self.wf(),
                index <= BUCKET_COUNT,
                forall|k: int|
                    0 <= k < index ==> !(#[trigger] self@[handle(
                        BUCKET_ROW as int,
                        k,
                    )]).position.contains_spec(px as int, py as int),
            decreases BUCKET_COUNT - index,
        {
            let day = &self.containers[BUCKET_ROW * GRID_COLS + index];
            if day.position.contains(px, py) {
                return Some(self.address_at(BUCKET_ROW, index, py));
            }
            index += 1;
        }
        None
    }

    /// The address under the screen cell `(px, py)`: a container and, where the
    /// cell lies on an item's row, the item. `None` when the cell lies outside
    /// every container.
    pub fn locate(&self, px: i32, py: i32) -> (hit: Option<Address>)
        requires
            self.wf(),
        ensures
            hit == locate_spec(self@, px as int, py as int),
    {
        if px >= 0 && px / CELL_WIDTH < GRID_COLS as i32 {
            if py >= 0 && py / CELL_HEIGHT < GRID_ROWS as i32 {
                let row: usize = (py / CELL_HEIGHT) as usize;
                let col: usize = (px / CELL_WIDTH) as usize;
                Some(self.address_at(row, col, py))
            } else {
                None
            }
        } else {
            self.locate_bucket(px, py)
        }
    }
}

} // verus!
