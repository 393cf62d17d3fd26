//! The board as a mathematical value: the fixed layout, addresses, and what
//! makes a sequence of containers a well-formed board.

use crate::container::{lemma_packed_wf, DayModel};
use crate::geometry::Position;
use crate::item::{Todo, TodoBlock};
use vstd::prelude::*;

verus! {

/// The width of a day cell, in screen cells.
pub const CELL_WIDTH: i32 = 30;

/// The height of a day cell, in screen rows. Slots inside any container repeat
/// with this period.
pub const CELL_HEIGHT: i32 = 10;

/// The number of rows of day cells.
pub const GRID_ROWS: usize = 7;

/// The number of columns of day cells.
pub const GRID_COLS: usize = 7;

/// The row index under which the two buckets are addressed.
pub const BUCKET_ROW: usize = 7;

/// The column index of the bucket of items not yet assigned to a day.
pub const UNASSIGNED_COL: usize = 0;

/// The column index of the bucket of finished items.
pub const DONE_COL: usize = 1;

/// The number of buckets.
pub const BUCKET_COUNT: usize = 2;

/// The number of containers on the board: the day cells, then the buckets.
pub const CONTAINER_COUNT: usize = 51;

/// The largest number of items the board holds: with more, the last slot of a
/// container in the lowest row would lie beyond the largest `i32`.
pub const MAX_ITEMS: usize = 2_147_483_587;

/// The logical place of an item or of an empty slot: the container's row and
/// column, and the item's index in the container if the place holds an item.
#[derive(Clone, Copy, Debug, PartialEq, Eq, Structural)]
pub struct Address {
    pub row: usize,
    pub col: usize,
    pub item_index: Option<usize>,
}

/// Whether `(row, col)` names a day cell.
pub open spec fn is_cell(row: int, col: int) -> bool {
    0 <= row < GRID_ROWS && 0 <= col < GRID_COLS
}

/// Whether `(row, col)` names a bucket.
pub open spec fn is_bucket(row: int, col: int) -> bool {
    row == BUCKET_ROW && 0 <= col < BUCKET_COUNT
}

/// Whether `(row, col)` names a container of the board.
pub open spec fn resolves(row: int, col: int) -> bool {
    is_cell(row, col) || is_bucket(row, col)
}

/// The place of container `(row, col)` in the arena.
pub open spec fn handle(row: int, col: int) -> int {
    row * GRID_COLS + col
}

/// The rectangle of the day cell `(row, col)`.
pub open spec fn cell_position(row: int, col: int) -> Position {
    Position {
        x: (col * CELL_WIDTH) as i32,
        y: (row * CELL_HEIGHT) as i32,
        width: CELL_WIDTH,
        height: CELL_HEIGHT,
    }
}

/// The rectangle of the bucket in column `col` of the bucket row.
pub open spec fn bucket_position(col: int) -> Position {
    if col == UNASSIGNED_COL {
        Position { x: 251, y: 1, width: 60, height: 30 }
    } else {
        Position { x: 251, y: 33, width: 60, height: 30 }
    }
}

/// The rectangle that the board gives container `(row, col)`.
pub open spec fn container_position(row: int, col: int) -> Position {
    if row == BUCKET_ROW {
        bucket_position(col)
    } else {
        cell_position(row, col)
    }
}

/// The number of items in the first `n` containers of `g`.
pub open spec fn total_upto(g: Seq<DayModel>, n: int) -> int
    decreases n,
{
    if n <= 0 {
        0
    } else {
        total_upto(g, n - 1) + g[n - 1].items.len()
    }
}

/// The number of items on the whole board.
pub open spec fn total_items(g: Seq<DayModel>) -> int {
    total_upto(g, g.len() as int)
}

/// Whether `(h, i)` names an item of `g`: container `h`, index `i`.
pub open spec fn is_item(g: Seq<DayModel>, h: int, i: int) -> bool {
    0 <= h < g.len() && 0 <= i < g[h].items.len()
}

/// The entry of the item at index `i` of container `h`.
pub open spec fn todo_at(g: Seq<DayModel>, h: int, i: int) -> Todo {
    g[h].items[i].todo
}

/// The identifier of the item at index `i` of container `h`.
pub open spec fn id_at(g: Seq<DayModel>, h: int, i: int) -> u128 {
    todo_at(g, h, i).todo_id
}

/// No identifier occurs at two places of the board.
pub open spec fn distinct_ids(g: Seq<DayModel>) -> bool {
    forall|h1: int, i1: int, h2: int, i2: int|
        #![trigger id_at(g, h1, i1), id_at(g, h2, i2)]
        is_item(g, h1, i1) && is_item(g, h2, i2) && (h1 != h2 || i1 != i2) ==> id_at(g, h1, i1)
            != id_at(g, h2, i2)
}

/// Whether some item of the board has the identifier `id`.
pub open spec fn holds_id(g: Seq<DayModel>, id: u128) -> bool {
    exists|h: int, i: int| is_item(g, h, i) && #[trigger] id_at(g, h, i) == id
}

/// Whether some item of the board shows the entry `todo`.
pub open spec fn holds_todo(g: Seq<DayModel>, todo: Todo) -> bool {
    exists|h: int, i: int| is_item(g, h, i) && #[trigger] todo_at(g, h, i) == todo
}

/// What makes a sequence of containers a board: the fixed layout of day cells
/// and buckets, every stack packed, no identifier twice, and no more items
/// than the coordinates can address.
pub open spec fn board_wf(g: Seq<DayModel>) -> bool {
    &&& g.len() == CONTAINER_COUNT
    &&& forall|h: int|
        0 <= h < CONTAINER_COUNT ==> (#[trigger] g[h]).position == container_position(
            h / (GRID_COLS as int),
            h % (GRID_COLS as int),
        )
    &&& forall|h: int| 0 <= h < CONTAINER_COUNT ==> (#[trigger] g[h]).packed()
    &&& distinct_ids(g)
    &&& total_items(g) <= MAX_ITEMS
}

/// Whether `address` names an item of the board.
pub open spec fn names_item(g: Seq<DayModel>, address: Address) -> bool {
    &&& resolves(address.row as int, address.col as int)
    &&& address.item_index matches Some(i)
    &&& i < g[handle(address.row as int, address.col as int)].items.len()
}

/// The item that `address` names.
pub open spec fn item_at(g: Seq<DayModel>, address: Address) -> TodoBlock {
    g[handle(address.row as int, address.col as int)].items[address.item_index.unwrap() as int]
}

/// Item counts are never negative.
pub proof fn lemma_total_nonneg(g: Seq<DayModel>, n: int)
    ensures
        total_upto(g, n) >= 0,
    decreases n,
{
    if n > 0 {
        lemma_total_nonneg(g, n - 1);
    }
}

/// A longer prefix of the board holds at least as many items.
pub proof fn lemma_total_monotone(g: Seq<DayModel>, k: int, n: int)
    requires
        k <= n,
    ensures
        0 <= total_upto(g, k) <= total_upto(g, n),
    decreases n - k,
{
    lemma_total_nonneg(g, k);
    if k < n {
        lemma_total_monotone(g, k, n - 1);
    }
}

/// No container holds more items than the whole board.
pub proof fn lemma_len_le_total(g: Seq<DayModel>, h: int)
    requires
        0 <= h < g.len(),
    ensures
        g[h].items.len() <= total_items(g),
{
    lemma_total_nonneg(g, h);
    lemma_total_monotone(g, h + 1, g.len() as int);
}

/// Replacing one container changes the count by the difference of the two
/// stacks' lengths.
pub proof fn lemma_total_update(g: Seq<DayModel>, h: int, d: DayModel, n: int)
    requires
        0 <= h < g.len(),
        0 <= n <= g.len(),
    ensures
        total_upto(g.update(h, d), n) == total_upto(g, n) + (if h < n {
            d.items.len() - g[h].items.len()
        } else {
            0
        }),
    decreases n,
{
    if n > 0 {
        lemma_total_update(g, h, d, n - 1);
    }
}

/// Every container of a board is well formed, and has room for one more item
/// unless it alone holds as many as the board may hold.
pub proof fn lemma_container_wf(g: Seq<DayModel>, h: int)
    requires
        board_wf(g),
        0 <= h < CONTAINER_COUNT,
    ensures
        g[h].wf(),
        g[h].items.len() <= total_items(g),
        0 <= g[h].position.x <= 251,
        0 <= g[h].position.y <= 60,
        g[h].items.len() < MAX_ITEMS ==> g[h].has_room(),
{
    lemma_packed_wf(g[h]);
    lemma_len_le_total(g, h);
}

/// The first `n` containers hold no items when each of them is empty.
pub proof fn lemma_total_of_empty(g: Seq<DayModel>, n: int)
    requires
        0 <= n <= g.len(),
        forall|h: int| 0 <= h < n ==> (#[trigger] g[h]).items.len() == 0,
    ensures
        total_upto(g, n) == 0,
    decreases n,
{
    if n > 0 {
        lemma_total_of_empty(g, n - 1);
    }
}

} // verus!
