//! The hit test: from a screen cell to the address of the container, and of
//! the item, that lies under it.

use crate::board::{
    board_wf, container_position, handle, is_cell, names_item, resolves, Address, BUCKET_ROW,
    CELL_HEIGHT, CELL_WIDTH, CONTAINER_COUNT, DONE_COL, GRID_COLS, GRID_ROWS, UNASSIGNED_COL,
};
use crate::container::DayModel;
use vstd::prelude::*;

verus! {

/// The item index that row `py` of the screen selects in container `d`: the
/// offset below the container's top edge, taken modulo the cell height, less
/// one for the border row; no index when that slot holds no item.
pub open spec fn slot_index(d: DayModel, py: int) -> Option<usize> {
    let slot = (py - d.position.y) % (CELL_HEIGHT as int) - 1;
    if 0 <= slot < d.items.len() {
        Some(slot as usize)
    } else {
        None
    }
}

/// The address in container `(row, col)` that row `py` of the screen selects.
pub open spec fn address_in(g: Seq<DayModel>, row: int, col: int, py: int) -> Address {
    Address {
        row: row as usize,
        col: col as usize,
        item_index: slot_index(g[handle(row, col)], py),
    }
}

/// The address under the screen cell `(px, py)`.
///
/// The column and row of the day grid come from dividing by the cell width and
/// height. A column of the day grid selects the day cell of that row, if the
/// row exists. Any other column selects the first bucket, unassigned before
/// done, whose rectangle holds the cell. Elsewhere there is no address.
pub open spec fn locate_spec(g: Seq<DayModel>, px: int, py: int) -> Option<Address> {
    let col = px / (CELL_WIDTH as int);
    let row = py / (CELL_HEIGHT as int);
    if 0 <= col < GRID_COLS {
        if 0 <= row < GRID_ROWS {
            Some(address_in(g, row, col, py))
        } else {
            None
        }
    } else {
        locate_bucket_spec(g, px, py)
    }
}

/// The address in the first bucket, unassigned before done, whose rectangle
/// holds the screen cell `(px, py)`.
pub open spec fn locate_bucket_spec(g: Seq<DayModel>, px: int, py: int) -> Option<Address> {
    if g[handle(BUCKET_ROW as int, UNASSIGNED_COL as int)].position.contains_spec(px, py) {
        Some(address_in(g, BUCKET_ROW as int, UNASSIGNED_COL as int, py))
    } else if g[handle(BUCKET_ROW as int, DONE_COL as int)].position.contains_spec(px, py) {
        Some(address_in(g, BUCKET_ROW as int, DONE_COL as int, py))
    } else {
        None
    }
}

/// The hit test only ever answers with a container of the board, and with an
/// item index only where that container holds an item at that index.
pub proof fn lemma_locate_resolves(g: Seq<DayModel>, px: int, py: int)
    ensures
        locate_spec(g, px, py) matches Some(address) ==> {
            &&& resolves(address.row as int, address.col as int)
            &&& address.item_index is Some ==> names_item(g, address)
        },
{
}

/// Row and column are recovered from a container's place in the arena, so
/// the container `(row, col)` of a board has the rectangle that the layout
/// gives it.
pub proof fn lemma_position_of(g: Seq<DayModel>, row: int, col: int)
    requires
        board_wf(g),
        resolves(row, col),
    ensures
        0 <= handle(row, col) < CONTAINER_COUNT,
        handle(row, col) / (GRID_COLS as int) == row,
        handle(row, col) % (GRID_COLS as int) == col,
        g[handle(row, col)].position == container_position(row, col),
        g[handle(row, col)].packed(),
{
    let h = handle(row, col);
    assert(g[h].position == container_position(h / (GRID_COLS as int), h % (GRID_COLS as int)));
}

/// In a packed container whose top edge is not below row `py`, the item that
/// the row selects is drawn a whole number of cell heights away from that
/// row; in the very row if the row is among the container's first ten.
pub proof fn lemma_slot_row(d: DayModel, py: int)
    requires
        d.packed(),
        d.position.y <= py,
    ensures
        slot_index(d, py) matches Some(i) ==> {
            &&& i < d.items.len()
            &&& (py - d.items[i as int].position.y) % (CELL_HEIGHT as int) == 0
            &&& py - d.position.y < CELL_HEIGHT ==> d.items[i as int].position.y == py
        },
{
    if let Some(i) = slot_index(d, py) {
        let slot = (py - d.position.y) % 10 - 1;
        assert(i == slot);
    }
}

/// Where the hit test answers, the cell lies in the container it names, and
/// an item it names is drawn a whole number of cell heights away from the
/// cell's row: in a day cell, in the very row.
pub proof fn lemma_locate_sound(g: Seq<DayModel>, px: int, py: int)
    requires
        board_wf(g),
    ensures
        locate_spec(g, px, py) matches Some(address) ==> {
            let here = handle(address.row as int, address.col as int);
            &&& resolves(address.row as int, address.col as int)
            &&& g[here].position.contains_spec(px, py)
            &&& address.item_index matches Some(i) ==> {
                &&& i < g[here].items.len()
                &&& (py - g[here].items[i as int].position.y) % (CELL_HEIGHT as int) == 0
                &&& is_cell(address.row as int, address.col as int) ==> g[here].items[i as int].position.y
                    == py
            }
        },
{
    let col = px / 30;
    let row = py / 10;
    if 0 <= col < 7 {
        if 0 <= row < 7 {
            lemma_position_of(g, row, col);
            let d = g[handle(row, col)];
            assert(d.position.contains_spec(px, py));
            lemma_slot_row(d, py);
            assert(locate_spec(g, px, py) == Some(address_in(g, row, col, py)));
        }
    } else {
        lemma_position_of(g, 7, 0);
        lemma_position_of(g, 7, 1);
        let unassigned = g[handle(7, 0)];
        let done = g[handle(7, 1)];
        if unassigned.position.contains_spec(px, py) {
            lemma_slot_row(unassigned, py);
            assert(locate_spec(g, px, py) == Some(address_in(g, 7, 0, py)));
        } else if done.position.contains_spec(px, py) {
            lemma_slot_row(done, py);
            assert(locate_spec(g, px, py) == Some(address_in(g, 7, 1, py)));
        }
    }
}

/// A cell that lies in a container of the board is answered with that
/// container.
pub proof fn lemma_locate_complete(g: Seq<DayModel>, h: int, px: int, py: int)
    requires
        board_wf(g),
        0 <= h < CONTAINER_COUNT,
        g[h].position.contains_spec(px, py),
    ensures
        locate_spec(g, px, py) matches Some(address) && handle(
            address.row as int,
            address.col as int,
        ) == h,
{
    let row = h / (GRID_COLS as int);
    let col = h % (GRID_COLS as int);
    lemma_position_of(g, row, col);
    lemma_position_of(g, BUCKET_ROW as int, UNASSIGNED_COL as int);
    lemma_position_of(g, BUCKET_ROW as int, DONE_COL as int);
}

/// The hit test agrees with the rectangles on the screen: it answers with a
/// container exactly when the cell lies in one, and that container is the
/// only one in which the cell lies.
pub proof fn lemma_locate_is_containment(g: Seq<DayModel>, px: int, py: int)
    requires
        board_wf(g),
    ensures
        locate_spec(g, px, py) is None <==> forall|h: int|
            0 <= h < CONTAINER_COUNT ==> !(#[trigger] g[h]).position.contains_spec(px, py),
        locate_spec(g, px, py) matches Some(address) ==> {
            let here = handle(address.row as int, address.col as int);
            &&& 0 <= here < CONTAINER_COUNT
            &&& g[here].position.contains_spec(px, py)
            &&& forall|h: int|
                0 <= h < CONTAINER_COUNT && h != here ==> !(#[trigger] g[h]).position.contains_spec(
                    px,
                    py,
                )
        },
{
    lemma_locate_sound(g, px, py);
    assert forall|h: int| 0 <= h < CONTAINER_COUNT && (#[trigger] g[h]).position.contains_spec(
        px,
        py,
    ) implies locate_spec(g, px, py) matches Some(address) && handle(
        address.row as int,
        address.col as int,
    ) == h by {
        lemma_locate_complete(g, h, px, py);
    }
    if let Some(address) = locate_spec(g, px, py) {
        lemma_position_of(g, address.row as int, address.col as int);
    }
}

/// The round trip from an item to the screen and back: for an item one row
/// high that stands in one of the first nine slots of its container and whose
/// centre lies inside the container, the hit test at the centre of the
/// item's rectangle answers with the container and the item's index.
pub proof fn lemma_locate_round_trip(g: Seq<DayModel>, row: int, col: int, i: int)
    requires
        board_wf(g),
        resolves(row, col),
        0 <= i < g[handle(row, col)].items.len(),
        i < CELL_HEIGHT - 1,
        g[handle(row, col)].items[i].position.height == 1,
        g[handle(row, col)].position.contains_spec(
            g[handle(row, col)].items[i].position.center_x(),
            g[handle(row, col)].items[i].position.center_y(),
        ),
    ensures
        locate_spec(
            g,
            g[handle(row, col)].items[i].position.center_x(),
            g[handle(row, col)].items[i].position.center_y(),
        ) == Some(Address { row: row as usize, col: col as usize, item_index: Some(i as usize) }),
{
    let here = handle(row, col);
    let d = g[here];
    let px = d.items[i].position.center_x();
    let py = d.items[i].position.center_y();
    lemma_position_of(g, row, col);
    lemma_locate_complete(g, here, px, py);
    assert(py == d.position.y + i + 1);
    let address = locate_spec(g, px, py).unwrap();
    lemma_position_of(g, address.row as int, address.col as int);
}

} // verus!
