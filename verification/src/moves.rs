//! How the board changes: putting an item in, taking one out, moving one
//! between containers; and the proof that moves neither create, lose nor
//! duplicate items.

use crate::board::{
    board_wf, container_position, distinct_ids, handle, holds_id, holds_todo, id_at, is_item,
    lemma_container_wf, lemma_total_update, names_item, resolves, todo_at, total_items, Address,
    CONTAINER_COUNT, GRID_COLS, MAX_ITEMS,
};
use crate::container::{lemma_re_flow_packs, DayModel};
use crate::error::PlannerError;
use crate::item::{Todo, TodoBlock};
use vstd::prelude::*;

verus! {

/// The board after `item` was appended to container `h`.
pub open spec fn inserted(g: Seq<DayModel>, h: int, item: TodoBlock) -> Seq<DayModel> {
    g.update(h, g[h].append(item))
}

/// The board after the item at `index` was taken out of container `h`.
pub open spec fn removed(g: Seq<DayModel>, h: int, index: int) -> Seq<DayModel> {
    g.update(h, g[h].remove_at(index))
}

/// The board after the item at `index` of container `src` was moved to the end
/// of container `dst`.
pub open spec fn moved(g: Seq<DayModel>, src: int, index: int, dst: int) -> Seq<DayModel> {
    inserted(removed(g, src, index), dst, g[src].items[index])
}

/// Why `item` cannot be put into container `(row, col)`, if it cannot: no
/// such container, an item of the same identifier on the board, or a full
/// board, in this order.
pub open spec fn insert_check(g: Seq<DayModel>, row: int, col: int, item: TodoBlock) -> Result<
    (),
    PlannerError,
> {
    if !resolves(row, col) {
        Err(PlannerError::IndexOutOfRange)
    } else if holds_id(g, item.todo.todo_id) {
        Err(PlannerError::DuplicateItem)
    } else if total_items(g) >= MAX_ITEMS {
        Err(PlannerError::BoardFull)
    } else {
        Ok(())
    }
}

/// The board after a request to put `item` into container `(row, col)`.
pub open spec fn insert_spec(g: Seq<DayModel>, row: int, col: int, item: TodoBlock) -> Seq<
    DayModel,
> {
    if insert_check(g, row, col, item) is Ok {
        inserted(g, handle(row, col), item)
    } else {
        g
    }
}

/// Whether the item that `from` names can be moved to the container of `to`:
/// `from` names an item and `to` names a container.
pub open spec fn can_move(g: Seq<DayModel>, from: Address, to: Address) -> bool {
    names_item(g, from) && resolves(to.row as int, to.col as int)
}

/// The board after a request to move the item that `from` names to the end
/// of the container of `to`. A move within one container changes nothing.
pub open spec fn move_spec(g: Seq<DayModel>, from: Address, to: Address) -> Seq<DayModel> {
    let src = handle(from.row as int, from.col as int);
    let dst = handle(to.row as int, to.col as int);
    if can_move(g, from, to) && src != dst {
        moved(g, src, from.item_index.unwrap() as int, dst)
    } else {
        g
    }
}

/// The board after the item at `index` of container `h` was marked done: its
/// entry's flag is set, and nothing else changes.
pub open spec fn marked_done(g: Seq<DayModel>, h: int, index: int) -> Seq<DayModel> {
    let block = g[h].items[index];
    let finished = TodoBlock { todo: Todo { done: true, ..block.todo }, position: block.position };
    g.update(h, DayModel { position: g[h].position, items: g[h].items.update(index, finished) })
}

/// The board after a request to mark the item that `address` names as done.
pub open spec fn mark_done_spec(g: Seq<DayModel>, address: Address) -> Seq<DayModel> {
    if names_item(g, address) {
        marked_done(
            g,
            handle(address.row as int, address.col as int),
            address.item_index.unwrap() as int,
        )
    } else {
        g
    }
}

/// The board after a sequence of move requests, carried out in order.
pub open spec fn moves_spec(g: Seq<DayModel>, moves: Seq<(Address, Address)>) -> Seq<DayModel>
    decreases moves.len(),
{
    if moves.len() == 0 {
        g
    } else {
        move_spec(moves_spec(g, moves.drop_last()), moves.last().0, moves.last().1)
    }
}

/// Where the item now at index `i` stood before the item at `index` was taken
/// out of the same container.
pub open spec fn index_before_removal(index: int, i: int) -> int {
    if i < index {
        i
    } else {
        i + 1
    }
}

/// Where the item at index `i` stands after the item at `index` was taken out
/// of the same container.
pub open spec fn index_after_removal(index: int, i: int) -> int {
    if i < index {
        i
    } else {
        i - 1
    }
}

/// Appending an item whose identifier is new to a board with spare capacity
/// leaves a board. It holds one item more: the entries it shows are those it
/// showed before and the new one, which stands at the end of its container.
pub proof fn lemma_inserted(g: Seq<DayModel>, h: int, item: TodoBlock)
    requires
        board_wf(g),
        0 <= h < CONTAINER_COUNT,
        !holds_id(g, item.todo.todo_id),
        total_items(g) < MAX_ITEMS,
    ensures
        board_wf(inserted(g, h, item)),
        total_items(inserted(g, h, item)) == total_items(g) + 1,
        is_item(inserted(g, h, item), h, g[h].items.len() as int),
        todo_at(inserted(g, h, item), h, g[h].items.len() as int) == item.todo,
        forall|entry: Todo|
            holds_todo(inserted(g, h, item), entry) <==> holds_todo(g, entry) || entry == item.todo,
        forall|id: u128|
            holds_id(inserted(g, h, item), id) <==> holds_id(g, id) || id == item.todo.todo_id,
{
    let g2 = inserted(g, h, item);
    let end = g[h].items.len() as int;
    let grown = DayModel { position: g[h].position, items: g[h].items.push(item) };
    lemma_container_wf(g, h);
    lemma_re_flow_packs(grown);
    lemma_total_update(g, h, g[h].append(item), g.len() as int);
    assert forall|k: int| 0 <= k < CONTAINER_COUNT implies (#[trigger] g2[k]).position
        == container_position(k / (GRID_COLS as int), k % (GRID_COLS as int)) && g2[k].packed() by {
        if k != h {
            assert(g2[k] == g[k]);
        }
    }
    assert forall|k: int, i: int| is_item(g2, k, i) implies (#[trigger] todo_at(g2, k, i)) == (if k
        == h && i == end {
        item.todo
    } else {
        todo_at(g, k, i)
    }) && (k == h && i == end || is_item(g, k, i)) by {
        if k == h {
            assert(g2[h].items[i].todo == grown.items[i].todo);
        }
    }
    assert forall|k: int, i: int| is_item(g, k, i) implies is_item(g2, k, i) && (#[trigger] todo_at(
        g,
        k,
        i,
    )) == todo_at(g2, k, i) by {
        if k == h {
            assert(g2[h].items[i].todo == grown.items[i].todo);
        }
    }
    assert(is_item(g2, h, end) && todo_at(g2, h, end) == item.todo) by {
        assert(g2[h].items[end].todo == grown.items[end].todo);
    }
    assert forall|k1: int, i1: int, k2: int, i2: int|
        is_item(g2, k1, i1) && is_item(g2, k2, i2) && (k1 != k2 || i1 != i2) implies #[trigger] id_at(
        g2,
        k1,
        i1,
    ) != #[trigger] id_at(g2, k2, i2) by {
        if !(k1 == h && i1 == end) {
            assert(id_at(g2, k1, i1) == id_at(g, k1, i1));
        }
        if !(k2 == h && i2 == end) {
            assert(id_at(g2, k2, i2) == id_at(g, k2, i2));
        }
    }
    assert forall|entry: Todo| holds_todo(g2, entry) <==> holds_todo(g, entry) || entry
        == item.todo by {
        if holds_todo(g2, entry) {
            let (k, i) = choose|k: int, i: int| is_item(g2, k, i) && todo_at(g2, k, i) == entry;
            if !(k == h && i == end) {
                assert(is_item(g, k, i) && todo_at(g, k, i) == entry);
            }
        }
        if holds_todo(g, entry) {
            let (k, i) = choose|k: int, i: int| is_item(g, k, i) && todo_at(g, k, i) == entry;
            assert(is_item(g2, k, i) && todo_at(g2, k, i) == entry);
        }
    }
    assert forall|id: u128| holds_id(g2, id) <==> holds_id(g, id) || id == item.todo.todo_id by {
        if holds_id(g2, id) {
            let (k, i) = choose|k: int, i: int| is_item(g2, k, i) && id_at(g2, k, i) == id;
            if !(k == h && i == end) {
                assert(is_item(g, k, i) && id_at(g, k, i) == id);
            }
        }
        if holds_id(g, id) {
            let (k, i) = choose|k: int, i: int| is_item(g, k, i) && id_at(g, k, i) == id;
            assert(is_item(g2, k, i) && id_at(g2, k, i) == id);
        }
        if id == item.todo.todo_id {
            assert(is_item(g2, h, end) && id_at(g2, h, end) == id);
        }
    }
}

/// Taking an item out of a board leaves a board. It holds one item less: the
/// entries it shows are those it showed before, but for the one taken out,
/// whose identifier no longer occurs.
pub proof fn lemma_removed(g: Seq<DayModel>, h: int, index: int)
    requires
        board_wf(g),
        is_item(g, h, index),
    ensures
        board_wf(removed(g, h, index)),
        total_items(removed(g, h, index)) == total_items(g) - 1,
        removed(g, h, index)[h].items.len() == g[h].items.len() - 1,
        !holds_id(removed(g, h, index), id_at(g, h, index)),
        forall|entry: Todo|
            holds_todo(removed(g, h, index), entry) <==> holds_todo(g, entry) && entry != todo_at(
                g,
                h,
                index,
            ),
        forall|id: u128|
            holds_id(removed(g, h, index), id) <==> holds_id(g, id) && id != id_at(g, h, index),
{
    let g1 = removed(g, h, index);
    let shrunk = DayModel { position: g[h].position, items: g[h].items.remove(index) };
    lemma_container_wf(g, h);
    lemma_re_flow_packs(shrunk);
    lemma_total_update(g, h, g[h].remove_at(index), g.len() as int);
    assert forall|k: int| 0 <= k < CONTAINER_COUNT implies (#[trigger] g1[k]).position
        == container_position(k / (GRID_COLS as int), k % (GRID_COLS as int)) && g1[k].packed() by {
        if k != h {
            assert(g1[k] == g[k]);
        }
    }
    assert forall|k: int, i: int| is_item(g1, k, i) implies (#[trigger] todo_at(g1, k, i))
        == todo_at(
        g,
        k,
        if k == h {
            index_before_removal(index, i)
        } else {
            i
        },
    ) && is_item(g, k, if k == h {
        index_before_removal(index, i)
    } else {
        i
    }) by {
        if k == h {
            assert(g1[h].items[i].todo == shrunk.items[i].todo);
        }
    }
    assert forall|k: int, i: int| is_item(g, k, i) && !(k == h && i == index) implies (
    #[trigger] todo_at(g, k, i)) == todo_at(
        g1,
        k,
        if k == h {
            index_after_removal(index, i)
        } else {
            i
        },
    ) && is_item(g1, k, if k == h {
        index_after_removal(index, i)
    } else {
        i
    }) by {
        if k == h {
            let j = index_after_removal(index, i);
            assert(g1[h].items[j].todo == shrunk.items[j].todo);
        }
    }
    assert forall|k1: int, i1: int, k2: int, i2: int|
        is_item(g1, k1, i1) && is_item(g1, k2, i2) && (k1 != k2 || i1 != i2) implies #[trigger] id_at(
        g1,
        k1,
        i1,
    ) != #[trigger] id_at(g1, k2, i2) by {
        let j1 = if k1 == h {
            index_before_removal(index, i1)
        } else {
            i1
        };
        let j2 = if k2 == h {
            index_before_removal(index, i2)
        } else {
            i2
        };
        assert(id_at(g1, k1, i1) == id_at(g, k1, j1));
        assert(id_at(g1, k2, i2) == id_at(g, k2, j2));
    }
    assert forall|id: u128| holds_id(g1, id) <==> holds_id(g, id) && id != id_at(g, h, index) by {
        if holds_id(g1, id) {
            let (k, i) = choose|k: int, i: int| is_item(g1, k, i) && id_at(g1, k, i) == id;
            let j = if k == h {
                index_before_removal(index, i)
            } else {
                i
            };
            assert(is_item(g, k, j) && id_at(g, k, j) == id);
            assert(id_at(g, k, j) != id_at(g, h, index));
        }
        if holds_id(g, id) && id != id_at(g, h, index) {
            let (k, i) = choose|k: int, i: int| is_item(g, k, i) && id_at(g, k, i) == id;
            let j = if k == h {
                index_after_removal(index, i)
            } else {
                i
            };
            assert(is_item(g1, k, j) && id_at(g1, k, j) == id);
        }
    }
    assert forall|entry: Todo| holds_todo(g1, entry) <==> holds_todo(g, entry) && entry != todo_at(
        g,
        h,
        index,
    ) by {
        if holds_todo(g1, entry) {
            let (k, i) = choose|k: int, i: int| is_item(g1, k, i) && todo_at(g1, k, i) == entry;
            let j = if k == h {
                index_before_removal(index, i)
            } else {
                i
            };
            assert(is_item(g, k, j) && todo_at(g, k, j) == entry);
            assert(id_at(g, k, j) != id_at(g, h, index));
        }
        if holds_todo(g, entry) && entry != todo_at(g, h, index) {
            let (k, i) = choose|k: int, i: int| is_item(g, k, i) && todo_at(g, k, i) == entry;
            let j = if k == h {
                index_after_removal(index, i)
            } else {
                i
            };
            assert(is_item(g1, k, j) && todo_at(g1, k, j) == entry);
        }
    }
}

/// Marking an item done leaves a board with every item where it was.
pub proof fn lemma_marked_done(g: Seq<DayModel>, h: int, index: int)
    requires
        board_wf(g),
        is_item(g, h, index),
    ensures
        board_wf(marked_done(g, h, index)),
        total_items(marked_done(g, h, index)) == total_items(g),
        forall|id: u128| holds_id(marked_done(g, h, index), id) <==> holds_id(g, id),
{
    let g2 = marked_done(g, h, index);
    lemma_total_update(g, h, g2[h], g.len() as int);
    assert forall|k: int| 0 <= k < CONTAINER_COUNT implies (#[trigger] g2[k]).position
        == container_position(k / (GRID_COLS as int), k % (GRID_COLS as int)) && g2[k].packed() by {
        if k != h {
            assert(g2[k] == g[k]);
        } else {
            assert(g[h].packed());
            assert forall|i: int| 0 <= i < g2[h].items.len() implies (#[trigger] g2[h].items[i]).position
                == g[h].items[i].position by {}
        }
    }
    assert forall|k: int, i: int| is_item(g2, k, i) == is_item(g, k, i) && (is_item(g, k, i)
        ==> #[trigger] id_at(g2, k, i) == id_at(g, k, i)) by {}
    assert forall|k1: int, i1: int, k2: int, i2: int|
        is_item(g2, k1, i1) && is_item(g2, k2, i2) && (k1 != k2 || i1 != i2) implies #[trigger] id_at(
        g2,
        k1,
        i1,
    ) != #[trigger] id_at(g2, k2, i2) by {
        assert(id_at(g2, k1, i1) == id_at(g, k1, i1));
        assert(id_at(g2, k2, i2) == id_at(g, k2, i2));
    }
    assert forall|id: u128| holds_id(g2, id) <==> holds_id(g, id) by {
        if holds_id(g2, id) {
            let (k, i) = choose|k: int, i: int| is_item(g2, k, i) && id_at(g2, k, i) == id;
            assert(is_item(g, k, i) && id_at(g, k, i) == id);
        }
        if holds_id(g, id) {
            let (k, i) = choose|k: int, i: int| is_item(g, k, i) && id_at(g, k, i) == id;
            assert(is_item(g2, k, i) && id_at(g2, k, i) == id);
        }
    }
}

/// Moving an item between two different containers leaves a board that holds
/// as many items and shows the same entries; the moved entry stands at the
/// end of the container it was moved to.
pub proof fn lemma_moved(g: Seq<DayModel>, src: int, index: int, dst: int)
    requires
        board_wf(g),
        is_item(g, src, index),
        0 <= dst < CONTAINER_COUNT,
        src != dst,
    ensures
        board_wf(moved(g, src, index, dst)),
        total_items(moved(g, src, index, dst)) == total_items(g),
        is_item(moved(g, src, index, dst), dst, g[dst].items.len() as int),
        todo_at(moved(g, src, index, dst), dst, g[dst].items.len() as int) == todo_at(
            g,
            src,
            index,
        ),
        forall|entry: Todo| holds_todo(moved(g, src, index, dst), entry) <==> holds_todo(g, entry),
        forall|id: u128| holds_id(moved(g, src, index, dst), id) <==> holds_id(g, id),
{
    let g1 = removed(g, src, index);
    let item = g[src].items[index];
    lemma_removed(g, src, index);
    lemma_inserted(g1, dst, item);
    assert(g1[dst] == g[dst]);
    assert(holds_todo(g, item.todo)) by {
        assert(is_item(g, src, index) && todo_at(g, src, index) == item.todo);
    }
    assert(holds_id(g, item.todo.todo_id)) by {
        assert(is_item(g, src, index) && id_at(g, src, index) == item.todo.todo_id);
    }
}

/// One move request leaves a board that holds as many items and shows the
/// same entries, none of them twice.
pub proof fn lemma_move_conserves(g: Seq<DayModel>, from: Address, to: Address)
    requires
        board_wf(g),
    ensures
        board_wf(move_spec(g, from, to)),
        distinct_ids(move_spec(g, from, to)),
        total_items(move_spec(g, from, to)) == total_items(g),
        forall|entry: Todo| holds_todo(move_spec(g, from, to), entry) <==> holds_todo(g, entry),
        forall|id: u128| holds_id(move_spec(g, from, to), id) <==> holds_id(g, id),
{
    let src = handle(from.row as int, from.col as int);
    let dst = handle(to.row as int, to.col as int);
    if can_move(g, from, to) && src != dst {
        lemma_moved(g, src, from.item_index.unwrap() as int, dst);
    }
}

/// Whatever sequence of moves is carried out on a board, the number of items
/// on the board stays the same, no identifier comes to stand at two places,
/// and the entries shown are the same as at the start.
pub proof fn lemma_moves_conserve(g: Seq<DayModel>, moves: Seq<(Address, Address)>)
    requires
        board_wf(g),
    ensures
        board_wf(moves_spec(g, moves)),
        distinct_ids(moves_spec(g, moves)),
        total_items(moves_spec(g, moves)) == total_items(g),
        forall|entry: Todo| holds_todo(moves_spec(g, moves), entry) <==> holds_todo(g, entry),
        forall|id: u128| holds_id(moves_spec(g, moves), id) <==> holds_id(g, id),
    decreases moves.len(),
{
    if moves.len() > 0 {
        lemma_moves_conserve(g, moves.drop_last());
        lemma_move_conserves(moves_spec(g, moves.drop_last()), moves.last().0, moves.last().1);
    }
}

} // verus!
