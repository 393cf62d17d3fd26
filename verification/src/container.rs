//! A container: a rectangle on the screen and the ordered stack of blocks it
//! holds, packed one per row just below its top border.

use crate::error::PlannerError;
use crate::geometry::Position;
use crate::item::TodoBlock;
use vstd::prelude::*;

verus! {

/// What a container is, as a mathematical value: its rectangle and its blocks
/// in order.
pub struct DayModel {
    pub position: Position,
    pub items: Seq<TodoBlock>,
}

impl DayModel {
    /// The column in which every block of this container is drawn.
    pub open spec fn slot_x(self) -> int {
        self.position.x + 1
    }

    /// The row in which the block at `index` is drawn.
    pub open spec fn slot_y(self, index: int) -> int {
        self.position.y + index + 1
    }

    /// Every block of the container has a slot whose coordinates are
    /// representable.
    pub open spec fn wf(self) -> bool {
        &&& self.items.len() > 0 ==> self.slot_x() <= i32::MAX
        &&& self.position.y + self.items.len() <= i32::MAX
    }

    /// The container has a representable slot for one more block.
    pub open spec fn has_room(self) -> bool {
        &&& self.slot_x() <= i32::MAX
        &&& self.slot_y(self.items.len() as int) <= i32::MAX
    }

    /// Every block sits in the slot of its index: no gaps, in list order.
    pub open spec fn packed(self) -> bool {
        forall|i: int|
            0 <= i < self.items.len() ==> {
                &&& (#[trigger] self.items[i]).position.x == self.slot_x()
                &&& self.items[i].position.y == self.slot_y(i)
            }
    }

    /// `item` moved into the slot of `index`; its entry and its extent stay.
    pub open spec fn placed(self, item: TodoBlock, index: int) -> TodoBlock {
        TodoBlock {
            todo: item.todo,
            position: Position {
                x: self.slot_x() as i32,
                y: self.slot_y(index) as i32,
                width: item.position.width,
                height: item.position.height,
            },
        }
    }

    /// The container with every block moved into the slot of its index.
    pub open spec fn re_flow(self) -> DayModel {
        DayModel {
            position: self.position,
            items: Seq::new(self.items.len(), |i: int| self.placed(self.items[i], i)),
        }
    }

    /// The container with `item` added at the end and the stack packed again.
    pub open spec fn append(self, item: TodoBlock) -> DayModel {
        (DayModel { position: self.position, items: self.items.push(item) }).re_flow()
    }

    /// The container without the block at `index`, the gap closed.
    pub open spec fn remove_at(self, index: int) -> DayModel {
        (DayModel { position: self.position, items: self.items.remove(index) }).re_flow()
    }

    /// The identifiers of the blocks, in list order.
    pub open spec fn ids(self) -> Seq<u128> {
        Seq::new(self.items.len(), |i: int| self.items[i].todo.todo_id)
    }
}

/// Packing twice gives what packing once gives.
pub proof fn lemma_re_flow_idempotent(d: DayModel)
    ensures
        d.re_flow().re_flow() == d.re_flow(),
{
    assert(d.re_flow().re_flow().items =~= d.re_flow().items);
}

/// Packing a well-formed container puts every block in the slot of its index
/// and changes neither the entries nor their order nor any block's extent.
pub proof fn lemma_re_flow_packs(d: DayModel)
    requires
        d.wf(),
    ensures
        d.re_flow().packed(),
        d.re_flow().wf(),
        d.re_flow().position == d.position,
        d.re_flow().items.len() == d.items.len(),
        d.re_flow().ids() == d.ids(),
        forall|i: int|
            0 <= i < d.items.len() ==> {
                &&& (#[trigger] d.re_flow().items[i]).todo == d.items[i].todo
                &&& d.re_flow().items[i].position.width == d.items[i].position.width
                &&& d.re_flow().items[i].position.height == d.items[i].position.height
            },
{
}

/// Packing a container that is already packed changes nothing.
pub proof fn lemma_re_flow_of_packed(d: DayModel)
    requires
        d.packed(),
    ensures
        d.re_flow() == d,
{
    assert(d.re_flow().items =~= d.items);
}

/// A packed container is well formed: the blocks themselves show that their
/// slots are representable.
pub proof fn lemma_packed_wf(d: DayModel)
    requires
        d.packed(),
    ensures
        d.wf(),
{
    if d.items.len() > 0 {
        let last = d.items.len() - 1;
        assert(d.items[last].position.y == d.slot_y(last));
    }
}

/// A container of the board: a day cell or a bucket.
#[derive(Debug)]
pub struct Day {
    pub todo_blocks: Vec<TodoBlock>,
    pub position: Position,
}

impl View for Day {
    type V = DayModel;

    open spec fn view(&self) -> DayModel {
        DayModel { position: self.position, items: self.todo_blocks@ }
    }
}

impl Day {
    /// An empty day cell, thirty cells wide and ten rows high, with its corner
    /// at `(x, y)`.
    pub fn new(x: i32, y: i32) -> (day: Day)
        ensures
            day@.position == (Position { x: x, y: y, width: 30, height: 10 }),
            day@.items == Seq::<TodoBlock>::empty(),
    {
        Day { todo_blocks: Vec::new(), position: Position::default(x, y, 30, 10) }
    }

    /// The number of blocks in the container.
    pub fn len(&self) -> (n: usize)
        ensures
            n == self@.items.len(),
    {
        self.todo_blocks.len()
    }

    /// Moves every block into the slot of its index.
    pub fn re_flow(&mut self)
        requires
            old(self)@.wf(),
        ensures
            final(self)@ == old(self)@.re_flow(),
            final(self)@.packed(),
            final(self)@.wf(),
    {
        let ghost before = self@;
        let n: usize = self.todo_blocks.len();
        let x: i32 = self.position.x;
        let y: i32 = self.position.y;
        let mut i: usize = 0;
        while i < n
            invariant
                i <= n,
                n == before.items.len(),
                before.wf(),
                x == before.position.x,
                y == before.position.y,
                self@.position == before.position,
                self@.items.len() == n,
                forall|j: int| 0 <= j < i ==> self@.items[j] == before.placed(before.items[j], j),
                forall|j: int| i <= j < n ==> self@.items[j] == before.items[j],
            decreases n - i,
        {
            let row: i64 = y as i64 + i as i64 + 1;
            self.todo_blocks[i].position.x = x + 1;
            self.todo_blocks[i].position.y = row as i32;
            i += 1;
        }
        proof {
            assert(self@.items =~= before.re_flow().items);
            lemma_re_flow_packs(before);
        }
    }

    /// Adds `item` at the end of the stack and packs the stack.
    pub fn append(&mut self, item: TodoBlock)
        requires
            old(self)@.wf(),
            old(self)@.has_room(),
        ensures
            final(self)@ == old(self)@.append(item),
            final(self)@.packed(),
            final(self)@.wf(),
    {
        self.todo_blocks.push(item);
        self.re_flow();
    }

    /// Takes the block at `index` out of the stack and closes the gap.
    ///
    /// Fails, and changes nothing, when `index` names no block.
    pub fn remove_at(&mut self, index: usize) -> (taken: Result<TodoBlock, PlannerError>)
        requires
            old(self)@.wf(),
        ensures
            taken is Ok <==> index < old(self)@.items.len(),
            taken matches Ok(item) ==> {
                &&& item == old(self)@.items[index as int]
                &&& final(self)@ == old(self)@.remove_at(index as int)
                &&& final(self)@.packed()
            },
            taken matches Err(e) ==> e == PlannerError::IndexOutOfRange && final(self)@ == old(
                self,
            )@,
            final(self)@.wf(),
    {
        if index < self.todo_blocks.len() {
            let item = self.todo_blocks.remove(index);
            self.re_flow();
            Ok(item)
        } else {
            Err(PlannerError::IndexOutOfRange)
        }
    }
}

} // verus!
