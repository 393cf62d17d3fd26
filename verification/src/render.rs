//! What the renderer is handed for the items of a container: where to print
//! and what.

use crate::item::TodoBlock;
use vstd::prelude::*;

verus! {

/// One line of text to print, starting at screen cell `(x, y)`.
#[derive(Debug)]
pub struct Label {
    pub x: i32,
    pub y: i32,
    pub text: String,
}

/// Whether `label` is what is printed for `block`: the block's text, cut to
/// the block's width, at the block's corner.
pub open spec fn is_label_of(label: Label, block: TodoBlock) -> bool {
    &&& label.x == block.position.x
    &&& label.y == block.position.y
    &&& label.text@ == block.label_spec()
}

/// The lines to print for `blocks`, one for each block, in the same order.
///
/// Every block must be at least five cells wide, the least width for which
/// the cut of a label is defined.
pub fn block_labels(blocks: &Vec<TodoBlock>) -> (labels: Vec<Label>)
    requires
        forall|i: int| 0 <= i < blocks@.len() ==> (#[trigger] blocks@[i]).position.width >= 5,
    ensures
        labels@.len() == blocks@.len(),
        forall|i: int| 0 <= i < blocks@.len() ==> is_label_of(#[trigger] labels@[i], blocks@[i]),
{
    let mut labels: Vec<Label> = Vec::new();
    let mut i: usize = 0;
    while i < blocks.len()
        invariant
            i <= blocks@.len(),
            labels@.len() == i,
            forall|k: int| 0 <= k < blocks@.len() ==> (#[trigger] blocks@[k]).position.width >= 5,
            forall|k: int| 0 <= k < i ==> is_label_of(#[trigger] labels@[k], blocks@[k]),
        decreases blocks@.len() - i,
    {
        let block = &blocks[i];
        labels.push(Label { x: block.position.x, y: block.position.y, text: block.label() });
        i += 1;
    }
    labels
}

} // verus!
