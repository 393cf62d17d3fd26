//! The rule by which an item's label is cut to the width of its slot.

use vstd::prelude::*;
use vstd::string::*;

verus! {

/// The three characters that stand for the part of a label that was cut off.
pub open spec fn ellipsis() -> Seq<char> {
    seq!['.', '.', '.']
}

/// The text shown for `label` in a slot `slot_width` cells wide: the label
/// itself if it is shorter than the slot less two cells, and otherwise its
/// first `slot_width - 5` characters followed by the ellipsis.
pub open spec fn rendered_label(label: Seq<char>, slot_width: int) -> Seq<char> {
    if label.len() < slot_width - 2 {
        label
    } else {
        label.subrange(0, slot_width - 5) + ellipsis()
    }
}

/// Whether the cut of `label` to `slot_width` cells is defined: the label
/// fits, or the slot has room for the ellipsis and two cells of margin.
pub open spec fn can_render(label: Seq<char>, slot_width: int) -> bool {
    label.len() < slot_width - 2 || slot_width >= 5
}

/// A label that fits is shown unchanged; one that does not is shown as
/// `slot_width - 5 + 3` characters of which the last three are the ellipsis and
/// the others are the start of the label.
pub proof fn lemma_truncation(label: Seq<char>, slot_width: int)
    requires
        can_render(label, slot_width),
    ensures
        label.len() < slot_width - 2 ==> rendered_label(label, slot_width) == label,
        label.len() >= slot_width - 2 ==> {
            let text = rendered_label(label, slot_width);
            &&& text.len() == slot_width - 5 + 3
            &&& text.subrange(slot_width - 5, slot_width - 2) == ellipsis()
            &&& text.subrange(0, slot_width - 5) == label.subrange(0, slot_width - 5)
        },
{
}

/// Cuts `label` to a slot `slot_width` cells wide.
///
/// Lengths count characters. A label that does not fit needs a slot of at
/// least five cells: a narrower one has no room for the ellipsis and two
/// cells of margin.
pub fn truncate_label(label: &str, slot_width: i32) -> (text: String)
    requires
        can_render(label@, slot_width as int),
    ensures
        text@ == rendered_label(label@, slot_width as int),
{
    let len: usize = label.unicode_len();
    let room: usize = (slot_width - 2) as usize;
    if len < room {
        String::from_str(label)
    } else {
        let keep: usize = (slot_width - 5) as usize;
        let left = label.substring_char(0, keep);
        proof {
            reveal_strlit("...");
        }
        String::from_str(left).concat("...")
    }
}

} // verus!
