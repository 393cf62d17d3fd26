//! The faults that board operations report.

use vstd::prelude::*;

verus! {

/// Why an operation on a container or on the board was refused.
#[derive(Clone, Copy, Debug, PartialEq, Eq, Structural)]
pub enum PlannerError {
    /// A container or item index does not name anything that exists.
    IndexOutOfRange,
    /// An item with the same identifier is already on the board.
    DuplicateItem,
    /// The board already holds as many items as its coordinates can address.
    BoardFull,
}

} // verus!
