use vstd::prelude::*;

verus! {

/// The value of the halt cell that holds a producer in stepping mode; any
/// other value releases it.
pub const HOLD: u8 = 0;

/// What a producer, held after a mutation in stepping mode, does next.
#[derive(Clone, Copy, Debug, PartialEq, Eq, Structural)]
pub enum HaltAction {
    /// Read the cell again.
    Spin,
    /// Write `reset` to the cell, then return to the caller.
    Resume { reset: u8 },
}

/// Decides, from a value read from the halt cell, whether a held producer
/// goes on. It goes on only on a non-zero value, and then writes the cell back
/// to `HOLD` before it returns, so that its next mutation holds again until a
/// fresh release.
pub fn halt_action(cell: u8) -> (r: HaltAction)
    ensures
        cell == HOLD ==> r == HaltAction::Spin,
        cell != HOLD ==> r == (HaltAction::Resume { reset: HOLD }),
{
    if cell == HOLD {
        HaltAction::Spin
    } else {
        HaltAction::Resume { reset: HOLD }
    }
}

} // verus!
