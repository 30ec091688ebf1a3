use vstd::prelude::*;

verus! {

/// Why a command was refused.
#[derive(Debug, Clone, Copy, PartialEq, Eq, Structural)]
pub enum ContractError {
    /// The sequence counter is at its largest value and cannot move on.
    Overflow,
}

} // verus!
