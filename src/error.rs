use vstd::prelude::*;

verus! {

/// Why an instruction was rejected. Every error is terminal: the pool record
/// is left exactly as it was.
#[derive(Debug, Clone, Copy, PartialEq, Eq, Structural)]
pub enum SwapError {
    /// Malformed instruction bytes, a computation without a result, or a
    /// violated slippage bound.
    InvalidInstructionData,
    /// A record or account that does not decode, or an account that is not
    /// the one the pool is bound to.
    InvalidAccountData,
    /// The account that must sign did not.
    MissingRequiredSignature,
    /// The pool record is not owned by this program.
    IllegalOwner,
    /// A token account or mint that was never initialised.
    UninitializedAccount,
    /// No valid derived address exists for the given seeds.
    InvalidSeeds,
}

} // verus!
