//! Error taxonomy of the gateway core.
use vstd::prelude::*;

verus! {

/// Failure of the decimal converter.
#[derive(Clone, Copy, Debug, PartialEq, Eq, Structural)]
pub enum ParseAmountError {
    /// The text is not a decimal amount: more than one point, a non-numeric
    /// part, an empty integer part, or a fractional part longer than the
    /// token's decimal count.
    MalformedAmount,
    /// The text denotes a value beyond the largest unsigned 256-bit integer.
    AmountOverflow,
}

/// Failure of a pre-flight guard, detected before any transaction is built.
#[derive(Clone, Copy, Debug, PartialEq, Eq, Structural)]
pub enum GuardError {
    /// The queried ether balance is below the required amount.
    InsufficientBalance,
    /// The queried token balance is below the required amount.
    InsufficientTokenBalance,
    /// The queried allowance is below the required amount.
    InsufficientAllowance,
    /// A percentage-based dispersal needs a non-zero allowance.
    ZeroAllowance,
    /// The percentages of a dispersal sum to more than one hundred.
    PercentSumTooLarge,
    /// The amounts of a dispersal sum to more than the largest unsigned
    /// 256-bit value.
    TotalOverflow,
}

/// Failure of the signer.
#[derive(Clone, Copy, Debug, PartialEq, Eq, Structural)]
pub enum SignError {
    /// The private key could not be parsed.
    InvalidKey,
    /// The underlying signer rejected the transaction.
    SigningFailed,
}

/// Failure of the hexadecimal decoder.
#[derive(Clone, Copy, Debug, PartialEq, Eq, Structural)]
pub enum HexDecodeError {
    /// The text has an odd number of characters.
    OddLength,
    /// A character is not a hexadecimal digit.
    InvalidCharacter,
}

/// An error reported by the upstream ledger client; its message is passed
/// through verbatim.
#[derive(Debug)]
pub struct UpstreamError {
    pub message: String,
}

} // verus!
