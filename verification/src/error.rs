use vstd::prelude::*;

verus! {

/// Errors surfaced by the vault protocol layer. Every failure is terminal for
/// the triggering call: the vault state is left unchanged.
#[derive(Clone, Copy, Debug, PartialEq, Eq, Structural)]
pub enum VaultError {
    /// Attached payment does not name the expected token, or the funds list
    /// does not consist of exactly one coin.
    InvalidFunds,
    /// The attached base-token payment does not cover the declared amount.
    InsufficientFunds,
    /// The attached vault-token payment does not cover the declared amount,
    /// or more shares were redeemed than exist.
    InsufficientShares,
    /// An extension-gated operation was called by a non-permitted signer.
    Unauthorized,
    /// A `VaultExtension` payload was routed to a vault that does not
    /// implement that extension.
    UnknownExtension,
    /// An amount or a conversion result does not fit the 128-bit range.
    Overflow,
}

} // verus!
