use vstd::prelude::*;

verus! {

/// A coin: an amount of one token, named by its denomination.
pub struct Coin {
    /// The denomination: a native denom string or a contract address.
    pub denom: String,
    /// The number of base units.
    pub amount: u128,
}

/// The message that creates a vault. The base token is fixed here and never
/// changes for the contract's lifetime.
pub struct InstantiateMsg {
    /// The token accepted for deposits, withdrawals and accounting.
    pub base_token: String,
}

/// The execute operations that every conforming vault must accept. The enum
/// can be extended with additional variants by defining an extension enum and
/// passing it as the generic argument `T`.
pub enum VaultStandardExecuteMsg<T> {
    /// Deposit base tokens into the vault. Native assets are passed in the
    /// funds parameter; mints vault tokens to `recipient`, or to the caller
    /// if `recipient` is not set.
    Deposit {
        /// The amount of base tokens to deposit.
        amount: u128,
        /// The optional recipient of the vault tokens.
        recipient: Option<String>,
    },
    /// Redeem vault tokens and receive base tokens back from the vault.
    /// The native vault token must be passed in the funds parameter, unless
    /// the lockup extension escrowed it in an earlier call.
    Redeem {
        /// The optional recipient of the withdrawn base tokens.
        recipient: Option<String>,
        /// The amount of vault tokens sent to the contract.
        amount: u128,
    },
    /// Execute functionality of an enabled extension.
    VaultExtension(T),
}

/// The extension execute payloads this crate knows of. A vault declares the
/// subset it implements in its standard info; routing any other payload to it
/// fails with `UnknownExtension`. Vaults with extensions defined elsewhere
/// pass their own enum as the generic argument of the standard messages.
pub enum ExtensionExecuteMsg {
    /// Maintenance operations run by permissioned keepers.
    Keeper,
    /// Time-locked redemption: unlock, then claim after the lockup passes.
    Lockup,
    /// Privileged early withdrawal from a lockup position.
    ForceUnlock,
}

/// The query operations that every conforming vault must answer. All are
/// side-effect-free. The enum can be extended with additional variants by
/// passing an extension enum as the generic argument `T`.
pub enum VaultStandardQueryMsg<T> {
    /// Returns `VaultStandardInfoResponse`: the standard version in use and
    /// the enabled extensions.
    VaultStandardInfo {},
    /// Returns `VaultInfoResponse`: the base token and the vault token.
    Info {},
    /// Returns the amount of vault tokens that a deposit of `amount` base
    /// tokens would mint in the same state, fees included. Must not return
    /// more than the deposit would mint.
    PreviewDeposit {
        /// The amount of base tokens that would be deposited.
        amount: u128,
    },
    /// Returns the amount of base tokens that redeeming `amount` vault
    /// tokens would pay out in the same state, fees included. Must not
    /// return less than the redemption would pay.
    PreviewRedeem {
        /// The amount of vault tokens that would be redeemed.
        amount: u128,
    },
    /// Returns the amount of assets managed by the vault, denominated in
    /// base tokens.
    TotalAssets {},
    /// Returns the total amount of vault tokens in circulation.
    TotalVaultTokenSupply {},
    /// Returns the amount of vault tokens the vault would exchange for
    /// `amount` base tokens under the idealized, fee-free rate.
    ConvertToShares {
        /// The amount of base tokens to value.
        amount: u128,
    },
    /// Returns the amount of base tokens the vault would exchange for
    /// `amount` vault tokens under the idealized, fee-free rate.
    ConvertToAssets {
        /// The amount of vault tokens to value.
        amount: u128,
    },
    /// A query of an enabled extension.
    VaultExtension(T),
}

/// The extension query payloads this crate knows of.
pub enum ExtensionQueryMsg {
    /// Queries about keeper tasks and permissions.
    Keeper,
    /// Queries about lockup positions and durations.
    Lockup,
}

/// Returned from `VaultStandardQueryMsg::VaultStandardInfo`, and also stored
/// under a fixed well-known key so other contracts can read it with a raw
/// state lookup instead of a full contract call.
#[derive(Debug)]
pub struct VaultStandardInfoResponse {
    /// The version of the vault standard used, e.g. 1.
    pub version: u16,
    /// The names of the vault standard extensions the vault implements,
    /// e.g. `["lockup", "keeper"]`.
    pub extensions: Vec<String>,
}

/// Returned from `VaultStandardQueryMsg::Info`.
#[derive(Debug)]
pub struct VaultInfoResponse {
    /// The token accepted for deposits and withdrawals: a denom for a native
    /// token, a contract address otherwise.
    pub base_token: String,
    /// The vault token: a denom for a native token, a contract address
    /// otherwise.
    pub vault_token: String,
}

} // verus!
