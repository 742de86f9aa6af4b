use crate::error::VaultError;
use crate::math::assets_for_shares;
use crate::math::lemma_deposit_preserves_wf;
use crate::math::lemma_redeem_preserves_wf;
use crate::math::lemma_redeem_within_pool;
use crate::math::lemma_round_trip_no_gain;
use crate::math::mul_ratio_floor;
use crate::math::pool_wf;
use crate::math::shares_for_assets;
use crate::msg::Coin;
use crate::msg::ExtensionQueryMsg;
use crate::msg::InstantiateMsg;
use crate::msg::VaultInfoResponse;
use crate::msg::VaultStandardInfoResponse;
use crate::msg::VaultStandardQueryMsg;
use vstd::prelude::*;
use vstd::string::StringExecFns;

verus! {

/// The version of the vault standard this crate describes.
pub const VAULT_STANDARD_VERSION: u16 = 1;

/// A reference vault: the accounting state that the standard constrains.
/// Ownership of individual balances lives in the surrounding ledger; the
/// vault itself tracks only the pooled assets, the outstanding share supply,
/// and the immutable identifiers fixed at instantiation.
pub struct Vault {
    /// The token accepted for deposits and withdrawals. Never changes after
    /// instantiation.
    pub base_token: String,
    /// The denom of the share token this vault mints and burns. Derived at
    /// instantiation and never changed.
    pub vault_token: String,
    /// The vault standard version the vault implements.
    pub version: u16,
    /// The names of the extensions the vault implements.
    pub extensions: Vec<String>,
    /// The pooled base-token holdings, in base units.
    pub total_assets: u128,
    /// The vault tokens in circulation.
    pub total_supply: u128,
}

/// The subdenom under which a native vault token is minted: the full denom is
/// `factory/{vault address}/{subdenom}`.
pub open spec fn spec_vault_token_subdenom() -> Seq<char> {
    "vault-token"@
}

/// The deterministic vault-token denom of the vault at `addr`.
pub open spec fn spec_vault_token_denom(addr: Seq<char>) -> Seq<char> {
    "factory/"@ + addr + "/"@ + spec_vault_token_subdenom()
}

/// Builds the vault-token denom for the vault at `vault_addr`.
pub fn vault_token_denom(vault_addr: &str) -> (r: String)
    ensures
        r@ == spec_vault_token_denom(vault_addr@),
{
    let mut s = String::from_str("factory/");
    s.append(vault_addr);
    s.append("/");
    s.append("vault-token");
    proof {
        assert(s@ =~= spec_vault_token_denom(vault_addr@));
    }
    s
}

/// Whether `funds` is exactly one coin of denom `denom`.
pub open spec fn funds_denom_matches(funds: Seq<Coin>, denom: Seq<char>) -> bool {
    funds.len() == 1 && funds[0].denom@ == denom
}

/// Whether `r` is what `Info {}` must answer for the vault `v`.
pub open spec fn info_response_matches(v: Vault, r: VaultInfoResponse) -> bool {
    &&& r.base_token@ == v.base_token@
    &&& r.vault_token@ == v.vault_token@
}

/// Whether `r` is what `VaultStandardInfo {}` must answer for the vault `v`.
pub open spec fn standard_info_response_matches(v: Vault, r: VaultStandardInfoResponse) -> bool {
    &&& r.version == v.version
    &&& r.extensions@.len() == v.extensions@.len()
    &&& forall|i: int|
        0 <= i < r.extensions@.len() ==> r.extensions@[i]@ == v.extensions@[i]@
}

impl Vault {
    /// The accounting invariant: shares and assets are absent together, so no
    /// share is ever unbacked and no assets are stranded without a claim.
    pub open spec fn wf(self) -> bool {
        pool_wf(self.total_assets as int, self.total_supply as int)
    }

    /// The idealized, fee-exclusive rate in the asset-to-share direction.
    pub open spec fn spec_convert_to_shares(self, amount: int) -> int {
        shares_for_assets(amount, self.total_assets as int, self.total_supply as int)
    }

    /// The idealized, fee-exclusive rate in the share-to-asset direction.
    pub open spec fn spec_convert_to_assets(self, shares: int) -> int {
        assets_for_shares(shares, self.total_assets as int, self.total_supply as int)
    }

    /// What a deposit of `amount` would mint, fees included. This vault
    /// charges no deposit fee, so the preview coincides with the idealized
    /// rate.
    pub open spec fn spec_preview_deposit(self, amount: int) -> int {
        self.spec_convert_to_shares(amount)
    }

    /// What redeeming `shares` would pay out, fees included. This vault
    /// charges no withdrawal fee, so the preview coincides with the
    /// idealized rate.
    pub open spec fn spec_preview_redeem(self, shares: int) -> int {
        self.spec_convert_to_assets(shares)
    }

    /// Whether the balance changes of a deposit of `amount` stay within the
    /// 128-bit range.
    pub open spec fn deposit_fits(self, amount: int) -> bool {
        let s = self.spec_preview_deposit(amount);
        &&& self.total_assets + amount <= u128::MAX
        &&& s <= u128::MAX
        &&& self.total_supply + s <= u128::MAX
    }

    /// Creates a vault. The base token is taken from the instantiation
    /// message; the vault token is derived deterministically from the
    /// vault's own address; both then never change. The pool starts empty.
    pub fn instantiate(msg: InstantiateMsg, vault_addr: &str) -> (v: Vault)
        ensures
            v.wf(),
            v.base_token@ == msg.base_token@,
            v.vault_token@ == spec_vault_token_denom(vault_addr@),
            v.version == VAULT_STANDARD_VERSION,
            v.extensions@.len() == 0,
            v.total_assets == 0,
            v.total_supply == 0,
    {
        Vault {
            base_token: msg.base_token,
            vault_token: vault_token_denom(vault_addr),
            version: VAULT_STANDARD_VERSION,
            extensions: Vec::new(),
            total_assets: 0,
            total_supply: 0,
        }
    }

    /// Deposits `amount` base tokens attached as `funds` and mints shares at
    /// the rate of the state before the call — exactly the shares that
    /// `preview_deposit` promises in that state, so a deposit never mints
    /// more than its preview. On any failure the vault is unchanged; the
    /// attached payment must be exactly one coin of the base token covering
    /// the declared amount.
    pub fn deposit(&mut self, amount: u128, funds: &[Coin]) -> (r: Result<u128, VaultError>)
        requires
            old(self).wf(),
        ensures
            final(self).wf(),
            final(self).base_token@ == old(self).base_token@,
            final(self).vault_token@ == old(self).vault_token@,
            final(self).version == old(self).version,
            final(self).extensions@ == old(self).extensions@,
            r is Err ==> *final(self) == *old(self),
            !funds_denom_matches(funds@, old(self).base_token@) <==> r == Err::<u128,
                VaultError,
            >(VaultError::InvalidFunds),
            funds_denom_matches(funds@, old(self).base_token@) && funds@[0].amount != amount <==> r
                == Err::<u128, VaultError>(VaultError::InsufficientFunds),
            funds_denom_matches(funds@, old(self).base_token@) && funds@[0].amount == amount
                && !old(self).deposit_fits(amount as int) <==> r == Err::<u128, VaultError>(
                VaultError::Overflow,
            ),
            funds_denom_matches(funds@, old(self).base_token@) && funds@[0].amount == amount && old(
                self,
            ).deposit_fits(amount as int) <==> r == Ok::<u128, VaultError>(
                old(self).spec_preview_deposit(amount as int) as u128,
            ),
            r is Ok ==> {
                &&& final(self).total_assets == old(self).total_assets + amount
                &&& final(self).total_supply == old(self).total_supply + old(
                    self,
                ).spec_preview_deposit(amount as int)
            },
    {
        if funds.len() != 1 {
            return Err(VaultError::InvalidFunds);
        }
        let paid = &funds[0];
        if !(paid.denom == self.base_token) {
            return Err(VaultError::InvalidFunds);
        }
        if paid.amount != amount {
            return Err(VaultError::InsufficientFunds);
        }
        let shares: u128;
        if self.total_supply == 0 {
            shares = amount;
        } else {
            match mul_ratio_floor(amount, self.total_supply, self.total_assets) {
                Some(s) => {
                    shares = s;
                },
                None => {
                    return Err(VaultError::Overflow);
                },
            }
        }
        if amount > u128::MAX - self.total_assets {
            return Err(VaultError::Overflow);
        }
        if shares > u128::MAX - self.total_supply {
            return Err(VaultError::Overflow);
        }
        proof {
            lemma_deposit_preserves_wf(
                amount as int,
                self.total_assets as int,
                self.total_supply as int,
            );
        }
        self.total_assets = self.total_assets + amount;
        self.total_supply = self.total_supply + shares;
        Ok(shares)
    }

    /// Redeems `amount` vault tokens attached as `funds` and pays out base
    /// tokens at the rate of the state before the call — exactly what
    /// `preview_redeem` promises in that state, so a redemption never pays
    /// less than its preview. On any failure the vault is unchanged; the
    /// attached payment must be exactly one coin of the vault token covering
    /// the declared amount, and no more shares can be redeemed than exist.
    pub fn redeem(&mut self, amount: u128, funds: &[Coin]) -> (r: Result<u128, VaultError>)
        requires
            old(self).wf(),
        ensures
            final(self).wf(),
            final(self).base_token@ == old(self).base_token@,
            final(self).vault_token@ == old(self).vault_token@,
            final(self).version == old(self).version,
            final(self).extensions@ == old(self).extensions@,
            r is Err ==> *final(self) == *old(self),
            !funds_denom_matches(funds@, old(self).vault_token@) <==> r == Err::<u128,
                VaultError,
            >(VaultError::InvalidFunds),
            funds_denom_matches(funds@, old(self).vault_token@) && (funds@[0].amount != amount
                || amount > old(self).total_supply) <==> r == Err::<u128, VaultError>(
                VaultError::InsufficientShares,
            ),
            funds_denom_matches(funds@, old(self).vault_token@) && funds@[0].amount == amount
                && amount <= old(self).total_supply <==> r == Ok::<u128, VaultError>(
                old(self).spec_preview_redeem(amount as int) as u128,
            ),
            r is Ok ==> {
                &&& final(self).total_assets == old(self).total_assets - old(
                    self,
                ).spec_preview_redeem(amount as int)
                &&& final(self).total_supply == old(self).total_supply - amount
            },
    {
        if funds.len() != 1 {
            return Err(VaultError::InvalidFunds);
        }
        let paid = &funds[0];
        if !(paid.denom == self.vault_token) {
            return Err(VaultError::InvalidFunds);
        }
        if paid.amount != amount {
            return Err(VaultError::InsufficientShares);
        }
        if amount > self.total_supply {
            return Err(VaultError::InsufficientShares);
        }
        if self.total_supply == 0 {
            return Ok(0);
        }
        proof {
            lemma_redeem_within_pool(
                amount as int,
                self.total_assets as int,
                self.total_supply as int,
            );
        }
        let payout: u128;
        match mul_ratio_floor(amount, self.total_assets, self.total_supply) {
            Some(p) => {
                payout = p;
            },
            None => {
                return vstd::pervasive::unreached();
            },
        }
        proof {
            lemma_redeem_preserves_wf(
                amount as int,
                self.total_assets as int,
                self.total_supply as int,
            );
        }
        self.total_assets = self.total_assets - payout;
        self.total_supply = self.total_supply - amount;
        Ok(payout)
    }

    /// Answers `Info {}`: the two identifiers fixed at instantiation,
    /// exactly as the vault holds them.
    pub fn query_info(&self) -> (r: VaultInfoResponse)
        ensures
            info_response_matches(*self, r),
    {
        VaultInfoResponse {
            base_token: self.base_token.clone(),
            vault_token: self.vault_token.clone(),
        }
    }

    /// Answers `VaultStandardInfo {}`: the standard version and the enabled
    /// extensions, exactly as the vault holds them.
    pub fn query_vault_standard_info(&self) -> (r: VaultStandardInfoResponse)
        ensures
            standard_info_response_matches(*self, r),
    {
        let mut extensions: Vec<String> = Vec::new();
        let mut i: usize = 0;
        while i < self.extensions.len()
            invariant
                i <= self.extensions@.len(),
                extensions@.len() == i,
                forall|j: int|
                    0 <= j < i ==> extensions@[j]@ == self.extensions@[j]@,
            decreases self.extensions@.len() - i,
        {
            extensions.push(self.extensions[i].clone());
            i = i + 1;
        }
        VaultStandardInfoResponse { version: self.version, extensions }
    }

    /// Answers `TotalAssets {}`.
    pub fn query_total_assets(&self) -> (r: u128)
        ensures
            r == self.total_assets,
    {
        self.total_assets
    }

    /// Answers `TotalVaultTokenSupply {}`.
    pub fn query_total_vault_token_supply(&self) -> (r: u128)
        ensures
            r == self.total_supply,
    {
        self.total_supply
    }

    /// Answers `ConvertToShares { amount }`: the idealized rate, floored.
    /// Fails only when the share count does not fit the 128-bit range.
    pub fn convert_to_shares(&self, amount: u128) -> (r: Result<u128, VaultError>)
        requires
            self.wf(),
        ensures
            self.spec_convert_to_shares(amount as int) <= u128::MAX <==> r == Ok::<u128,
                VaultError,
            >(self.spec_convert_to_shares(amount as int) as u128),
            self.spec_convert_to_shares(amount as int) > u128::MAX <==> r == Err::<u128,
                VaultError,
            >(VaultError::Overflow),
    {
        if self.total_supply == 0 {
            return Ok(amount);
        }
        match mul_ratio_floor(amount, self.total_supply, self.total_assets) {
            Some(s) => Ok(s),
            None => Err(VaultError::Overflow),
        }
    }

    /// Answers `ConvertToAssets { amount }`: the idealized rate, floored.
    /// Fails only when the asset count does not fit the 128-bit range.
    pub fn convert_to_assets(&self, amount: u128) -> (r: Result<u128, VaultError>)
        requires
            self.wf(),
        ensures
            self.spec_convert_to_assets(amount as int) <= u128::MAX <==> r == Ok::<u128,
                VaultError,
            >(self.spec_convert_to_assets(amount as int) as u128),
            self.spec_convert_to_assets(amount as int) > u128::MAX <==> r == Err::<u128,
                VaultError,
            >(VaultError::Overflow),
    {
        if self.total_supply == 0 {
            return Ok(0);
        }
        match mul_ratio_floor(amount, self.total_assets, self.total_supply) {
            Some(p) => Ok(p),
            None => Err(VaultError::Overflow),
        }
    }

    /// Answers `PreviewDeposit { amount }`: what a deposit of `amount` in
    /// this state would mint, fees included. This vault charges no fee, so
    /// the preview equals the idealized rate; a real deposit in the same
    /// state mints exactly this count.
    pub fn preview_deposit(&self, amount: u128) -> (r: Result<u128, VaultError>)
        requires
            self.wf(),
        ensures
            self.spec_preview_deposit(amount as int) <= u128::MAX <==> r == Ok::<u128,
                VaultError,
            >(self.spec_preview_deposit(amount as int) as u128),
            self.spec_preview_deposit(amount as int) > u128::MAX <==> r == Err::<u128,
                VaultError,
            >(VaultError::Overflow),
    {
        self.convert_to_shares(amount)
    }

    /// Answers `PreviewRedeem { amount }`: what redeeming `amount` in this
    /// state would pay out, fees included. This vault charges no fee, so the
    /// preview equals the idealized rate; a real redemption in the same
    /// state pays exactly this count.
    pub fn preview_redeem(&self, amount: u128) -> (r: Result<u128, VaultError>)
        requires
            self.wf(),
        ensures
            self.spec_preview_redeem(amount as int) <= u128::MAX <==> r == Ok::<u128,
                VaultError,
            >(self.spec_preview_redeem(amount as int) as u128),
            self.spec_preview_redeem(amount as int) > u128::MAX <==> r == Err::<u128,
                VaultError,
            >(VaultError::Overflow),
    {
        self.convert_to_assets(amount)
    }

    /// Whether this vault implements the extension called `name`.
    pub fn supports_extension(&self, name: &str) -> (r: bool)
        ensures
            r == exists|i: int|
                0 <= i < self.extensions@.len() && self.extensions@[i]@ == name@,
    {
        let name_owned = name.to_owned();
        let mut i: usize = 0;
        while i < self.extensions.len()
            invariant
                i <= self.extensions@.len(),
                name_owned@ == name@,
                forall|j: int| 0 <= j < i ==> self.extensions@[j]@ != name@,
            decreases self.extensions@.len() - i,
        {
            if self.extensions[i] == name_owned {
                return true;
            }
            i = i + 1;
        }
        false
    }

    /// Routes a `VaultExtension` query: accepted exactly when the vault
    /// declares the extension; the payload itself is extension-defined and
    /// not interpreted by the base protocol.
    pub fn route_extension_query(&self, query: &ExtensionQueryMsg) -> (r: Result<
        (),
        VaultError,
    >)
        ensures
            r is Ok <==> exists|i: int|
                0 <= i < self.extensions@.len() && self.extensions@[i]@ == spec_extension_name(
                    *query,
                ),
            r is Err ==> r == Err::<(), VaultError>(VaultError::UnknownExtension),
    {
        let name = extension_query_name(query);
        if self.supports_extension(name) {
            Ok(())
        } else {
            Err(VaultError::UnknownExtension)
        }
    }

    /// Dispatches any query of the standard: the closed set of operations
    /// every conforming vault must answer. Side-effect-free; each variant is
    /// answered exactly as the dedicated query function answers it.
    pub fn handle_query(&self, msg: &VaultStandardQueryMsg<ExtensionQueryMsg>) -> (r: Result<
        VaultQueryResponse,
        VaultError,
    >)
        requires
            self.wf(),
        ensures
            *msg is VaultStandardInfo ==> (r matches Ok(VaultQueryResponse::StandardInfo(x))
                && standard_info_response_matches(*self, x)),
            *msg is Info ==> (r matches Ok(VaultQueryResponse::Info(x))
                && info_response_matches(*self, x)),
            *msg matches VaultStandardQueryMsg::PreviewDeposit { amount } ==> r == (
            if self.spec_preview_deposit(amount as int) <= u128::MAX {
                Ok::<VaultQueryResponse, VaultError>(
                    VaultQueryResponse::Amount(self.spec_preview_deposit(amount as int) as u128),
                )
            } else {
                Err::<VaultQueryResponse, VaultError>(VaultError::Overflow)
            }),
            *msg matches VaultStandardQueryMsg::PreviewRedeem { amount } ==> r == (
            if self.spec_preview_redeem(amount as int) <= u128::MAX {
                Ok::<VaultQueryResponse, VaultError>(
                    VaultQueryResponse::Amount(self.spec_preview_redeem(amount as int) as u128),
                )
            } else {
                Err::<VaultQueryResponse, VaultError>(VaultError::Overflow)
            }),
            *msg matches VaultStandardQueryMsg::ConvertToShares { amount } ==> r == (
            if self.spec_convert_to_shares(amount as int) <= u128::MAX {
                Ok::<VaultQueryResponse, VaultError>(
                    VaultQueryResponse::Amount(self.spec_convert_to_shares(amount as int) as u128),
                )
            } else {
                Err::<VaultQueryResponse, VaultError>(VaultError::Overflow)
            }),
            *msg matches VaultStandardQueryMsg::ConvertToAssets { amount } ==> r == (
            if self.spec_convert_to_assets(amount as int) <= u128::MAX {
                Ok::<VaultQueryResponse, VaultError>(
                    VaultQueryResponse::Amount(self.spec_convert_to_assets(amount as int) as u128),
                )
            } else {
                Err::<VaultQueryResponse, VaultError>(VaultError::Overflow)
            }),
            *msg is TotalAssets ==> r == Ok::<VaultQueryResponse, VaultError>(
                VaultQueryResponse::Amount(self.total_assets),
            ),
            *msg is TotalVaultTokenSupply ==> r == Ok::<VaultQueryResponse, VaultError>(
                VaultQueryResponse::Amount(self.total_supply),
            ),
            *msg matches VaultStandardQueryMsg::VaultExtension(q) ==> {
                &&& (r == Ok::<VaultQueryResponse, VaultError>(VaultQueryResponse::Extension)
                    <==> exists|i: int|
                    0 <= i < self.extensions@.len() && self.extensions@[i]@ == spec_extension_name(
                        q,
                    ))
                &&& (r is Err ==> r == Err::<VaultQueryResponse, VaultError>(
                    VaultError::UnknownExtension,
                ))
            },
    {
        match msg {
            VaultStandardQueryMsg::VaultStandardInfo {} => Ok(
                VaultQueryResponse::StandardInfo(self.query_vault_standard_info()),
            ),
            VaultStandardQueryMsg::Info {} => Ok(VaultQueryResponse::Info(self.query_info())),
            VaultStandardQueryMsg::PreviewDeposit { amount } => match self.preview_deposit(
                *amount,
            ) {
                Ok(v) => Ok(VaultQueryResponse::Amount(v)),
                Err(e) => Err(e),
            },
            VaultStandardQueryMsg::PreviewRedeem { amount } => match self.preview_redeem(*amount) {
                Ok(v) => Ok(VaultQueryResponse::Amount(v)),
                Err(e) => Err(e),
            },
            VaultStandardQueryMsg::ConvertToShares { amount } => match self.convert_to_shares(
                *amount,
            ) {
                Ok(v) => Ok(VaultQueryResponse::Amount(v)),
                Err(e) => Err(e),
            },
            VaultStandardQueryMsg::ConvertToAssets { amount } => match self.convert_to_assets(
                *amount,
            ) {
                Ok(v) => Ok(VaultQueryResponse::Amount(v)),
                Err(e) => Err(e),
            },
            VaultStandardQueryMsg::TotalAssets {} => Ok(
                VaultQueryResponse::Amount(self.query_total_assets()),
            ),
            VaultStandardQueryMsg::TotalVaultTokenSupply {} => Ok(
                VaultQueryResponse::Amount(self.query_total_vault_token_supply()),
            ),
            VaultStandardQueryMsg::VaultExtension(q) => match self.route_extension_query(q) {
                Ok(()) => Ok(VaultQueryResponse::Extension),
                Err(e) => Err(e),
            },
        }
    }
}

/// What a vault answers to a base-protocol query: the two info snapshots or
/// a single amount; a routed extension query answers through the extension
/// itself.
#[derive(Debug)]
pub enum VaultQueryResponse {
    /// The answer to `VaultStandardInfo {}`.
    StandardInfo(VaultStandardInfoResponse),
    /// The answer to `Info {}`.
    Info(VaultInfoResponse),
    /// The answer to an amount-valued query.
    Amount(u128),
    /// The query was routed to an extension the vault implements.
    Extension,
}

/// The name under which an extension is listed in the vault's standard info.
pub open spec fn spec_extension_name(q: ExtensionQueryMsg) -> Seq<char> {
    match q {
        ExtensionQueryMsg::Keeper => "keeper"@,
        ExtensionQueryMsg::Lockup => "lockup"@,
    }
}

/// The listed name of an extension query payload.
pub fn extension_query_name(q: &ExtensionQueryMsg) -> (r: &'static str)
    ensures
        r@ == spec_extension_name(*q),
{
    match q {
        ExtensionQueryMsg::Keeper => "keeper",
        ExtensionQueryMsg::Lockup => "lockup",
    }
}

/// Law: no unbacked float — whenever the accounting invariant holds and the
/// vault token supply is zero, the vault holds no assets.
pub proof fn lemma_no_unbacked_float(v: Vault)
    requires
        v.wf(),
    ensures
        v.total_supply == 0 ==> v.total_assets == 0,
{
}

/// Law: queries are idempotent. Any two answers to `Info {}` against the
/// same vault state agree, and so do any two answers to
/// `VaultStandardInfo {}`; with no intervening execute call the state, and
/// hence the answer, cannot change.
pub proof fn lemma_query_idempotent(
    v: Vault,
    info_a: VaultInfoResponse,
    info_b: VaultInfoResponse,
    std_a: VaultStandardInfoResponse,
    std_b: VaultStandardInfoResponse,
)
    requires
        info_response_matches(v, info_a),
        info_response_matches(v, info_b),
        standard_info_response_matches(v, std_a),
        standard_info_response_matches(v, std_b),
    ensures
        info_a.base_token@ == info_b.base_token@,
        info_a.vault_token@ == info_b.vault_token@,
        std_a.version == std_b.version,
        std_a.extensions@.len() == std_b.extensions@.len(),
        forall|i: int|
            0 <= i < std_a.extensions@.len() ==> std_a.extensions@[i]@ == std_b.extensions@[i]@,
{
}

/// Law: a deposit round trip never gains. Depositing `amount` into a
/// well-formed vault and at once redeeming every minted share returns at
/// most `amount` base tokens: rounding loses at most dust and never creates
/// value.
pub proof fn lemma_vault_round_trip_no_gain(v: Vault, amount: u128)
    requires
        v.wf(),
        v.deposit_fits(amount as int),
    ensures
        ({
            let s = v.spec_preview_deposit(amount as int);
            let grown = Vault {
                total_assets: (v.total_assets + amount) as u128,
                total_supply: (v.total_supply + s) as u128,
                ..v
            };
            grown.spec_preview_redeem(s) <= amount
        }),
{
    lemma_round_trip_no_gain(amount as int, v.total_assets as int, v.total_supply as int);
}

} // verus!

