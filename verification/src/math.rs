use vstd::arithmetic::div_mod::lemma_div_is_ordered;
use vstd::arithmetic::div_mod::lemma_div_multiples_vanish;
use vstd::arithmetic::div_mod::lemma_div_pos_is_pos;
use vstd::arithmetic::div_mod::lemma_fundamental_div_mod;
use vstd::arithmetic::div_mod::lemma_multiply_divide_le;
use vstd::arithmetic::div_mod::lemma_multiply_divide_lt;
use vstd::arithmetic::mul::lemma_mul_inequality;
use vstd::arithmetic::mul::lemma_mul_is_commutative;
use vstd::arithmetic::mul::lemma_mul_nonnegative;
use vstd::prelude::*;

verus! {

/// The exchange rate of a vault pool, applied in the asset-to-share
/// direction: the number of vault tokens that `amount` base tokens are worth
/// at the pool state (`total_assets`, `total_supply`). Into an empty pool the
/// rate is one share per asset; otherwise it is the proportional claim,
/// floored, so a depositor can never gain from rounding.
pub open spec fn shares_for_assets(amount: int, total_assets: int, total_supply: int) -> int {
    if total_supply == 0 {
        amount
    } else {
        amount * total_supply / total_assets
    }
}

/// The exchange rate of a vault pool, applied in the share-to-asset
/// direction: the number of base tokens that `shares` vault tokens are worth
/// at the pool state. An empty pool pays nothing; otherwise the proportional
/// claim, floored, so a redeemer can never gain from rounding.
pub open spec fn assets_for_shares(shares: int, total_assets: int, total_supply: int) -> int {
    if total_supply == 0 {
        0
    } else {
        shares * total_assets / total_supply
    }
}

/// A pool state is well formed when shares and assets are absent together:
/// no share exists unbacked, and no assets are stranded without a claim.
pub open spec fn pool_wf(total_assets: int, total_supply: int) -> bool {
    &&& 0 <= total_assets <= u128::MAX
    &&& 0 <= total_supply <= u128::MAX
    &&& (total_supply == 0 <==> total_assets == 0)
}

/// Relies on `cosmwasm_std::Uint128::checked_multiply_ratio`: returns
/// `a * n / d` floored (the product is formed at full width), and fails
/// exactly when the denominator is zero or the quotient exceeds the
/// 128-bit range.
#[verifier::external_body]
pub(crate) fn mul_ratio_floor(a: u128, n: u128, d: u128) -> (r: Option<u128>)
    ensures
        d != 0 && (a as int * n as int) / (d as int) <= u128::MAX ==> r == Some(
            (((a as int) * (n as int)) / (d as int)) as u128,
        ),
        d == 0 || (a as int * n as int) / (d as int) > u128::MAX ==> r is None,
{
    match cosmwasm_std::Uint128::new(a).checked_multiply_ratio(n, d) {
        Ok(v) => Some(v.u128()),
        Err(_) => None,
    }
}

/// A floored quotient never exceeds what the true ratio allows: the shares
/// minted for a deposit, weighed back against the pool, are worth no more
/// than the assets paid in. Specifically, `s * total_assets <= amount *
/// total_supply` for `s` the minted share count.
pub proof fn lemma_minted_shares_covered(amount: int, total_assets: int, total_supply: int)
    requires
        0 <= amount,
        0 < total_assets,
        0 < total_supply,
    ensures
        shares_for_assets(amount, total_assets, total_supply) * total_assets <= amount
            * total_supply,
{
    let s = amount * total_supply / total_assets;
    lemma_mul_nonnegative(amount, total_supply);
    lemma_fundamental_div_mod(amount * total_supply, total_assets);
    assert(amount * total_supply == total_assets * s + (amount * total_supply) % total_assets);
    lemma_mul_is_commutative(total_assets, s);
}

/// Redeeming never pays out more than the pool holds: for `shares` at most
/// the total supply, the assets paid are at most `total_assets`.
pub proof fn lemma_redeem_within_pool(shares: int, total_assets: int, total_supply: int)
    requires
        0 <= shares <= total_supply,
        0 <= total_assets,
        0 < total_supply,
    ensures
        0 <= assets_for_shares(shares, total_assets, total_supply) <= total_assets,
{
    lemma_mul_nonnegative(shares, total_assets);
    lemma_div_pos_is_pos(shares * total_assets, total_supply);
    lemma_mul_inequality(shares, total_supply, total_assets);
    lemma_multiply_divide_le(shares * total_assets, total_supply, total_assets);
}

/// Redeeming strictly fewer shares than exist leaves assets behind: the
/// payout is strictly below `total_assets`, so the claims that remain stay
/// backed.
pub proof fn lemma_partial_redeem_leaves_backing(
    shares: int,
    total_assets: int,
    total_supply: int,
)
    requires
        0 <= shares < total_supply,
        0 < total_assets,
    ensures
        assets_for_shares(shares, total_assets, total_supply) < total_assets,
{
    assert(shares * total_assets < total_supply * total_assets) by {
        lemma_mul_is_commutative(shares, total_assets);
        lemma_mul_is_commutative(total_supply, total_assets);
        vstd::arithmetic::mul::lemma_mul_strict_inequality(shares, total_supply, total_assets);
    }
    lemma_multiply_divide_lt(shares * total_assets, total_supply, total_assets);
}

/// Redeeming the whole supply drains the pool exactly.
pub proof fn lemma_full_redeem_drains_pool(total_assets: int, total_supply: int)
    requires
        0 <= total_assets,
        0 < total_supply,
    ensures
        assets_for_shares(total_supply, total_assets, total_supply) == total_assets,
{
    lemma_mul_is_commutative(total_supply, total_assets);
    lemma_div_multiples_vanish(total_assets, total_supply);
}

/// The round-trip law: depositing `amount` into a well-formed pool and at
/// once redeeming the minted shares against the grown pool returns at most
/// `amount` base tokens. Rounding can only lose value for the caller, never
/// create it.
pub proof fn lemma_round_trip_no_gain(amount: int, total_assets: int, total_supply: int)
    requires
        0 <= amount,
        pool_wf(total_assets, total_supply),
    ensures
        ({
            let s = shares_for_assets(amount, total_assets, total_supply);
            assets_for_shares(s, total_assets + amount, total_supply + s) <= amount
        }),
{
    let s = shares_for_assets(amount, total_assets, total_supply);
    if total_supply == 0 {
        // An empty pool mints one share per asset; redeeming them against the
        // pool of `amount` assets and `amount` shares pays back exactly
        // `amount` (or nothing, when nothing was deposited).
        if amount > 0 {
            lemma_div_multiples_vanish(amount, amount);
            lemma_mul_is_commutative(amount, amount);
        }
    } else {
        lemma_mul_nonnegative(amount, total_supply);
        lemma_div_pos_is_pos(amount * total_supply, total_assets);
        assert(0 <= s);
        lemma_minted_shares_covered(amount, total_assets, total_supply);
        // s * (total_assets + amount) <= amount * (total_supply + s)
        assert(s * (total_assets + amount) == s * total_assets + s * amount) by {
            vstd::arithmetic::mul::lemma_mul_is_distributive_add(s, total_assets, amount);
        }
        assert(amount * (total_supply + s) == amount * total_supply + amount * s) by {
            vstd::arithmetic::mul::lemma_mul_is_distributive_add(amount, total_supply, s);
        }
        lemma_mul_is_commutative(s, amount);
        assert(s * (total_assets + amount) <= amount * (total_supply + s));
        lemma_div_is_ordered(
            s * (total_assets + amount),
            amount * (total_supply + s),
            total_supply + s,
        );
        assert(amount * (total_supply + s) / (total_supply + s) == amount) by {
            lemma_mul_is_commutative(amount, total_supply + s);
            lemma_div_multiples_vanish(amount, total_supply + s);
        }
    }
}

/// Depositing into a well-formed pool leaves it well formed: the pool grows
/// by the assets paid in and the shares minted for them.
pub proof fn lemma_deposit_preserves_wf(amount: int, total_assets: int, total_supply: int)
    requires
        0 <= amount,
        pool_wf(total_assets, total_supply),
        total_assets + amount <= u128::MAX,
        ({
            let s = shares_for_assets(amount, total_assets, total_supply);
            s <= u128::MAX && total_supply + s <= u128::MAX
        }),
    ensures
        ({
            let s = shares_for_assets(amount, total_assets, total_supply);
            pool_wf(total_assets + amount, total_supply + s)
        }),
{
    let s = shares_for_assets(amount, total_assets, total_supply);
    if total_supply == 0 {
        assert(s == amount);
    } else {
        lemma_mul_nonnegative(amount, total_supply);
        lemma_div_pos_is_pos(amount * total_supply, total_assets);
    }
}

/// Redeeming from a well-formed pool leaves it well formed: when every share
/// is redeemed the pool is drained exactly, and while shares remain so does
/// their backing.
pub proof fn lemma_redeem_preserves_wf(shares: int, total_assets: int, total_supply: int)
    requires
        0 <= shares <= total_supply,
        pool_wf(total_assets, total_supply),
        0 < total_supply,
    ensures
        ({
            let p = assets_for_shares(shares, total_assets, total_supply);
            pool_wf(total_assets - p, total_supply - shares)
        }),
{
    let p = assets_for_shares(shares, total_assets, total_supply);
    lemma_redeem_within_pool(shares, total_assets, total_supply);
    if shares == total_supply {
        lemma_full_redeem_drains_pool(total_assets, total_supply);
    } else {
        lemma_partial_redeem_leaves_backing(shares, total_assets, total_supply);
    }
}

} // verus!
