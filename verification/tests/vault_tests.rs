use cw_vault_standard::decimal::{almost_eq, parse_decimal, Decimal, DECIMAL_FRACTIONAL};
use cw_vault_standard::error::VaultError;
use cw_vault_standard::msg::{Coin, InstantiateMsg};
use cw_vault_standard::msg::ExtensionQueryMsg;
use cw_vault_standard::msg::VaultStandardQueryMsg;
use cw_vault_standard::vault::{Vault, VaultQueryResponse, VAULT_STANDARD_VERSION};

fn uosmo_vault() -> Vault {
    Vault::instantiate(
        InstantiateMsg {
            base_token: "uosmo".to_string(),
        },
        "osmo1vaultaddr",
    )
}

fn coins(denom: &str, amount: u128) -> Vec<Coin> {
    vec![Coin {
        denom: denom.to_string(),
        amount,
    }]
}

#[test]
fn instantiate_fixes_identifiers() {
    let vault = uosmo_vault();
    assert_eq!(vault.base_token, "uosmo");
    assert_eq!(vault.vault_token, "factory/osmo1vaultaddr/vault-token");
    assert_eq!(vault.version, VAULT_STANDARD_VERSION);
    assert!(vault.extensions.is_empty());
    assert_eq!(vault.query_total_assets(), 0);
    assert_eq!(vault.query_total_vault_token_supply(), 0);
}

#[test]
fn deposit_mints_previewed_shares() {
    let mut vault = uosmo_vault();
    let preview = vault.preview_deposit(1_000_000).unwrap();
    let minted = vault.deposit(1_000_000, &coins("uosmo", 1_000_000)).unwrap();
    assert!(minted <= preview);
    assert_eq!(minted, preview);
    assert_eq!(vault.query_total_assets(), 1_000_000);
    assert_eq!(vault.query_total_vault_token_supply(), minted);
}

#[test]
fn redeem_pays_previewed_assets() {
    let mut vault = uosmo_vault();
    vault.deposit(500_000, &coins("uosmo", 500_000)).unwrap();
    let preview = vault.preview_redeem(200_000).unwrap();
    let paid = vault
        .redeem(200_000, &coins("factory/osmo1vaultaddr/vault-token", 200_000))
        .unwrap();
    assert!(paid >= preview);
    assert_eq!(paid, preview);
}

#[test]
fn full_cycle_scenario() {
    // Deposit a million uosmo from one account, then redeem every minted
    // share: the payout never exceeds the deposit, and the supply drains.
    let mut vault = uosmo_vault();
    let minted = vault.deposit(1_000_000, &coins("uosmo", 1_000_000)).unwrap();
    assert!(minted > 0);
    assert_eq!(vault.query_total_assets(), 1_000_000);
    let paid = vault
        .redeem(minted, &coins("factory/osmo1vaultaddr/vault-token", minted))
        .unwrap();
    assert!(paid <= 1_000_000);
    assert_eq!(vault.query_total_vault_token_supply(), 0);
    assert_eq!(vault.query_total_assets(), 0);
}

#[test]
fn deposit_wrong_denom_rejected() {
    let mut vault = uosmo_vault();
    let err = vault.deposit(100, &coins("uatom", 100)).unwrap_err();
    assert_eq!(err, VaultError::InvalidFunds);
    assert_eq!(vault.query_total_assets(), 0);
}

#[test]
fn deposit_mismatched_amount_rejected() {
    let mut vault = uosmo_vault();
    let err = vault.deposit(100, &coins("uosmo", 99)).unwrap_err();
    assert_eq!(err, VaultError::InsufficientFunds);
    let err = vault.deposit(100, &[]).unwrap_err();
    assert_eq!(err, VaultError::InvalidFunds);
    assert_eq!(vault.query_total_assets(), 0);
}

#[test]
fn redeem_more_than_supply_rejected() {
    let mut vault = uosmo_vault();
    vault.deposit(50, &coins("uosmo", 50)).unwrap();
    let err = vault
        .redeem(51, &coins("factory/osmo1vaultaddr/vault-token", 51))
        .unwrap_err();
    assert_eq!(err, VaultError::InsufficientShares);
    let err = vault.redeem(10, &coins("uosmo", 10)).unwrap_err();
    assert_eq!(err, VaultError::InvalidFunds);
    assert_eq!(vault.query_total_assets(), 50);
}

#[test]
fn queries_idempotent() {
    let mut vault = uosmo_vault();
    vault.deposit(42, &coins("uosmo", 42)).unwrap();
    let a = vault.query_info();
    let b = vault.query_info();
    assert_eq!(a.base_token, b.base_token);
    assert_eq!(a.vault_token, b.vault_token);
    let sa = vault.query_vault_standard_info();
    let sb = vault.query_vault_standard_info();
    assert_eq!(sa.version, sb.version);
    assert_eq!(sa.extensions, sb.extensions);
}

#[test]
fn conversion_truncates_toward_vault() {
    // A pool of 3 assets backing 2 shares: converting 1 asset is worth
    // 2/3 share, floored to 0; converting 1 share is worth 3/2 assets,
    // floored to 1.
    let mut vault = uosmo_vault();
    vault.deposit(2, &coins("uosmo", 2)).unwrap();
    vault.total_assets = 3;
    assert_eq!(vault.convert_to_shares(1).unwrap(), 0);
    assert_eq!(vault.convert_to_assets(1).unwrap(), 1);
    assert_eq!(vault.convert_to_shares(3).unwrap(), 2);
    assert_eq!(vault.convert_to_assets(2).unwrap(), 3);
}

#[test]
fn round_trip_never_gains_at_skewed_rate() {
    // 7 assets backing 3 shares: depositing 5 mints floor(5*3/7) = 2 shares;
    // redeeming 2 shares from the grown pool pays floor(2*12/5) = 4 <= 5.
    let mut vault = uosmo_vault();
    vault.deposit(3, &coins("uosmo", 3)).unwrap();
    vault.total_assets = 7;
    let minted = vault.deposit(5, &coins("uosmo", 5)).unwrap();
    assert_eq!(minted, 2);
    let paid = vault
        .redeem(minted, &coins("factory/osmo1vaultaddr/vault-token", minted))
        .unwrap();
    assert_eq!(paid, 4);
    assert!(paid <= 5);
}

#[test]
fn extension_routing() {
    let vault = uosmo_vault();
    let err = vault
        .route_extension_query(&ExtensionQueryMsg::Lockup)
        .unwrap_err();
    assert_eq!(err, VaultError::UnknownExtension);
    let mut with_lockup = uosmo_vault();
    with_lockup.extensions.push("lockup".to_string());
    assert!(with_lockup
        .route_extension_query(&ExtensionQueryMsg::Lockup)
        .is_ok());
    assert!(with_lockup
        .route_extension_query(&ExtensionQueryMsg::Keeper)
        .is_err());
    assert!(with_lockup.supports_extension("lockup"));
    assert!(!with_lockup.supports_extension("keeper"));
}

#[test]
fn parse_decimal_values() {
    assert_eq!(parse_decimal("1").unwrap().atomics, DECIMAL_FRACTIONAL);
    assert_eq!(
        parse_decimal("1.23").unwrap().atomics,
        1_230_000_000_000_000_000
    );
    assert_eq!(
        parse_decimal("000012").unwrap().atomics,
        12 * DECIMAL_FRACTIONAL
    );
    assert_eq!(
        parse_decimal("1.123000000").unwrap().atomics,
        1_123_000_000_000_000_000
    );
    assert_eq!(parse_decimal("0.01").unwrap().atomics, 10_000_000_000_000_000);
    assert_eq!(parse_decimal("0").unwrap().atomics, 0);
    assert!(parse_decimal("").is_none());
    assert!(parse_decimal(".23").is_none());
    assert!(parse_decimal("1.").is_none());
    assert!(parse_decimal("1.2.3").is_none());
    assert!(parse_decimal("1.1234567890123456789").is_none());
    assert!(parse_decimal("a.1").is_none());
    // The largest representable value parses; one more does not.
    assert_eq!(
        parse_decimal("340282366920938463463.374607431768211455")
            .unwrap()
            .atomics,
        u128::MAX
    );
    assert!(parse_decimal("340282366920938463463.374607431768211456").is_none());
}

#[test]
fn almost_eq_relative_difference() {
    let one = parse_decimal("1.00").unwrap();
    let close = parse_decimal("1.009").unwrap();
    // |1.00 - 1.009| / 1.009 is a little under nine parts in a thousand.
    assert!(!almost_eq(one, close, parse_decimal("0.008").unwrap()));
    assert!(almost_eq(one, close, parse_decimal("0.01").unwrap()));
    assert!(almost_eq(one, close, parse_decimal("0.02").unwrap()));
    let zero = Decimal { atomics: 0 };
    assert!(almost_eq(zero, zero, parse_decimal("0").unwrap()));
    assert!(!almost_eq(zero, parse_decimal("1").unwrap(), parse_decimal("0.5").unwrap()));
    assert!(almost_eq(parse_decimal("2").unwrap(), parse_decimal("1").unwrap(), parse_decimal("0.5").unwrap()));
}

#[test]
fn mul_ratio_matches_uint128() {
    // The trusted ratio multiplication must agree with the crate it relies
    // on, including on products that overflow 128 bits before division.
    let a: u128 = u128::MAX / 2;
    let shares = cosmwasm_std::Uint128::new(a)
        .checked_multiply_ratio(3u128, 4u128)
        .unwrap()
        .u128();
    let mut vault = uosmo_vault();
    vault.deposit(4, &coins("uosmo", 4)).unwrap();
    vault.total_supply = 3;
    assert_eq!(vault.convert_to_shares(a).unwrap(), shares);
    assert_eq!(vault.convert_to_shares(a).unwrap(), a / 4 * 3 + (a % 4) * 3 / 4);
}

#[test]
fn query_dispatch() {
    let mut vault = uosmo_vault();
    vault.deposit(800, &coins("uosmo", 800)).unwrap();
    match vault.handle_query(&VaultStandardQueryMsg::Info {}).unwrap() {
        VaultQueryResponse::Info(i) => {
            assert_eq!(i.base_token, "uosmo");
            assert_eq!(i.vault_token, "factory/osmo1vaultaddr/vault-token");
        }
        _ => panic!("expected the vault info"),
    }
    match vault
        .handle_query(&VaultStandardQueryMsg::VaultStandardInfo {})
        .unwrap()
    {
        VaultQueryResponse::StandardInfo(i) => {
            assert_eq!(i.version, VAULT_STANDARD_VERSION);
            assert!(i.extensions.is_empty());
        }
        _ => panic!("expected the standard info"),
    }
    match vault
        .handle_query(&VaultStandardQueryMsg::TotalAssets {})
        .unwrap()
    {
        VaultQueryResponse::Amount(a) => assert_eq!(a, 800),
        _ => panic!("expected an amount"),
    }
    match vault
        .handle_query(&VaultStandardQueryMsg::PreviewDeposit { amount: 100 })
        .unwrap()
    {
        VaultQueryResponse::Amount(a) => assert_eq!(a, 100),
        _ => panic!("expected an amount"),
    }
    let err = vault
        .handle_query(&VaultStandardQueryMsg::VaultExtension(ExtensionQueryMsg::Keeper))
        .unwrap_err();
    assert_eq!(err, VaultError::UnknownExtension);
}

#[test]
fn overflow_is_rejected_unchanged() {
    let mut vault = uosmo_vault();
    vault.deposit(10, &coins("uosmo", 10)).unwrap();
    // A pool already holding the maximum cannot accept another unit.
    vault.total_assets = u128::MAX;
    let err = vault.deposit(1, &coins("uosmo", 1)).unwrap_err();
    assert_eq!(err, VaultError::Overflow);
    assert_eq!(vault.query_total_assets(), u128::MAX);
    assert_eq!(vault.query_total_vault_token_supply(), 10);
    // A share count beyond the range is refused by the conversion too.
    let mut skewed = uosmo_vault();
    skewed.deposit(1, &coins("uosmo", 1)).unwrap();
    skewed.total_supply = u128::MAX;
    let err = skewed.convert_to_shares(2).unwrap_err();
    assert_eq!(err, VaultError::Overflow);
    assert_eq!(skewed.preview_deposit(2).unwrap_err(), VaultError::Overflow);
}
