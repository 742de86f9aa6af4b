use cw_vault_standard::msg::{ExtensionExecuteMsg, VaultStandardExecuteMsg, VaultStandardQueryMsg};
use cw_vault_standard::robot::{
    deposit_cw20_request, deposit_request, instantiate_request, redeem_request,
    runner_kind_from_str, wasm_file_name, DefaultVaultRobot, TestRunnerKind, VaultRobot,
};
use cw_vault_standard::vault::vault_token_denom;

fn robot() -> DefaultVaultRobot {
    DefaultVaultRobot::from_instantiated("uosmo".to_string(), "osmo1vault".to_string())
}

#[test]
fn vault_token_denom_derivation() {
    assert_eq!(vault_token_denom("osmo1vault"), "factory/osmo1vault/vault-token");
    let r = robot();
    assert_eq!(r.base_token(), "uosmo");
    assert_eq!(r.vault_addr(), "osmo1vault");
    assert_eq!(r.vault_token(), "factory/osmo1vault/vault-token");
}

#[test]
fn default_vault_robot_binds_identifiers() {
    let r = DefaultVaultRobot::default_vault_robot(
        "uatom".to_string(),
        "factory/x/vault-token".to_string(),
        "x".to_string(),
    );
    assert_eq!(r.base_token(), "uatom");
    assert_eq!(r.vault_token(), "factory/x/vault-token");
    assert_eq!(r.vault_addr(), "x");
}

#[test]
fn instantiate_request_carries_base_token() {
    let msg = instantiate_request("uosmo");
    assert_eq!(msg.base_token, "uosmo");
}

#[test]
fn deposit_request_attaches_base_token_funds() {
    let r = robot();
    let (msg, funds) = deposit_request(&r, 1_000_000);
    match msg {
        VaultStandardExecuteMsg::Deposit { amount, recipient } => {
            assert_eq!(amount, 1_000_000);
            assert!(recipient.is_none());
        }
        _ => panic!("expected a deposit"),
    }
    assert_eq!(funds.len(), 1);
    assert_eq!(funds[0].denom, "uosmo");
    assert_eq!(funds[0].amount, 1_000_000);
}

#[test]
fn deposit_cw20_request_attaches_no_funds() {
    let (msg, funds) = deposit_cw20_request(77);
    match msg {
        VaultStandardExecuteMsg::Deposit { amount, recipient } => {
            assert_eq!(amount, 77);
            assert!(recipient.is_none());
        }
        _ => panic!("expected a deposit"),
    }
    assert!(funds.is_empty());
}

#[test]
fn redeem_request_attaches_vault_token_funds() {
    let r = robot();
    let (msg, funds) = redeem_request(&r, 123);
    match msg {
        VaultStandardExecuteMsg::Redeem { amount, recipient } => {
            assert_eq!(amount, 123);
            assert!(recipient.is_none());
        }
        _ => panic!("expected a redeem"),
    }
    assert_eq!(funds.len(), 1);
    assert_eq!(funds[0].denom, "factory/osmo1vault/vault-token");
    assert_eq!(funds[0].amount, 123);
}

#[test]
fn runner_kind_selection() {
    assert_eq!(runner_kind_from_str("multi-test"), Some(TestRunnerKind::MultiTest));
    assert_eq!(
        runner_kind_from_str("osmosis-test-app"),
        Some(TestRunnerKind::OsmosisTestApp)
    );
    assert_eq!(runner_kind_from_str("unsupported"), None);
}

#[test]
fn wasm_file_names() {
    assert_eq!(
        wasm_file_name("../../artifacts", "mock-vault", None),
        "../../artifacts/mock_vault.wasm"
    );
    assert_eq!(
        wasm_file_name("artifacts", "mock-vault", Some("aarch64")),
        "artifacts/mock_vault-aarch64.wasm"
    );
    assert_eq!(wasm_file_name("a", "plain", None), "a/plain.wasm");
}

#[test]
fn query_messages_construct() {
    let q: VaultStandardQueryMsg<cw_vault_standard::msg::ExtensionQueryMsg> =
        VaultStandardQueryMsg::PreviewDeposit { amount: 5 };
    match q {
        VaultStandardQueryMsg::PreviewDeposit { amount } => assert_eq!(amount, 5),
        _ => panic!("expected a preview"),
    }
    let e: VaultStandardExecuteMsg<ExtensionExecuteMsg> =
        VaultStandardExecuteMsg::VaultExtension(ExtensionExecuteMsg::Lockup);
    match e {
        VaultStandardExecuteMsg::VaultExtension(ExtensionExecuteMsg::Lockup) => {}
        _ => panic!("expected the lockup extension"),
    }
}
