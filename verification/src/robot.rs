use crate::msg::Coin;
use crate::msg::ExtensionExecuteMsg;
use crate::msg::InstantiateMsg;
use crate::msg::VaultStandardExecuteMsg;
use crate::vault::spec_vault_token_denom;
use crate::vault::vault_token_denom;
use vstd::prelude::*;
use vstd::string::StringExecFns;

verus! {

/// The execution backend a test harness drives: an in-process simulator or
/// an out-of-process chain client, chosen by explicit configuration at
/// harness construction.
#[derive(Clone, Copy, Debug, PartialEq, Eq, Structural)]
pub enum TestRunnerKind {
    /// The in-process multi-contract simulator.
    MultiTest,
    /// The full chain binary run out of process.
    OsmosisTestApp,
}

/// Selects the runner kind that a configuration string names:
/// `"multi-test"` or `"osmosis-test-app"`; anything else is unsupported.
pub fn runner_kind_from_str(s: &str) -> (r: Option<TestRunnerKind>)
    ensures
        s@ == "multi-test"@ ==> r == Some(TestRunnerKind::MultiTest),
        s@ == "osmosis-test-app"@ ==> r == Some(TestRunnerKind::OsmosisTestApp),
        s@ != "multi-test"@ && s@ != "osmosis-test-app"@ ==> r is None,
{
    proof {
        reveal_strlit("multi-test");
        reveal_strlit("osmosis-test-app");
        assert("multi-test"@.len() == 10);
        assert("osmosis-test-app"@.len() == 16);
    }
    let owned = s.to_owned();
    if owned == String::from_str("multi-test") {
        Some(TestRunnerKind::MultiTest)
    } else if owned == String::from_str("osmosis-test-app") {
        Some(TestRunnerKind::OsmosisTestApp)
    } else {
        None
    }
}

/// The contract name with dashes turned to underscores, as compiled
/// artifacts on disk are named.
pub open spec fn spec_snake_name(s: Seq<char>) -> Seq<char> {
    s.map_values(
        |c: char|
            if c == '-' {
                '_'
            } else {
                c
            },
    )
}

/// What follows the artifacts directory in the path of a compiled contract:
/// `/{name with dashes as underscores}{-arch, if given}.wasm`.
pub open spec fn spec_wasm_file_name(name: Seq<char>, arch: Option<Seq<char>>) -> Seq<char> {
    "/"@ + spec_snake_name(name) + (match arch {
        Some(a) => "-"@ + a,
        None => Seq::<char>::empty(),
    }) + ".wasm"@
}

/// Builds the path of a compiled contract artifact under `artifacts_dir`,
/// optionally tagged with a CPU architecture.
pub fn wasm_file_name(artifacts_dir: &str, contract_name: &str, arch: Option<&str>) -> (r: String)
    ensures
        r@ == artifacts_dir@ + spec_wasm_file_name(contract_name@, match arch {
            Some(a) => Some(a@),
            None => None,
        }),
{
    let mut out = artifacts_dir.to_owned();
    out.append("/");
    let n = contract_name.unicode_len();
    let mut i: usize = 0;
    let ghost prefix = out@;
    while i < n
        invariant
            i <= n == contract_name@.len(),
            out@ == prefix + spec_snake_name(contract_name@.subrange(0, i as int)),
        decreases n - i,
    {
        let c = contract_name.get_char(i);
        if c == '-' {
            out.append("_");
            proof {
                reveal_strlit("_");
            }
        } else {
            let piece = contract_name.substring_char(i, i + 1);
            out.append(piece);
        }
        proof {
            let snake = |c: char|
                if c == '-' {
                    '_'
                } else {
                    c
                };
            assert(spec_snake_name(contract_name@.subrange(0, i + 1)) =~= spec_snake_name(
                contract_name@.subrange(0, i as int),
            ).push(snake(contract_name@[i as int])));
        }
        i = i + 1;
    }
    proof {
        assert(contract_name@.subrange(0, n as int) =~= contract_name@);
    }
    match arch {
        Some(a) => {
            out.append("-");
            out.append(a);
        },
        None => {},
    }
    out.append(".wasm");
    proof {
        assert(out@ =~= artifacts_dir@ + spec_wasm_file_name(
            contract_name@,
            match arch {
                Some(a) => Some(a@),
                None => None,
            },
        ));
    }
    out
}

/// A capability for driving a vault contract under test. Any concrete
/// harness that can answer the three accessors gains the shared message
/// builders, so test suites for independently developed vaults reuse one
/// behavioral contract instead of extending a hierarchy.
pub trait VaultRobot: Sized {
    /// The base token of the vault this robot is bound to.
    spec fn spec_base_token(&self) -> Seq<char>;

    /// The vault token of the vault this robot is bound to.
    spec fn spec_vault_token(&self) -> Seq<char>;

    /// The address of the vault this robot is bound to.
    spec fn spec_vault_addr(&self) -> Seq<char>;

    /// Returns the base token.
    fn base_token(&self) -> (r: &str)
        ensures
            r@ == self.spec_base_token(),
    ;

    /// Returns the vault token.
    fn vault_token(&self) -> (r: &str)
        ensures
            r@ == self.spec_vault_token(),
    ;

    /// Returns the vault address.
    fn vault_addr(&self) -> (r: &str)
        ensures
            r@ == self.spec_vault_addr(),
    ;
}

/// Builds the message that instantiates a vault accepting `base_token`.
pub fn instantiate_request(base_token: &str) -> (r: InstantiateMsg)
    ensures
        r.base_token@ == base_token@,
{
    InstantiateMsg { base_token: base_token.to_owned() }
}

/// Builds the deposit call a robot executes: the `Deposit` message for
/// `amount` with no explicit recipient, and the attached payment of exactly
/// `amount` of the robot's base token.
pub fn deposit_request<R: VaultRobot>(robot: &R, amount: u128) -> (r: (
    VaultStandardExecuteMsg<ExtensionExecuteMsg>,
    Vec<Coin>,
))
    ensures
        r.0 == (VaultStandardExecuteMsg::Deposit::<ExtensionExecuteMsg> {
            amount,
            recipient: None,
        }),
        r.1@.len() == 1,
        r.1@[0].denom@ == robot.spec_base_token(),
        r.1@[0].amount == amount,
{
    let msg = VaultStandardExecuteMsg::Deposit { amount, recipient: None };
    let mut funds: Vec<Coin> = Vec::new();
    funds.push(Coin { denom: robot.base_token().to_owned(), amount });
    (msg, funds)
}

/// Builds the deposit call for a base token transferred out of band, as
/// cw20-style assets are: the same `Deposit` message, with no funds
/// attached.
pub fn deposit_cw20_request(amount: u128) -> (r: (
    VaultStandardExecuteMsg<ExtensionExecuteMsg>,
    Vec<Coin>,
))
    ensures
        r.0 == (VaultStandardExecuteMsg::Deposit::<ExtensionExecuteMsg> {
            amount,
            recipient: None,
        }),
        r.1@.len() == 0,
{
    let msg = VaultStandardExecuteMsg::Deposit { amount, recipient: None };
    let funds: Vec<Coin> = Vec::new();
    (msg, funds)
}

/// Builds the redeem call a robot executes: the `Redeem` message for
/// `amount` with no explicit recipient, and the attached payment of exactly
/// `amount` of the robot's vault token.
pub fn redeem_request<R: VaultRobot>(robot: &R, amount: u128) -> (r: (
    VaultStandardExecuteMsg<ExtensionExecuteMsg>,
    Vec<Coin>,
))
    ensures
        r.0 == (VaultStandardExecuteMsg::Redeem::<ExtensionExecuteMsg> {
            recipient: None,
            amount,
        }),
        r.1@.len() == 1,
        r.1@[0].denom@ == robot.spec_vault_token(),
        r.1@[0].amount == amount,
{
    let msg = VaultStandardExecuteMsg::Redeem { recipient: None, amount };
    let mut funds: Vec<Coin> = Vec::new();
    funds.push(Coin { denom: robot.vault_token().to_owned(), amount });
    (msg, funds)
}

/// A simple testing robot bound to one vault: the identifiers a harness
/// needs to drive deposit, redeem and balance queries. The execution
/// backend and the signing accounts live with the harness that owns it.
pub struct DefaultVaultRobot {
    /// The address of the vault under test.
    pub vault_addr: String,
    /// The base token the vault accepts.
    pub base_token: String,
    /// The vault token the vault mints.
    pub vault_token: String,
}

impl DefaultVaultRobot {
    /// Creates a robot from the three identifiers.
    pub fn default_vault_robot(base_token: String, vault_token: String, vault_addr: String) -> (r:
        DefaultVaultRobot)
        ensures
            r.base_token@ == base_token@,
            r.vault_token@ == vault_token@,
            r.vault_addr@ == vault_addr@,
    {
        DefaultVaultRobot { vault_addr, base_token, vault_token }
    }

    /// Binds a robot to a vault just instantiated at `vault_addr`, deriving
    /// the vault-token denom from that address.
    pub fn from_instantiated(base_token: String, vault_addr: String) -> (r: DefaultVaultRobot)
        ensures
            r.base_token@ == base_token@,
            r.vault_addr@ == vault_addr@,
            r.vault_token@ == spec_vault_token_denom(vault_addr@),
    {
        let vault_token = vault_token_denom(vault_addr.as_str());
        DefaultVaultRobot { vault_addr, base_token, vault_token }
    }
}

impl VaultRobot for DefaultVaultRobot {
    open spec fn spec_base_token(&self) -> Seq<char> {
        self.base_token@
    }

    open spec fn spec_vault_token(&self) -> Seq<char> {
        self.vault_token@
    }

    open spec fn spec_vault_addr(&self) -> Seq<char> {
        self.vault_addr@
    }

    fn base_token(&self) -> (r: &str) {
        self.base_token.as_str()
    }

    fn vault_token(&self) -> (r: &str) {
        self.vault_token.as_str()
    }

    fn vault_addr(&self) -> (r: &str) {
        self.vault_addr.as_str()
    }
}

} // verus!
