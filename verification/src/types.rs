//! The plain data model of the chain: addresses, balances, accounts,
//! modules, contracts, payloads, and the result and error types of the
//! public operations.
//!
//! Amounts are micro-currency units and energy is the public coarse energy
//! unit; both are plain `u64` values throughout.

use vstd::prelude::*;
use std::sync::Arc;
use concordium_smart_contract_engine::v1::trie;
use crate::engine::{ContractArtifact, HostFailure};

verus! {

// ---------------------------------------------------------------------------
// Addresses and aliasing.
// ---------------------------------------------------------------------------

/// A 32-byte account address.  Addresses agreeing on their first 29 bytes
/// denote the same account.
#[derive(Clone, Copy, Debug, PartialEq, Eq)]
pub struct AccountAddress(pub [u8; 32]);

/// The canonical part of an address: its first 29 bytes.
pub open spec fn alias_prefix(a: AccountAddress) -> Seq<u8> {
    a.0@.subrange(0, 29)
}

/// Two addresses denote the same account when their first 29 bytes agree.
pub open spec fn same_account(a: AccountAddress, b: AccountAddress) -> bool {
    alias_prefix(a) == alias_prefix(b)
}

/// Strict lexicographic order on the canonical 29-byte prefixes.
pub open spec fn prefix_lt(a: AccountAddress, b: AccountAddress) -> bool {
    exists|i: int|
        0 <= i < 29 && a.0@[i] < b.0@[i] && a.0@.subrange(0, i) == b.0@.subrange(0, i)
}

/// Decide whether two addresses denote the same account.
pub fn addresses_alias(a: &AccountAddress, b: &AccountAddress) -> (r: bool)
    ensures
        r == same_account(*a, *b),
{
    let mut i: usize = 0;
    while i < 29
        invariant
            i <= 29,
            forall|j: int| 0 <= j < i ==> a.0@[j] == b.0@[j],
        decreases 29 - i,
    {
        if a.0[i] != b.0[i] {
            proof {
                assert(alias_prefix(*a)[i as int] != alias_prefix(*b)[i as int]);
            }
            return false;
        }
        i = i + 1;
    }
    proof {
        assert(alias_prefix(*a) =~= alias_prefix(*b));
    }
    true
}

/// An account address compared and ordered by its canonical prefix alone.
/// It is the key type of the account ledger; exact 32-byte comparisons
/// elsewhere stay unambiguous.
#[derive(Clone, Copy, Debug)]
pub struct AccountAddressEq(pub AccountAddress);

impl PartialEq for AccountAddressEq {
    fn eq(&self, other: &Self) -> (r: bool) {
        addresses_alias(&self.0, &other.0)
    }
}

impl vstd::std_specs::cmp::PartialEqSpecImpl for AccountAddressEq {
    open spec fn obeys_eq_spec() -> bool {
        true
    }

    open spec fn eq_spec(&self, other: &Self) -> bool {
        same_account(self.0, other.0)
    }
}

impl Eq for AccountAddressEq {

}

impl AccountAddressEq {
    /// Order two keys by their canonical prefixes: equal exactly when they
    /// denote the same account, and below exactly when the prefix is
    /// lexicographically smaller.
    pub fn cmp(&self, other: &Self) -> (r: core::cmp::Ordering)
        ensures
            (r == core::cmp::Ordering::Equal) == same_account(self.0, other.0),
            (r == core::cmp::Ordering::Less) == prefix_lt(self.0, other.0),
            (r == core::cmp::Ordering::Greater) == prefix_lt(other.0, self.0),
    {
        let a = &self.0;
        let b = &other.0;
        let mut i: usize = 0;
        while i < 29
            invariant
                i <= 29,
                *a == self.0,
                *b == other.0,
                forall|j: int| 0 <= j < i ==> a.0@[j] == b.0@[j],
            decreases 29 - i,
        {
            if a.0[i] < b.0[i] {
                proof {
                    lemma_first_difference(*a, *b, i as int);
                }
                return core::cmp::Ordering::Less;
            }
            if b.0[i] < a.0[i] {
                proof {
                    lemma_first_difference(*b, *a, i as int);
                }
                return core::cmp::Ordering::Greater;
            }
            i = i + 1;
        }
        proof {
            assert(alias_prefix(*a) =~= alias_prefix(*b));
            lemma_same_account_not_below(*a, *b);
        }
        core::cmp::Ordering::Equal
    }
}

/// If two addresses agree strictly before position `i` and differ there
/// with `a` below `b`, then `a` orders below `b` and the two differ, and
/// `b` does not order below `a`.
proof fn lemma_first_difference(a: AccountAddress, b: AccountAddress, i: int)
    requires
        0 <= i < 29,
        forall|j: int| 0 <= j < i ==> a.0@[j] == b.0@[j],
        a.0@[i] < b.0@[i],
    ensures
        prefix_lt(a, b),
        !prefix_lt(b, a),
        !same_account(a, b),
{
    assert(a.0@.subrange(0, i) =~= b.0@.subrange(0, i));
    assert(prefix_lt(a, b));
    assert(!same_account(a, b)) by {
        if same_account(a, b) {
            assert(alias_prefix(a)[i] == alias_prefix(b)[i]);
        }
    }
    assert(!prefix_lt(b, a)) by {
        if prefix_lt(b, a) {
            let k = choose|k: int|
                0 <= k < 29 && b.0@[k] < a.0@[k] && b.0@.subrange(0, k) == a.0@.subrange(0, k);
            if k < i {
                assert(a.0@[k] == b.0@[k]);
            } else {
                assert(b.0@.subrange(0, k)[i] == a.0@.subrange(0, k)[i] || k <= i);
                if k == i {
                    assert(a.0@[i] < b.0@[i] && b.0@[i] < a.0@[i]);
                } else {
                    assert(b.0@[i] == b.0@.subrange(0, k)[i]);
                    assert(a.0@[i] == a.0@.subrange(0, k)[i]);
                    assert(a.0@[i] == b.0@[i]);
                }
            }
        }
    }
}

/// Addresses of the same account do not order strictly in either direction.
proof fn lemma_same_account_not_below(a: AccountAddress, b: AccountAddress)
    requires
        same_account(a, b),
    ensures
        !prefix_lt(a, b),
        !prefix_lt(b, a),
{
    if prefix_lt(a, b) {
        let k = choose|k: int|
            0 <= k < 29 && a.0@[k] < b.0@[k] && a.0@.subrange(0, k) == b.0@.subrange(0, k);
        assert(alias_prefix(a)[k] == alias_prefix(b)[k]);
        assert(a.0@[k] == b.0@[k]);
    }
    if prefix_lt(b, a) {
        let k = choose|k: int|
            0 <= k < 29 && b.0@[k] < a.0@[k] && b.0@.subrange(0, k) == a.0@.subrange(0, k);
        assert(alias_prefix(a)[k] == alias_prefix(b)[k]);
        assert(a.0@[k] == b.0@[k]);
    }
}

/// Account aliasing: addresses that differ only in their last three bytes
/// compare equal as ledger keys and order equally; addresses that differ in
/// one of the first 29 bytes are distinct accounts.
pub proof fn lemma_alias_equivalence(a: AccountAddress, b: AccountAddress)
    ensures
        (forall|i: int| 0 <= i < 29 ==> a.0@[i] == b.0@[i]) ==> same_account(a, b)
            && !prefix_lt(a, b) && !prefix_lt(b, a),
        (exists|i: int| 0 <= i < 29 && a.0@[i] != b.0@[i]) ==> !same_account(a, b),
{
    if forall|i: int| 0 <= i < 29 ==> a.0@[i] == b.0@[i] {
        assert(alias_prefix(a) =~= alias_prefix(b));
        lemma_same_account_not_below(a, b);
    }
    if exists|i: int| 0 <= i < 29 && a.0@[i] != b.0@[i] {
        let i = choose|i: int| 0 <= i < 29 && a.0@[i] != b.0@[i];
        if same_account(a, b) {
            assert(alias_prefix(a)[i] == alias_prefix(b)[i]);
        }
    }
}

/// The address of a contract instance: a monotonically assigned index and a
/// subindex, always zero in this simulator.
#[derive(Clone, Copy, Debug, PartialEq, Eq, Structural)]
pub struct ContractAddress {
    pub index: u64,
    pub subindex: u64,
}

impl ContractAddress {
    /// Construct a contract address from its two components.
    pub fn new(index: u64, subindex: u64) -> (r: ContractAddress)
        ensures
            r.index == index,
            r.subindex == subindex,
    {
        ContractAddress { index, subindex }
    }
}

/// Either an account or a contract instance.
#[derive(Clone, Copy, Debug)]
pub enum Address {
    Account(AccountAddress),
    Contract(ContractAddress),
}

/// A content-derived identifier of a deployed module: the SHA-256 digest of
/// its versioned serialization.
#[derive(Clone, Copy, Debug, PartialEq, Eq)]
pub struct ModuleReference(pub [u8; 32]);

/// Decide whether two module references are the same, byte for byte.
pub fn module_refs_equal(a: &ModuleReference, b: &ModuleReference) -> (r: bool)
    ensures
        r == (a.0@ == b.0@),
{
    let mut i: usize = 0;
    while i < 32
        invariant
            i <= 32,
            forall|j: int| 0 <= j < i ==> a.0@[j] == b.0@[j],
        decreases 32 - i,
    {
        if a.0[i] != b.0[i] {
            return false;
        }
        i = i + 1;
    }
    proof {
        assert(a.0@ =~= b.0@);
    }
    true
}

// ---------------------------------------------------------------------------
// Modules.
// ---------------------------------------------------------------------------

/// The version tag of a Wasm module; only version 1 can be deployed.
#[derive(Clone, Copy, Debug, PartialEq, Eq, Structural)]
pub enum WasmVersion {
    V0,
    V1,
}

/// An unvalidated Wasm module: a version tag and the raw module bytes.
#[derive(Clone, Debug)]
pub struct WasmModule {
    pub version: WasmVersion,
    pub source: Vec<u8>,
}

/// A validated, deployed module: its compiled artifact, its source byte
/// size for lookup billing, and its content-derived reference.
pub struct ContractModule {
    /// Size in bytes of the module source, used for cost accounting.
    pub size: u64,
    /// The runnable, metered artifact.
    pub artifact: Arc<ContractArtifact>,
    /// The content-derived reference under which the module is registered.
    pub reference: ModuleReference,
}

// ---------------------------------------------------------------------------
// Balances and accounts.
// ---------------------------------------------------------------------------

/// An account's balance record.  The available part is what is neither
/// staked nor locked: `total - staked - locked`.
#[derive(Clone, Copy, Debug, PartialEq, Eq, Structural)]
pub struct AccountBalance {
    pub total: u64,
    pub staked: u64,
    pub locked: u64,
}

impl AccountBalance {
    /// A balance is well formed when the staked and locked parts do not
    /// together exceed the total.
    pub open spec fn wf(self) -> bool {
        self.staked + self.locked <= self.total
    }

    /// The available part of the balance.
    pub open spec fn spec_available(self) -> int {
        self.total - self.staked - self.locked
    }

    /// Construct a balance record, rejecting records whose staked and
    /// locked parts exceed the total.
    pub fn new(total: u64, staked: u64, locked: u64) -> (r: Option<AccountBalance>)
        ensures
            match r {
                Some(b) => staked + locked <= total && b == (AccountBalance { total, staked, locked }),
                None => staked + locked > total,
            },
    {
        if staked <= total && locked <= total - staked {
            Some(AccountBalance { total, staked, locked })
        } else {
            None
        }
    }

    /// The amount available for transfers and fees.
    pub fn available(&self) -> (r: u64)
        requires
            self.wf(),
        ensures
            r == self.spec_available(),
    {
        self.total - self.staked - self.locked
    }
}

/// Serialized account policies, handed verbatim to executing contracts.
#[derive(Clone, Debug)]
pub struct TestPolicies(pub Vec<u8>);

/// The serialized form of the default policy: identity provider zero,
/// created at the epoch, valid until the epoch plus `u64::MAX`
/// milliseconds, and no items, in little-endian layout.
pub open spec fn empty_policy_bytes() -> Seq<u8> {
    Seq::new(22, |i: int| if 12 <= i < 20 { 255u8 } else { 0u8 })
}

impl TestPolicies {
    /// The default policy blob.
    pub fn empty() -> (r: TestPolicies)
        ensures
            r.0@ == empty_policy_bytes(),
    {
        let mut bytes: Vec<u8> = Vec::new();
        let mut i: usize = 0;
        while i < 22
            invariant
                i <= 22,
                bytes@.len() == i,
                forall|j: int| 0 <= j < i ==> bytes@[j] == empty_policy_bytes()[j],
            decreases 22 - i,
        {
            if 12 <= i && i < 20 {
                bytes.push(255u8);
            } else {
                bytes.push(0u8);
            }
            i = i + 1;
        }
        proof {
            assert(bytes@ =~= empty_policy_bytes());
        }
        TestPolicies(bytes)
    }
}

/// An account: its address, its balance record, and its serialized policy.
#[derive(Clone, Debug)]
pub struct Account {
    pub address: AccountAddress,
    pub balance: AccountBalance,
    pub policy: TestPolicies,
}

impl Account {
    /// An account is well formed when its balance record is.
    pub open spec fn wf(self) -> bool {
        self.balance.wf()
    }

    /// Create an account with the provided policy.
    pub fn new_with_policy(address: AccountAddress, balance: AccountBalance, policy: TestPolicies) -> (r:
        Account)
        ensures
            r.address == address,
            r.balance == balance,
            r.policy == policy,
    {
        Account { address, balance, policy }
    }

    /// Create an account with the provided balance and the default policy.
    pub fn new_with_balance(address: AccountAddress, balance: AccountBalance) -> (r: Account)
        ensures
            r.address == address,
            r.balance == balance,
            r.policy.0@ == empty_policy_bytes(),
    {
        Account::new_with_policy(address, balance, TestPolicies::empty())
    }

    /// Create an account holding `total_balance`, nothing staked or locked,
    /// with the default policy.
    pub fn new(address: AccountAddress, total_balance: u64) -> (r: Account)
        ensures
            r.address == address,
            r.balance == (AccountBalance { total: total_balance, staked: 0u64, locked: 0u64 }),
            r.policy.0@ == empty_policy_bytes(),
            r.wf(),
    {
        Account::new_with_balance(
            address,
            AccountBalance { total: total_balance, staked: 0, locked: 0 },
        )
    }
}

// ---------------------------------------------------------------------------
// Contracts.
// ---------------------------------------------------------------------------

/// A deployed contract instance.
pub struct Contract {
    /// The address under which the instance is stored.
    pub address: ContractAddress,
    /// The module holding the instance's code.
    pub module_reference: ModuleReference,
    /// The full init name of the contract, `init_<name>` as bytes.
    pub contract_name: Vec<u8>,
    /// The persistent state checkpoint of the instance.
    pub state: trie::PersistentState,
    /// The account that created the instance.
    pub owner: AccountAddress,
    /// The current balance of the instance.
    pub self_balance: u64,
}

// ---------------------------------------------------------------------------
// Signers and payloads.
// ---------------------------------------------------------------------------

/// A transaction signer: the number of keys that sign affects every
/// transaction's cost.
#[derive(Clone, Copy, Debug, PartialEq, Eq, Structural)]
pub struct Signer {
    pub num_keys: u32,
}

/// Rejection of a signer with zero keys.
#[derive(Clone, Copy, Debug, PartialEq, Eq, Structural)]
pub struct ZeroKeysError;

impl Signer {
    /// A signer with exactly one key.
    pub fn with_one_key() -> (r: Signer)
        ensures
            r.num_keys == 1,
    {
        Signer { num_keys: 1 }
    }

    /// A signer with a positive number of keys; zero keys are rejected.
    pub fn with_keys(num_keys: u32) -> (r: Result<Signer, ZeroKeysError>)
        ensures
            match r {
                Ok(s) => num_keys >= 1 && s.num_keys == num_keys,
                Err(_) => num_keys == 0,
            },
    {
        if num_keys == 0 {
            Err(ZeroKeysError)
        } else {
            Ok(Signer { num_keys })
        }
    }
}

/// The payload of a contract initialization.
#[derive(Clone, Debug)]
pub struct InitContractPayload {
    /// The initial balance of the new instance, taken from the sender.
    pub amount: u64,
    /// The deployed module to instantiate.
    pub mod_ref: ModuleReference,
    /// The init name of the contract, `init_<name>` as bytes.
    pub init_name: Vec<u8>,
    /// The parameter passed to the init entrypoint.
    pub param: Vec<u8>,
}

/// The payload of a contract update or invocation.
#[derive(Clone, Debug)]
pub struct UpdateContractPayload {
    /// The amount sent along with the call, taken from the sender.
    pub amount: u64,
    /// The instance to call.
    pub address: ContractAddress,
    /// The full receive name called, `<name>.<entrypoint>` as bytes.
    pub receive_name: Vec<u8>,
    /// The parameter passed to the entrypoint.
    pub message: Vec<u8>,
}

// ---------------------------------------------------------------------------
// Events.
// ---------------------------------------------------------------------------

/// An event that occurred during a contract update or invocation.
#[derive(Clone, Debug, PartialEq, Eq)]
pub enum ChainEvent {
    /// A contract was interrupted to perform a host operation.
    Interrupted { address: ContractAddress, logs: Vec<Vec<u8>> },
    /// A contract resumed after an interrupt; `success` reports whether the
    /// interrupting operation succeeded.
    Resumed { address: ContractAddress, success: bool },
    /// A contract swapped its module.
    Upgraded { address: ContractAddress, from: ModuleReference, to: ModuleReference },
    /// A contract entrypoint was run.
    Updated { address: ContractAddress, contract: Vec<u8>, entrypoint: Vec<u8>, amount: u64 },
    /// A contract transferred an amount to an account.
    Transferred { from: ContractAddress, amount: u64, to: AccountAddress },
}

/// A transfer from a contract to an account.
#[derive(Clone, Copy, Debug, PartialEq, Eq)]
pub struct Transfer {
    pub from: ContractAddress,
    pub amount: u64,
    pub to: AccountAddress,
}

// ---------------------------------------------------------------------------
// Results and errors of the public operations.
// ---------------------------------------------------------------------------

/// A successful module deployment.
#[derive(Clone, Copy, Debug, PartialEq, Eq)]
pub struct SuccessfulModuleDeployment {
    pub module_reference: ModuleReference,
    pub energy_used: u64,
    pub transaction_fee: u64,
}

/// The message of the external validator for a module it refused.
#[derive(Clone, Debug)]
pub struct InvalidModuleError(pub Vec<u8>);

/// A failed module deployment, with the energy and fee charged up to the
/// failure.
#[derive(Clone, Debug)]
pub struct ModuleDeployError {
    pub energy_used: u64,
    pub transaction_fee: u64,
    pub kind: ModuleDeployErrorKind,
}

/// The reason a module deployment failed.
#[derive(Clone, Debug)]
pub enum ModuleDeployErrorKind {
    /// The validator refused the module.
    InvalidModule(InvalidModuleError),
    /// The sender cannot pay for the deployment.
    InsufficientFunds,
    /// The sender account does not exist.
    SenderDoesNotExist(AccountMissing),
    /// A module with the same reference is already deployed.
    DuplicateModule(ModuleReference),
    /// The module version is not deployable.
    UnsupportedModuleVersion(WasmVersion),
}

/// The reason a module could not be loaded from serialized form.
#[derive(Clone, Debug)]
pub enum ModuleLoadError {
    /// The version tag is not the deployable version 1.
    UnsupportedModuleVersion(WasmVersion),
    /// The bytes are not a well-formed versioned module, or exceed the
    /// maximum module size.
    InvalidModule(InvalidModuleError),
}

/// A successful contract initialization.
#[derive(Clone, Debug)]
pub struct ContractInitSuccess {
    /// The address assigned to the new instance.
    pub contract_address: ContractAddress,
    /// The events logged by the init entrypoint.
    pub events: Vec<Vec<u8>>,
    pub energy_used: u64,
    pub transaction_fee: u64,
}

/// A failed contract initialization, with the energy and fee charged.
#[derive(Clone, Debug)]
pub struct ContractInitError {
    pub energy_used: u64,
    pub transaction_fee: u64,
    pub kind: ContractInitErrorKind,
}

/// The reason a contract initialization failed.
#[derive(Clone, Debug)]
pub enum ContractInitErrorKind {
    /// The init entrypoint ran and failed.
    ExecutionError { failure_kind: InitFailure },
    /// The energy reserved for the transaction ran out.
    OutOfEnergy,
    /// The module to instantiate is not deployed.
    ModuleDoesNotExist(ModuleMissing),
    /// The sender account does not exist.
    SenderDoesNotExist(AccountMissing),
    /// The sender cannot pay the reserved energy and the amount.
    InsufficientFunds,
    /// The parameter exceeds the maximum size.
    ParameterTooLarge,
}

/// How the init entrypoint itself failed.
#[derive(Clone, Debug)]
pub enum InitFailure {
    /// The contract rejected with a (negative) code and a return value.
    Reject { reason: i32, return_value: Vec<u8> },
    /// The contract failed with a runtime error.
    Trap,
    /// The contract exhausted the energy reserved for it.
    OutOfEnergy,
}

/// A successful contract update or invocation.
#[derive(Clone, Debug)]
pub struct ContractInvocationSuccess {
    /// Interrupts, resumptions, upgrades, updates and transfers that
    /// occurred, in order.
    pub chain_events: Vec<ChainEvent>,
    pub energy_used: u64,
    pub transaction_fee: u64,
    /// The value returned by the entrypoint.
    pub return_value: Vec<u8>,
    /// Whether any contract state was changed.
    pub state_changed: bool,
    /// The called instance's balance after the call.
    pub new_balance: u64,
    /// The events logged since the last interrupt.
    pub logs: Vec<Vec<u8>>,
}

/// The contract address an event relates to: the `from` contract for a
/// transfer, the `address` field otherwise.
pub open spec fn spec_event_address(event: ChainEvent) -> ContractAddress {
    match event {
        ChainEvent::Interrupted { address, .. } => address,
        ChainEvent::Resumed { address, .. } => address,
        ChainEvent::Upgraded { address, .. } => address,
        ChainEvent::Updated { address, .. } => address,
        ChainEvent::Transferred { from, .. } => from,
    }
}

/// The transfers among a sequence of events, in order.
pub open spec fn spec_transfers(events: Seq<ChainEvent>) -> Seq<Transfer>
    decreases events.len(),
{
    if events.len() == 0 {
        Seq::empty()
    } else {
        spec_transfers(events.drop_last()) + (match events.last() {
            ChainEvent::Transferred { from, amount, to } => seq![Transfer { from, amount, to }],
            _ => Seq::empty(),
        })
    }
}

/// Whether some group carries the address as its key.
pub open spec fn spec_group_key_present(
    groups: Seq<(ContractAddress, Vec<ChainEvent>)>,
    address: ContractAddress,
) -> bool {
    exists|k: int| 0 <= k < groups.len() && (#[trigger] groups[k]).0 == address
}

/// Every event's contract appears among the group keys.
pub open spec fn spec_groups_cover(
    events: Seq<ChainEvent>,
    groups: Seq<(ContractAddress, Vec<ChainEvent>)>,
) -> bool {
    forall|i: int|
        0 <= i < events.len() ==> spec_group_key_present(
            groups,
            spec_event_address(#[trigger] events[i]),
        )
}

/// The number of events relating to one contract.
pub open spec fn spec_event_count(events: Seq<ChainEvent>, address: ContractAddress) -> int
    decreases events.len(),
{
    if events.len() == 0 {
        0
    } else {
        spec_event_count(events.drop_last(), address) + (if spec_event_address(events.last())
            == address {
            1int
        } else {
            0int
        })
    }
}

impl ContractInvocationSuccess {
    /// All transfers from contracts to accounts among the events, in
    /// order.
    pub fn transfers(&self) -> (r: Vec<Transfer>)
        ensures
            r@ == spec_transfers(self.chain_events@),
    {
        let mut out: Vec<Transfer> = Vec::new();
        let n = self.chain_events.len();
        let mut i: usize = 0;
        while i < n
            invariant
                n == self.chain_events@.len(),
                i <= n,
                out@ == spec_transfers(self.chain_events@.subrange(0, i as int)),
            decreases n - i,
        {
            match &self.chain_events[i] {
                ChainEvent::Transferred { from, amount, to } => {
                    out.push(Transfer { from: *from, amount: *amount, to: *to });
                }
                _ => {}
            }
            proof {
                let s = self.chain_events@;
                assert(s.subrange(0, i + 1).drop_last() =~= s.subrange(0, i as int));
                assert(s.subrange(0, i + 1).last() == s[i as int]);
            }
            i = i + 1;
        }
        proof {
            assert(self.chain_events@.subrange(0, n as int) =~= self.chain_events@);
        }
        out
    }

    /// The events grouped by the contract they relate to.  Each contract
    /// with at least one event appears exactly once, in order of first
    /// occurrence; its group holds as many events as relate to it, each
    /// relating to it, in their original order.
    #[verifier::loop_isolation(false)]
    pub fn trace_elements_per_contract(&self) -> (r: Vec<(ContractAddress, Vec<ChainEvent>)>)
        ensures
            forall|k: int, l: int| 0 <= k < l < r@.len() ==> (#[trigger] r@[k].0) != (
            #[trigger] r@[l].0),
            forall|k: int|
                0 <= k < r@.len() ==> (#[trigger] r@[k].1)@.len() == spec_event_count(
                    self.chain_events@,
                    r@[k].0,
                ),
            forall|k: int, j: int|
                0 <= k < r@.len() && 0 <= j < r@[k].1@.len() ==> spec_event_address(
                    #[trigger] r@[k].1@[j],
                ) == r@[k].0,
            spec_groups_cover(self.chain_events@, r@),
    {
        let mut keys: Vec<ContractAddress> = Vec::new();
        let ghost mut key_of: Seq<int> = Seq::empty();
        let n = self.chain_events.len();
        let mut i: usize = 0;
        while i < n
            invariant
                n == self.chain_events@.len(),
                i <= n,
                forall|k: int, l: int| 0 <= k < l < keys@.len() ==> (#[trigger] keys@[k]) != (
                #[trigger] keys@[l]),
                key_of.len() == i,
                forall|j: int|
                    0 <= j < i ==> 0 <= #[trigger] key_of[j] < keys@.len()
                        && keys@[key_of[j]] == spec_event_address(self.chain_events@[j]),
            decreases n - i,
        {
            let address = event_address(&self.chain_events[i]);
            let mut present = false;
            let mut found: usize = 0;
            let m = keys.len();
            let mut k: usize = 0;
            while k < m
                invariant
                    m == keys@.len(),
                    k <= m,
                    present ==> found < keys@.len() && keys@[found as int] == address,
                    !present ==> forall|l: int| 0 <= l < k ==> (#[trigger] keys@[l]) != address,
                decreases m - k,
            {
                if keys[k].index == address.index && keys[k].subindex == address.subindex {
                    present = true;
                    found = k;
                }
                k = k + 1;
            }
            if !present {
                keys.push(address);
            }
            proof {
                if present {
                    key_of = key_of.push(found as int);
                } else {
                    key_of = key_of.push(keys@.len() - 1);
                }
            }
            i = i + 1;
        }
        let mut out: Vec<(ContractAddress, Vec<ChainEvent>)> = Vec::new();
        let nk = keys.len();
        let mut k: usize = 0;
        while k < nk
            invariant
                nk == keys@.len(),
                k <= nk,
                out@.len() == k,
                forall|p: int, q: int| 0 <= p < q < keys@.len() ==> (#[trigger] keys@[p]) != (
                #[trigger] keys@[q]),
                forall|p: int| 0 <= p < k ==> (#[trigger] out@[p].0) == keys@[p],
                forall|p: int|
                    0 <= p < k ==> (#[trigger] out@[p].1)@.len() == spec_event_count(
                        self.chain_events@,
                        keys@[p],
                    ),
                forall|p: int, j: int|
                    0 <= p < k && 0 <= j < out@[p].1@.len() ==> spec_event_address(
                        #[trigger] out@[p].1@[j],
                    ) == out@[p].0,
                key_of.len() == n,
                forall|j: int|
                    0 <= j < n ==> 0 <= #[trigger] key_of[j] < keys@.len()
                        && keys@[key_of[j]] == spec_event_address(self.chain_events@[j]),
            decreases nk - k,
        {
            let address = keys[k];
            let mut group: Vec<ChainEvent> = Vec::new();
            let mut i2: usize = 0;
            while i2 < n
                invariant
                    n == self.chain_events@.len(),
                    i2 <= n,
                    group@.len() == spec_event_count(
                        self.chain_events@.subrange(0, i2 as int),
                        address,
                    ),
                    forall|j: int|
                        0 <= j < group@.len() ==> spec_event_address(#[trigger] group@[j])
                            == address,
                decreases n - i2,
            {
                let here = event_address(&self.chain_events[i2]);
                if here.index == address.index && here.subindex == address.subindex {
                    group.push(event_clone(&self.chain_events[i2]));
                }
                proof {
                    let s = self.chain_events@;
                    assert(s.subrange(0, i2 + 1).drop_last() =~= s.subrange(0, i2 as int));
                    assert(s.subrange(0, i2 + 1).last() == s[i2 as int]);
                }
                i2 = i2 + 1;
            }
            proof {
                assert(self.chain_events@.subrange(0, n as int) =~= self.chain_events@);
            }
            out.push((address, group));
            k = k + 1;
        }
        proof {
            assert forall|i2: int| 0 <= i2 < self.chain_events@.len() implies
                spec_group_key_present(
                out@,
                spec_event_address(#[trigger] self.chain_events@[i2]),
            ) by {
                let w = key_of[i2];
                assert(0 <= w < out@.len() && (out@[w]).0 == spec_event_address(
                    self.chain_events@[i2],
                ));
            }
            assert(spec_groups_cover(self.chain_events@, out@));
        }
        out
    }
}

/// Copy a byte vector.
pub fn copy_bytes(src: &Vec<u8>) -> (r: Vec<u8>)
    ensures
        r@ == src@,
{
    let mut out: Vec<u8> = Vec::new();
    let n = src.len();
    let mut i: usize = 0;
    while i < n
        invariant
            n == src@.len(),
            i <= n,
            out@ == src@.subrange(0, i as int),
        decreases n - i,
    {
        out.push(src[i]);
        proof {
            assert(out@ =~= src@.subrange(0, i + 1));
        }
        i = i + 1;
    }
    proof {
        assert(out@ =~= src@);
    }
    out
}

/// Copy a list of byte vectors; every element keeps its bytes.
pub fn copy_byte_lists(src: &Vec<Vec<u8>>) -> (r: Vec<Vec<u8>>)
    ensures
        r@.len() == src@.len(),
        forall|i: int| 0 <= i < src@.len() ==> (#[trigger] r@[i])@ == src@[i]@,
{
    let mut out: Vec<Vec<u8>> = Vec::new();
    let n = src.len();
    let mut i: usize = 0;
    while i < n
        invariant
            n == src@.len(),
            i <= n,
            out@.len() == i,
            forall|j: int| 0 <= j < i ==> (#[trigger] out@[j])@ == src@[j]@,
        decreases n - i,
    {
        out.push(copy_bytes(&src[i]));
        i = i + 1;
    }
    out
}

/// Two events are equivalent when they are the same variant with equal
/// fields, byte vectors compared by content.
pub open spec fn spec_event_equivalent(a: ChainEvent, b: ChainEvent) -> bool {
    match (a, b) {
        (
            ChainEvent::Interrupted { address: a1, logs: l1 },
            ChainEvent::Interrupted { address: a2, logs: l2 },
        ) => a1 == a2 && l1@.len() == l2@.len() && (forall|i: int|
            0 <= i < l1@.len() ==> (#[trigger] l1@[i])@ == l2@[i]@),
        (
            ChainEvent::Resumed { address: a1, success: s1 },
            ChainEvent::Resumed { address: a2, success: s2 },
        ) => a1 == a2 && s1 == s2,
        (
            ChainEvent::Upgraded { address: a1, from: f1, to: t1 },
            ChainEvent::Upgraded { address: a2, from: f2, to: t2 },
        ) => a1 == a2 && f1 == f2 && t1 == t2,
        (
            ChainEvent::Updated { address: a1, contract: c1, entrypoint: e1, amount: m1 },
            ChainEvent::Updated { address: a2, contract: c2, entrypoint: e2, amount: m2 },
        ) => a1 == a2 && c1@ == c2@ && e1@ == e2@ && m1 == m2,
        (
            ChainEvent::Transferred { from: f1, amount: m1, to: t1 },
            ChainEvent::Transferred { from: f2, amount: m2, to: t2 },
        ) => f1 == f2 && m1 == m2 && t1 == t2,
        _ => false,
    }
}

/// A copy of an event: the same variant with the same content, relating to
/// the same contract address.
pub fn event_clone(event: &ChainEvent) -> (r: ChainEvent)
    ensures
        spec_event_equivalent(r, *event),
        spec_event_address(r) == spec_event_address(*event),
{
    match event {
        ChainEvent::Interrupted { address, logs } => ChainEvent::Interrupted {
            address: *address,
            logs: copy_byte_lists(logs),
        },
        ChainEvent::Resumed { address, success } => ChainEvent::Resumed {
            address: *address,
            success: *success,
        },
        ChainEvent::Upgraded { address, from, to } => ChainEvent::Upgraded {
            address: *address,
            from: *from,
            to: *to,
        },
        ChainEvent::Updated { address, contract, entrypoint, amount } => ChainEvent::Updated {
            address: *address,
            contract: copy_bytes(contract),
            entrypoint: copy_bytes(entrypoint),
            amount: *amount,
        },
        ChainEvent::Transferred { from, amount, to } => ChainEvent::Transferred {
            from: *from,
            amount: *amount,
            to: *to,
        },
    }
}

/// The contract address an event relates to.
pub fn event_address(event: &ChainEvent) -> (r: ContractAddress)
    ensures
        r == spec_event_address(*event),
{
    match event {
        ChainEvent::Interrupted { address, .. } => *address,
        ChainEvent::Resumed { address, .. } => *address,
        ChainEvent::Upgraded { address, .. } => *address,
        ChainEvent::Updated { address, .. } => *address,
        ChainEvent::Transferred { from, .. } => *from,
    }
}

/// A failed contract update or invocation, with the energy and fee charged.
#[derive(Clone, Debug)]
pub struct ContractInvocationError {
    pub energy_used: u64,
    pub transaction_fee: u64,
    pub kind: ContractInvocationErrorKind,
}

/// The reason a contract update or invocation failed.
#[derive(Clone, Debug)]
pub enum ContractInvocationErrorKind {
    /// The entrypoint ran and failed.
    ExecutionError { failure_kind: HostFailure },
    /// The energy reserved for the transaction ran out.
    OutOfEnergy,
    /// The module of the instance is not deployed.
    ModuleDoesNotExist(ModuleMissing),
    /// The called instance does not exist.
    InstanceDoesNotExist(ContractInstanceMissing),
    /// Neither the entrypoint nor a fallback exists on the instance.
    EntrypointDoesNotExist(EntrypointDoesNotExist),
    /// The invoker account does not exist.
    InvokerDoesNotExist(AccountMissing),
    /// The sender address does not exist.
    SenderDoesNotExist(Address),
    /// The invoker cannot pay the reserved energy and the amount.
    InsufficientFunds,
    /// The parameter exceeds the maximum size.
    ParameterTooLarge,
    /// A balance addition exceeded the representable range.
    BalanceOverflow,
}

/// The named entrypoint does not exist.
#[derive(Clone, Debug)]
pub struct EntrypointDoesNotExist(pub Vec<u8>);

/// The referenced module is not deployed.
#[derive(Clone, Copy, Debug)]
pub struct ModuleMissing(pub ModuleReference);

/// The addressed contract instance does not exist.
#[derive(Clone, Copy, Debug)]
pub struct ContractInstanceMissing(pub ContractAddress);

/// The addressed account does not exist.
#[derive(Clone, Copy, Debug)]
pub struct AccountMissing(pub AccountAddress);

} // verus!
