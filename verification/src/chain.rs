//! The chain aggregate: parameters, the three stores, and the public
//! operations for accounts and modules.  Contract initialization and the
//! invocation engine build on this in their own modules.

use vstd::prelude::*;
use vstd::arithmetic::div_mod::{
    lemma_div_is_ordered, lemma_div_multiples_vanish, lemma_fundamental_div_mod,
};
use crate::energy::{
    ExchangeRate, ExchangeRateError, check_exchange_rates, energy_to_amount,
    spec_energy_cost, spec_rates_within_bounds, lemma_energy_cost_monotone,
    lemma_energy_cost_subadditive, lemma_energy_cost_zero,
};
use crate::engine::{
    InitOutcome, make_init_context, run_init, sha256, sha256_of, state_freeze, state_lookup,
    validate_wasm_module,
};
use crate::energy::{from_interpreter_energy, saturating_sub, tick_energy, to_interpreter_energy};
use crate::ledger::{
    accounts_wf, accounts_with_charge, account_index, account_of, charge_account, contracts_wf,
    contract_index, contracts_unique, find_account, find_contract, find_module, has_account,
    has_contract, has_module, lemma_account_index_unique, lemma_charge_changes_total,
    lemma_contracts_total_extend, modules_wf, module_index, spec_accounts_total,
    spec_contracts_total,
};
use crate::types::{
    Account, AccountAddress, AccountBalance, AccountMissing, Contract, ContractAddress,
    ContractInitError, ContractInitErrorKind, ContractInitSuccess, ContractModule,
    InitContractPayload, InitFailure, InvalidModuleError, ModuleDeployError,
    ModuleDeployErrorKind, ModuleLoadError, ModuleMissing, ModuleReference, Signer,
    SuccessfulModuleDeployment, WasmModule, WasmVersion, same_account,
};

verus! {

// ---------------------------------------------------------------------------
// Sizes and cost formulas of the reference chain.
// ---------------------------------------------------------------------------

/// Maximum size in bytes of a deployable Wasm module.
pub const MAX_WASM_MODULE_SIZE: u64 = 524288;

/// Maximum size in bytes of an entrypoint parameter.
pub const MAX_PARAMETER_LEN: usize = 65535;

/// Serialized size of a transaction header.
pub const TRANSACTION_HEADER_SIZE: u64 = 60;

/// Energy charged per signing key when checking a transaction header.
pub const ENERGY_PER_SIGNATURE: u64 = 100;

/// The transaction-header check costs one energy per payload byte and a
/// fixed amount per signing key.
pub open spec fn spec_base_cost(transaction_size: int, num_keys: int) -> int {
    transaction_size + 100 * num_keys
}

/// Deploying a module costs one energy per ten bytes of module source.
pub open spec fn spec_deploy_module_energy(module_size: int) -> int {
    module_size / 10
}

/// The header-check energy of an init transaction: one energy per
/// serialized payload byte — amount, module reference, and the
/// length-prefixed name and parameter — plus the per-key cost.
pub open spec fn spec_init_header_energy(payload: InitContractPayload, num_keys: int) -> int {
    spec_base_cost(
        105 + payload.init_name@.len() as int + payload.param@.len() as int,
        num_keys,
    )
}

/// The whole energy charged by a successful deployment of a module of the
/// given byte size with the given number of signing keys.
pub open spec fn spec_deploy_total_energy(module_size: int, num_keys: int) -> int {
    spec_base_cost(69 + module_size, num_keys) + spec_deploy_module_energy(module_size)
}

// ---------------------------------------------------------------------------
// Big-endian serialization of the versioned module format.
// ---------------------------------------------------------------------------

/// The four big-endian bytes of a 32-bit value.
pub open spec fn spec_be32(n: int) -> Seq<u8> {
    seq![
        ((n / 0x1000000) % 256) as u8,
        ((n / 0x10000) % 256) as u8,
        ((n / 0x100) % 256) as u8,
        (n % 256) as u8,
    ]
}

/// The 32-bit value of four big-endian bytes.
pub open spec fn spec_be32_value(s: Seq<u8>) -> int {
    s[0] * 0x1000000 + s[1] * 0x10000 + s[2] * 0x100 + s[3]
}

/// Append the four big-endian bytes of `n`.
pub fn push_be32(bytes: &mut Vec<u8>, n: u32)
    ensures
        final(bytes)@ == old(bytes)@ + spec_be32(n as int),
{
    bytes.push((n / 0x1000000) as u8);
    bytes.push(((n / 0x10000) % 256) as u8);
    bytes.push(((n / 0x100) % 256) as u8);
    bytes.push((n % 256) as u8);
    proof {
        assert(n / 0x1000000 < 256) by (nonlinear_arith);
        assert(bytes@ =~= old(bytes)@ + spec_be32(n as int));
    }
}

/// Read the big-endian 32-bit value at `offset`.
pub fn read_be32(bytes: &Vec<u8>, offset: usize) -> (r: u32)
    requires
        offset + 4 <= bytes@.len(),
    ensures
        r == spec_be32_value(bytes@.subrange(offset as int, offset as int + 4)),
        r >= 0,
{
    let n = bytes.len();
    let b0 = bytes[offset] as u32;
    let b1 = bytes[offset + 1] as u32;
    let b2 = bytes[offset + 2] as u32;
    let b3 = bytes[offset + 3] as u32;
    b0 * 0x1000000 + b1 * 0x10000 + b2 * 0x100 + b3
}

/// The version tag of a module version in the versioned serialization.
pub open spec fn spec_version_tag(v: WasmVersion) -> int {
    match v {
        WasmVersion::V0 => 0,
        WasmVersion::V1 => 1,
    }
}

/// The versioned serialization of a module: a big-endian version tag, a
/// big-endian byte length, and the raw module bytes.
pub open spec fn spec_versioned_module_bytes(m: WasmModule) -> Seq<u8> {
    spec_be32(spec_version_tag(m.version)) + spec_be32(m.source@.len() as int) + m.source@
}

/// The content-derived reference of a module: the SHA-256 digest of its
/// versioned serialization.
pub open spec fn spec_module_reference(m: WasmModule) -> Seq<u8> {
    sha256_of(spec_versioned_module_bytes(m))
}

/// Compute the content-derived reference of a module.
pub fn compute_module_reference(module: &WasmModule) -> (r: ModuleReference)
    requires
        module.source@.len() <= MAX_WASM_MODULE_SIZE,
    ensures
        r.0@ == spec_module_reference(*module),
{
    let mut bytes: Vec<u8> = Vec::new();
    let tag: u32 = match module.version {
        WasmVersion::V0 => 0,
        WasmVersion::V1 => 1,
    };
    push_be32(&mut bytes, tag);
    push_be32(&mut bytes, module.source.len() as u32);
    let ghost prefix = bytes@;
    let n = module.source.len();
    let mut i: usize = 0;
    while i < n
        invariant
            n == module.source@.len(),
            i <= n,
            bytes@ == prefix + module.source@.subrange(0, i as int),
        decreases n - i,
    {
        bytes.push(module.source[i]);
        proof {
            assert(bytes@ =~= prefix + module.source@.subrange(0, i + 1));
        }
        i = i + 1;
    }
    proof {
        assert(module.source@.subrange(0, n as int) =~= module.source@);
        assert(bytes@ =~= spec_versioned_module_bytes(*module));
    }
    ModuleReference(sha256(&bytes))
}

// ---------------------------------------------------------------------------
// Chain parameters.
// ---------------------------------------------------------------------------

/// The configurable parameters of the chain: the block time injected into
/// contract execution, and the two exchange rates of the fee conversion.
#[derive(Clone, Copy, Debug)]
pub struct ChainParameters {
    /// Block time in milliseconds, visible to executing contracts.
    pub block_time: u64,
    /// Micro-currency per euro.
    pub micro_ccd_per_euro: ExchangeRate,
    /// Euro per unit of energy.
    pub euro_per_energy: ExchangeRate,
}

impl ChainParameters {
    /// The rates have been accepted by the exchange-rate check.
    pub open spec fn wf(self) -> bool {
        spec_rates_within_bounds(self.euro_per_energy, self.micro_ccd_per_euro)
    }

    /// The exact micro-currency cost of `energy` under these parameters.
    pub open spec fn spec_cost(self, energy: int) -> int {
        spec_energy_cost(energy, self.euro_per_energy, self.micro_ccd_per_euro)
    }

    /// Parameters with block time zero and rates under which one energy
    /// costs exactly one micro-currency unit.
    pub fn new() -> (r: ChainParameters)
        ensures
            r.block_time == 0,
            r.micro_ccd_per_euro == (ExchangeRate { numerator: 50000u64, denominator: 1u64 }),
            r.euro_per_energy == (ExchangeRate { numerator: 1u64, denominator: 50000u64 }),
            r.wf(),
    {
        match Self::new_with_time_and_rates(
            0,
            ExchangeRate::new_unchecked(50000, 1),
            ExchangeRate::new_unchecked(1, 50000),
        ) {
            Ok(parameters) => parameters,
            Err(_) => {
                proof {
                    assert(false);
                }
                ChainParameters {
                    block_time: 0,
                    micro_ccd_per_euro: ExchangeRate { numerator: 50000, denominator: 1 },
                    euro_per_energy: ExchangeRate { numerator: 1, denominator: 50000 },
                }
            }
        }
    }

    /// Parameters with the given block time and the default rates.
    pub fn new_with_time(block_time: u64) -> (r: ChainParameters)
        ensures
            r.block_time == block_time,
            r.micro_ccd_per_euro == (ExchangeRate { numerator: 50000u64, denominator: 1u64 }),
            r.euro_per_energy == (ExchangeRate { numerator: 1u64, denominator: 50000u64 }),
            r.wf(),
    {
        let mut parameters = Self::new();
        parameters.block_time = block_time;
        parameters
    }

    /// Parameters with everything provided.  Rejects rate pairs under which
    /// one energy costs more than `u64::MAX / MAX_ALLOWED_INVOKE_ENERGY`
    /// micro-currency; on rejection nothing is constructed.
    pub fn new_with_time_and_rates(
        block_time: u64,
        micro_ccd_per_euro: ExchangeRate,
        euro_per_energy: ExchangeRate,
    ) -> (r: Result<ChainParameters, ExchangeRateError>)
        requires
            micro_ccd_per_euro.wf(),
            euro_per_energy.wf(),
        ensures
            match r {
                Ok(p) => p == (ChainParameters { block_time, micro_ccd_per_euro, euro_per_energy })
                    && p.wf(),
                Err(_) => !spec_rates_within_bounds(euro_per_energy, micro_ccd_per_euro),
            },
    {
        check_exchange_rates(euro_per_energy, micro_ccd_per_euro)?;
        Ok(ChainParameters { block_time, micro_ccd_per_euro, euro_per_energy })
    }

    /// Convert energy to a micro-currency amount under these parameters.
    pub fn calculate_energy_cost(&self, energy: u64) -> (r: u64)
        requires
            self.wf(),
            self.spec_cost(energy as int) <= u64::MAX as int,
        ensures
            r == self.spec_cost(energy as int),
    {
        energy_to_amount(energy, self.euro_per_energy, self.micro_ccd_per_euro)
    }
}

// ---------------------------------------------------------------------------
// The chain.
// ---------------------------------------------------------------------------

/// The chain: parameters, the account ledger, the module registry, the
/// contract store, and the next contract index to assign.
pub struct Chain {
    pub parameters: ChainParameters,
    pub accounts: Vec<Account>,
    pub modules: Vec<ContractModule>,
    pub contracts: Vec<Contract>,
    pub next_contract_index: u64,
}

impl Default for Chain {
    /// The empty chain with the default parameters.
    fn default() -> (r: Chain)
        ensures
            r.wf(),
            r.accounts@.len() == 0,
            r.modules@.len() == 0,
            r.contracts@.len() == 0,
            r.next_contract_index == 0,
    {
        Chain::new()
    }
}

impl Chain {
    /// Well-formedness: accepted rates, well-formed accounts with one entry
    /// per account, unique module references, unique contract addresses
    /// below the next index.
    pub open spec fn wf(self) -> bool {
        &&& self.parameters.wf()
        &&& accounts_wf(self.accounts@)
        &&& modules_wf(self.modules@)
        &&& contracts_wf(self.contracts@, self.next_contract_index as int)
    }

    /// The exact micro-currency cost of `energy` under the current rates.
    pub open spec fn spec_cost(self, energy: int) -> int {
        self.parameters.spec_cost(energy)
    }

    /// An empty chain with block time zero and rates under which one energy
    /// costs one micro-currency unit.
    pub fn new() -> (r: Chain)
        ensures
            r.wf(),
            r.parameters == (ChainParameters {
                block_time: 0u64,
                micro_ccd_per_euro: ExchangeRate { numerator: 50000u64, denominator: 1u64 },
                euro_per_energy: ExchangeRate { numerator: 1u64, denominator: 50000u64 },
            }),
            r.accounts@.len() == 0,
            r.modules@.len() == 0,
            r.contracts@.len() == 0,
            r.next_contract_index == 0,
    {
        Chain {
            parameters: ChainParameters::new(),
            accounts: Vec::new(),
            modules: Vec::new(),
            contracts: Vec::new(),
            next_contract_index: 0,
        }
    }

    /// An empty chain with the given block time and the default rates.
    pub fn new_with_time(block_time: u64) -> (r: Chain)
        ensures
            r.wf(),
            r.parameters == (ChainParameters {
                block_time,
                micro_ccd_per_euro: ExchangeRate { numerator: 50000u64, denominator: 1u64 },
                euro_per_energy: ExchangeRate { numerator: 1u64, denominator: 50000u64 },
            }),
            r.accounts@.len() == 0,
            r.modules@.len() == 0,
            r.contracts@.len() == 0,
            r.next_contract_index == 0,
    {
        let mut chain = Chain::new();
        chain.parameters = ChainParameters::new_with_time(block_time);
        chain
    }

    /// An empty chain with everything provided; rejects rate pairs the
    /// exchange-rate check refuses.
    pub fn new_with_time_and_rates(
        block_time: u64,
        micro_ccd_per_euro: ExchangeRate,
        euro_per_energy: ExchangeRate,
    ) -> (r: Result<Chain, ExchangeRateError>)
        requires
            micro_ccd_per_euro.wf(),
            euro_per_energy.wf(),
        ensures
            match r {
                Ok(c) => c.wf() && c.parameters == (ChainParameters {
                    block_time,
                    micro_ccd_per_euro,
                    euro_per_energy,
                }) && c.accounts@.len() == 0 && c.modules@.len() == 0 && c.contracts@.len() == 0
                    && c.next_contract_index == 0,
                Err(_) => !spec_rates_within_bounds(euro_per_energy, micro_ccd_per_euro),
            },
    {
        let parameters = ChainParameters::new_with_time_and_rates(
            block_time,
            micro_ccd_per_euro,
            euro_per_energy,
        )?;
        Ok(Chain {
            parameters,
            accounts: Vec::new(),
            modules: Vec::new(),
            contracts: Vec::new(),
            next_contract_index: 0,
        })
    }

    /// Convert energy to a micro-currency amount under the current rates.
    pub fn calculate_energy_cost(&self, energy: u64) -> (r: u64)
        requires
            self.wf(),
            self.spec_cost(energy as int) <= u64::MAX as int,
        ensures
            r == self.spec_cost(energy as int),
    {
        self.parameters.calculate_energy_cost(energy)
    }

    /// Replace the exchange rates; rejected pairs leave the rates
    /// unchanged.
    pub fn set_exchange_rate(
        &mut self,
        micro_ccd_per_euro: ExchangeRate,
        euro_per_energy: ExchangeRate,
    ) -> (r: Result<(), ExchangeRateError>)
        requires
            old(self).wf(),
            micro_ccd_per_euro.wf(),
            euro_per_energy.wf(),
        ensures
            final(self).wf(),
            match r {
                Ok(_) => spec_rates_within_bounds(euro_per_energy, micro_ccd_per_euro)
                    && *final(self) == (Chain {
                    parameters: ChainParameters {
                        block_time: old(self).parameters.block_time,
                        micro_ccd_per_euro,
                        euro_per_energy,
                    },
                    ..*old(self)
                }),
                Err(_) => !spec_rates_within_bounds(euro_per_energy, micro_ccd_per_euro)
                    && *final(self) == *old(self),
            },
    {
        check_exchange_rates(euro_per_energy, micro_ccd_per_euro)?;
        self.parameters.micro_ccd_per_euro = micro_ccd_per_euro;
        self.parameters.euro_per_energy = euro_per_energy;
        Ok(())
    }

    /// The current micro-currency per euro rate.
    pub fn micro_ccd_per_euro(&self) -> (r: ExchangeRate)
        ensures
            r == self.parameters.micro_ccd_per_euro,
    {
        self.parameters.micro_ccd_per_euro
    }

    /// The current euro per energy rate.
    pub fn euro_per_energy(&self) -> (r: ExchangeRate)
        ensures
            r == self.parameters.euro_per_energy,
    {
        self.parameters.euro_per_energy
    }

    // -----------------------------------------------------------------------
    // The account ledger.
    // -----------------------------------------------------------------------

    /// Create an account.  An existing account at an aliasing address is
    /// replaced and returned; otherwise the account is appended.
    pub fn create_account(&mut self, account: Account) -> (r: Option<Account>)
        requires
            old(self).wf(),
            account.wf(),
        ensures
            final(self).wf(),
            final(self).parameters == old(self).parameters,
            final(self).modules == old(self).modules,
            final(self).contracts == old(self).contracts,
            final(self).next_contract_index == old(self).next_contract_index,
            has_account(final(self).accounts@, account.address),
            account_of(final(self).accounts@, account.address) == account,
            match r {
                Some(previous) => has_account(old(self).accounts@, account.address) && previous
                    == account_of(old(self).accounts@, account.address)
                    && final(self).accounts@ == old(self).accounts@.update(
                    account_index(old(self).accounts@, account.address),
                    account,
                ),
                None => !has_account(old(self).accounts@, account.address) && final(self).accounts@
                    == old(self).accounts@.push(account),
            },
    {
        match find_account(&self.accounts, &account.address) {
            Some(i) => {
                proof {
                    assert(same_account(old(self).accounts@[i as int].address, account.address));
                }
                let previous = self.accounts.remove(i);
                self.accounts.insert(i, account);
                proof {
                    assert(self.accounts@ =~= old(self).accounts@.update(i as int, account));
                }
                proof {
                    let s = self.accounts@;
                    assert forall|p: int, q: int| 0 <= p < q < s.len() implies !same_account(
                        #[trigger] s[p].address,
                        #[trigger] s[q].address,
                    ) by {
                        assert(old(self).accounts@[p].address == s[p].address || p == i);
                        assert(old(self).accounts@[q].address == s[q].address || q == i);
                    }
                    lemma_account_index_unique(s, account.address, i as int);
                }
                Some(previous)
            }
            None => {
                self.accounts.push(account);
                proof {
                    let s = self.accounts@;
                    let n = s.len() - 1;
                    assert(s[n] == account);
                    assert forall|p: int, q: int| 0 <= p < q < s.len() implies !same_account(
                        #[trigger] s[p].address,
                        #[trigger] s[q].address,
                    ) by {
                        if q < n {
                            assert(old(self).accounts@[p].address == s[p].address);
                            assert(old(self).accounts@[q].address == s[q].address);
                        } else {
                            assert(s[q] == account);
                            if same_account(s[p].address, account.address) {
                                assert(has_account(old(self).accounts@, account.address));
                            }
                        }
                    }
                    lemma_account_index_unique(s, account.address, n);
                }
                None
            }
        }
    }

    /// The account that `address` denotes, if it exists.
    pub fn get_account(&self, address: AccountAddress) -> (r: Option<&Account>)
        requires
            self.wf(),
        ensures
            match r {
                Some(account) => has_account(self.accounts@, address) && *account == account_of(
                    self.accounts@,
                    address,
                ),
                None => !has_account(self.accounts@, address),
            },
    {
        match find_account(&self.accounts, &address) {
            Some(i) => Some(&self.accounts[i]),
            None => None,
        }
    }

    /// The account that `address` denotes, or the address as an error.
    pub fn account(&self, address: AccountAddress) -> (r: Result<&Account, crate::types::AccountMissing>)
        requires
            self.wf(),
        ensures
            match r {
                Ok(account) => has_account(self.accounts@, address) && *account == account_of(
                    self.accounts@,
                    address,
                ),
                Err(e) => !has_account(self.accounts@, address) && e.0 == address,
            },
    {
        match self.get_account(address) {
            Some(account) => Ok(account),
            None => Err(crate::types::AccountMissing(address)),
        }
    }

    /// Whether `address` denotes an existing account.
    pub fn account_exists(&self, address: AccountAddress) -> (r: bool)
        requires
            self.wf(),
        ensures
            r == has_account(self.accounts@, address),
    {
        match self.get_account(address) {
            Some(_) => true,
            None => false,
        }
    }

    /// The balance record of the account that `address` denotes.
    pub fn account_balance(&self, address: AccountAddress) -> (r: Option<AccountBalance>)
        requires
            self.wf(),
        ensures
            match r {
                Some(balance) => has_account(self.accounts@, address) && balance == account_of(
                    self.accounts@,
                    address,
                ).balance,
                None => !has_account(self.accounts@, address),
            },
    {
        match self.get_account(address) {
            Some(account) => Some(account.balance),
            None => None,
        }
    }

    /// The available balance of the account that `address` denotes:
    /// total minus staked minus locked.
    pub fn account_balance_available(&self, address: AccountAddress) -> (r: Option<u64>)
        requires
            self.wf(),
        ensures
            match r {
                Some(available) => has_account(self.accounts@, address) && available == account_of(
                    self.accounts@,
                    address,
                ).balance.spec_available(),
                None => !has_account(self.accounts@, address),
            },
    {
        match find_account(&self.accounts, &address) {
            Some(i) => {
                proof {
                    assert(self.accounts@[i as int].wf());
                }
                Some(self.accounts[i].balance.available())
            }
            None => None,
        }
    }

    // -----------------------------------------------------------------------
    // The contract store, read-only views.
    // -----------------------------------------------------------------------

    /// The contract instance at `address`, if it exists.
    pub fn get_contract(&self, address: ContractAddress) -> (r: Option<&Contract>)
        requires
            self.wf(),
        ensures
            match r {
                Some(contract) => has_contract(self.contracts@, address) && *contract
                    == self.contracts@[contract_index(self.contracts@, address)],
                None => !has_contract(self.contracts@, address),
            },
    {
        match find_contract(&self.contracts, &address) {
            Some(i) => Some(&self.contracts[i]),
            None => None,
        }
    }

    /// Whether a contract instance exists at `address`.
    pub fn contract_exists(&self, address: ContractAddress) -> (r: bool)
        requires
            self.wf(),
        ensures
            r == has_contract(self.contracts@, address),
    {
        match self.get_contract(address) {
            Some(_) => true,
            None => false,
        }
    }

    /// The balance of the contract instance at `address`.
    pub fn contract_balance(&self, address: ContractAddress) -> (r: Option<u64>)
        requires
            self.wf(),
        ensures
            match r {
                Some(balance) => has_contract(self.contracts@, address) && balance
                    == self.contracts@[contract_index(self.contracts@, address)].self_balance,
                None => !has_contract(self.contracts@, address),
            },
    {
        match self.get_contract(address) {
            Some(contract) => Some(contract.self_balance),
            None => None,
        }
    }

    /// Look a key up in the persistent state of the instance at `address`.
    /// The state is a black box of the external trie implementation, so
    /// nothing is stated about the returned bytes.
    pub fn contract_state_lookup(&self, address: ContractAddress, key: &Vec<u8>) -> (r: Option<
        Vec<u8>,
    >)
        requires
            self.wf(),
    {
        match self.get_contract(address) {
            Some(contract) => state_lookup(&contract.state, key),
            None => None,
        }
    }

    /// The module registered under `reference`, if any.
    pub fn get_module(&self, reference: ModuleReference) -> (r: Option<&ContractModule>)
        requires
            self.wf(),
        ensures
            match r {
                Some(module) => has_module(self.modules@, reference) && *module
                    == self.modules@[module_index(self.modules@, reference)],
                None => !has_module(self.modules@, reference),
            },
    {
        match find_module(&self.modules, &reference) {
            Some(i) => Some(&self.modules[i]),
            None => None,
        }
    }

    /// Assign the next contract address: the next free index, subindex
    /// zero.
    pub(crate) fn create_contract_address(&mut self) -> (r: ContractAddress)
        requires
            old(self).wf(),
            old(self).next_contract_index < u64::MAX,
        ensures
            final(self).wf(),
            r == (ContractAddress { index: old(self).next_contract_index, subindex: 0u64 }),
            !has_contract(old(self).contracts@, r),
            final(self).next_contract_index == old(self).next_contract_index + 1,
            *final(self) == (Chain {
                next_contract_index: (old(self).next_contract_index + 1) as u64,
                ..*old(self)
            }),
    {
        let index = self.next_contract_index;
        self.next_contract_index = self.next_contract_index + 1;
        proof {
            let r = ContractAddress { index, subindex: 0u64 };
            if has_contract(old(self).contracts@, r) {
                let i = contract_index(old(self).contracts@, r);
                assert(old(self).contracts@[i].address.index < index);
            }
        }
        ContractAddress::new(index, 0)
    }
}

impl Chain {
    /// Deploy a version-1 module.
    ///
    /// The sender is charged a header-check fee, computed from the payload
    /// size and the signer's key count, as soon as the funds cover it —
    /// immediately, regardless of later outcome — and on reaching
    /// registration a deployment fee proportional to the module size.
    /// Failures report the energy and fee charged up to the failure:
    /// nothing for a missing sender or insufficient funds for the header;
    /// the header fee for an unsupported version, a module the validator
    /// refuses, or a deployment fee that cannot be paid; and the full fee
    /// when the module was already deployed — a charged failure, not a
    /// no-op.  Each failure kind is forced by its condition, and a funded,
    /// valid, fresh version-1 module always registers, exactly once,
    /// under its content-derived reference.
    pub fn module_deploy_v1(
        &mut self,
        signer: Signer,
        sender: AccountAddress,
        wasm_module: WasmModule,
    ) -> (r: Result<SuccessfulModuleDeployment, ModuleDeployError>)
        requires
            old(self).wf(),
            signer.num_keys >= 1,
            wasm_module.source@.len() <= MAX_WASM_MODULE_SIZE,
            old(self).spec_cost(
                spec_deploy_total_energy(
                    wasm_module.source@.len() as int,
                    signer.num_keys as int,
                ),
            ) <= u64::MAX as int,
        ensures
            final(self).wf(),
            final(self).parameters == old(self).parameters,
            final(self).contracts == old(self).contracts,
            final(self).next_contract_index == old(self).next_contract_index,
            spec_accounts_total(final(self).accounts@) == spec_accounts_total(
                old(self).accounts@,
            ) - (match r {
                Ok(s) => s.transaction_fee as int,
                Err(e) => e.transaction_fee as int,
            }),
            ({
                let len = wasm_module.source@.len() as int;
                let keys = signer.num_keys as int;
                let header_energy = spec_base_cost(69 + len, keys);
                let header_fee = old(self).spec_cost(header_energy);
                let deploy_energy = spec_deploy_module_energy(len);
                let deploy_fee = old(self).spec_cost(deploy_energy);
                let reference = spec_module_reference(wasm_module);
                match r {
                    Ok(s) => {
                        &&& has_account(old(self).accounts@, sender)
                        &&& wasm_module.version == WasmVersion::V1
                        &&& crate::engine::wasm_module_valid(wasm_module.source@)
                        &&& s.module_reference.0@ == reference
                        &&& !spec_has_module_bytes(old(self).modules@, reference)
                        &&& s.energy_used == header_energy + deploy_energy
                        &&& s.transaction_fee == header_fee + deploy_fee
                        &&& final(self).modules@.len() == old(self).modules@.len() + 1
                        &&& forall|i: int|
                            0 <= i < old(self).modules@.len()
                                ==> final(self).modules@[i] == old(self).modules@[i]
                        &&& final(self).modules@.last().reference.0@ == reference
                        &&& final(self).modules@.last().size == wasm_module.source@.len()
                        &&& accounts_with_charge(
                            old(self).accounts@,
                            final(self).accounts@,
                            account_index(old(self).accounts@, sender),
                            s.transaction_fee as int,
                        )
                    }
                    Err(e) => {
                        &&& final(self).modules == old(self).modules
                        &&& e.transaction_fee <= u64::MAX
                        &&& match e.kind {
                            ModuleDeployErrorKind::SenderDoesNotExist(missing) => {
                                &&& !has_account(old(self).accounts@, sender)
                                &&& missing.0 == sender
                                &&& e.energy_used == 0 && e.transaction_fee == 0
                                &&& final(self).accounts == old(self).accounts
                            },
                            ModuleDeployErrorKind::InsufficientFunds => {
                                ||| {
                                    &&& has_account(old(self).accounts@, sender)
                                    &&& e.energy_used == 0 && e.transaction_fee == 0
                                    &&& final(self).accounts == old(self).accounts
                                    &&& account_of(old(self).accounts@, sender).balance.spec_available()
                                        < header_fee
                                }
                                ||| {
                                    &&& has_account(old(self).accounts@, sender)
                                    &&& e.energy_used == header_energy
                                    &&& e.transaction_fee == header_fee
                                    &&& accounts_with_charge(
                                        old(self).accounts@,
                                        final(self).accounts@,
                                        account_index(old(self).accounts@, sender),
                                        header_fee,
                                    )
                                    &&& account_of(old(self).accounts@, sender).balance.spec_available()
                                        < header_fee + deploy_fee
                                }
                            },
                            ModuleDeployErrorKind::UnsupportedModuleVersion(v) => {
                                &&& wasm_module.version != WasmVersion::V1
                                &&& v == wasm_module.version
                                &&& e.energy_used == header_energy
                                &&& e.transaction_fee == header_fee
                                &&& accounts_with_charge(
                                    old(self).accounts@,
                                    final(self).accounts@,
                                    account_index(old(self).accounts@, sender),
                                    header_fee,
                                )
                            },
                            ModuleDeployErrorKind::InvalidModule(_) => {
                                &&& wasm_module.version == WasmVersion::V1
                                &&& !crate::engine::wasm_module_valid(wasm_module.source@)
                                &&& e.energy_used == header_energy
                                &&& e.transaction_fee == header_fee
                                &&& accounts_with_charge(
                                    old(self).accounts@,
                                    final(self).accounts@,
                                    account_index(old(self).accounts@, sender),
                                    header_fee,
                                )
                            },
                            ModuleDeployErrorKind::DuplicateModule(dup) => {
                                &&& dup.0@ == reference
                                &&& spec_has_module_bytes(old(self).modules@, reference)
                                &&& e.energy_used == header_energy + deploy_energy
                                &&& e.transaction_fee == header_fee + deploy_fee
                                &&& accounts_with_charge(
                                    old(self).accounts@,
                                    final(self).accounts@,
                                    account_index(old(self).accounts@, sender),
                                    header_fee + deploy_fee,
                                )
                            },
                        }
                    }
                }
            }),
            ({
                let len = wasm_module.source@.len() as int;
                let keys = signer.num_keys as int;
                let header_energy = spec_base_cost(69 + len, keys);
                let header_fee = old(self).spec_cost(header_energy);
                let deploy_fee = old(self).spec_cost(spec_deploy_module_energy(len));
                let exists_ = has_account(old(self).accounts@, sender);
                let available = account_of(old(self).accounts@, sender).balance.spec_available();
                let v1 = wasm_module.version == WasmVersion::V1;
                let valid = crate::engine::wasm_module_valid(wasm_module.source@);
                let registered = spec_has_module_bytes(
                    old(self).modules@,
                    spec_module_reference(wasm_module),
                );
                &&& !exists_ ==> r is Err && r.get_Err_0().kind is SenderDoesNotExist
                &&& exists_ && available < header_fee ==> r is Err && r.get_Err_0().kind
                    is InsufficientFunds
                &&& exists_ && available >= header_fee && !v1 ==> r is Err && r.get_Err_0().kind
                    is UnsupportedModuleVersion
                &&& exists_ && available >= header_fee && v1 && !valid ==> r is Err
                    && r.get_Err_0().kind is InvalidModule
                &&& exists_ && available >= header_fee && v1 && valid && available - header_fee
                    < deploy_fee ==> r is Err && r.get_Err_0().kind is InsufficientFunds
                &&& exists_ && available >= header_fee && v1 && valid && available - header_fee
                    >= deploy_fee && registered ==> r is Err && r.get_Err_0().kind
                    is DuplicateModule
                &&& exists_ && available >= header_fee && v1 && valid && available - header_fee
                    >= deploy_fee && !registered ==> r is Ok
            }),
    {
        let ghost len = wasm_module.source@.len() as int;
        let ghost keys = signer.num_keys as int;
        let ghost total_energy = spec_deploy_total_energy(len, keys);
        let sender_index = match find_account(&self.accounts, &sender) {
            Some(i) => i,
            None => {
                return Err(ModuleDeployError {
                    energy_used: 0,
                    transaction_fee: 0,
                    kind: ModuleDeployErrorKind::SenderDoesNotExist(AccountMissing(sender)),
                });
            }
        };
        // Header-check energy: one per payload byte (tag, size, version and
        // the module itself, plus the header) and a fixed amount per key.
        let module_size = wasm_module.source.len() as u64;
        let header_energy = 1 + 8 + module_size + TRANSACTION_HEADER_SIZE + ENERGY_PER_SIGNATURE
            * (signer.num_keys as u64);
        proof {
            assert(header_energy == spec_base_cost(69 + len, keys));
            lemma_energy_cost_monotone(
                header_energy as int,
                total_energy,
                self.parameters.euro_per_energy,
                self.parameters.micro_ccd_per_euro,
            );
        }
        let check_header_cost = self.parameters.calculate_energy_cost(header_energy);
        proof {
            assert(self.accounts@[sender_index as int].wf());
        }
        if self.accounts[sender_index].balance.available() < check_header_cost {
            return Err(ModuleDeployError {
                energy_used: 0,
                transaction_fee: 0,
                kind: ModuleDeployErrorKind::InsufficientFunds,
            });
        }
        // Charge the header fee immediately, regardless of later outcome.
        charge_account(&mut self.accounts, sender_index, check_header_cost);
        proof {
            lemma_charge_changes_total(
                old(self).accounts@,
                self.accounts@,
                sender_index as int,
                check_header_cost as int,
            );
        }
        match wasm_module.version {
            WasmVersion::V1 => {}
            WasmVersion::V0 => {
                return Err(ModuleDeployError {
                    energy_used: header_energy,
                    transaction_fee: check_header_cost,
                    kind: ModuleDeployErrorKind::UnsupportedModuleVersion(wasm_module.version),
                });
            }
        }
        let artifact = match validate_wasm_module(&wasm_module.source) {
            Ok(artifact) => artifact,
            Err(message) => {
                return Err(ModuleDeployError {
                    energy_used: header_energy,
                    transaction_fee: check_header_cost,
                    kind: ModuleDeployErrorKind::InvalidModule(InvalidModuleError(message)),
                });
            }
        };
        let deploy_module_energy = module_size / 10;
        proof {
            lemma_energy_cost_monotone(
                deploy_module_energy as int,
                total_energy,
                self.parameters.euro_per_energy,
                self.parameters.micro_ccd_per_euro,
            );
        }
        let deploy_module_cost = self.parameters.calculate_energy_cost(deploy_module_energy);
        proof {
            assert(self.accounts@[sender_index as int].wf());
        }
        if self.accounts[sender_index].balance.available() < deploy_module_cost {
            return Err(ModuleDeployError {
                energy_used: header_energy,
                transaction_fee: check_header_cost,
                kind: ModuleDeployErrorKind::InsufficientFunds,
            });
        }
        let ghost after_header = self.accounts@;
        charge_account(&mut self.accounts, sender_index, deploy_module_cost);
        proof {
            lemma_charge_changes_total(
                after_header,
                self.accounts@,
                sender_index as int,
                deploy_module_cost as int,
            );
            lemma_energy_cost_subadditive(
                header_energy as int,
                deploy_module_energy as int,
                self.parameters.euro_per_energy,
                self.parameters.micro_ccd_per_euro,
            );
            lemma_energy_cost_monotone(
                (header_energy + deploy_module_energy) as int,
                total_energy,
                self.parameters.euro_per_energy,
                self.parameters.micro_ccd_per_euro,
            );
        }
        let module_reference = compute_module_reference(&wasm_module);
        if let Some(_) = find_module(&self.modules, &module_reference) {
            proof {
                let i = module_index(self.modules@, module_reference);
                assert(spec_has_module_bytes(self.modules@, spec_module_reference(wasm_module)));
            }
            return Err(ModuleDeployError {
                energy_used: header_energy + deploy_module_energy,
                transaction_fee: check_header_cost + deploy_module_cost,
                kind: ModuleDeployErrorKind::DuplicateModule(module_reference),
            });
        }
        proof {
            if spec_has_module_bytes(self.modules@, spec_module_reference(wasm_module)) {
                let i = choose|i: int|
                    0 <= i < self.modules@.len() && (#[trigger] self.modules@[i].reference).0@
                        == spec_module_reference(wasm_module);
                assert(has_module(self.modules@, module_reference));
            }
        }
        self.modules.push(ContractModule {
            size: module_size,
            artifact,
            reference: module_reference,
        });
        proof {
            let s = self.modules@;
            let n = s.len() - 1;
            assert forall|i: int, j: int| 0 <= i < j < s.len() implies (#[trigger] s[i].reference).0@
                != (#[trigger] s[j].reference).0@ by {
                if j < n {
                    assert(old(self).modules@[i] == s[i] && old(self).modules@[j] == s[j]);
                } else {
                    assert(s[j].reference.0@ == spec_module_reference(wasm_module));
                    if s[i].reference.0@ == s[j].reference.0@ {
                        assert(spec_has_module_bytes(
                            old(self).modules@,
                            spec_module_reference(wasm_module),
                        ));
                    }
                }
            }
        }
        Ok(SuccessfulModuleDeployment {
            module_reference,
            energy_used: header_energy + deploy_module_energy,
            transaction_fee: check_header_cost + deploy_module_cost,
        })
    }
}

/// Whether some registered module carries exactly these reference bytes.
pub open spec fn spec_has_module_bytes(s: Seq<ContractModule>, reference: Seq<u8>) -> bool {
    exists|i: int| 0 <= i < s.len() && (#[trigger] s[i].reference).0@ == reference
}

/// Base administrative energy of initializing an instance, charged even if
/// no code runs.
pub const INITIALIZE_CONTRACT_INSTANCE_BASE_COST: u64 = 300;

/// Energy for creating an instance after a successful init run.
pub const INITIALIZE_CONTRACT_INSTANCE_CREATE_COST: u64 = 200;

/// Base administrative energy of updating an instance, charged even if no
/// code runs.
pub const UPDATE_CONTRACT_INSTANCE_BASE_COST: u64 = 300;

/// Energy of a transfer from a contract to an account.
pub const SIMPLE_TRANSFER_COST: u64 = 300;

/// Energy of answering an account-balance query interrupt.
pub const CONTRACT_INSTANCE_QUERY_ACCOUNT_BALANCE_COST: u64 = 200;

/// Energy of answering a contract-balance query interrupt.
pub const CONTRACT_INSTANCE_QUERY_CONTRACT_BALANCE_COST: u64 = 200;

/// Energy of answering an exchange-rates query interrupt.
pub const CONTRACT_INSTANCE_QUERY_EXCHANGE_RATE_COST: u64 = 100;

/// Energy of answering an account-keys query interrupt.
pub const CONTRACT_INSTANCE_QUERY_ACCOUNT_KEYS_COST: u64 = 200;

/// Energy of answering an account-signature check interrupt.
pub const CONTRACT_INSTANCE_CHECK_ACCOUNT_SIGNATURE_COST: u64 = 500;

impl Chain {
    /// Initialize a contract from a deployed module.
    ///
    /// The sender pays the reserved energy's worth up front in the funds
    /// check and is charged, success or failure, exactly the fee of the
    /// energy actually used; on success the init amount moves to the new
    /// instance as well.  A missing sender is free; insufficient funds and
    /// an oversized parameter are detected before any energy is spent.
    pub fn contract_init(
        &mut self,
        signer: Signer,
        sender: AccountAddress,
        energy_reserved: u64,
        payload: InitContractPayload,
    ) -> (r: Result<ContractInitSuccess, ContractInitError>)
        requires
            old(self).wf(),
            signer.num_keys >= 1,
            energy_reserved <= crate::energy::MAX_ALLOWED_INVOKE_ENERGY,
            old(self).spec_cost(energy_reserved as int) <= u64::MAX as int,
            payload.init_name@.len() <= 100,
            old(self).next_contract_index < u64::MAX,
        ensures
            final(self).wf(),
            final(self).parameters == old(self).parameters,
            final(self).modules == old(self).modules,
            spec_accounts_total(final(self).accounts@) == spec_accounts_total(
                old(self).accounts@,
            ) - (match r {
                Ok(s) => payload.amount + s.transaction_fee as int,
                Err(e) => e.transaction_fee as int,
            }),
            spec_contracts_total(final(self).contracts@) == spec_contracts_total(
                old(self).contracts@,
            ) + (match r {
                Ok(_) => payload.amount as int,
                Err(_) => 0int,
            }),
            ({
                let sender_idx = account_index(old(self).accounts@, sender);
                let reserved_cost = old(self).spec_cost(energy_reserved as int);
                match r {
                    Ok(s) => {
                        &&& has_account(old(self).accounts@, sender)
                        &&& account_of(old(self).accounts@, sender).balance.spec_available()
                            >= reserved_cost + payload.amount
                        &&& s.contract_address == (ContractAddress {
                            index: old(self).next_contract_index,
                            subindex: 0u64,
                        })
                        &&& final(self).next_contract_index == old(self).next_contract_index + 1
                        &&& final(self).contracts@.len() == old(self).contracts@.len() + 1
                        &&& forall|i: int|
                            0 <= i < old(self).contracts@.len()
                                ==> final(self).contracts@[i] == old(self).contracts@[i]
                        &&& final(self).contracts@.last().address == s.contract_address
                        &&& final(self).contracts@.last().module_reference == payload.mod_ref
                        &&& final(self).contracts@.last().contract_name@ == payload.init_name@
                        &&& final(self).contracts@.last().owner == sender
                        &&& final(self).contracts@.last().self_balance == payload.amount
                        &&& s.energy_used <= energy_reserved
                        &&& s.transaction_fee == old(self).spec_cost(s.energy_used as int)
                        &&& accounts_with_charge(
                            old(self).accounts@,
                            final(self).accounts@,
                            sender_idx,
                            payload.amount + s.transaction_fee,
                        )
                    }
                    Err(e) => {
                        &&& final(self).contracts == old(self).contracts
                        &&& final(self).next_contract_index == old(self).next_contract_index
                        &&& e.energy_used <= energy_reserved
                        &&& e.transaction_fee == old(self).spec_cost(e.energy_used as int)
                        &&& match e.kind {
                            ContractInitErrorKind::SenderDoesNotExist(missing) => {
                                &&& !has_account(old(self).accounts@, sender)
                                &&& missing.0 == sender
                                &&& e.energy_used == 0 && e.transaction_fee == 0
                                &&& final(self).accounts == old(self).accounts
                            },
                            _ => {
                                &&& has_account(old(self).accounts@, sender)
                                &&& accounts_with_charge(
                                    old(self).accounts@,
                                    final(self).accounts@,
                                    sender_idx,
                                    e.transaction_fee as int,
                                )
                            },
                        }
                        &&& e.kind is InsufficientFunds ==> {
                            &&& account_of(old(self).accounts@, sender).balance.spec_available()
                                < reserved_cost + payload.amount
                            &&& e.energy_used == 0 && e.transaction_fee == 0
                            &&& final(self).accounts@ =~= old(self).accounts@
                        }
                        &&& e.kind is ParameterTooLarge ==> {
                            &&& payload.param@.len() > MAX_PARAMETER_LEN
                            &&& e.energy_used == 0 && e.transaction_fee == 0
                        }
                        &&& (has_account(old(self).accounts@, sender) && account_of(
                            old(self).accounts@,
                            sender,
                        ).balance.spec_available() < reserved_cost + payload.amount
                            ==> e.kind is InsufficientFunds)
                        &&& (e.kind matches ContractInitErrorKind::ModuleDoesNotExist(m) ==> m.0
                            == payload.mod_ref && !has_module(old(self).modules@, payload.mod_ref)
                            && e.energy_used == spec_init_header_energy(
                            payload,
                            signer.num_keys as int,
                        ) + INITIALIZE_CONTRACT_INSTANCE_BASE_COST)
                        &&& (e.kind matches ContractInitErrorKind::ExecutionError {
                            failure_kind: InitFailure::OutOfEnergy,
                        } ==> e.energy_used == energy_reserved)
                    }
                }
            }),
            ({
                let reserved_cost = old(self).spec_cost(energy_reserved as int);
                let available = account_of(old(self).accounts@, sender).balance.spec_available();
                let header = spec_init_header_energy(payload, signer.num_keys as int);
                let sender_ok = has_account(old(self).accounts@, sender);
                let funds_ok = available >= reserved_cost + payload.amount;
                let param_ok = payload.param@.len() <= MAX_PARAMETER_LEN;
                let module_ok = has_module(old(self).modules@, payload.mod_ref);
                &&& !sender_ok ==> r is Err && r.get_Err_0().kind is SenderDoesNotExist
                &&& sender_ok && !funds_ok ==> r is Err && r.get_Err_0().kind
                    is InsufficientFunds
                &&& sender_ok && funds_ok && !param_ok ==> r is Err && r.get_Err_0().kind
                    is ParameterTooLarge
                &&& sender_ok && funds_ok && param_ok && energy_reserved < header
                    + INITIALIZE_CONTRACT_INSTANCE_BASE_COST ==> r is Err && r.get_Err_0().kind
                    is OutOfEnergy && r.get_Err_0().energy_used == (if energy_reserved < header {
                    0int
                } else {
                    header
                })
                &&& sender_ok && funds_ok && param_ok && energy_reserved >= header
                    + INITIALIZE_CONTRACT_INSTANCE_BASE_COST && !module_ok ==> r is Err
                    && r.get_Err_0().kind is ModuleDoesNotExist
                &&& r is Ok ==> sender_ok && funds_ok && param_ok && module_ok && energy_reserved
                    >= header + INITIALIZE_CONTRACT_INSTANCE_BASE_COST
            }),
    {
        proof {
            lemma_energy_cost_zero(
                self.parameters.euro_per_energy,
                self.parameters.micro_ccd_per_euro,
            );
        }
        if !self.account_exists(sender) {
            return Err(ContractInitError {
                energy_used: 0,
                transaction_fee: 0,
                kind: ContractInitErrorKind::SenderDoesNotExist(AccountMissing(sender)),
            });
        }
        let mut remaining_energy: u64 = energy_reserved;
        let res = self.contract_init_worker(
            signer,
            sender,
            energy_reserved,
            payload,
            &mut remaining_energy,
        );
        proof {
            lemma_energy_cost_monotone(
                (energy_reserved - remaining_energy) as int,
                energy_reserved as int,
                self.parameters.euro_per_energy,
                self.parameters.micro_ccd_per_euro,
            );
        }
        match res {
            Ok(s) => {
                let sender_index = match find_account(&self.accounts, &sender) {
                    Some(i) => i,
                    None => {
                        proof {
                            assert(false);
                        }
                        return Err(ContractInitError {
                            energy_used: 0,
                            transaction_fee: 0,
                            kind: ContractInitErrorKind::SenderDoesNotExist(
                                AccountMissing(sender),
                            ),
                        });
                    }
                };
                let ghost mid_accounts = self.accounts@;
                charge_account(&mut self.accounts, sender_index, s.transaction_fee);
                proof {
                    let idx = account_index(old(self).accounts@, sender);
                    assert(accounts_with_charge(
                        old(self).accounts@,
                        self.accounts@,
                        idx,
                        payload.amount + s.transaction_fee,
                    ));
                    lemma_charge_changes_total(
                        old(self).accounts@,
                        mid_accounts,
                        idx,
                        payload.amount as int,
                    );
                    lemma_charge_changes_total(
                        mid_accounts,
                        self.accounts@,
                        sender_index as int,
                        s.transaction_fee as int,
                    );
                    lemma_contracts_total_extend(old(self).contracts@, self.contracts@);
                }
                Ok(s)
            }
            Err(kind) => {
                let energy_used = energy_reserved - remaining_energy;
                let transaction_fee = self.parameters.calculate_energy_cost(energy_used);
                proof {
                    let idx = account_index(old(self).accounts@, sender);
                    assert(self.accounts@[idx].wf());
                    if !(kind is InsufficientFunds) {
                        assert(account_of(old(self).accounts@, sender).balance.spec_available()
                            >= old(self).spec_cost(energy_reserved as int) + payload.amount);
                    }
                }
                let sender_index = match find_account(&self.accounts, &sender) {
                    Some(i) => i,
                    None => {
                        proof {
                            assert(false);
                        }
                        return Err(ContractInitError {
                            energy_used: 0,
                            transaction_fee: 0,
                            kind: ContractInitErrorKind::SenderDoesNotExist(
                                AccountMissing(sender),
                            ),
                        });
                    }
                };
                charge_account(&mut self.accounts, sender_index, transaction_fee);
                proof {
                    if transaction_fee == 0 {
                        crate::ledger::lemma_charge_preserves_ledger(
                            old(self).accounts@,
                            self.accounts@,
                            account_index(old(self).accounts@, sender),
                            0,
                        );
                    }
                    lemma_charge_changes_total(
                        old(self).accounts@,
                        self.accounts@,
                        sender_index as int,
                        transaction_fee as int,
                    );
                }
                Err(ContractInitError { energy_used, transaction_fee, kind })
            }
        }
    }

    /// The part of initialization that runs under the energy budget in
    /// `remaining_energy`.  It never charges the sender a fee — only the
    /// init amount moves on success; the caller converts the energy used
    /// into the fee and charges it exactly once.
    fn contract_init_worker(
        &mut self,
        signer: Signer,
        sender: AccountAddress,
        energy_reserved: u64,
        payload: InitContractPayload,
        remaining_energy: &mut u64,
    ) -> (r: Result<ContractInitSuccess, ContractInitErrorKind>)
        requires
            old(self).wf(),
            has_account(old(self).accounts@, sender),
            signer.num_keys >= 1,
            *old(remaining_energy) == energy_reserved,
            energy_reserved <= crate::energy::MAX_ALLOWED_INVOKE_ENERGY,
            old(self).spec_cost(energy_reserved as int) <= u64::MAX as int,
            payload.init_name@.len() <= 100,
            old(self).next_contract_index < u64::MAX,
        ensures
            final(self).wf(),
            final(self).parameters == old(self).parameters,
            final(self).modules == old(self).modules,
            *final(remaining_energy) <= energy_reserved,
            ({
                let sender_idx = account_index(old(self).accounts@, sender);
                let reserved_cost = old(self).spec_cost(energy_reserved as int);
                let available = account_of(old(self).accounts@, sender).balance.spec_available();
                match r {
                    Ok(s) => {
                        &&& available >= reserved_cost + payload.amount
                        &&& s.contract_address == (ContractAddress {
                            index: old(self).next_contract_index,
                            subindex: 0u64,
                        })
                        &&& final(self).next_contract_index == old(self).next_contract_index + 1
                        &&& final(self).contracts@.len() == old(self).contracts@.len() + 1
                        &&& forall|i: int|
                            0 <= i < old(self).contracts@.len()
                                ==> final(self).contracts@[i] == old(self).contracts@[i]
                        &&& final(self).contracts@.last().address == s.contract_address
                        &&& final(self).contracts@.last().module_reference == payload.mod_ref
                        &&& final(self).contracts@.last().contract_name@ == payload.init_name@
                        &&& final(self).contracts@.last().owner == sender
                        &&& final(self).contracts@.last().self_balance == payload.amount
                        &&& s.energy_used == energy_reserved - *final(remaining_energy)
                        &&& s.transaction_fee == old(self).spec_cost(s.energy_used as int)
                        &&& accounts_with_charge(
                            old(self).accounts@,
                            final(self).accounts@,
                            sender_idx,
                            payload.amount as int,
                        )
                        &&& accounts_wf(final(self).accounts@)
                        &&& has_account(final(self).accounts@, sender)
                        &&& account_index(final(self).accounts@, sender) == sender_idx
                        &&& account_of(final(self).accounts@, sender).balance.spec_available()
                            >= reserved_cost
                    }
                    Err(kind) => {
                        &&& final(self).accounts == old(self).accounts
                        &&& final(self).contracts == old(self).contracts
                        &&& final(self).next_contract_index == old(self).next_contract_index
                        &&& !(kind is SenderDoesNotExist)
                        &&& kind is InsufficientFunds <==> available < reserved_cost
                            + payload.amount
                        &&& kind is InsufficientFunds ==> *final(remaining_energy)
                            == energy_reserved
                        &&& kind is ParameterTooLarge ==> payload.param@.len()
                            > MAX_PARAMETER_LEN && *final(remaining_energy) == energy_reserved
                        &&& !(kind is InsufficientFunds) ==> available >= reserved_cost
                            + payload.amount
                        &&& (kind matches ContractInitErrorKind::ModuleDoesNotExist(m) ==> m.0
                            == payload.mod_ref && !has_module(old(self).modules@, payload.mod_ref)
                            && *final(remaining_energy) + spec_init_header_energy(
                            payload,
                            signer.num_keys as int,
                        ) + INITIALIZE_CONTRACT_INSTANCE_BASE_COST == energy_reserved)
                        &&& (kind matches ContractInitErrorKind::ExecutionError {
                            failure_kind: InitFailure::OutOfEnergy,
                        } ==> *final(remaining_energy) == 0)
                    }
                }
            }),
            ({
                let reserved_cost = old(self).spec_cost(energy_reserved as int);
                let available = account_of(old(self).accounts@, sender).balance.spec_available();
                let header = spec_init_header_energy(payload, signer.num_keys as int);
                let funds_ok = available >= reserved_cost + payload.amount;
                let param_ok = payload.param@.len() <= MAX_PARAMETER_LEN;
                &&& funds_ok && !param_ok ==> r is Err && r.get_Err_0() is ParameterTooLarge
                &&& funds_ok && param_ok && energy_reserved < header
                    + INITIALIZE_CONTRACT_INSTANCE_BASE_COST ==> r is Err && r.get_Err_0()
                    is OutOfEnergy && *final(remaining_energy) == (if energy_reserved < header {
                    energy_reserved as int
                } else {
                    energy_reserved - header
                })
                &&& funds_ok && param_ok && energy_reserved >= header
                    + INITIALIZE_CONTRACT_INSTANCE_BASE_COST && !has_module(
                    old(self).modules@,
                    payload.mod_ref,
                ) ==> r is Err && r.get_Err_0() is ModuleDoesNotExist
                &&& r is Ok ==> has_module(old(self).modules@, payload.mod_ref) && param_ok
                    && energy_reserved >= header + INITIALIZE_CONTRACT_INSTANCE_BASE_COST
            }),
    {
        let sender_index = match find_account(&self.accounts, &sender) {
            Some(i) => i,
            None => {
                proof {
                    assert(false);
                }
                return Err(ContractInitErrorKind::InsufficientFunds);
            }
        };
        // Funds: the sender must cover the full reserved energy plus the
        // init amount before anything is charged.
        let reserved_cost = self.parameters.calculate_energy_cost(energy_reserved);
        proof {
            assert(self.accounts@[sender_index as int].wf());
        }
        let available = self.accounts[sender_index].balance.available();
        if payload.amount > u64::MAX - reserved_cost {
            return Err(ContractInitErrorKind::InsufficientFunds);
        }
        if available < reserved_cost + payload.amount {
            return Err(ContractInitErrorKind::InsufficientFunds);
        }
        // Parameter size.
        if payload.param.len() > MAX_PARAMETER_LEN {
            return Err(ContractInitErrorKind::ParameterTooLarge);
        }
        // Header check: one energy per serialized byte, a fixed amount per
        // signing key.
        let transaction_size = TRANSACTION_HEADER_SIZE + 1 + 44 + payload.init_name.len() as u64
            + payload.param.len() as u64;
        let check_header_energy = transaction_size + ENERGY_PER_SIGNATURE * (signer.num_keys
            as u64);
        if !tick_energy(remaining_energy, check_header_energy) {
            return Err(ContractInitErrorKind::OutOfEnergy);
        }
        if !tick_energy(remaining_energy, INITIALIZE_CONTRACT_INSTANCE_BASE_COST) {
            return Err(ContractInitErrorKind::OutOfEnergy);
        }
        // Module lookup, billed by module size.
        let module_index = match find_module(&self.modules, &payload.mod_ref) {
            Some(i) => i,
            None => {
                return Err(ContractInitErrorKind::ModuleDoesNotExist(ModuleMissing(
                    payload.mod_ref,
                )));
            }
        };
        let lookup_cost = self.modules[module_index].size / 50;
        if !tick_energy(remaining_energy, lookup_cost) {
            return Err(ContractInitErrorKind::OutOfEnergy);
        }
        // Run the init entrypoint under the remaining energy, in the finer
        // interpreter unit.
        let ctx = make_init_context(
            self.parameters.block_time,
            &sender,
            &self.accounts[sender_index].policy.0,
        );
        let energy_given = to_interpreter_energy(*remaining_energy);
        let outcome = run_init(
            &self.modules[module_index].artifact,
            ctx,
            payload.amount,
            &payload.init_name,
            &payload.param,
            energy_given,
        );
        self.settle_init_outcome(
            outcome,
            sender,
            sender_index,
            payload,
            energy_reserved,
            energy_given,
            remaining_energy,
        )
    }

    /// Turn the interpreter's init report into the public result: each
    /// variant of the report settles into exactly one outcome.  A
    /// rejection or trap surfaces verbatim with the segment's energy
    /// ticked; interpreter exhaustion zeroes the budget; a successful run
    /// creates the instance and moves the amount, unless the storage and
    /// creation costs exhaust the budget first.
    fn settle_init_outcome(
        &mut self,
        outcome: InitOutcome,
        sender: AccountAddress,
        sender_index: usize,
        payload: InitContractPayload,
        energy_reserved: u64,
        energy_given: u64,
        remaining_energy: &mut u64,
    ) -> (r: Result<ContractInitSuccess, ContractInitErrorKind>)
        requires
            old(self).wf(),
            has_account(old(self).accounts@, sender),
            sender_index < old(self).accounts@.len(),
            account_index(old(self).accounts@, sender) == sender_index as int,
            same_account(old(self).accounts@[sender_index as int].address, sender),
            account_of(old(self).accounts@, sender).balance.spec_available() >= old(
                self,
            ).spec_cost(energy_reserved as int) + payload.amount,
            *old(remaining_energy) <= energy_reserved,
            energy_reserved <= crate::energy::MAX_ALLOWED_INVOKE_ENERGY,
            old(self).spec_cost(energy_reserved as int) <= u64::MAX as int,
            energy_given == *old(remaining_energy) * 1000,
            crate::engine::init_outcome_within(outcome, energy_given as int),
            old(self).next_contract_index < u64::MAX,
        ensures
            final(self).wf(),
            final(self).parameters == old(self).parameters,
            final(self).modules == old(self).modules,
            *final(remaining_energy) <= *old(remaining_energy),
            r is Err ==> final(self).accounts == old(self).accounts && final(self).contracts
                == old(self).contracts && final(self).next_contract_index == old(
                self,
            ).next_contract_index,
            r matches Err(k) ==> k is OutOfEnergy || k is ExecutionError,
            (outcome matches InitOutcome::Reject { reason, return_value, .. } ==> (r matches Err(
                ContractInitErrorKind::ExecutionError {
                    failure_kind: InitFailure::Reject { reason: settled_reason, return_value: settled_value },
                },
            ) && settled_reason == reason && settled_value == return_value)),
            (outcome is Trap ==> r matches Err(
                ContractInitErrorKind::ExecutionError { failure_kind: InitFailure::Trap },
            )),
            (outcome is OutOfEnergy ==> (r matches Err(
                ContractInitErrorKind::ExecutionError { failure_kind: InitFailure::OutOfEnergy },
            ) && *final(remaining_energy) == 0)),
            (outcome is Success && r is Err ==> r.get_Err_0() is OutOfEnergy),
            r is Ok ==> outcome is Success,
            ({
                let sender_idx = account_index(old(self).accounts@, sender);
                let reserved_cost = old(self).spec_cost(energy_reserved as int);
                match r {
                    Ok(s) => {
                        &&& s.contract_address == (ContractAddress {
                            index: old(self).next_contract_index,
                            subindex: 0u64,
                        })
                        &&& final(self).next_contract_index == old(self).next_contract_index + 1
                        &&& final(self).contracts@.len() == old(self).contracts@.len() + 1
                        &&& forall|i: int|
                            0 <= i < old(self).contracts@.len()
                                ==> final(self).contracts@[i] == old(self).contracts@[i]
                        &&& final(self).contracts@.last().address == s.contract_address
                        &&& final(self).contracts@.last().module_reference == payload.mod_ref
                        &&& final(self).contracts@.last().contract_name@ == payload.init_name@
                        &&& final(self).contracts@.last().owner == sender
                        &&& final(self).contracts@.last().self_balance == payload.amount
                        &&& s.energy_used == energy_reserved - *final(remaining_energy)
                        &&& s.transaction_fee == old(self).spec_cost(s.energy_used as int)
                        &&& accounts_with_charge(
                            old(self).accounts@,
                            final(self).accounts@,
                            sender_idx,
                            payload.amount as int,
                        )
                        &&& accounts_wf(final(self).accounts@)
                        &&& has_account(final(self).accounts@, sender)
                        &&& account_index(final(self).accounts@, sender) == sender_idx
                        &&& account_of(final(self).accounts@, sender).balance.spec_available()
                            >= reserved_cost
                    }
                    Err(_) => true,
                }
            }),
    {
        match outcome {
            InitOutcome::Success { logs, remaining_energy: remaining_interpreter, state } => {
                let mut state = state;
                let (frozen, state_bytes) = state_freeze(&mut state);
                // Subtract in interpreter units first, then round down to
                // the coarse unit, exactly as the reference does.
                let used_interpreter = saturating_sub(energy_given, remaining_interpreter);
                let used = from_interpreter_energy(used_interpreter);
                proof {
                    crate::energy::lemma_interpreter_energy_never_overreports(
                        *remaining_energy,
                        remaining_interpreter,
                    );
                }
                if !tick_energy(remaining_energy, used) {
                    return Err(ContractInitErrorKind::OutOfEnergy);
                }
                // One energy per byte of stored state.
                if !tick_energy(remaining_energy, state_bytes) {
                    return Err(ContractInitErrorKind::OutOfEnergy);
                }
                if !tick_energy(remaining_energy, INITIALIZE_CONTRACT_INSTANCE_CREATE_COST) {
                    return Err(ContractInitErrorKind::OutOfEnergy);
                }
                let contract_address = self.create_contract_address();
                let contract = Contract {
                    address: contract_address,
                    module_reference: payload.mod_ref,
                    contract_name: payload.init_name,
                    state: frozen,
                    owner: sender,
                    self_balance: payload.amount,
                };
                self.contracts.push(contract);
                proof {
                    let s = self.contracts@;
                    let n = s.len() - 1;
                    assert forall|i: int, j: int| 0 <= i < j < s.len() implies (
                    #[trigger] s[i].address) != (#[trigger] s[j].address) by {
                        if j < n {
                            assert(s[i] == old(self).contracts@[i]);
                            assert(s[j] == old(self).contracts@[j]);
                        } else {
                            assert(s[j].address.index == old(self).next_contract_index);
                            assert(s[i] == old(self).contracts@[i]);
                        }
                    }
                }
                proof {
                    assert(account_of(old(self).accounts@, sender) == old(
                        self,
                    ).accounts@[sender_index as int]);
                    lemma_energy_cost_monotone(
                        0,
                        energy_reserved as int,
                        self.parameters.euro_per_energy,
                        self.parameters.micro_ccd_per_euro,
                    );
                }
                charge_account(&mut self.accounts, sender_index, payload.amount);
                let energy_used = energy_reserved - *remaining_energy;
                proof {
                    lemma_energy_cost_monotone(
                        energy_used as int,
                        energy_reserved as int,
                        self.parameters.euro_per_energy,
                        self.parameters.micro_ccd_per_euro,
                    );
                }
                let transaction_fee = self.parameters.calculate_energy_cost(energy_used);
                proof {
                    let idx = account_index(old(self).accounts@, sender);
                    lemma_account_index_unique(
                        self.accounts@,
                        sender,
                        idx,
                    );
                }
                Ok(ContractInitSuccess {
                    contract_address,
                    events: crate::engine::logs_to_vec(logs),
                    energy_used,
                    transaction_fee,
                })
            }
            InitOutcome::Reject { reason, return_value, remaining_energy: remaining_interpreter } => {
                let used = from_interpreter_energy(
                    saturating_sub(energy_given, remaining_interpreter),
                );
                proof {
                    crate::energy::lemma_interpreter_energy_never_overreports(
                        *remaining_energy,
                        remaining_interpreter,
                    );
                }
                if !tick_energy(remaining_energy, used) {
                    return Err(ContractInitErrorKind::OutOfEnergy);
                }
                Err(ContractInitErrorKind::ExecutionError {
                    failure_kind: InitFailure::Reject { reason, return_value },
                })
            }
            InitOutcome::Trap { remaining_energy: remaining_interpreter } => {
                let used = from_interpreter_energy(
                    saturating_sub(energy_given, remaining_interpreter),
                );
                proof {
                    crate::energy::lemma_interpreter_energy_never_overreports(
                        *remaining_energy,
                        remaining_interpreter,
                    );
                }
                if !tick_energy(remaining_energy, used) {
                    return Err(ContractInitErrorKind::OutOfEnergy);
                }
                Err(ContractInitErrorKind::ExecutionError { failure_kind: InitFailure::Trap })
            }
            InitOutcome::OutOfEnergy => {
                *remaining_energy = 0;
                Err(ContractInitErrorKind::ExecutionError {
                    failure_kind: InitFailure::OutOfEnergy,
                })
            }
        }
    }
}

// ---------------------------------------------------------------------------
// Loading modules from serialized form.
// ---------------------------------------------------------------------------


/// Whether versioned module bytes parse into a module: a version tag of
/// one, a length within the size cap, and at least that many bytes after
/// the prefix.  Trailing bytes are ignored, as the build tool may append
/// custom sections.
pub open spec fn spec_versioned_parses(bytes: Seq<u8>) -> bool {
    &&& bytes.len() >= 8
    &&& spec_be32_value(bytes.subrange(0, 4)) == 1
    &&& spec_be32_value(bytes.subrange(4, 8)) <= MAX_WASM_MODULE_SIZE
    &&& 8 + spec_be32_value(bytes.subrange(4, 8)) <= bytes.len()
}

/// The source bytes that versioned module bytes parse into.
pub open spec fn spec_versioned_source(bytes: Seq<u8>) -> Seq<u8> {
    bytes.subrange(8, 8 + spec_be32_value(bytes.subrange(4, 8)))
}


impl Chain {
    /// Interpret raw bytes as a version-1 module, without a version or length
    /// prefix.  Only the size cap is checked here; validation happens at
    /// deployment.
    pub fn module_load_v1_raw(bytes: Vec<u8>) -> (r: Result<WasmModule, ModuleLoadError>)
        ensures
            match r {
                Ok(m) => bytes@.len() <= MAX_WASM_MODULE_SIZE && m.version == WasmVersion::V1
                    && m.source@ == bytes@,
                Err(e) => bytes@.len() > MAX_WASM_MODULE_SIZE && e is InvalidModule,
            },
    {
        if bytes.len() as u64 > MAX_WASM_MODULE_SIZE {
            return Err(ModuleLoadError::InvalidModule(InvalidModuleError(Vec::new())));
        }
        Ok(WasmModule { version: WasmVersion::V1, source: bytes })
    }

    /// Parse a versioned module: a 4-byte big-endian version tag, a 4-byte
    /// big-endian length, and the module bytes, as the build tool produces.
    /// A version tag of zero is an unsupported version; anything else that
    /// fails to parse is an invalid module.
    pub fn module_load_v1(bytes: Vec<u8>) -> (r: Result<WasmModule, ModuleLoadError>)
        ensures
            match r {
                Ok(m) => spec_versioned_parses(bytes@) && m.version == WasmVersion::V1 && m.source@
                    == spec_versioned_source(bytes@),
                Err(e) => !spec_versioned_parses(bytes@) && (e matches
                    ModuleLoadError::UnsupportedModuleVersion(v) ==> bytes@.len() >= 8
                    && spec_be32_value(bytes@.subrange(0, 4)) == 0 && v == WasmVersion::V0),
            },
            spec_versioned_parses(bytes@) ==> r is Ok,
            bytes@.len() >= 8 && spec_be32_value(bytes@.subrange(0, 4)) == 0 ==> r is Err
                && r.get_Err_0() is UnsupportedModuleVersion,
            !spec_versioned_parses(bytes@) && (bytes@.len() < 8 || spec_be32_value(
                bytes@.subrange(0, 4),
            ) != 0) ==> r is Err && r.get_Err_0() is InvalidModule,
    {
        if bytes.len() < 8 {
            return Err(ModuleLoadError::InvalidModule(InvalidModuleError(Vec::new())));
        }
        let version = read_be32(&bytes, 0);
        if version == 0 {
            proof {
                assert(spec_be32_value(bytes@.subrange(0, 4)) != 1);
            }
            return Err(ModuleLoadError::UnsupportedModuleVersion(WasmVersion::V0));
        }
        if version != 1 {
            return Err(ModuleLoadError::InvalidModule(InvalidModuleError(Vec::new())));
        }
        let length = read_be32(&bytes, 4);
        if length as u64 > MAX_WASM_MODULE_SIZE {
            return Err(ModuleLoadError::InvalidModule(InvalidModuleError(Vec::new())));
        }
        if (bytes.len() - 8) < length as usize {
            return Err(ModuleLoadError::InvalidModule(InvalidModuleError(Vec::new())));
        }
        let mut source: Vec<u8> = Vec::new();
        let end = 8 + length as usize;
        let mut i: usize = 8;
        while i < end
            invariant
                8 <= i <= end,
                end <= bytes@.len(),
                end == 8 + spec_be32_value(bytes@.subrange(4, 8)),
                source@ == bytes@.subrange(8, i as int),
            decreases end - i,
        {
            source.push(bytes[i]);
            proof {
                assert(source@ =~= bytes@.subrange(8, i + 1));
            }
            i = i + 1;
        }
        Ok(WasmModule { version: WasmVersion::V1, source })
    }
}

} // verus!
