//! The three stores of the chain — accounts, modules, contract instances —
//! as vectors with uniqueness invariants, and their lookup machinery.
//!
//! Accounts are keyed by alias equivalence: two addresses agreeing on their
//! first 29 bytes resolve to the same entry.  Modules are keyed by their
//! content-derived reference, contracts by their address.

use vstd::prelude::*;
use crate::types::{
    Account, AccountAddress, Contract, ContractAddress, ContractModule, ModuleReference,
    addresses_alias, module_refs_equal, same_account,
};

verus! {

// ---------------------------------------------------------------------------
// Accounts.
// ---------------------------------------------------------------------------

/// Every account is well formed and no two entries are aliases of each
/// other: each account has exactly one entry.
pub open spec fn accounts_wf(s: Seq<Account>) -> bool {
    &&& forall|i: int| 0 <= i < s.len() ==> #[trigger] s[i].wf()
    &&& forall|i: int, j: int|
        0 <= i < j < s.len() ==> !same_account(#[trigger] s[i].address, #[trigger] s[j].address)
}

/// Whether some entry is the account that `address` denotes.
pub open spec fn has_account(s: Seq<Account>, address: AccountAddress) -> bool {
    exists|i: int| 0 <= i < s.len() && same_account(#[trigger] s[i].address, address)
}

/// The index of the entry that `address` denotes.
pub open spec fn account_index(s: Seq<Account>, address: AccountAddress) -> int {
    choose|i: int| 0 <= i < s.len() && same_account(#[trigger] s[i].address, address)
}

/// The account that `address` denotes.
pub open spec fn account_of(s: Seq<Account>, address: AccountAddress) -> Account {
    s[account_index(s, address)]
}

/// Under the uniqueness invariant, any entry matching `address` is the one
/// entry that `address` denotes.
pub proof fn lemma_account_index_unique(s: Seq<Account>, address: AccountAddress, i: int)
    requires
        accounts_wf(s),
        0 <= i < s.len(),
        same_account(s[i].address, address),
    ensures
        has_account(s, address),
        account_index(s, address) == i,
{
    assert(has_account(s, address));
    let j = account_index(s, address);
    if i < j {
        assert(!same_account(s[i].address, s[j].address));
        assert(alias_prefix_transitive_contra(s[i].address, s[j].address, address));
    } else if j < i {
        assert(!same_account(s[j].address, s[i].address));
        assert(alias_prefix_transitive_contra(s[j].address, s[i].address, address));
    }
}

/// Helper fact: two addresses that both alias a third alias each other.
spec fn alias_prefix_transitive_contra(a: AccountAddress, b: AccountAddress, c: AccountAddress) -> bool {
    same_account(a, c) && same_account(b, c) ==> same_account(a, b)
}

/// Two addresses denoting the same account denote the same entry.
pub proof fn lemma_account_index_alias(s: Seq<Account>, a: AccountAddress, b: AccountAddress)
    requires
        accounts_wf(s),
        same_account(a, b),
        has_account(s, a),
    ensures
        has_account(s, b),
        account_index(s, a) == account_index(s, b),
{
    let i = account_index(s, a);
    assert(0 <= i < s.len() && same_account(s[i].address, a));
    assert(same_account(s[i].address, b));
    lemma_account_index_unique(s, b, i);
}

/// Find the entry that `address` denotes.
pub fn find_account(accounts: &Vec<Account>, address: &AccountAddress) -> (r: Option<usize>)
    requires
        accounts_wf(accounts@),
    ensures
        match r {
            Some(i) => has_account(accounts@, *address) && account_index(accounts@, *address)
                == i as int && i < accounts@.len(),
            None => !has_account(accounts@, *address),
        },
{
    let n = accounts.len();
    let mut i: usize = 0;
    while i < n
        invariant
            accounts_wf(accounts@),
            n == accounts@.len(),
            i <= n,
            forall|j: int| 0 <= j < i ==> !same_account(#[trigger] accounts@[j].address, *address),
        decreases n - i,
    {
        if addresses_alias(&accounts[i].address, address) {
            proof {
                lemma_account_index_unique(accounts@, *address, i as int);
            }
            return Some(i);
        }
        i = i + 1;
    }
    None
}

/// `s1` is `s0` with the total balance of the entry at `idx` lowered by
/// `delta` and everything else unchanged.
pub open spec fn accounts_with_charge(s0: Seq<Account>, s1: Seq<Account>, idx: int, delta: int) -> bool {
    &&& s1.len() == s0.len()
    &&& forall|i: int| 0 <= i < s0.len() && i != idx ==> s1[i] == s0[i]
    &&& 0 <= idx < s0.len()
    &&& s1[idx].address == s0[idx].address
    &&& s1[idx].policy == s0[idx].policy
    &&& s1[idx].balance.staked == s0[idx].balance.staked
    &&& s1[idx].balance.locked == s0[idx].balance.locked
    &&& s1[idx].balance.total == s0[idx].balance.total - delta
}

/// Charging keeps the ledger well formed, keeps every account in place,
/// and a charge of zero changes nothing.
pub proof fn lemma_charge_preserves_ledger(s0: Seq<Account>, s1: Seq<Account>, idx: int, delta: int)
    requires
        accounts_wf(s0),
        accounts_with_charge(s0, s1, idx, delta),
        s0[idx].balance.staked + s0[idx].balance.locked <= s0[idx].balance.total - delta,
    ensures
        accounts_wf(s1),
        forall|a: AccountAddress| has_account(s1, a) == has_account(s0, a),
        forall|a: AccountAddress| has_account(s0, a) ==> account_index(s1, a) == account_index(
            s0,
            a,
        ),
        delta == 0 ==> s1 =~= s0,
{
    assert(forall|i: int| 0 <= i < s1.len() ==> #[trigger] s1[i].address == s0[i].address);
    assert forall|i: int| 0 <= i < s1.len() implies #[trigger] s1[i].wf() by {
        assert(s0[i].wf());
    }
    assert forall|a: AccountAddress| has_account(s1, a) == has_account(s0, a) by {
        if has_account(s0, a) {
            let i = account_index(s0, a);
            assert(same_account(s1[i].address, a));
        }
        if has_account(s1, a) {
            let i = choose|i: int| 0 <= i < s1.len() && same_account(#[trigger] s1[i].address, a);
            assert(same_account(s0[i].address, a));
        }
    }
    assert forall|a: AccountAddress| has_account(s0, a) implies account_index(s1, a)
        == account_index(s0, a) by {
        let i = account_index(s0, a);
        assert(same_account(s1[i].address, a));
        lemma_account_index_unique(s1, a, i);
    }
    if delta == 0 {
        assert forall|i: int| 0 <= i < s0.len() implies s1[i] == s0[i] by {
            if i == idx {
                assert(s1[i].balance =~= s0[i].balance);
            }
        }
    }
}

/// Lower the total balance of the entry at `i` by `delta`.  The charge must
/// stay within the entry's available balance, so the record stays well
/// formed.
pub fn charge_account(accounts: &mut Vec<Account>, i: usize, delta: u64)
    requires
        accounts_wf(old(accounts)@),
        i < old(accounts)@.len(),
        delta <= old(accounts)@[i as int].balance.spec_available(),
    ensures
        accounts_with_charge(old(accounts)@, final(accounts)@, i as int, delta as int),
        accounts_wf(final(accounts)@),
        forall|a: AccountAddress| has_account(final(accounts)@, a) == has_account(
            old(accounts)@,
            a,
        ),
        forall|a: AccountAddress| has_account(old(accounts)@, a) ==> account_index(
            final(accounts)@,
            a,
        ) == account_index(old(accounts)@, a),
{
    proof {
        assert(old(accounts)@[i as int].wf());
    }
    let entry = &mut accounts[i];
    entry.balance.total = entry.balance.total - delta;
    proof {
        lemma_charge_preserves_ledger(
            old(accounts)@,
            accounts@,
            i as int,
            delta as int,
        );
    }
}

/// The sum of all total balances in the ledger.
pub open spec fn spec_accounts_total(s: Seq<Account>) -> int
    decreases s.len(),
{
    if s.len() == 0 {
        0
    } else {
        spec_accounts_total(s.drop_last()) + s.last().balance.total
    }
}

/// The sum of all instance balances in the store.
pub open spec fn spec_contracts_total(s: Seq<Contract>) -> int
    decreases s.len(),
{
    if s.len() == 0 {
        0
    } else {
        spec_contracts_total(s.drop_last()) + s.last().self_balance
    }
}

/// Value moves with charges and nowhere else: a charge of `delta` against
/// one entry lowers the ledger's total balance by exactly `delta`.
pub proof fn lemma_charge_changes_total(s0: Seq<Account>, s1: Seq<Account>, idx: int, delta: int)
    requires
        accounts_with_charge(s0, s1, idx, delta),
    ensures
        spec_accounts_total(s1) == spec_accounts_total(s0) - delta,
    decreases s0.len(),
{
    if idx == s0.len() - 1 {
        assert(s1.drop_last() =~= s0.drop_last());
    } else {
        assert(accounts_with_charge(s0.drop_last(), s1.drop_last(), idx, delta));
        lemma_charge_changes_total(s0.drop_last(), s1.drop_last(), idx, delta);
        assert(s1.last() == s0.last());
    }
}

/// Extending the store by one instance adds exactly its balance to the
/// store's total.
pub proof fn lemma_contracts_total_extend(s0: Seq<Contract>, s1: Seq<Contract>)
    requires
        s1.len() == s0.len() + 1,
        forall|i: int| 0 <= i < s0.len() ==> s1[i] == s0[i],
    ensures
        spec_contracts_total(s1) == spec_contracts_total(s0) + s1.last().self_balance,
{
    assert(s1.drop_last() =~= s0);
}

/// Raise the total balance of the entry at `i` by `amount`.
pub fn refund_account(accounts: &mut Vec<Account>, i: usize, amount: u64)
    requires
        accounts_wf(old(accounts)@),
        i < old(accounts)@.len(),
        old(accounts)@[i as int].balance.total + amount <= u64::MAX,
    ensures
        accounts_with_charge(old(accounts)@, final(accounts)@, i as int, -(amount as int)),
        accounts_wf(final(accounts)@),
        forall|a: AccountAddress| has_account(final(accounts)@, a) == has_account(
            old(accounts)@,
            a,
        ),
        forall|a: AccountAddress| has_account(old(accounts)@, a) ==> account_index(
            final(accounts)@,
            a,
        ) == account_index(old(accounts)@, a),
{
    proof {
        assert(old(accounts)@[i as int].wf());
    }
    let entry = &mut accounts[i];
    entry.balance.total = entry.balance.total + amount;
    proof {
        lemma_charge_preserves_ledger(old(accounts)@, accounts@, i as int, -(amount as int));
    }
}

// ---------------------------------------------------------------------------
// Modules.
// ---------------------------------------------------------------------------

/// No two registered modules carry the same reference.
pub open spec fn modules_wf(s: Seq<ContractModule>) -> bool {
    forall|i: int, j: int|
        0 <= i < j < s.len() ==> (#[trigger] s[i].reference).0@ != (#[trigger] s[j].reference).0@
}

/// Whether a module with the given reference is registered.
pub open spec fn has_module(s: Seq<ContractModule>, reference: ModuleReference) -> bool {
    exists|i: int| 0 <= i < s.len() && (#[trigger] s[i].reference).0@ == reference.0@
}

/// The index of the module with the given reference.
pub open spec fn module_index(s: Seq<ContractModule>, reference: ModuleReference) -> int {
    choose|i: int| 0 <= i < s.len() && (#[trigger] s[i].reference).0@ == reference.0@
}

/// Under the uniqueness invariant, any entry matching `reference` is the
/// one entry registered under it.
pub proof fn lemma_module_index_unique(s: Seq<ContractModule>, reference: ModuleReference, i: int)
    requires
        modules_wf(s),
        0 <= i < s.len(),
        s[i].reference.0@ == reference.0@,
    ensures
        has_module(s, reference),
        module_index(s, reference) == i,
{
    assert(has_module(s, reference));
}

/// Find the module registered under `reference`.
pub fn find_module(modules: &Vec<ContractModule>, reference: &ModuleReference) -> (r: Option<
    usize,
>)
    requires
        modules_wf(modules@),
    ensures
        match r {
            Some(i) => has_module(modules@, *reference) && module_index(modules@, *reference)
                == i as int && i < modules@.len(),
            None => !has_module(modules@, *reference),
        },
{
    let n = modules.len();
    let mut i: usize = 0;
    while i < n
        invariant
            modules_wf(modules@),
            n == modules@.len(),
            i <= n,
            forall|j: int| 0 <= j < i ==> (#[trigger] modules@[j].reference).0@ != reference.0@,
        decreases n - i,
    {
        if module_refs_equal(&modules[i].reference, reference) {
            proof {
                lemma_module_index_unique(modules@, *reference, i as int);
            }
            return Some(i);
        }
        i = i + 1;
    }
    None
}

// ---------------------------------------------------------------------------
// Contract instances.
// ---------------------------------------------------------------------------

/// No two instances share an address.
pub open spec fn contracts_unique(s: Seq<Contract>) -> bool {
    forall|i: int, j: int|
        0 <= i < j < s.len() ==> #[trigger] s[i].address != #[trigger] s[j].address
}

/// No two instances share an address, and every index is below the next
/// index to be assigned.
pub open spec fn contracts_wf(s: Seq<Contract>, next_contract_index: int) -> bool {
    &&& contracts_unique(s)
    &&& forall|i: int| 0 <= i < s.len() ==> (#[trigger] s[i].address).index < next_contract_index
}

/// Whether an instance is stored at `address`.
pub open spec fn has_contract(s: Seq<Contract>, address: ContractAddress) -> bool {
    exists|i: int| 0 <= i < s.len() && (#[trigger] s[i].address) == address
}

/// The index of the instance stored at `address`.
pub open spec fn contract_index(s: Seq<Contract>, address: ContractAddress) -> int {
    choose|i: int| 0 <= i < s.len() && (#[trigger] s[i].address) == address
}

/// Under the uniqueness invariant, any entry at `address` is the one entry
/// stored there.
pub proof fn lemma_contract_index_unique(s: Seq<Contract>, address: ContractAddress, i: int)
    requires
        contracts_unique(s),
        0 <= i < s.len(),
        s[i].address == address,
    ensures
        has_contract(s, address),
        contract_index(s, address) == i,
{
    assert(has_contract(s, address));
}

/// Find the instance stored at `address`.
pub fn find_contract(contracts: &Vec<Contract>, address: &ContractAddress) -> (r: Option<usize>)
    requires
        contracts_unique(contracts@),
    ensures
        match r {
            Some(i) => has_contract(contracts@, *address) && contract_index(contracts@, *address)
                == i as int && i < contracts@.len(),
            None => !has_contract(contracts@, *address),
        },
{
    let n = contracts.len();
    let mut i: usize = 0;
    while i < n
        invariant
            contracts_unique(contracts@),
            n == contracts@.len(),
            i <= n,
            forall|j: int| 0 <= j < i ==> (#[trigger] contracts@[j].address) != *address,
        decreases n - i,
    {
        if contracts[i].address.index == address.index && contracts[i].address.subindex
            == address.subindex {
            proof {
                lemma_contract_index_unique(contracts@, *address, i as int);
            }
            return Some(i);
        }
        i = i + 1;
    }
    None
}

} // verus!
