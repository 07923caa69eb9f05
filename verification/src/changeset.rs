//! The changeset: staged, not-yet-committed mutations to account balances
//! and contract instances, produced while one top-level invocation
//! executes.  A nested call opens a checkpoint that is kept on success and
//! discarded on failure; nothing touches the real chain until the whole
//! changeset is applied, atomically, by [`crate::chain::Chain::apply_changeset`].
//!
//! Entries refer to ledger positions by index into the chain's stores,
//! which do not move while an invocation runs: the chain is only read
//! during execution.

use vstd::prelude::*;
use concordium_smart_contract_engine::v1::trie;
use crate::engine::state_clone;
use crate::types::{Account, Contract, ModuleReference};

verus! {

/// A staged account mutation: the entry at `index` in the account ledger
/// gets the new total balance.
#[derive(Clone, Copy)]
pub struct AccountChange {
    pub index: usize,
    pub new_total: u64,
}

/// A staged contract mutation: the instance at `index` in the contract
/// store gets a new state checkpoint, balance, or module.
pub struct ContractChange {
    pub index: usize,
    /// The staged state checkpoint, if the state was modified.
    pub new_state: Option<trie::PersistentState>,
    /// Bytes of newly stored state reported by the latest freeze, for
    /// billing.
    pub state_bytes: u64,
    /// Bumped on every staged state write; lets a caller detect that a
    /// nested call re-entered it and changed its state.
    pub modification_seq: u64,
    /// The staged balance of the instance.
    pub new_balance: u64,
    /// The staged module reference, if the instance was upgraded.
    pub new_module: Option<ModuleReference>,
}

/// One level of staged mutations.
pub struct ChangesetLevel {
    pub accounts: Vec<AccountChange>,
    pub contracts: Vec<ContractChange>,
}

/// The changeset: the current level and the stack of checkpoints beneath
/// it.
pub struct Changeset {
    pub parents: Vec<ChangesetLevel>,
    pub cur: ChangesetLevel,
}

/// Staged account mutations are well formed for a ledger: indices in
/// range and distinct, and each staged total still covers the entry's
/// staked and locked parts.
pub open spec fn account_changes_wf(accounts: Seq<Account>, cs: Seq<AccountChange>) -> bool {
    &&& forall|i: int| 0 <= i < cs.len() ==> (#[trigger] cs[i].index) < accounts.len()
    &&& forall|i: int, j: int|
        0 <= i < j < cs.len() ==> (#[trigger] cs[i].index) != (#[trigger] cs[j].index)
    &&& forall|i: int|
        0 <= i < cs.len() ==> accounts[(#[trigger] cs[i].index) as int].balance.staked + accounts[
            cs[i].index as int
        ].balance.locked <= cs[i].new_total
}

/// Staged contract mutations are well formed for a store of `n_contracts`
/// instances: indices in range and distinct.
pub open spec fn contract_changes_wf(n_contracts: int, cs: Seq<ContractChange>) -> bool {
    &&& forall|i: int| 0 <= i < cs.len() ==> (#[trigger] cs[i].index) < n_contracts
    &&& contract_changes_distinct(cs)
}

impl ChangesetLevel {
    /// Well-formedness of one level for the given ledger and store size.
    pub open spec fn wf(self, accounts: Seq<Account>, n_contracts: int) -> bool {
        &&& account_changes_wf(accounts, self.accounts@)
        &&& contract_changes_wf(n_contracts, self.contracts@)
    }

    /// An empty level.
    pub fn new() -> (r: ChangesetLevel)
        ensures
            r.accounts@.len() == 0,
            r.contracts@.len() == 0,
    {
        ChangesetLevel { accounts: Vec::new(), contracts: Vec::new() }
    }

    /// A deep copy of the level.
    pub fn duplicate(&self) -> (r: ChangesetLevel)
        ensures
            r.accounts@ == self.accounts@,
            r.contracts@ == self.contracts@,
    {
        let mut accounts: Vec<AccountChange> = Vec::new();
        let n = self.accounts.len();
        let mut i: usize = 0;
        while i < n
            invariant
                n == self.accounts@.len(),
                i <= n,
                accounts@ == self.accounts@.subrange(0, i as int),
            decreases n - i,
        {
            accounts.push(self.accounts[i]);
            proof {
                assert(accounts@ =~= self.accounts@.subrange(0, i + 1));
            }
            i = i + 1;
        }
        let mut contracts: Vec<ContractChange> = Vec::new();
        let m = self.contracts.len();
        let mut j: usize = 0;
        while j < m
            invariant
                m == self.contracts@.len(),
                j <= m,
                contracts@ == self.contracts@.subrange(0, j as int),
            decreases m - j,
        {
            let entry = &self.contracts[j];
            let new_state = match &entry.new_state {
                Some(state) => Some(state_clone(state)),
                None => None,
            };
            let copy = ContractChange {
                index: entry.index,
                new_state,
                state_bytes: entry.state_bytes,
                modification_seq: entry.modification_seq,
                new_balance: entry.new_balance,
                new_module: entry.new_module,
            };
            proof {
                assert(copy == self.contracts@[j as int]);
            }
            contracts.push(copy);
            proof {
                assert(contracts@ =~= self.contracts@.subrange(0, j + 1));
            }
            j = j + 1;
        }
        proof {
            assert(accounts@ =~= self.accounts@);
            assert(contracts@ =~= self.contracts@);
        }
        ChangesetLevel { accounts, contracts }
    }

    /// Find the staged mutation of the account entry at `index`.
    pub fn find_account_change(&self, index: usize) -> (r: Option<usize>)
        ensures
            match r {
                Some(i) => i < self.accounts@.len() && self.accounts@[i as int].index == index,
                None => forall|i: int|
                    0 <= i < self.accounts@.len() ==> (#[trigger] self.accounts@[i].index) != index,
            },
    {
        let n = self.accounts.len();
        let mut i: usize = 0;
        while i < n
            invariant
                n == self.accounts@.len(),
                i <= n,
                forall|j: int| 0 <= j < i ==> (#[trigger] self.accounts@[j].index) != index,
            decreases n - i,
        {
            if self.accounts[i].index == index {
                return Some(i);
            }
            i = i + 1;
        }
        None
    }

    /// Find the staged mutation of the contract entry at `index`.
    pub fn find_contract_change(&self, index: usize) -> (r: Option<usize>)
        ensures
            match r {
                Some(i) => i < self.contracts@.len() && self.contracts@[i as int].index == index,
                None => forall|i: int|
                    0 <= i < self.contracts@.len() ==> (#[trigger] self.contracts@[i].index)
                        != index,
            },
    {
        let n = self.contracts.len();
        let mut i: usize = 0;
        while i < n
            invariant
                n == self.contracts@.len(),
                i <= n,
                forall|j: int| 0 <= j < i ==> (#[trigger] self.contracts@[j].index) != index,
            decreases n - i,
        {
            if self.contracts[i].index == index {
                return Some(i);
            }
            i = i + 1;
        }
        None
    }
}

/// The staged total of the ledger entry at `idx` under a list of staged
/// account mutations: the staged value if one names `idx`, the chain's
/// otherwise.
pub open spec fn spec_staged_total_of(accounts: Seq<Account>, cs: Seq<AccountChange>, idx: int) -> int {
    if exists|i: int| 0 <= i < cs.len() && (#[trigger] cs[i].index) == idx {
        let i = choose|i: int| 0 <= i < cs.len() && (#[trigger] cs[i].index) == idx;
        cs[i].new_total as int
    } else {
        accounts[idx].balance.total as int
    }
}

/// The staged total of the ledger entry at `idx`: the changeset's value if
/// one is staged, the chain's otherwise.
pub open spec fn spec_staged_total(accounts: Seq<Account>, changeset: Changeset, idx: int) -> int {
    spec_staged_total_of(accounts, changeset.cur.accounts@, idx)
}

/// The staged balance of the instance at `idx` under a list of staged
/// contract mutations.
pub open spec fn spec_staged_contract_balance_of(
    contracts: Seq<Contract>,
    cs: Seq<ContractChange>,
    idx: int,
) -> int {
    if spec_has_contract_change_of(cs, idx) {
        spec_contract_change_at_of(cs, idx).new_balance as int
    } else {
        contracts[idx].self_balance as int
    }
}

/// Replacing one staged account entry, keeping its index, leaves every
/// other account's staged total unchanged.
proof fn lemma_staged_total_update(
    before: Changeset,
    after: Changeset,
    accounts: Seq<Account>,
    i: int,
)
    requires
        forall|p: int, q: int|
            0 <= p < q < before.cur.accounts@.len() ==> (#[trigger] before.cur.accounts@[p].index)
                != (#[trigger] before.cur.accounts@[q].index),
        after.cur.accounts@.len() == before.cur.accounts@.len(),
        0 <= i < before.cur.accounts@.len(),
        forall|p: int|
            0 <= p < before.cur.accounts@.len() && p != i ==> after.cur.accounts@[p]
                == before.cur.accounts@[p],
        after.cur.accounts@[i].index == before.cur.accounts@[i].index,
    ensures
        forall|idx: int|
            idx != before.cur.accounts@[i].index as int ==> spec_staged_total(accounts, after, idx)
                == spec_staged_total(accounts, before, idx),
        spec_staged_total(accounts, after, after.cur.accounts@[i].index as int)
            == after.cur.accounts@[i].new_total,
{
    let bs = before.cur.accounts@;
    let fs = after.cur.accounts@;
    assert forall|p: int, q: int| 0 <= p < q < fs.len() implies (#[trigger] fs[p].index) != (
    #[trigger] fs[q].index) by {
        assert(fs[p].index == bs[p].index && fs[q].index == bs[q].index);
    }
    let idx0 = fs[i].index as int;
    assert(exists|p: int| 0 <= p < fs.len() && (#[trigger] fs[p].index) == idx0);
    let w = choose|p: int| 0 <= p < fs.len() && (#[trigger] fs[p].index) == idx0;
    if w != i {
        if w < i {
            assert(fs[w].index != fs[i].index);
        } else {
            assert(fs[i].index != fs[w].index);
        }
    }
    assert(spec_staged_total(accounts, after, idx0) == fs[i].new_total as int);
    assert forall|idx: int| idx != idx0 implies spec_staged_total(accounts, after, idx)
        == spec_staged_total(accounts, before, idx) by {
        if exists|p: int| 0 <= p < bs.len() && (#[trigger] bs[p].index) == idx {
            let p = choose|p: int| 0 <= p < bs.len() && (#[trigger] bs[p].index) == idx;
            assert(p != i);
            assert(fs[p].index == idx);
            let q = choose|q: int| 0 <= q < fs.len() && (#[trigger] fs[q].index) == idx;
            if q != p {
                if q < p {
                    assert(fs[q].index != fs[p].index);
                } else {
                    assert(fs[p].index != fs[q].index);
                }
            }
            let q2 = choose|q2: int| 0 <= q2 < bs.len() && (#[trigger] bs[q2].index) == idx;
            if q2 != p {
                if q2 < p {
                    assert(bs[q2].index != bs[p].index);
                } else {
                    assert(bs[p].index != bs[q2].index);
                }
            }
            assert(fs[q] == bs[q2]);
        } else {
            if exists|p: int| 0 <= p < fs.len() && (#[trigger] fs[p].index) == idx {
                let p = choose|p: int| 0 <= p < fs.len() && (#[trigger] fs[p].index) == idx;
                assert(p != i);
                assert(bs[p].index == idx);
            }
        }
    }
}

/// Appending a staged entry for a fresh account index leaves every other
/// account's staged total unchanged and stages exactly the new total.
proof fn lemma_staged_total_push(
    before: Changeset,
    after: Changeset,
    accounts: Seq<Account>,
    entry: AccountChange,
)
    requires
        forall|p: int, q: int|
            0 <= p < q < before.cur.accounts@.len() ==> (#[trigger] before.cur.accounts@[p].index)
                != (#[trigger] before.cur.accounts@[q].index),
        after.cur.accounts@ == before.cur.accounts@.push(entry),
        forall|p: int|
            0 <= p < before.cur.accounts@.len() ==> (#[trigger] before.cur.accounts@[p].index)
                != entry.index,
    ensures
        forall|idx: int|
            idx != entry.index as int ==> spec_staged_total(accounts, after, idx)
                == spec_staged_total(accounts, before, idx),
        spec_staged_total(accounts, after, entry.index as int) == entry.new_total,
{
    let bs = before.cur.accounts@;
    let fs = after.cur.accounts@;
    let n = bs.len() as int;
    assert(fs[n] == entry);
    assert(fs[n].index == entry.index);
    assert(exists|p: int| 0 <= p < fs.len() && (#[trigger] fs[p].index) == entry.index as int);
    let w = choose|p: int| 0 <= p < fs.len() && (#[trigger] fs[p].index) == entry.index as int;
    if w != n {
        assert(fs[w] == bs[w]);
        assert(bs[w].index != entry.index);
    }
    assert(spec_staged_total(accounts, after, entry.index as int) == entry.new_total as int);
    assert forall|idx: int| idx != entry.index as int implies spec_staged_total(
        accounts,
        after,
        idx,
    ) == spec_staged_total(accounts, before, idx) by {
        if exists|p: int| 0 <= p < bs.len() && (#[trigger] bs[p].index) == idx {
            let p = choose|p: int| 0 <= p < bs.len() && (#[trigger] bs[p].index) == idx;
            assert(fs[p].index == idx);
            let q = choose|q: int| 0 <= q < fs.len() && (#[trigger] fs[q].index) == idx;
            if q == n {
                assert(false);
            } else if q != p {
                assert(fs[q] == bs[q]);
                if q < p {
                    assert(bs[q].index != bs[p].index);
                } else {
                    assert(bs[p].index != bs[q].index);
                }
            }
            assert(fs[q] == bs[p]);
        } else {
            if exists|p: int| 0 <= p < fs.len() && (#[trigger] fs[p].index) == idx {
                let p = choose|p: int| 0 <= p < fs.len() && (#[trigger] fs[p].index) == idx;
                assert(p != n);
                assert(bs[p].index == idx);
            }
        }
    }
}

/// Writing the last staged account mutation into the ledger preserves
/// every entry's staged view over the remaining mutations.
pub proof fn lemma_apply_account_step(
    accounts0: Seq<Account>,
    accounts1: Seq<Account>,
    cs: Seq<AccountChange>,
)
    requires
        cs.len() >= 1,
        forall|p: int, q: int|
            0 <= p < q < cs.len() ==> (#[trigger] cs[p].index) != (#[trigger] cs[q].index),
        accounts1.len() == accounts0.len(),
        (cs.last().index as int) < accounts0.len(),
        forall|i: int|
            0 <= i < accounts0.len() && i != cs.last().index as int ==> accounts1[i]
                == accounts0[i],
        accounts1[cs.last().index as int].balance.total == cs.last().new_total,
    ensures
        forall|idx: int|
            0 <= idx < accounts0.len() ==> spec_staged_total_of(accounts1, cs.drop_last(), idx)
                == spec_staged_total_of(accounts0, cs, idx),
{
    let n = cs.len() - 1;
    let idx0 = cs.last().index as int;
    let rest = cs.drop_last();
    assert forall|idx: int| 0 <= idx < accounts0.len() implies spec_staged_total_of(
        accounts1,
        rest,
        idx,
    ) == spec_staged_total_of(accounts0, cs, idx) by {
        if idx == idx0 {
            assert forall|p: int| 0 <= p < rest.len() implies (#[trigger] rest[p].index)
                != idx by {
                assert(rest[p] == cs[p]);
                assert(cs[p].index != cs[n].index);
            }
            assert(cs[n].index == idx);
            assert(exists|i: int| 0 <= i < cs.len() && (#[trigger] cs[i].index) == idx);
            let w = choose|i: int| 0 <= i < cs.len() && (#[trigger] cs[i].index) == idx;
            if w != n {
                assert(cs[w].index != cs[n].index);
            }
        } else {
            if exists|p: int| 0 <= p < rest.len() && (#[trigger] rest[p].index) == idx {
                let p = choose|p: int| 0 <= p < rest.len() && (#[trigger] rest[p].index) == idx;
                assert(rest[p] == cs[p]);
                assert(cs[p].index == idx);
                let q = choose|q: int| 0 <= q < cs.len() && (#[trigger] cs[q].index) == idx;
                if q != p {
                    if q < p {
                        assert(cs[q].index != cs[p].index);
                    } else if q < n {
                        assert(cs[p].index != cs[q].index);
                    } else {
                        assert(cs[p].index != cs[n].index);
                    }
                }
                assert(rest[p] == cs[q]);
            } else {
                if exists|q: int| 0 <= q < cs.len() && (#[trigger] cs[q].index) == idx {
                    let q = choose|q: int| 0 <= q < cs.len() && (#[trigger] cs[q].index) == idx;
                    if q < n {
                        assert(rest[q].index == idx);
                    }
                }
                assert(accounts1[idx] == accounts0[idx]);
            }
        }
    }
}

/// Writing the last staged contract mutation's balance into the store
/// preserves every instance's staged balance over the remaining
/// mutations.
pub proof fn lemma_apply_contract_step(
    contracts0: Seq<Contract>,
    contracts1: Seq<Contract>,
    cs: Seq<ContractChange>,
)
    requires
        cs.len() >= 1,
        contract_changes_distinct(cs),
        contracts1.len() == contracts0.len(),
        (cs.last().index as int) < contracts0.len(),
        forall|i: int|
            0 <= i < contracts0.len() && i != cs.last().index as int ==> contracts1[i]
                == contracts0[i],
        contracts1[cs.last().index as int].self_balance == cs.last().new_balance,
    ensures
        forall|idx: int|
            0 <= idx < contracts0.len() ==> spec_staged_contract_balance_of(
                contracts1,
                cs.drop_last(),
                idx,
            ) == spec_staged_contract_balance_of(contracts0, cs, idx),
{
    let n = cs.len() - 1;
    let idx0 = cs.last().index as int;
    let rest = cs.drop_last();
    assert forall|idx: int| 0 <= idx < contracts0.len() implies spec_staged_contract_balance_of(
        contracts1,
        rest,
        idx,
    ) == spec_staged_contract_balance_of(contracts0, cs, idx) by {
        if idx == idx0 {
            assert forall|p: int| 0 <= p < rest.len() implies (#[trigger] rest[p].index)
                != idx by {
                assert(rest[p] == cs[p]);
                assert(cs[p].index != cs[n].index);
            }
            assert(cs[n].index == idx);
            assert(spec_has_contract_change_of(cs, idx));
            let w = choose|i: int| 0 <= i < cs.len() && (#[trigger] cs[i].index) == idx;
            if w != n {
                assert(cs[w].index != cs[n].index);
            }
        } else {
            if spec_has_contract_change_of(rest, idx) {
                let p = choose|p: int| 0 <= p < rest.len() && (#[trigger] rest[p].index) == idx;
                assert(rest[p] == cs[p]);
                assert(cs[p].index == idx);
                let q = choose|q: int| 0 <= q < cs.len() && (#[trigger] cs[q].index) == idx;
                if q != p {
                    if q < p {
                        assert(cs[q].index != cs[p].index);
                    } else if q < n {
                        assert(cs[p].index != cs[q].index);
                    } else {
                        assert(cs[p].index != cs[n].index);
                    }
                }
                assert(rest[p] == cs[q]);
            } else {
                if spec_has_contract_change_of(cs, idx) {
                    let q = choose|q: int| 0 <= q < cs.len() && (#[trigger] cs[q].index) == idx;
                    if q < n {
                        assert(rest[q].index == idx);
                    }
                }
                assert(contracts1[idx] == contracts0[idx]);
            }
        }
    }
}

/// No two staged contract entries name the same store index.
pub open spec fn contract_changes_distinct(cs: Seq<ContractChange>) -> bool {
    forall|i: int, j: int|
        0 <= i < j < cs.len() ==> (#[trigger] cs[i].index) != (#[trigger] cs[j].index)
}

/// Whether some entry of the list stages the contract at `idx`.
pub open spec fn spec_has_contract_change_of(cs: Seq<ContractChange>, idx: int) -> bool {
    exists|i: int| 0 <= i < cs.len() && (#[trigger] cs[i].index) == idx
}

/// The entry of the list staging the contract at `idx`.
pub open spec fn spec_contract_change_at_of(cs: Seq<ContractChange>, idx: int) -> ContractChange {
    cs[choose|i: int| 0 <= i < cs.len() && (#[trigger] cs[i].index) == idx]
}

/// Whether some entry stages the contract at `idx`.
pub open spec fn spec_has_contract_change(changeset: Changeset, idx: int) -> bool {
    spec_has_contract_change_of(changeset.cur.contracts@, idx)
}

/// The entry staging the contract at `idx`.
pub open spec fn spec_contract_change_at(changeset: Changeset, idx: int) -> ContractChange {
    spec_contract_change_at_of(changeset.cur.contracts@, idx)
}

/// The staged balance of the instance at `idx`: the changeset's value if
/// one is staged, the chain's otherwise.
pub open spec fn spec_staged_contract_balance(
    contracts: Seq<Contract>,
    changeset: Changeset,
    idx: int,
) -> int {
    spec_staged_contract_balance_of(contracts, changeset.cur.contracts@, idx)
}

/// The staged modification sequence number of the instance at `idx`; zero
/// when nothing is staged.
pub open spec fn spec_staged_seq(changeset: Changeset, idx: int) -> int {
    if spec_has_contract_change(changeset, idx) {
        spec_contract_change_at(changeset, idx).modification_seq as int
    } else {
        0
    }
}

/// The staged module reference of the instance at `idx`: the staged
/// upgrade if one is staged, the chain's module otherwise.
pub open spec fn spec_staged_module(
    contracts: Seq<Contract>,
    changeset: Changeset,
    idx: int,
) -> ModuleReference {
    if spec_has_contract_change(changeset, idx) && spec_contract_change_at(
        changeset,
        idx,
    ).new_module is Some {
        spec_contract_change_at(changeset, idx).new_module.unwrap()
    } else {
        contracts[idx].module_reference
    }
}

/// Whether a state checkpoint is staged for the instance at `idx`.
pub open spec fn spec_staged_state_present(changeset: Changeset, idx: int) -> bool {
    spec_has_contract_change(changeset, idx) && spec_contract_change_at(
        changeset,
        idx,
    ).new_state is Some
}

/// The billed byte count staged for the instance at `idx`; zero when no
/// state is staged.
pub open spec fn spec_staged_state_bytes(changeset: Changeset, idx: int) -> int {
    if spec_staged_state_present(changeset, idx) {
        spec_contract_change_at(changeset, idx).state_bytes as int
    } else {
        0
    }
}

/// The total of the billed byte counts of every staged state.
pub open spec fn spec_state_bytes_total(cs: Seq<ContractChange>) -> int
    decreases cs.len(),
{
    if cs.len() == 0 {
        0
    } else {
        spec_state_bytes_total(cs.drop_last()) + (if cs.last().new_state is Some {
            cs.last().state_bytes as int
        } else {
            0
        })
    }
}

/// The byte total is never negative.
proof fn lemma_state_bytes_total_nonneg(cs: Seq<ContractChange>)
    ensures
        spec_state_bytes_total(cs) >= 0,
    decreases cs.len(),
{
    if cs.len() > 0 {
        lemma_state_bytes_total_nonneg(cs.drop_last());
    }
}

/// Whether any entry stages a state checkpoint.
pub open spec fn spec_any_staged_state(cs: Seq<ContractChange>) -> bool {
    exists|i: int| 0 <= i < cs.len() && (#[trigger] cs[i].new_state) is Some
}

/// Under distinctness, the entry found at position `i` is the one entry
/// staging its index.
proof fn lemma_contract_change_unique(cs: Changeset, i: int)
    requires
        contract_changes_distinct(cs.cur.contracts@),
        0 <= i < cs.cur.contracts@.len(),
    ensures
        spec_has_contract_change(cs, cs.cur.contracts@[i].index as int),
        spec_contract_change_at(cs, cs.cur.contracts@[i].index as int) == cs.cur.contracts@[i],
{
    let idx = cs.cur.contracts@[i].index as int;
    assert(spec_has_contract_change(cs, idx));
    let j = choose|j: int|
        0 <= j < cs.cur.contracts@.len() && (#[trigger] cs.cur.contracts@[j].index) == idx;
    if i < j {
        assert(cs.cur.contracts@[i].index != cs.cur.contracts@[j].index);
    } else if j < i {
        assert(cs.cur.contracts@[j].index != cs.cur.contracts@[i].index);
    }
}

/// Replacing one staged entry, keeping its index, leaves every other
/// instance's staged views unchanged and makes the entry the one staging
/// its index.
proof fn lemma_staged_views_update(
    before: Changeset,
    after: Changeset,
    contracts: Seq<Contract>,
    i: int,
)
    requires
        contract_changes_distinct(before.cur.contracts@),
        contract_changes_distinct(after.cur.contracts@),
        after.cur.contracts@.len() == before.cur.contracts@.len(),
        0 <= i < before.cur.contracts@.len(),
        forall|p: int|
            0 <= p < before.cur.contracts@.len() && p != i ==> after.cur.contracts@[p]
                == before.cur.contracts@[p],
        after.cur.contracts@[i].index == before.cur.contracts@[i].index,
    ensures
        forall|idx: int|
            idx != before.cur.contracts@[i].index as int ==> spec_staged_contract_balance(
                contracts,
                after,
                idx,
            ) == spec_staged_contract_balance(contracts, before, idx),
        forall|idx: int|
            idx != before.cur.contracts@[i].index as int ==> spec_staged_seq(after, idx)
                == spec_staged_seq(before, idx),
        forall|idx: int|
            idx != before.cur.contracts@[i].index as int ==> spec_staged_module(
                contracts,
                after,
                idx,
            ) == spec_staged_module(contracts, before, idx),
        forall|idx: int|
            idx != before.cur.contracts@[i].index as int ==> spec_staged_state_present(after, idx)
                == spec_staged_state_present(before, idx),
        forall|idx: int|
            idx != before.cur.contracts@[i].index as int ==> spec_staged_state_bytes(after, idx)
                == spec_staged_state_bytes(before, idx),
        spec_has_contract_change(after, after.cur.contracts@[i].index as int),
        spec_contract_change_at(after, after.cur.contracts@[i].index as int)
            == after.cur.contracts@[i],
{
    lemma_contract_change_unique(after, i);
    let bs = before.cur.contracts@;
    let fs = after.cur.contracts@;
    assert forall|idx: int| idx != before.cur.contracts@[i].index as int implies {
        &&& spec_has_contract_change_of(fs, idx) == spec_has_contract_change_of(bs, idx)
        &&& spec_has_contract_change_of(bs, idx) ==> spec_contract_change_at_of(fs, idx)
            == spec_contract_change_at_of(bs, idx)
    } by {
        if spec_has_contract_change(before, idx) {
            let p = choose|p: int|
                0 <= p < before.cur.contracts@.len() && (#[trigger] before.cur.contracts@[p].index)
                    == idx;
            assert(p != i);
            assert(after.cur.contracts@[p].index == idx);
            lemma_contract_change_unique(after, p);
            lemma_contract_change_unique(before, p);
        }
        if spec_has_contract_change(after, idx) {
            let p = choose|p: int|
                0 <= p < after.cur.contracts@.len() && (#[trigger] after.cur.contracts@[p].index)
                    == idx;
            assert(p != i);
            assert(before.cur.contracts@[p].index == idx);
        }
    }
}

/// Appending a staged entry for a fresh index leaves every other
/// instance's staged views unchanged and makes the entry the one staging
/// its index.
proof fn lemma_staged_views_push(
    before: Changeset,
    after: Changeset,
    contracts: Seq<Contract>,
    entry: ContractChange,
)
    requires
        contract_changes_distinct(before.cur.contracts@),
        contract_changes_distinct(after.cur.contracts@),
        after.cur.contracts@ == before.cur.contracts@.push(entry),
        !spec_has_contract_change(before, entry.index as int),
    ensures
        forall|idx: int|
            idx != entry.index as int ==> spec_staged_contract_balance(contracts, after, idx)
                == spec_staged_contract_balance(contracts, before, idx),
        forall|idx: int|
            idx != entry.index as int ==> spec_staged_seq(after, idx) == spec_staged_seq(
                before,
                idx,
            ),
        forall|idx: int|
            idx != entry.index as int ==> spec_staged_module(contracts, after, idx)
                == spec_staged_module(contracts, before, idx),
        forall|idx: int|
            idx != entry.index as int ==> spec_staged_state_present(after, idx)
                == spec_staged_state_present(before, idx),
        forall|idx: int|
            idx != entry.index as int ==> spec_staged_state_bytes(after, idx)
                == spec_staged_state_bytes(before, idx),
        spec_has_contract_change(after, entry.index as int),
        spec_contract_change_at(after, entry.index as int) == entry,
{
    let n = before.cur.contracts@.len() as int;
    assert(after.cur.contracts@[n] == entry);
    lemma_contract_change_unique(after, n);
    let bs = before.cur.contracts@;
    let fs = after.cur.contracts@;
    assert forall|idx: int| idx != entry.index as int implies {
        &&& spec_has_contract_change_of(fs, idx) == spec_has_contract_change_of(bs, idx)
        &&& spec_has_contract_change_of(bs, idx) ==> spec_contract_change_at_of(fs, idx)
            == spec_contract_change_at_of(bs, idx)
    } by {
        if spec_has_contract_change(before, idx) {
            let p = choose|p: int|
                0 <= p < before.cur.contracts@.len() && (#[trigger] before.cur.contracts@[p].index)
                    == idx;
            assert(after.cur.contracts@[p].index == idx);
            lemma_contract_change_unique(after, p);
            lemma_contract_change_unique(before, p);
        }
        if spec_has_contract_change(after, idx) {
            let p = choose|p: int|
                0 <= p < after.cur.contracts@.len() && (#[trigger] after.cur.contracts@[p].index)
                    == idx;
            assert(p != n);
            assert(before.cur.contracts@[p].index == idx);
        }
    }
}

/// Mutating any field but `index` of one staged contract entry keeps the
/// collection well formed.
proof fn lemma_contract_changes_update_field(
    n_contracts: int,
    before: Seq<ContractChange>,
    after: Seq<ContractChange>,
    i: int,
)
    requires
        contract_changes_wf(n_contracts, before),
        0 <= i < before.len(),
        after.len() == before.len(),
        after[i].index == before[i].index,
        forall|p: int| 0 <= p < before.len() && p != i ==> after[p] == before[p],
    ensures
        contract_changes_wf(n_contracts, after),
{
    assert forall|p: int| 0 <= p < after.len() implies (#[trigger] after[p].index) < n_contracts by {
        assert(after[p].index == before[p].index);
    }
    assert forall|p: int, q: int| 0 <= p < q < after.len() implies (#[trigger] after[p].index) != (
    #[trigger] after[q].index) by {
        assert(after[p].index == before[p].index && after[q].index == before[q].index);
    }
}

impl Changeset {
    /// Well-formedness of every level for the given ledger and store size.
    pub open spec fn wf(self, accounts: Seq<Account>, n_contracts: int) -> bool {
        &&& self.cur.wf(accounts, n_contracts)
        &&& forall|k: int|
            0 <= k < self.parents@.len() ==> (#[trigger] self.parents@[k]).wf(
                accounts,
                n_contracts,
            )
    }

    /// An empty changeset.
    pub fn new() -> (r: Changeset)
        ensures
            r.parents@.len() == 0,
            r.cur.accounts@.len() == 0,
            r.cur.contracts@.len() == 0,
            forall|accounts: Seq<Account>, n: int| n >= 0 ==> r.wf(accounts, n),
    {
        Changeset { parents: Vec::new(), cur: ChangesetLevel::new() }
    }

    /// Open a checkpoint: remember the current level so that a failing
    /// nested call can be rolled back.
    pub fn checkpoint(&mut self, Ghost(accounts): Ghost<Seq<Account>>, Ghost(n_contracts): Ghost<int>)
        requires
            old(self).wf(accounts, n_contracts),
        ensures
            final(self).wf(accounts, n_contracts),
            final(self).cur == old(self).cur,
            final(self).parents@.len() == old(self).parents@.len() + 1,
            final(self).parents@.last().accounts@ == old(self).cur.accounts@,
            final(self).parents@.last().contracts@ == old(self).cur.contracts@,
    {
        let saved = self.cur.duplicate();
        self.parents.push(saved);
    }

    /// Discard everything staged since the latest checkpoint.
    pub fn rollback(&mut self, Ghost(accounts): Ghost<Seq<Account>>, Ghost(n_contracts): Ghost<int>)
        requires
            old(self).wf(accounts, n_contracts),
            old(self).parents@.len() >= 1,
        ensures
            final(self).wf(accounts, n_contracts),
            final(self).cur == old(self).parents@.last(),
            final(self).parents@.len() == old(self).parents@.len() - 1,
    {
        match self.parents.pop() {
            Some(saved) => {
                self.cur = saved;
            }
            None => {
                proof {
                    assert(false);
                }
            }
        }
    }

    /// Keep everything staged since the latest checkpoint and drop the
    /// checkpoint.
    pub fn commit_checkpoint(
        &mut self,
        Ghost(accounts): Ghost<Seq<Account>>,
        Ghost(n_contracts): Ghost<int>,
    )
        requires
            old(self).wf(accounts, n_contracts),
            old(self).parents@.len() >= 1,
        ensures
            final(self).wf(accounts, n_contracts),
            final(self).cur == old(self).cur,
            final(self).parents@.len() == old(self).parents@.len() - 1,
    {
        let _ = self.parents.pop();
    }

    /// The staged total of the account entry at `index`, or its chain
    /// total if nothing is staged.
    pub fn account_total(&self, accounts: &Vec<Account>, index: usize) -> (r: u64)
        requires
            index < accounts@.len(),
            account_changes_wf(accounts@, self.cur.accounts@),
            crate::ledger::accounts_wf(accounts@),
        ensures
            r == spec_staged_total(accounts@, *self, index as int),
            accounts@[index as int].balance.staked + accounts@[index as int].balance.locked <= r,
    {
        proof {
            assert(accounts@[index as int].wf());
        }
        match self.cur.find_account_change(index) {
            Some(i) => {
                proof {
                    let cs = self.cur.accounts@;
                    let j = choose|j: int|
                        0 <= j < cs.len() && (#[trigger] cs[j].index) == index;
                    if j != i as int {
                        assert(cs[j].index != cs[i as int].index);
                    }
                }
                self.cur.accounts[i].new_total
            }
            None => accounts[index].balance.total,
        }
    }

    /// Stage a new total for the account entry at `index`.
    pub fn stage_account_total(
        &mut self,
        Ghost(accounts): Ghost<Seq<Account>>,
        Ghost(n_contracts): Ghost<int>,
        index: usize,
        new_total: u64,
    )
        requires
            old(self).wf(accounts, n_contracts),
            index < accounts.len(),
            accounts[index as int].balance.staked + accounts[index as int].balance.locked
                <= new_total,
        ensures
            final(self).wf(accounts, n_contracts),
            final(self).parents == old(self).parents,
            final(self).cur.contracts == old(self).cur.contracts,
            spec_staged_total(accounts, *final(self), index as int) == new_total,
            forall|j: int|
                j != index as int ==> spec_staged_total(accounts, *final(self), j)
                    == spec_staged_total(accounts, *old(self), j),
    {
        match self.cur.find_account_change(index) {
            Some(i) => {
                let entry = &mut self.cur.accounts[i];
                entry.new_total = new_total;
                proof {
                    let cs = self.cur.accounts@;
                    let os = old(self).cur.accounts@;
                    assert forall|p: int, q: int| 0 <= p < q < cs.len() implies (
                    #[trigger] cs[p].index) != (#[trigger] cs[q].index) by {
                        assert(cs[p].index == os[p].index && cs[q].index == os[q].index);
                    }
                    assert forall|p: int| 0 <= p < cs.len() implies (#[trigger] cs[p].index)
                        < accounts.len() && accounts[cs[p].index as int].balance.staked + accounts[
                        cs[p].index as int
                    ].balance.locked <= cs[p].new_total by {
                        if p != i {
                            assert(cs[p] == os[p]);
                        }
                    }
                    lemma_staged_total_update(*old(self), *self, accounts, i as int);
                }
            }
            None => {
                self.cur.accounts.push(AccountChange { index, new_total });
                proof {
                    let cs = self.cur.accounts@;
                    let os = old(self).cur.accounts@;
                    let n = cs.len() - 1;
                    assert forall|p: int, q: int| 0 <= p < q < cs.len() implies (
                    #[trigger] cs[p].index) != (#[trigger] cs[q].index) by {
                        if q < n {
                            assert(cs[p] == os[p] && cs[q] == os[q]);
                        } else {
                            assert(cs[p] == os[p]);
                        }
                    }
                    lemma_staged_total_push(
                        *old(self),
                        *self,
                        accounts,
                        AccountChange { index, new_total },
                    );
                }
            }
        }
    }

    /// The index of the staged mutation of the contract entry at `index`,
    /// creating a fresh entry seeded from the instance if none is staged.
    pub fn contract_change_mut(
        &mut self,
        Ghost(accounts): Ghost<Seq<Account>>,
        Ghost(n_contracts): Ghost<int>,
        contracts: &Vec<Contract>,
        index: usize,
    ) -> (r: usize)
        requires
            old(self).wf(accounts, n_contracts),
            index < contracts@.len(),
            contracts@.len() <= n_contracts,
        ensures
            final(self).wf(accounts, n_contracts),
            final(self).parents == old(self).parents,
            final(self).cur.accounts == old(self).cur.accounts,
            r < final(self).cur.contracts@.len(),
            final(self).cur.contracts@[r as int].index == index,
            spec_has_contract_change(*final(self), index as int),
            spec_contract_change_at(*final(self), index as int)
                == final(self).cur.contracts@[r as int],
            forall|j: int|
                spec_staged_contract_balance(contracts@, *final(self), j)
                    == spec_staged_contract_balance(contracts@, *old(self), j),
            forall|j: int| spec_staged_seq(*final(self), j) == spec_staged_seq(*old(self), j),
            forall|j: int|
                spec_staged_module(contracts@, *final(self), j) == spec_staged_module(
                    contracts@,
                    *old(self),
                    j,
                ),
            forall|j: int|
                spec_staged_state_present(*final(self), j) == spec_staged_state_present(
                    *old(self),
                    j,
                ),
            forall|j: int|
                spec_staged_state_bytes(*final(self), j) == spec_staged_state_bytes(
                    *old(self),
                    j,
                ),
    {
        match self.cur.find_contract_change(index) {
            Some(i) => {
                proof {
                    lemma_contract_change_unique(*self, i as int);
                }
                i
            }
            None => {
                let seeded = ContractChange {
                    index,
                    new_state: None,
                    state_bytes: 0,
                    modification_seq: 0,
                    new_balance: contracts[index].self_balance,
                    new_module: None,
                };
                self.cur.contracts.push(seeded);
                proof {
                    let cs = self.cur.contracts@;
                    let os = old(self).cur.contracts@;
                    let n = cs.len() - 1;
                    assert forall|p: int, q: int| 0 <= p < q < cs.len() implies (
                    #[trigger] cs[p].index) != (#[trigger] cs[q].index) by {
                        if q < n {
                            assert(cs[p] == os[p] && cs[q] == os[q]);
                        } else {
                            assert(cs[p] == os[p]);
                        }
                    }
                    lemma_staged_views_push(
                        *old(self),
                        *self,
                        contracts@,
                        ContractChange {
                            index,
                            new_state: None,
                            state_bytes: 0,
                            modification_seq: 0,
                            new_balance: contracts@[index as int].self_balance,
                            new_module: None,
                        },
                    );
                    // The seeded entry stages exactly the values the
                    // fallbacks already gave, so every view is unchanged
                    // at `index` as well.
                    assert(!spec_has_contract_change(*old(self), index as int));
                    assert(spec_staged_contract_balance(contracts@, *self, index as int)
                        == spec_staged_contract_balance(contracts@, *old(self), index as int));
                    assert(spec_staged_seq(*self, index as int) == spec_staged_seq(
                        *old(self),
                        index as int,
                    ));
                    assert(spec_staged_module(contracts@, *self, index as int)
                        == spec_staged_module(contracts@, *old(self), index as int));
                    assert(spec_staged_state_present(*self, index as int)
                        == spec_staged_state_present(*old(self), index as int));
                    assert(spec_staged_state_bytes(*self, index as int)
                        == spec_staged_state_bytes(*old(self), index as int));
                }
                self.cur.contracts.len() - 1
            }
        }
    }

    /// Stage a new balance for the contract entry at `index`.
    pub fn stage_contract_balance(
        &mut self,
        Ghost(accounts): Ghost<Seq<Account>>,
        Ghost(n_contracts): Ghost<int>,
        contracts: &Vec<Contract>,
        index: usize,
        new_balance: u64,
    )
        requires
            old(self).wf(accounts, n_contracts),
            index < contracts@.len(),
            contracts@.len() <= n_contracts,
        ensures
            final(self).wf(accounts, n_contracts),
            final(self).parents == old(self).parents,
            final(self).cur.accounts == old(self).cur.accounts,
            spec_staged_contract_balance(contracts@, *final(self), index as int) == new_balance,
            forall|j: int|
                j != index as int ==> spec_staged_contract_balance(contracts@, *final(self), j)
                    == spec_staged_contract_balance(contracts@, *old(self), j),
            forall|j: int| spec_staged_seq(*final(self), j) == spec_staged_seq(*old(self), j),
            forall|j: int|
                spec_staged_module(contracts@, *final(self), j) == spec_staged_module(
                    contracts@,
                    *old(self),
                    j,
                ),
            forall|j: int|
                spec_staged_state_present(*final(self), j) == spec_staged_state_present(
                    *old(self),
                    j,
                ),
            forall|j: int|
                spec_staged_state_bytes(*final(self), j) == spec_staged_state_bytes(
                    *old(self),
                    j,
                ),
    {
        let i = self.contract_change_mut(Ghost(accounts), Ghost(n_contracts), contracts, index);
        let ghost mid = *self;
        let entry = &mut self.cur.contracts[i];
        entry.new_balance = new_balance;
        proof {
            lemma_contract_changes_update_field(
                n_contracts,
                mid.cur.contracts@,
                self.cur.contracts@,
                i as int,
            );
            lemma_staged_views_update(mid, *self, contracts@, i as int);
        }
    }

    /// Stage a new state checkpoint for the contract entry at `index`,
    /// with the byte count its freeze reported, and bump the modification
    /// sequence number.
    pub fn stage_contract_state(
        &mut self,
        Ghost(accounts): Ghost<Seq<Account>>,
        Ghost(n_contracts): Ghost<int>,
        contracts: &Vec<Contract>,
        index: usize,
        new_state: trie::PersistentState,
        state_bytes: u64,
    )
        requires
            old(self).wf(accounts, n_contracts),
            index < contracts@.len(),
            contracts@.len() <= n_contracts,
        ensures
            final(self).wf(accounts, n_contracts),
            final(self).parents == old(self).parents,
            final(self).cur.accounts == old(self).cur.accounts,
            spec_staged_state_present(*final(self), index as int),
            spec_staged_state_bytes(*final(self), index as int) == state_bytes,
            spec_staged_seq(*final(self), index as int) == (if spec_staged_seq(
                *old(self),
                index as int,
            ) < u64::MAX {
                spec_staged_seq(*old(self), index as int) + 1
            } else {
                u64::MAX as int
            }),
            forall|j: int|
                j != index as int ==> spec_staged_seq(*final(self), j) == spec_staged_seq(
                    *old(self),
                    j,
                ),
            forall|j: int|
                j != index as int ==> spec_staged_state_present(*final(self), j)
                    == spec_staged_state_present(*old(self), j),
            forall|j: int|
                j != index as int ==> spec_staged_state_bytes(*final(self), j)
                    == spec_staged_state_bytes(*old(self), j),
            forall|j: int|
                spec_staged_contract_balance(contracts@, *final(self), j)
                    == spec_staged_contract_balance(contracts@, *old(self), j),
            forall|j: int|
                spec_staged_module(contracts@, *final(self), j) == spec_staged_module(
                    contracts@,
                    *old(self),
                    j,
                ),
    {
        let i = self.contract_change_mut(Ghost(accounts), Ghost(n_contracts), contracts, index);
        let ghost mid = *self;
        let entry = &mut self.cur.contracts[i];
        entry.new_state = Some(new_state);
        entry.state_bytes = state_bytes;
        if entry.modification_seq < u64::MAX {
            entry.modification_seq = entry.modification_seq + 1;
        }
        proof {
            lemma_contract_changes_update_field(
                n_contracts,
                mid.cur.contracts@,
                self.cur.contracts@,
                i as int,
            );
            lemma_staged_views_update(mid, *self, contracts@, i as int);
        }
    }

    /// Stage a new module reference for the contract entry at `index`.
    pub fn stage_contract_module(
        &mut self,
        Ghost(accounts): Ghost<Seq<Account>>,
        Ghost(n_contracts): Ghost<int>,
        contracts: &Vec<Contract>,
        index: usize,
        new_module: ModuleReference,
    )
        requires
            old(self).wf(accounts, n_contracts),
            index < contracts@.len(),
            contracts@.len() <= n_contracts,
        ensures
            final(self).wf(accounts, n_contracts),
            final(self).parents == old(self).parents,
            final(self).cur.accounts == old(self).cur.accounts,
            spec_staged_module(contracts@, *final(self), index as int) == new_module,
            forall|j: int|
                j != index as int ==> spec_staged_module(contracts@, *final(self), j)
                    == spec_staged_module(contracts@, *old(self), j),
            forall|j: int|
                spec_staged_contract_balance(contracts@, *final(self), j)
                    == spec_staged_contract_balance(contracts@, *old(self), j),
            forall|j: int| spec_staged_seq(*final(self), j) == spec_staged_seq(*old(self), j),
            forall|j: int|
                spec_staged_state_present(*final(self), j) == spec_staged_state_present(
                    *old(self),
                    j,
                ),
            forall|j: int|
                spec_staged_state_bytes(*final(self), j) == spec_staged_state_bytes(
                    *old(self),
                    j,
                ),
    {
        let i = self.contract_change_mut(Ghost(accounts), Ghost(n_contracts), contracts, index);
        let ghost mid = *self;
        let entry = &mut self.cur.contracts[i];
        entry.new_module = Some(new_module);
        proof {
            lemma_contract_changes_update_field(
                n_contracts,
                mid.cur.contracts@,
                self.cur.contracts@,
                i as int,
            );
            lemma_staged_views_update(mid, *self, contracts@, i as int);
        }
    }

    /// The staged balance of the contract entry at `index`, or its chain
    /// balance if nothing is staged.
    pub fn contract_balance(&self, contracts: &Vec<Contract>, index: usize) -> (r: u64)
        requires
            index < contracts@.len(),
            contract_changes_distinct(self.cur.contracts@),
        ensures
            r == spec_staged_contract_balance(contracts@, *self, index as int),
    {
        match self.cur.find_contract_change(index) {
            Some(i) => {
                proof {
                    lemma_contract_change_unique(*self, i as int);
                }
                self.cur.contracts[i].new_balance
            }
            None => contracts[index].self_balance,
        }
    }

    /// The staged modification sequence number of the contract entry at
    /// `index`; zero if nothing is staged.
    pub fn contract_modification_seq(&self, index: usize) -> (r: u64)
        requires
            contract_changes_distinct(self.cur.contracts@),
        ensures
            r == spec_staged_seq(*self, index as int),
    {
        match self.cur.find_contract_change(index) {
            Some(i) => {
                proof {
                    lemma_contract_change_unique(*self, i as int);
                }
                self.cur.contracts[i].modification_seq
            }
            None => 0,
        }
    }

    /// The staged module reference of the contract entry at `index`, or
    /// its chain module if nothing is staged.
    pub fn contract_module_reference(&self, contracts: &Vec<Contract>, index: usize) -> (r:
        ModuleReference)
        requires
            index < contracts@.len(),
            contract_changes_distinct(self.cur.contracts@),
        ensures
            r == spec_staged_module(contracts@, *self, index as int),
    {
        match self.cur.find_contract_change(index) {
            Some(i) => {
                proof {
                    lemma_contract_change_unique(*self, i as int);
                }
                match &self.cur.contracts[i].new_module {
                    Some(reference) => *reference,
                    None => contracts[index].module_reference,
                }
            }
            None => contracts[index].module_reference,
        }
    }

    /// A fresh working state for the contract entry at `index`: thawed
    /// from the staged checkpoint, or from the chain state if nothing is
    /// staged.
    pub fn contract_state_thaw(&self, contracts: &Vec<Contract>, index: usize) -> (r:
        trie::MutableState)
        requires
            index < contracts@.len(),
    {
        match self.cur.find_contract_change(index) {
            Some(i) => match &self.cur.contracts[i].new_state {
                Some(state) => crate::engine::state_thaw(state),
                None => crate::engine::state_thaw(&contracts[index].state),
            },
            None => crate::engine::state_thaw(&contracts[index].state),
        }
    }

    /// The energy owed for staged state: the sum of the byte counts
    /// reported by the latest freeze of every staged state, saturating at
    /// the representable maximum (which no budget survives).
    pub fn collect_state_energy(&self) -> (r: u64)
        ensures
            spec_state_bytes_total(self.cur.contracts@) <= u64::MAX ==> r
                == spec_state_bytes_total(self.cur.contracts@),
            spec_state_bytes_total(self.cur.contracts@) > u64::MAX ==> r == u64::MAX,
    {
        let n = self.cur.contracts.len();
        let mut sum: u64 = 0;
        let mut i: usize = 0;
        while i < n
            invariant
                n == self.cur.contracts@.len(),
                i <= n,
                ({
                    let t = spec_state_bytes_total(self.cur.contracts@.subrange(0, i as int));
                    if t <= u64::MAX {
                        sum == t
                    } else {
                        sum == u64::MAX
                    }
                }),
            decreases n - i,
        {
            let ghost prefix = self.cur.contracts@.subrange(0, i as int);
            let entry = &self.cur.contracts[i];
            match &entry.new_state {
                Some(_) => {
                    if sum > u64::MAX - entry.state_bytes {
                        sum = u64::MAX;
                    } else {
                        sum = sum + entry.state_bytes;
                    }
                }
                None => {}
            }
            proof {
                let next = self.cur.contracts@.subrange(0, i + 1);
                assert(next.drop_last() =~= prefix);
                assert(next.last() == self.cur.contracts@[i as int]);
                lemma_state_bytes_total_nonneg(prefix);
            }
            i = i + 1;
        }
        proof {
            assert(self.cur.contracts@.subrange(0, n as int) =~= self.cur.contracts@);
        }
        sum
    }

    /// Whether any contract state is staged.
    pub fn any_state_changed(&self) -> (r: bool)
        ensures
            r == spec_any_staged_state(self.cur.contracts@),
    {
        let n = self.cur.contracts.len();
        let mut i: usize = 0;
        while i < n
            invariant
                n == self.cur.contracts@.len(),
                i <= n,
                forall|j: int|
                    0 <= j < i ==> !((#[trigger] self.cur.contracts@[j].new_state) is Some),
            decreases n - i,
        {
            match &self.cur.contracts[i].new_state {
                Some(_) => {
                    return true;
                }
                None => {}
            }
            i = i + 1;
        }
        false
    }
}

} // verus!
