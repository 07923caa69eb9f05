//! The invocation engine: executing one entrypoint call, answering its
//! interrupts — queries, transfers, nested calls, upgrades — and committing
//! or discarding the resulting changeset.
//!
//! Interrupts are handled as ordinary recursive calls into
//! [`invoke_entrypoint`], with the changeset threaded by exclusive mutable
//! access; energy exhaustion is the sole bound on execution, so recursion
//! and the resume loop both terminate on the strictly shrinking energy
//! budget.

use vstd::prelude::*;
use crate::chain::{
    Chain, MAX_PARAMETER_LEN, TRANSACTION_HEADER_SIZE, ENERGY_PER_SIGNATURE,
    UPDATE_CONTRACT_INSTANCE_BASE_COST, SIMPLE_TRANSFER_COST,
    CONTRACT_INSTANCE_QUERY_ACCOUNT_BALANCE_COST, CONTRACT_INSTANCE_QUERY_CONTRACT_BALANCE_COST,
    CONTRACT_INSTANCE_QUERY_EXCHANGE_RATE_COST, CONTRACT_INSTANCE_QUERY_ACCOUNT_KEYS_COST,
    CONTRACT_INSTANCE_CHECK_ACCOUNT_SIGNATURE_COST,
};
use crate::changeset::{Changeset, spec_staged_contract_balance, spec_staged_total};
use crate::energy::{
    MAX_ALLOWED_INVOKE_ENERGY, from_interpreter_energy, lemma_energy_cost_monotone,
    lemma_energy_cost_zero, saturating_sub, tick_energy, to_interpreter_energy,
};
use crate::engine::{
    HostFailure, HostOperation, HostResponse, ReceiveOutcome, artifact_has_entrypoint,
    decode_interrupt, encode_response, make_receive_context, resume_receive, run_receive,
    state_freeze,
};
use crate::ledger::{
    account_index, account_of, accounts_with_charge, accounts_wf, charge_account, find_account,
    find_contract, find_module, has_account, has_contract, lemma_account_index_unique,
    lemma_charge_preserves_ledger,
};
use crate::types::{
    Account, copy_bytes, AccountAddress, AccountMissing, Address, ChainEvent, ContractAddress,
    ContractInstanceMissing, ContractInvocationError, ContractInvocationErrorKind,
    ContractInvocationSuccess, EntrypointDoesNotExist, UpdateContractPayload,
};

verus! {

// ---------------------------------------------------------------------------
// Little-endian serialization of query answers.
// ---------------------------------------------------------------------------

/// Append the eight little-endian bytes of `n`.
pub fn push_le64(bytes: &mut Vec<u8>, n: u64)
    ensures
        final(bytes)@.len() == old(bytes)@.len() + 8,
{
    let mut value = n;
    let mut i: usize = 0;
    while i < 8
        invariant
            i <= 8,
            bytes@.len() == old(bytes)@.len() + i,
        decreases 8 - i,
    {
        bytes.push((value % 256) as u8);
        value = value / 256;
        i = i + 1;
    }
}

/// The bytes after the first dot of a receive name; empty when no dot
/// occurs.
pub open spec fn spec_entrypoint_of(receive_name: Seq<u8>) -> Seq<u8>
    decreases receive_name.len(),
{
    if receive_name.len() == 0 {
        receive_name
    } else if receive_name[0] == 46 {
        receive_name.drop_first()
    } else {
        spec_entrypoint_of(receive_name.drop_first())
    }
}

/// When the first dot sits at position `i`, the entrypoint is everything
/// after it.
proof fn lemma_entrypoint_after_first_dot(s: Seq<u8>, i: int)
    requires
        0 <= i < s.len(),
        s[i] == 46,
        forall|j: int| 0 <= j < i ==> s[j] != 46,
    ensures
        spec_entrypoint_of(s) == s.subrange(i + 1, s.len() as int),
    decreases i,
{
    if i == 0 {
        assert(s.drop_first() =~= s.subrange(1, s.len() as int));
    } else {
        let t = s.drop_first();
        assert(t[i - 1] == 46);
        assert(forall|j: int| 0 <= j < i - 1 ==> #[trigger] t[j] != 46);
        lemma_entrypoint_after_first_dot(t, i - 1);
        assert(t.subrange(i, t.len() as int) =~= s.subrange(i + 1, s.len() as int));
    }
}

/// Without a dot, the entrypoint is empty.
proof fn lemma_entrypoint_no_dot(s: Seq<u8>)
    requires
        forall|j: int| 0 <= j < s.len() ==> s[j] != 46,
    ensures
        spec_entrypoint_of(s).len() == 0,
    decreases s.len(),
{
    if s.len() > 0 {
        let t = s.drop_first();
        assert(forall|j: int| 0 <= j < t.len() ==> #[trigger] t[j] != 46);
        lemma_entrypoint_no_dot(t);
    }
}

/// Extract the entrypoint from a full receive name: the bytes after the
/// first dot, empty when no dot occurs.
pub fn entrypoint_of(receive_name: &Vec<u8>) -> (r: Vec<u8>)
    ensures
        r@ == spec_entrypoint_of(receive_name@),
{
    let n = receive_name.len();
    let mut start: usize = n;
    let mut found = false;
    let mut i: usize = 0;
    while i < n
        invariant
            i <= n,
            n == receive_name@.len(),
            start <= n,
            found ==> start >= 1 && receive_name@[start - 1] == 46 && forall|j: int|
                0 <= j < start - 1 ==> receive_name@[j] != 46,
            !found ==> start == n && forall|j: int| 0 <= j < i ==> receive_name@[j] != 46,
        decreases n - i,
    {
        if !found && receive_name[i] == 46 {
            start = i + 1;
            found = true;
        }
        i = i + 1;
    }
    proof {
        if found {
            lemma_entrypoint_after_first_dot(receive_name@, start - 1);
        } else {
            lemma_entrypoint_no_dot(receive_name@);
        }
    }
    let mut out: Vec<u8> = Vec::new();
    let mut j: usize = start;
    while j < n
        invariant
            n == receive_name@.len(),
            start <= j <= n,
            out@ == receive_name@.subrange(start as int, j as int),
        decreases n - j,
    {
        out.push(receive_name[j]);
        proof {
            assert(out@ =~= receive_name@.subrange(start as int, j + 1));
        }
        j = j + 1;
    }
    proof {
        assert(out@ =~= spec_entrypoint_of(receive_name@));
    }
    out
}

/// The receive name under which an entrypoint of a contract is exported:
/// the contract name without its five-byte `init_` prefix, a dot, and the
/// entrypoint.
pub open spec fn spec_receive_name_of(contract_name: Seq<u8>, entrypoint: Seq<u8>) -> Seq<u8> {
    contract_name.skip(if contract_name.len() >= 5 {
        5int
    } else {
        contract_name.len() as int
    }) + seq![46u8] + entrypoint
}

/// Build the receive name an entrypoint of a contract is exported under.
pub fn build_receive_name(contract_name: &Vec<u8>, entrypoint: &Vec<u8>) -> (r: Vec<u8>)
    ensures
        r@ == spec_receive_name_of(contract_name@, entrypoint@),
{
    let mut out: Vec<u8> = Vec::new();
    let n = contract_name.len();
    let start: usize = if n >= 5 {
        5
    } else {
        n
    };
    let mut i: usize = start;
    while i < n
        invariant
            n == contract_name@.len(),
            start <= i <= n,
            out@ == contract_name@.subrange(start as int, i as int),
        decreases n - i,
    {
        out.push(contract_name[i]);
        proof {
            assert(out@ =~= contract_name@.subrange(start as int, i + 1));
        }
        i = i + 1;
    }
    out.push(46);
    let ghost prefix = out@;
    let m = entrypoint.len();
    let mut j: usize = 0;
    while j < m
        invariant
            m == entrypoint@.len(),
            j <= m,
            out@ == prefix + entrypoint@.subrange(0, j as int),
        decreases m - j,
    {
        out.push(entrypoint[j]);
        proof {
            assert(out@ =~= prefix + entrypoint@.subrange(0, j + 1));
        }
        j = j + 1;
    }
    proof {
        assert(contract_name@.subrange(start as int, n as int) =~= contract_name@.skip(
            start as int,
        ));
        assert(entrypoint@.subrange(0, m as int) =~= entrypoint@);
        assert(out@ =~= spec_receive_name_of(contract_name@, entrypoint@));
    }
    out
}

/// The serialized size of an update payload: amount, address, and the
/// length-prefixed receive name and message.
pub open spec fn spec_update_header_energy(payload: UpdateContractPayload, num_keys: int) -> int {
    crate::chain::spec_base_cost(
        89 + payload.receive_name@.len() as int + payload.message@.len() as int,
        num_keys,
    )
}

/// The public error kind of a failed entrypoint invocation: a missing
/// entrypoint is its own kind, every other failure is surfaced verbatim.
fn invocation_error_kind_of(kind: HostFailure, entrypoint: Vec<u8>) -> (r:
    ContractInvocationErrorKind)
    ensures
        kind is NonExistentEntrypoint ==> (r matches
            ContractInvocationErrorKind::EntrypointDoesNotExist(e) && e.0@ == entrypoint@),
        !(kind is NonExistentEntrypoint) ==> (r matches
            ContractInvocationErrorKind::ExecutionError { failure_kind } && failure_kind == kind),
{
    match kind {
        HostFailure::NonExistentEntrypoint => ContractInvocationErrorKind::EntrypointDoesNotExist(
            EntrypointDoesNotExist(entrypoint),
        ),
        other => ContractInvocationErrorKind::ExecutionError { failure_kind: other },
    }
}

// ---------------------------------------------------------------------------
// The handler's result types.
// ---------------------------------------------------------------------------

/// The response of one entrypoint invocation, handed to the caller — the
/// host or an interrupted contract.
pub enum EntrypointInvokeResponse {
    /// The entrypoint succeeded; `new_balance` is the called instance's
    /// staged balance, `data` its return value.
    Success { new_balance: u64, data: Option<Vec<u8>> },
    /// The entrypoint or one of its host operations failed.
    Failure { kind: HostFailure },
}

/// The result of one entrypoint invocation together with the logs of its
/// final segment.
pub struct InvokeEntrypointResponse {
    pub invoke_response: EntrypointInvokeResponse,
    pub logs: Vec<Vec<u8>>,
}

/// Conditions that abort the whole invocation tree rather than one level
/// of it.
pub enum TestConfigurationError {
    /// The shared energy budget ran out.
    OutOfEnergy,
    /// A balance addition left the representable range.
    BalanceOverflow,
}

// ---------------------------------------------------------------------------
// The invocation worker.
// ---------------------------------------------------------------------------

/// Execute one entrypoint of the contract at `target` against the staged
/// view in `changeset`, recursing into further contracts on interrupts.
/// Reads go through the changeset; the chain itself is never written.
///
/// Balance queries subtract `reserved_amount` from the viewed balance of
/// every alias of `invoker`, so a contract observes the invoker's balance
/// as it stands after the up-front energy charge.
///
/// `Ok` reports the contract's own outcome, success or failure; `Err`
/// aborts the whole invocation tree.  On `Ok` the checkpoint stack is as
/// the caller left it, and at least the base update cost has been ticked,
/// which bounds recursion and resumption by the energy budget.
#[verifier::loop_isolation(false)]
pub fn invoke_entrypoint(
    chain: &Chain,
    changeset: &mut Changeset,
    remaining_energy: &mut u64,
    invoker: AccountAddress,
    reserved_amount: u64,
    sender: Address,
    target: ContractAddress,
    entrypoint: Vec<u8>,
    parameter: Vec<u8>,
    amount: u64,
    events: &mut Vec<ChainEvent>,
) -> (r: Result<InvokeEntrypointResponse, TestConfigurationError>)
    requires
        chain.wf(),
        old(changeset).wf(chain.accounts@, chain.contracts@.len() as int),
        *old(remaining_energy) <= MAX_ALLOWED_INVOKE_ENERGY,
    ensures
        final(changeset).wf(chain.accounts@, chain.contracts@.len() as int),
        *final(remaining_energy) <= *old(remaining_energy),
        r is Ok ==> *final(remaining_energy) + UPDATE_CONTRACT_INSTANCE_BASE_COST <= *old(
            remaining_energy,
        ),
        r is Ok ==> final(changeset).parents@.len() == old(changeset).parents@.len(),
        (r matches Ok(resp) ==> (!has_contract(chain.contracts@, target)
            ==> resp.invoke_response matches EntrypointInvokeResponse::Failure {
            kind: HostFailure::NonExistentContract,
        })),
        (r matches Ok(resp) && resp.invoke_response is Success ==> has_contract(
            chain.contracts@,
            target,
        )),
        (r matches Ok(resp) ==> (resp.invoke_response matches EntrypointInvokeResponse::Success {
            new_balance,
            ..
        } ==> new_balance as int == spec_staged_contract_balance(
            chain.contracts@,
            *final(changeset),
            crate::ledger::contract_index(chain.contracts@, target),
        ))),
    decreases *old(remaining_energy),
{
    let ghost entry_energy = *remaining_energy;
    let ghost n_accounts = chain.accounts@;
    let ghost n_contracts = chain.contracts@.len() as int;
    let ghost parents0 = changeset.parents@.len();
    // Base administrative cost of every update, charged before anything
    // else; it also bounds the recursion depth by the energy budget.
    if !tick_energy(remaining_energy, UPDATE_CONTRACT_INSTANCE_BASE_COST) {
        return Err(TestConfigurationError::OutOfEnergy);
    }
    // The called instance must exist; changesets never create instances.
    let target_index = match find_contract(&chain.contracts, &target) {
        Some(i) => i,
        None => {
            return Ok(InvokeEntrypointResponse {
                invoke_response: EntrypointInvokeResponse::Failure {
                    kind: HostFailure::NonExistentContract,
                },
                logs: Vec::new(),
            });
        }
    };
    // The instance's module, possibly staged by an upgrade.
    let module_reference = changeset.contract_module_reference(&chain.contracts, target_index);
    let module_index = match find_module(&chain.modules, &module_reference) {
        Some(i) => i,
        None => {
            return Ok(InvokeEntrypointResponse {
                invoke_response: EntrypointInvokeResponse::Failure {
                    kind: HostFailure::RuntimeError,
                },
                logs: Vec::new(),
            });
        }
    };
    let lookup_cost = chain.modules[module_index].size / 50;
    if !tick_energy(remaining_energy, lookup_cost) {
        return Err(TestConfigurationError::OutOfEnergy);
    }
    // Resolve the entrypoint, falling back to the contract's fallback
    // entrypoint when the named one is not exported.
    let contract_name = &chain.contracts[target_index].contract_name;
    let named = build_receive_name(contract_name, &entrypoint);
    let artifact = &chain.modules[module_index].artifact;
    let receive_name = if artifact_has_entrypoint(artifact, &named) {
        named
    } else {
        let fallback = build_receive_name(contract_name, &Vec::new());
        if artifact_has_entrypoint(artifact, &fallback) {
            fallback
        } else {
            return Ok(InvokeEntrypointResponse {
                invoke_response: EntrypointInvokeResponse::Failure {
                    kind: HostFailure::NonExistentEntrypoint,
                },
                logs: Vec::new(),
            });
        }
    };
    // Move the sent amount from the sender into the instance, within the
    // changeset.
    match sender {
        Address::Account(sender_account) => {
            let idx = match find_account(&chain.accounts, &sender_account) {
                Some(i) => i,
                None => {
                    return Ok(InvokeEntrypointResponse {
                        invoke_response: EntrypointInvokeResponse::Failure {
                            kind: HostFailure::NonExistentAccount,
                        },
                        logs: Vec::new(),
                    });
                }
            };
            let viewed = viewed_account_available(
                chain,
                changeset,
                Ghost(n_contracts),
                idx,
                invoker,
                reserved_amount,
            );
            if viewed < amount {
                return Ok(InvokeEntrypointResponse {
                    invoke_response: EntrypointInvokeResponse::Failure {
                        kind: HostFailure::InsufficientAmount,
                    },
                    logs: Vec::new(),
                });
            }
            let total = changeset.account_total(&chain.accounts, idx);
            proof {
                assert(amount + chain.accounts@[idx as int].balance.staked + chain.accounts@[
                    idx as int
                ].balance.locked <= total);
            }
            changeset.stage_account_total(
                Ghost(n_accounts),
                Ghost(n_contracts),
                idx,
                total - amount,
            );
        }
        Address::Contract(sender_contract) => {
            let idx = match find_contract(&chain.contracts, &sender_contract) {
                Some(i) => i,
                None => {
                    return Ok(InvokeEntrypointResponse {
                        invoke_response: EntrypointInvokeResponse::Failure {
                            kind: HostFailure::NonExistentContract,
                        },
                        logs: Vec::new(),
                    });
                }
            };
            let balance = changeset.contract_balance(&chain.contracts, idx);
            if balance < amount {
                return Ok(InvokeEntrypointResponse {
                    invoke_response: EntrypointInvokeResponse::Failure {
                        kind: HostFailure::InsufficientAmount,
                    },
                    logs: Vec::new(),
                });
            }
            changeset.stage_contract_balance(
                Ghost(n_accounts),
                Ghost(n_contracts),
                &chain.contracts,
                idx,
                balance - amount,
            );
        }
    }
    let target_balance = changeset.contract_balance(&chain.contracts, target_index);
    if amount > u64::MAX - target_balance {
        return Err(TestConfigurationError::BalanceOverflow);
    }
    let self_balance = target_balance + amount;
    changeset.stage_contract_balance(
        Ghost(n_accounts),
        Ghost(n_contracts),
        &chain.contracts,
        target_index,
        self_balance,
    );
    // The context the entrypoint observes.
    let policy = sender_policy(chain, &sender, &invoker);
    let owner = chain.contracts[target_index].owner;
    let ctx = make_receive_context(
        chain.parameters.block_time,
        &invoker,
        &target,
        self_balance,
        &sender,
        &owner,
        &policy,
        &entrypoint,
    );
    // Run the entrypoint on the staged state.
    let mut state = changeset.contract_state_thaw(&chain.contracts, target_index);
    let mut given = to_interpreter_energy(*remaining_energy);
    let mut outcome = run_receive(
        artifact,
        ctx,
        &receive_name,
        &parameter,
        amount,
        given,
        &mut state,
    );
    loop
        invariant
            chain.wf(),
            changeset.wf(chain.accounts@, chain.contracts@.len() as int),
            changeset.parents@.len() == parents0,
            *remaining_energy + UPDATE_CONTRACT_INSTANCE_BASE_COST <= entry_energy,
            entry_energy <= MAX_ALLOWED_INVOKE_ENERGY,
            target_index < chain.contracts@.len(),
            given == *remaining_energy * 1000,
            crate::engine::receive_outcome_within(outcome, given as int),
            n_accounts == chain.accounts@,
            n_contracts == chain.contracts@.len() as int,
        decreases *remaining_energy,
    {
        match outcome {
            ReceiveOutcome::Success(logs, state_changed, return_value, left) => {
                let used = from_interpreter_energy(saturating_sub(given, left));
                proof {
                    lemma_interpreter_segment_fits(*remaining_energy, given, left);
                }
                if !tick_energy(remaining_energy, used) {
                    return Err(TestConfigurationError::OutOfEnergy);
                }
                if state_changed {
                    let (frozen, state_bytes) = state_freeze(&mut state);
                    changeset.stage_contract_state(
                        Ghost(n_accounts),
                        Ghost(n_contracts),
                        &chain.contracts,
                        target_index,
                        frozen,
                        state_bytes,
                    );
                }
                events.push(ChainEvent::Updated {
                    address: target,
                    contract: copy_bytes(&chain.contracts[target_index].contract_name),
                    entrypoint: entrypoint,
                    amount,
                });
                let new_balance = changeset.contract_balance(&chain.contracts, target_index);
                return Ok(InvokeEntrypointResponse {
                    invoke_response: EntrypointInvokeResponse::Success {
                        new_balance,
                        data: Some(return_value),
                    },
                    logs: crate::engine::logs_to_vec(logs),
                });
            }
            ReceiveOutcome::Reject(reason, return_value, left) => {
                let used = from_interpreter_energy(saturating_sub(given, left));
                proof {
                    lemma_interpreter_segment_fits(*remaining_energy, given, left);
                }
                if !tick_energy(remaining_energy, used) {
                    return Err(TestConfigurationError::OutOfEnergy);
                }
                return Ok(InvokeEntrypointResponse {
                    invoke_response: EntrypointInvokeResponse::Failure {
                        kind: HostFailure::ContractReject { code: reason, data: return_value },
                    },
                    logs: Vec::new(),
                });
            }
            ReceiveOutcome::Trap(left) => {
                let used = from_interpreter_energy(saturating_sub(given, left));
                proof {
                    lemma_interpreter_segment_fits(*remaining_energy, given, left);
                }
                if !tick_energy(remaining_energy, used) {
                    return Err(TestConfigurationError::OutOfEnergy);
                }
                return Ok(InvokeEntrypointResponse {
                    invoke_response: EntrypointInvokeResponse::Failure {
                        kind: HostFailure::RuntimeError,
                    },
                    logs: Vec::new(),
                });
            }
            ReceiveOutcome::OutOfEnergy => {
                *remaining_energy = 0;
                return Err(TestConfigurationError::OutOfEnergy);
            }
            ReceiveOutcome::Interrupt(left, state_changed, logs, config, interrupt) => {
                let used = from_interpreter_energy(saturating_sub(given, left));
                proof {
                    lemma_interpreter_segment_fits(*remaining_energy, given, left);
                }
                if !tick_energy(remaining_energy, used) {
                    return Err(TestConfigurationError::OutOfEnergy);
                }
                if state_changed {
                    let (frozen, state_bytes) = state_freeze(&mut state);
                    changeset.stage_contract_state(
                        Ghost(n_accounts),
                        Ghost(n_contracts),
                        &chain.contracts,
                        target_index,
                        frozen,
                        state_bytes,
                    );
                }
                let mut state_updated = false;
                let response: HostResponse = match decode_interrupt(interrupt) {
                    HostOperation::Transfer(to, transfer_amount) => {
                        if !tick_energy(remaining_energy, SIMPLE_TRANSFER_COST) {
                            return Err(TestConfigurationError::OutOfEnergy);
                        }
                        events.push(ChainEvent::Interrupted { address: target, logs: crate::engine::logs_to_vec(logs) });
                        let answer = handle_transfer(
                            chain,
                            changeset,
                            Ghost(n_contracts),
                            target_index,
                            to,
                            transfer_amount,
                        )?;
                        match &answer {
                            HostResponse::Success { .. } => {
                                events.push(ChainEvent::Transferred {
                                    from: target,
                                    amount: transfer_amount,
                                    to,
                                });
                                events.push(ChainEvent::Resumed { address: target, success: true });
                            }
                            HostResponse::Failure { .. } => {
                                events.push(ChainEvent::Resumed {
                                    address: target,
                                    success: false,
                                });
                            }
                        }
                        answer
                    }
                    HostOperation::Call(call_target, call_parameter, call_name, call_amount) => {
                        events.push(ChainEvent::Interrupted { address: target, logs: crate::engine::logs_to_vec(logs) });
                        let seq_before = changeset.contract_modification_seq(target_index);
                        changeset.checkpoint(Ghost(n_accounts), Ghost(n_contracts));
                        let nested = invoke_entrypoint(
                            chain,
                            changeset,
                            remaining_energy,
                            invoker,
                            reserved_amount,
                            Address::Contract(target),
                            call_target,
                            call_name,
                            call_parameter,
                            call_amount,
                            events,
                        )?;
                        let success = match &nested.invoke_response {
                            EntrypointInvokeResponse::Success { .. } => true,
                            EntrypointInvokeResponse::Failure { .. } => false,
                        };
                        if success {
                            changeset.commit_checkpoint(Ghost(n_accounts), Ghost(n_contracts));
                        } else {
                            changeset.rollback(Ghost(n_accounts), Ghost(n_contracts));
                        }
                        let seq_after = changeset.contract_modification_seq(target_index);
                        if seq_after != seq_before {
                            state_updated = true;
                            state = changeset.contract_state_thaw(&chain.contracts, target_index);
                        }
                        events.push(ChainEvent::Resumed { address: target, success });
                        let self_now = changeset.contract_balance(&chain.contracts, target_index);
                        match nested.invoke_response {
                            EntrypointInvokeResponse::Success { data, .. } => {
                                HostResponse::Success { new_balance: self_now, data }
                            }
                            EntrypointInvokeResponse::Failure { kind } => {
                                HostResponse::Failure { failure: kind }
                            }
                        }
                    }
                    HostOperation::Upgrade(module_ref) => {
                        if !tick_energy(remaining_energy, UPDATE_CONTRACT_INSTANCE_BASE_COST) {
                            return Err(TestConfigurationError::OutOfEnergy);
                        }
                        events.push(ChainEvent::Interrupted { address: target, logs: crate::engine::logs_to_vec(logs) });
                        let answer: HostResponse = match find_module(&chain.modules, &module_ref) {
                            Some(new_module_index) => {
                                let new_lookup = chain.modules[new_module_index].size / 50;
                                if !tick_energy(remaining_energy, new_lookup) {
                                    return Err(TestConfigurationError::OutOfEnergy);
                                }
                                let new_artifact = &chain.modules[new_module_index].artifact;
                                if artifact_has_entrypoint(
                                    new_artifact,
                                    &chain.contracts[target_index].contract_name,
                                ) {
                                    let from = changeset.contract_module_reference(
                                        &chain.contracts,
                                        target_index,
                                    );
                                    changeset.stage_contract_module(
                                        Ghost(n_accounts),
                                        Ghost(n_contracts),
                                        &chain.contracts,
                                        target_index,
                                        module_ref,
                                    );
                                    events.push(ChainEvent::Upgraded {
                                        address: target,
                                        from,
                                        to: module_ref,
                                    });
                                    let self_now = changeset.contract_balance(
                                        &chain.contracts,
                                        target_index,
                                    );
                                    HostResponse::Success { new_balance: self_now, data: None }
                                } else {
                                    HostResponse::Failure {
                                        failure: HostFailure::UpgradeInvalidContractName,
                                    }
                                }
                            }
                            None => HostResponse::Failure {
                                failure: HostFailure::UpgradeInvalidModuleRef,
                            },
                        };
                        match &answer {
                            HostResponse::Success { .. } => {
                                events.push(ChainEvent::Resumed { address: target, success: true });
                            }
                            HostResponse::Failure { .. } => {
                                events.push(ChainEvent::Resumed {
                                    address: target,
                                    success: false,
                                });
                            }
                        }
                        answer
                    }
                    HostOperation::QueryAccountBalance(address) => {
                        if !tick_energy(
                            remaining_energy,
                            CONTRACT_INSTANCE_QUERY_ACCOUNT_BALANCE_COST,
                        ) {
                            return Err(TestConfigurationError::OutOfEnergy);
                        }
                        match find_account(&chain.accounts, &address) {
                            Some(idx) => {
                                proof {
                                    assert(chain.accounts@[idx as int].wf());
                                }
                                let viewed_total = viewed_account_total(
                                    chain,
                                    changeset,
                                    Ghost(n_contracts),
                                    idx,
                                    invoker,
                                    reserved_amount,
                                );
                                let mut data: Vec<u8> = Vec::new();
                                push_le64(&mut data, viewed_total);
                                push_le64(&mut data, chain.accounts[idx].balance.staked);
                                push_le64(&mut data, chain.accounts[idx].balance.locked);
                                let self_now = changeset.contract_balance(
                                    &chain.contracts,
                                    target_index,
                                );
                                HostResponse::Success {
                                    new_balance: self_now,
                                    data: Some(data),
                                }
                            }
                            None => HostResponse::Failure {
                                failure: HostFailure::NonExistentAccount,
                            },
                        }
                    }
                    HostOperation::QueryContractBalance(address) => {
                        if !tick_energy(
                            remaining_energy,
                            CONTRACT_INSTANCE_QUERY_CONTRACT_BALANCE_COST,
                        ) {
                            return Err(TestConfigurationError::OutOfEnergy);
                        }
                        match find_contract(&chain.contracts, &address) {
                            Some(idx) => {
                                let balance = changeset.contract_balance(&chain.contracts, idx);
                                let mut data: Vec<u8> = Vec::new();
                                push_le64(&mut data, balance);
                                let self_now = changeset.contract_balance(
                                    &chain.contracts,
                                    target_index,
                                );
                                HostResponse::Success {
                                    new_balance: self_now,
                                    data: Some(data),
                                }
                            }
                            None => HostResponse::Failure {
                                failure: HostFailure::NonExistentContract,
                            },
                        }
                    }
                    HostOperation::QueryExchangeRates => {
                        if !tick_energy(
                            remaining_energy,
                            CONTRACT_INSTANCE_QUERY_EXCHANGE_RATE_COST,
                        ) {
                            return Err(TestConfigurationError::OutOfEnergy);
                        }
                        let mut data: Vec<u8> = Vec::new();
                        push_le64(&mut data, chain.parameters.micro_ccd_per_euro.numerator);
                        push_le64(&mut data, chain.parameters.micro_ccd_per_euro.denominator);
                        push_le64(&mut data, chain.parameters.euro_per_energy.numerator);
                        push_le64(&mut data, chain.parameters.euro_per_energy.denominator);
                        let self_now = changeset.contract_balance(&chain.contracts, target_index);
                        HostResponse::Success { new_balance: self_now, data: Some(data) }
                    }
                    HostOperation::CheckAccountSignature(address) => {
                        if !tick_energy(
                            remaining_energy,
                            CONTRACT_INSTANCE_CHECK_ACCOUNT_SIGNATURE_COST,
                        ) {
                            return Err(TestConfigurationError::OutOfEnergy);
                        }
                        match find_account(&chain.accounts, &address) {
                            Some(_) => {
                                // The model's accounts hold no key material,
                                // so no signature can verify against them.
                                HostResponse::Failure {
                                    failure: HostFailure::SignatureCheckFailed,
                                }
                            }
                            None => HostResponse::Failure {
                                failure: HostFailure::NonExistentAccount,
                            },
                        }
                    }
                    HostOperation::QueryAccountKeys(address) => {
                        if !tick_energy(
                            remaining_energy,
                            CONTRACT_INSTANCE_QUERY_ACCOUNT_KEYS_COST,
                        ) {
                            return Err(TestConfigurationError::OutOfEnergy);
                        }
                        match find_account(&chain.accounts, &address) {
                            Some(_) => {
                                // The serialized form of the model's key
                                // set: no credentials, threshold one.
                                let mut data: Vec<u8> = Vec::new();
                                data.push(0);
                                data.push(1);
                                let self_now = changeset.contract_balance(
                                    &chain.contracts,
                                    target_index,
                                );
                                HostResponse::Success {
                                    new_balance: self_now,
                                    data: Some(data),
                                }
                            }
                            None => HostResponse::Failure {
                                failure: HostFailure::NonExistentAccount,
                            },
                        }
                    }
                    HostOperation::Unsupported => {
                        // Outside the supported protocol; never produced
                        // under the runtime parameters used here.
                        return Ok(InvokeEntrypointResponse {
                            invoke_response: EntrypointInvokeResponse::Failure {
                                kind: HostFailure::RuntimeError,
                            },
                            logs: Vec::new(),
                        });
                    }
                };
                given = to_interpreter_energy(*remaining_energy);
                outcome = resume_receive(
                    config,
                    encode_response(response),
                    given,
                    &mut state,
                    state_updated,
                );
            }
        }
    }
}

/// One interpreter segment reports spending at most the coarse energy that
/// was converted into it.
proof fn lemma_interpreter_segment_fits(budget: u64, given: u64, left: u64)
    requires
        given == budget * 1000,
        budget <= MAX_ALLOWED_INVOKE_ENERGY,
    ensures
        ({
            let spent = if left <= given { given - left } else { 0 };
            spent / 1000 <= budget
        }),
{
    crate::energy::lemma_interpreter_energy_never_overreports(budget, left);
}

/// Move `amount` from the instance at `target_index` to the account `to`,
/// within the changeset.
fn handle_transfer(
    chain: &Chain,
    changeset: &mut Changeset,
    Ghost(n_contracts): Ghost<int>,
    target_index: usize,
    to: AccountAddress,
    amount: u64,
) -> (r: Result<HostResponse, TestConfigurationError>)
    requires
        chain.wf(),
        old(changeset).wf(chain.accounts@, n_contracts),
        n_contracts == chain.contracts@.len() as int,
        target_index < chain.contracts@.len(),
    ensures
        final(changeset).wf(chain.accounts@, n_contracts),
        final(changeset).parents@.len() == old(changeset).parents@.len(),
{
    let to_index = match find_account(&chain.accounts, &to) {
        Some(i) => i,
        None => {
            return Ok(HostResponse::Failure { failure: HostFailure::NonExistentAccount });
        }
    };
    let self_balance = changeset.contract_balance(&chain.contracts, target_index);
    if self_balance < amount {
        return Ok(HostResponse::Failure { failure: HostFailure::InsufficientAmount });
    }
    let to_total = changeset.account_total(&chain.accounts, to_index);
    if amount > u64::MAX - to_total {
        return Err(TestConfigurationError::BalanceOverflow);
    }
    proof {
        assert(chain.accounts@[to_index as int].wf());
    }
    changeset.stage_contract_balance(
        Ghost(chain.accounts@),
        Ghost(n_contracts),
        &chain.contracts,
        target_index,
        self_balance - amount,
    );
    changeset.stage_account_total(
        Ghost(chain.accounts@),
        Ghost(n_contracts),
        to_index,
        to_total + amount,
    );
    let new_balance = changeset.contract_balance(&chain.contracts, target_index);
    Ok(HostResponse::Success { new_balance, data: None })
}

/// The staged total of the ledger entry at `idx`, minus the reserved
/// amount when the entry is the invoker's, bottoming out at zero.
fn viewed_account_total(
    chain: &Chain,
    changeset: &Changeset,
    Ghost(n_contracts): Ghost<int>,
    idx: usize,
    invoker: AccountAddress,
    reserved_amount: u64,
) -> (r: u64)
    requires
        chain.wf(),
        changeset.wf(chain.accounts@, n_contracts),
        idx < chain.accounts@.len(),
    ensures
        r <= spec_staged_total(chain.accounts@, *changeset, idx as int),
{
    let total = changeset.account_total(&chain.accounts, idx);
    if crate::types::addresses_alias(&chain.accounts[idx].address, &invoker) {
        saturating_sub(total, reserved_amount)
    } else {
        total
    }
}

/// The viewed available balance of the ledger entry at `idx`: the viewed
/// total minus the staked and locked parts, bottoming out at zero.  A
/// positive result leaves at least the staked and locked parts under the
/// staged total.
fn viewed_account_available(
    chain: &Chain,
    changeset: &Changeset,
    Ghost(n_contracts): Ghost<int>,
    idx: usize,
    invoker: AccountAddress,
    reserved_amount: u64,
) -> (r: u64)
    requires
        chain.wf(),
        changeset.wf(chain.accounts@, n_contracts),
        idx < chain.accounts@.len(),
    ensures
        r == 0 || r + chain.accounts@[idx as int].balance.staked + chain.accounts@[
            idx as int
        ].balance.locked <= spec_staged_total(chain.accounts@, *changeset, idx as int),
        r <= spec_staged_total(chain.accounts@, *changeset, idx as int),
{
    let total = viewed_account_total(chain, changeset, Ghost(n_contracts), idx, invoker,
        reserved_amount);
    proof {
        assert(chain.accounts@[idx as int].wf());
    }
    let held = chain.accounts[idx].balance.staked;
    let locked = chain.accounts[idx].balance.locked;
    let reduced = saturating_sub(total, held);
    saturating_sub(reduced, locked)
}

/// The policy blob an entrypoint observes: the sender account's when the
/// sender is an account, the invoker's otherwise.
fn sender_policy(chain: &Chain, sender: &Address, invoker: &AccountAddress) -> (r: Vec<u8>)
    requires
        chain.wf(),
{
    let source = match sender {
        Address::Account(a) => *a,
        Address::Contract(_) => *invoker,
    };
    match find_account(&chain.accounts, &source) {
        Some(i) => copy_bytes(&chain.accounts[i].policy.0),
        None => Vec::new(),
    }
}

// ---------------------------------------------------------------------------
// Committing a changeset.
// ---------------------------------------------------------------------------

/// `s1` is `s0` with only total balances changed: every entry keeps its
/// address, policy, and staked and locked parts.
pub open spec fn spec_accounts_shape(s0: Seq<Account>, s1: Seq<Account>) -> bool {
    &&& s1.len() == s0.len()
    &&& forall|i: int| 0 <= i < s0.len() ==> (#[trigger] s1[i]).address == s0[i].address
    &&& forall|i: int| 0 <= i < s0.len() ==> (#[trigger] s1[i]).policy == s0[i].policy
    &&& forall|i: int| 0 <= i < s0.len() ==> (#[trigger] s1[i]).balance.staked
        == s0[i].balance.staked
    &&& forall|i: int| 0 <= i < s0.len() ==> (#[trigger] s1[i]).balance.locked
        == s0[i].balance.locked
}

/// `c1` is `c0` with only state, balance and module changed: every
/// instance keeps its address, name and owner; none appears or vanishes.
pub open spec fn spec_contracts_shape(c0: Seq<crate::types::Contract>, c1: Seq<crate::types::Contract>) -> bool {
    &&& c1.len() == c0.len()
    &&& forall|i: int| 0 <= i < c0.len() ==> (#[trigger] c1[i]).address == c0[i].address
    &&& forall|i: int| 0 <= i < c0.len() ==> (#[trigger] c1[i]).contract_name == c0[i].contract_name
    &&& forall|i: int| 0 <= i < c0.len() ==> (#[trigger] c1[i]).owner == c0[i].owner
}

/// A shape-preserving ledger rewrite keeps every account lookup: the same
/// addresses resolve, to the same entries.
pub proof fn lemma_shape_preserves_lookup(s0: Seq<Account>, s1: Seq<Account>)
    requires
        accounts_wf(s0),
        spec_accounts_shape(s0, s1),
    ensures
        forall|a: AccountAddress| has_account(s1, a) == has_account(s0, a),
        forall|a: AccountAddress| has_account(s0, a) ==> account_index(s1, a) == account_index(
            s0,
            a,
        ),
        forall|i: int, j: int|
            0 <= i < j < s1.len() ==> !crate::types::same_account(
                #[trigger] s1[i].address,
                #[trigger] s1[j].address,
            ),
{
    assert forall|a: AccountAddress| has_account(s1, a) == has_account(s0, a) by {
        if has_account(s0, a) {
            let i = account_index(s0, a);
            assert(crate::types::same_account(s1[i].address, a));
        }
        if has_account(s1, a) {
            let i = choose|i: int|
                0 <= i < s1.len() && crate::types::same_account(#[trigger] s1[i].address, a);
            assert(crate::types::same_account(s0[i].address, a));
        }
    }
    assert forall|i: int, j: int| 0 <= i < j < s1.len() implies !crate::types::same_account(
        #[trigger] s1[i].address,
        #[trigger] s1[j].address,
    ) by {
        assert(s1[i].address == s0[i].address && s1[j].address == s0[j].address);
    }
    assert forall|a: AccountAddress| has_account(s0, a) implies account_index(s1, a)
        == account_index(s0, a) by {
        let i = account_index(s0, a);
        assert(crate::types::same_account(s1[i].address, a));
        let j = account_index(s1, a);
        if i != j {
            if i < j {
                assert(!crate::types::same_account(s1[i].address, s1[j].address));
            } else {
                assert(!crate::types::same_account(s1[j].address, s1[i].address));
            }
        }
    }
}

/// Whether the address denotes an existing account or instance.
pub open spec fn spec_address_exists(chain: Chain, address: Address) -> bool {
    match address {
        Address::Account(a) => has_account(chain.accounts@, a),
        Address::Contract(c) => has_contract(chain.contracts@, c),
    }
}

/// A shape-preserving store rewrite keeps every instance lookup: the same
/// addresses resolve, to the same entries.
pub proof fn lemma_shape_preserves_contract_lookup(
    c0: Seq<crate::types::Contract>,
    c1: Seq<crate::types::Contract>,
)
    requires
        crate::ledger::contracts_unique(c0),
        spec_contracts_shape(c0, c1),
    ensures
        crate::ledger::contracts_unique(c1),
        forall|a: ContractAddress| has_contract(c1, a) == has_contract(c0, a),
        forall|a: ContractAddress|
            has_contract(c0, a) ==> crate::ledger::contract_index(c1, a)
                == crate::ledger::contract_index(c0, a),
{
    assert forall|i: int, j: int| 0 <= i < j < c1.len() implies (#[trigger] c1[i].address) != (
    #[trigger] c1[j].address) by {
        assert(c1[i].address == c0[i].address && c1[j].address == c0[j].address);
    }
    assert forall|a: ContractAddress| has_contract(c1, a) == has_contract(c0, a) by {
        if has_contract(c0, a) {
            let i = crate::ledger::contract_index(c0, a);
            assert(c1[i].address == a);
        }
        if has_contract(c1, a) {
            let i = choose|i: int| 0 <= i < c1.len() && (#[trigger] c1[i].address) == a;
            assert(c0[i].address == a);
        }
    }
    assert forall|a: ContractAddress| has_contract(c0, a) implies crate::ledger::contract_index(
        c1,
        a,
    ) == crate::ledger::contract_index(c0, a) by {
        let i = crate::ledger::contract_index(c0, a);
        assert(c1[i].address == a);
        crate::ledger::lemma_contract_index_unique(c1, a, i);
    }
}

impl Chain {
    /// Whether the address denotes an existing account or instance.
    pub fn address_exists(&self, address: Address) -> (r: bool)
        requires
            self.wf(),
        ensures
            r == spec_address_exists(*self, address),
    {
        match address {
            Address::Account(a) => self.account_exists(a),
            Address::Contract(c) => self.contract_exists(c),
        }
    }

    /// Update a contract by calling one of its entrypoints; on success all
    /// staged changes are committed atomically.
    ///
    /// The four preconditions — sender, invoker, target, parameter size —
    /// are checked before any energy is spent.  The header-check energy
    /// then comes off the reserved budget; an invoker who cannot cover the
    /// reserved cost plus the amount fails with the header energy consumed
    /// and its fee charged, as far as the balance covers it.  During
    /// execution the invoker has paid the full reserved cost up front, so
    /// balance queries observe the post-charge balance; the unspent part
    /// is refunded afterwards by difference, with checked arithmetic, in
    /// the same atomic commit.  On any later failure the ledger and store
    /// are exactly as before the call except for the invoker, who is
    /// charged exactly the fee of the energy used, and the fee always
    /// equals the reserved energy minus the energy remaining at failure,
    /// converted at the current rates.
    pub fn contract_update(
        &mut self,
        signer: crate::types::Signer,
        invoker: AccountAddress,
        sender: Address,
        energy_reserved: u64,
        payload: UpdateContractPayload,
    ) -> (r: Result<ContractInvocationSuccess, ContractInvocationError>)
        requires
            old(self).wf(),
            signer.num_keys >= 1,
            energy_reserved <= MAX_ALLOWED_INVOKE_ENERGY,
            old(self).spec_cost(energy_reserved as int) <= u64::MAX as int,
            payload.receive_name@.len() <= 512,
        ensures
            final(self).wf(),
            final(self).parameters == old(self).parameters,
            final(self).modules == old(self).modules,
            final(self).next_contract_index == old(self).next_contract_index,
            ({
                let reserved_cost = old(self).spec_cost(energy_reserved as int);
                let header = spec_update_header_energy(payload, signer.num_keys as int);
                let invoker_idx = account_index(old(self).accounts@, invoker);
                let available = account_of(old(self).accounts@, invoker).balance.spec_available();
                match r {
                    Ok(s) => {
                        &&& spec_address_exists(*old(self), sender)
                        &&& has_account(old(self).accounts@, invoker)
                        &&& has_contract(old(self).contracts@, payload.address)
                        &&& payload.message@.len() <= MAX_PARAMETER_LEN
                        &&& energy_reserved >= header
                        &&& available >= reserved_cost + payload.amount
                        &&& s.energy_used <= energy_reserved
                        &&& s.transaction_fee == old(self).spec_cost(s.energy_used as int)
                        &&& spec_accounts_shape(old(self).accounts@, final(self).accounts@)
                        &&& spec_contracts_shape(old(self).contracts@, final(self).contracts@)
                        &&& has_contract(final(self).contracts@, payload.address)
                        &&& final(self).contracts@[crate::ledger::contract_index(
                            final(self).contracts@,
                            payload.address,
                        )].self_balance == s.new_balance
                    }
                    Err(e) => {
                        &&& final(self).contracts == old(self).contracts
                        &&& e.energy_used <= energy_reserved
                        &&& e.transaction_fee == old(self).spec_cost(e.energy_used as int)
                        &&& match e.kind {
                            ContractInvocationErrorKind::SenderDoesNotExist(a) => {
                                &&& !spec_address_exists(*old(self), sender)
                                &&& a == sender
                                &&& e.energy_used == 0 && e.transaction_fee == 0
                                &&& final(self).accounts == old(self).accounts
                            },
                            ContractInvocationErrorKind::InvokerDoesNotExist(m) => {
                                &&& !has_account(old(self).accounts@, invoker)
                                &&& m.0 == invoker
                                &&& e.energy_used == 0 && e.transaction_fee == 0
                                &&& final(self).accounts == old(self).accounts
                            },
                            ContractInvocationErrorKind::InstanceDoesNotExist(c) => {
                                &&& !has_contract(old(self).contracts@, payload.address)
                                &&& c.0 == payload.address
                                &&& e.energy_used == 0 && e.transaction_fee == 0
                                &&& final(self).accounts == old(self).accounts
                            },
                            ContractInvocationErrorKind::ParameterTooLarge => {
                                &&& payload.message@.len() > MAX_PARAMETER_LEN
                                &&& e.energy_used == 0 && e.transaction_fee == 0
                                &&& final(self).accounts == old(self).accounts
                            },
                            ContractInvocationErrorKind::InsufficientFunds => {
                                &&& has_account(old(self).accounts@, invoker)
                                &&& available < reserved_cost + payload.amount
                                &&& energy_reserved >= header
                                &&& e.energy_used == header
                                &&& accounts_with_charge(
                                    old(self).accounts@,
                                    final(self).accounts@,
                                    invoker_idx,
                                    if e.transaction_fee as int <= available {
                                        e.transaction_fee as int
                                    } else {
                                        available
                                    },
                                )
                                &&& crate::ledger::spec_accounts_total(final(self).accounts@)
                                    == crate::ledger::spec_accounts_total(old(self).accounts@) - (
                                if e.transaction_fee as int <= available {
                                    e.transaction_fee as int
                                } else {
                                    available
                                })
                            },
                            ContractInvocationErrorKind::OutOfEnergy => {
                                ||| {
                                    &&& energy_reserved < header
                                    &&& e.energy_used == 0 && e.transaction_fee == 0
                                    &&& final(self).accounts == old(self).accounts
                                }
                                ||| {
                                    &&& e.energy_used == energy_reserved
                                    &&& has_account(old(self).accounts@, invoker)
                                    &&& accounts_with_charge(
                                        old(self).accounts@,
                                        final(self).accounts@,
                                        invoker_idx,
                                        e.transaction_fee as int,
                                    )
                                }
                            },
                            ContractInvocationErrorKind::EntrypointDoesNotExist(ep) => {
                                &&& ep.0@ == spec_entrypoint_of(payload.receive_name@)
                                &&& has_account(old(self).accounts@, invoker)
                                &&& accounts_with_charge(
                                    old(self).accounts@,
                                    final(self).accounts@,
                                    invoker_idx,
                                    e.transaction_fee as int,
                                )
                            },
                            _ => {
                                &&& has_account(old(self).accounts@, invoker)
                                &&& accounts_with_charge(
                                    old(self).accounts@,
                                    final(self).accounts@,
                                    invoker_idx,
                                    e.transaction_fee as int,
                                )
                            },
                        }
                    }
                }
            }),
            (r matches Err(e) ==> (!(e.kind is InsufficientFunds)
                ==> crate::ledger::spec_accounts_total(final(self).accounts@)
                    == crate::ledger::spec_accounts_total(old(self).accounts@)
                    - e.transaction_fee)),
            ({
                let reserved_cost = old(self).spec_cost(energy_reserved as int);
                let header = spec_update_header_energy(payload, signer.num_keys as int);
                let sender_ok = spec_address_exists(*old(self), sender);
                let invoker_ok = has_account(old(self).accounts@, invoker);
                let target_ok = has_contract(old(self).contracts@, payload.address);
                let param_ok = payload.message@.len() <= MAX_PARAMETER_LEN;
                let available = account_of(old(self).accounts@, invoker).balance.spec_available();
                &&& !sender_ok ==> r is Err && r.get_Err_0().kind is SenderDoesNotExist
                &&& sender_ok && !invoker_ok ==> r is Err && r.get_Err_0().kind
                    is InvokerDoesNotExist
                &&& sender_ok && invoker_ok && !target_ok ==> r is Err && r.get_Err_0().kind
                    is InstanceDoesNotExist
                &&& sender_ok && invoker_ok && target_ok && !param_ok ==> r is Err
                    && r.get_Err_0().kind is ParameterTooLarge
                &&& sender_ok && invoker_ok && target_ok && param_ok && energy_reserved < header
                    ==> r is Err && r.get_Err_0().kind is OutOfEnergy
                &&& sender_ok && invoker_ok && target_ok && param_ok && energy_reserved >= header
                    && available < reserved_cost + payload.amount ==> r is Err
                    && r.get_Err_0().kind is InsufficientFunds
            }),
    {
        proof {
            lemma_energy_cost_zero(
                self.parameters.euro_per_energy,
                self.parameters.micro_ccd_per_euro,
            );
        }
        // Preconditions, checked before any energy is spent or charged.
        if !self.address_exists(sender) {
            return Err(ContractInvocationError {
                energy_used: 0,
                transaction_fee: 0,
                kind: ContractInvocationErrorKind::SenderDoesNotExist(sender),
            });
        }
        let invoker_index = match find_account(&self.accounts, &invoker) {
            Some(i) => i,
            None => {
                return Err(ContractInvocationError {
                    energy_used: 0,
                    transaction_fee: 0,
                    kind: ContractInvocationErrorKind::InvokerDoesNotExist(
                        AccountMissing(invoker),
                    ),
                });
            }
        };
        if !self.contract_exists(payload.address) {
            return Err(ContractInvocationError {
                energy_used: 0,
                transaction_fee: 0,
                kind: ContractInvocationErrorKind::InstanceDoesNotExist(
                    ContractInstanceMissing(payload.address),
                ),
            });
        }
        if payload.message.len() > MAX_PARAMETER_LEN {
            return Err(ContractInvocationError {
                energy_used: 0,
                transaction_fee: 0,
                kind: ContractInvocationErrorKind::ParameterTooLarge,
            });
        }
        // The header-check energy comes off the reserved budget before the
        // funds are examined; if the budget cannot even cover the header,
        // nothing has been consumed yet.
        let transaction_size = TRANSACTION_HEADER_SIZE + 1 + 28 + payload.receive_name.len()
            as u64 + payload.message.len() as u64;
        let check_header_energy = transaction_size + ENERGY_PER_SIGNATURE * (signer.num_keys
            as u64);
        proof {
            assert(check_header_energy == spec_update_header_energy(
                payload,
                signer.num_keys as int,
            ));
        }
        if energy_reserved < check_header_energy {
            return Err(ContractInvocationError {
                energy_used: 0,
                transaction_fee: 0,
                kind: ContractInvocationErrorKind::OutOfEnergy,
            });
        }
        let mut remaining_energy: u64 = energy_reserved - check_header_energy;
        let reserved_cost = self.parameters.calculate_energy_cost(energy_reserved);
        proof {
            assert(self.accounts@[invoker_index as int].wf());
            lemma_energy_cost_monotone(
                check_header_energy as int,
                energy_reserved as int,
                self.parameters.euro_per_energy,
                self.parameters.micro_ccd_per_euro,
            );
        }
        let available = self.accounts[invoker_index].balance.available();
        if payload.amount > u64::MAX - reserved_cost || available < reserved_cost
            + payload.amount {
            // The header energy is consumed and its fee charged, as far as
            // the balance covers it.
            let transaction_fee = self.parameters.calculate_energy_cost(check_header_energy);
            let delta = if transaction_fee <= available {
                transaction_fee
            } else {
                available
            };
            charge_account(&mut self.accounts, invoker_index, delta);
            proof {
                crate::ledger::lemma_charge_changes_total(
                    old(self).accounts@,
                    self.accounts@,
                    invoker_index as int,
                    delta as int,
                );
            }
            return Err(ContractInvocationError {
                energy_used: check_header_energy,
                transaction_fee,
                kind: ContractInvocationErrorKind::InsufficientFunds,
            });
        }
        // Charge the reserved cost up front; the balance contracts observe
        // during execution is the post-charge balance.
        charge_account(&mut self.accounts, invoker_index, reserved_cost);
        let entrypoint = entrypoint_of(&payload.receive_name);
        let entrypoint_name = copy_bytes(&entrypoint);
        let mut changeset = Changeset::new();
        let mut events: Vec<ChainEvent> = Vec::new();
        let result = invoke_entrypoint(
            self,
            &mut changeset,
            &mut remaining_energy,
            invoker,
            0,
            sender,
            payload.address,
            entrypoint,
            payload.message,
            payload.amount,
            &mut events,
        );
        proof {
            lemma_energy_cost_monotone(
                (energy_reserved - remaining_energy) as int,
                energy_reserved as int,
                self.parameters.euro_per_energy,
                self.parameters.micro_ccd_per_euro,
            );
        }
        match result {
            Err(TestConfigurationError::OutOfEnergy) => {
                // The budget is exhausted; the whole reservation is the fee.
                self.finish_update_error(
                    Ghost(old(self).accounts@),
                    invoker_index,
                    energy_reserved,
                    reserved_cost,
                    energy_reserved,
                    ContractInvocationErrorKind::OutOfEnergy,
                )
            }
            Err(TestConfigurationError::BalanceOverflow) => {
                let energy_used = energy_reserved - remaining_energy;
                self.finish_update_error(
                    Ghost(old(self).accounts@),
                    invoker_index,
                    energy_reserved,
                    reserved_cost,
                    energy_used,
                    ContractInvocationErrorKind::BalanceOverflow,
                )
            }
            Ok(response) => {
                match response.invoke_response {
                    EntrypointInvokeResponse::Failure { kind } => {
                        let energy_used = energy_reserved - remaining_energy;
                        self.finish_update_error(
                            Ghost(old(self).accounts@),
                            invoker_index,
                            energy_reserved,
                            reserved_cost,
                            energy_used,
                            invocation_error_kind_of(kind, entrypoint_name),
                        )
                    }
                    EntrypointInvokeResponse::Success { new_balance, data } => {
                        // State-size billing is a post-condition on the
                        // final result: exhausting the budget here fails
                        // the whole invocation and discards the changeset.
                        let state_energy = changeset.collect_state_energy();
                        if !tick_energy(&mut remaining_energy, state_energy) {
                            return self.finish_update_error(
                                Ghost(old(self).accounts@),
                                invoker_index,
                                energy_reserved,
                                reserved_cost,
                                energy_reserved,
                                ContractInvocationErrorKind::OutOfEnergy,
                            );
                        }
                        proof {
                            lemma_energy_cost_monotone(
                                (energy_reserved - remaining_energy) as int,
                                energy_reserved as int,
                                self.parameters.euro_per_energy,
                                self.parameters.micro_ccd_per_euro,
                            );
                        }
                        let energy_used = energy_reserved - remaining_energy;
                        let transaction_fee = self.parameters.calculate_energy_cost(energy_used);
                        // Refund the unspent part of the up-front charge
                        // into the staged view — by difference, with
                        // checked arithmetic — and commit everything at
                        // once.
                        let refund = reserved_cost - transaction_fee;
                        let staged_total = changeset.account_total(&self.accounts, invoker_index);
                        if refund > u64::MAX - staged_total {
                            return self.finish_update_error(
                                Ghost(old(self).accounts@),
                                invoker_index,
                                energy_reserved,
                                reserved_cost,
                                energy_used,
                                ContractInvocationErrorKind::BalanceOverflow,
                            );
                        }
                        changeset.stage_account_total(
                            Ghost(self.accounts@),
                            Ghost(self.contracts@.len() as int),
                            invoker_index,
                            staged_total + refund,
                        );
                        let state_changed = changeset.any_state_changed();
                        proof {
                            assert(spec_staged_contract_balance(
                                old(self).contracts@,
                                changeset,
                                crate::ledger::contract_index(
                                    old(self).contracts@,
                                    payload.address,
                                ),
                            ) == new_balance as int);
                        }
                        self.apply_changeset(changeset);
                        proof {
                            lemma_shape_preserves_contract_lookup(
                                old(self).contracts@,
                                self.contracts@,
                            );
                        }
                        let return_value = match data {
                            Some(d) => d,
                            None => Vec::new(),
                        };
                        Ok(ContractInvocationSuccess {
                            chain_events: events,
                            energy_used,
                            transaction_fee,
                            return_value,
                            state_changed,
                            new_balance,
                            logs: response.logs,
                        })
                    }
                }
            }
        }
    }

    /// Undo the unspent part of the up-front charge and report the error
    /// with the fee of the energy actually used.
    fn finish_update_error(
        &mut self,
        Ghost(accounts0): Ghost<Seq<Account>>,
        invoker_index: usize,
        energy_reserved: u64,
        reserved_cost: u64,
        energy_used: u64,
        kind: ContractInvocationErrorKind,
    ) -> (r: Result<ContractInvocationSuccess, ContractInvocationError>)
        requires
            old(self).wf(),
            energy_used <= energy_reserved,
            old(self).spec_cost(energy_reserved as int) <= u64::MAX as int,
            reserved_cost == old(self).spec_cost(energy_reserved as int),
            invoker_index < old(self).accounts@.len(),
            accounts_with_charge(accounts0, old(self).accounts@, invoker_index as int,
                reserved_cost as int),
            accounts_wf(accounts0),
        ensures
            final(self).wf(),
            final(self).parameters == old(self).parameters,
            final(self).modules == old(self).modules,
            final(self).contracts == old(self).contracts,
            final(self).next_contract_index == old(self).next_contract_index,
            r is Err,
            ({
                let e = r.get_Err_0();
                &&& e.kind == kind
                &&& e.energy_used == energy_used
                &&& e.transaction_fee == old(self).spec_cost(energy_used as int)
                &&& accounts_with_charge(accounts0, final(self).accounts@, invoker_index as int,
                    e.transaction_fee as int)
                &&& crate::ledger::spec_accounts_total(final(self).accounts@)
                    == crate::ledger::spec_accounts_total(accounts0) - e.transaction_fee
            }),
    {
        proof {
            lemma_energy_cost_monotone(
                energy_used as int,
                energy_reserved as int,
                self.parameters.euro_per_energy,
                self.parameters.micro_ccd_per_euro,
            );
        }
        let transaction_fee = self.parameters.calculate_energy_cost(energy_used);
        let refund = reserved_cost - transaction_fee;
        proof {
            assert(self.accounts@[invoker_index as int].wf());
            assert(self.accounts@[invoker_index as int].balance.total == accounts0[
                invoker_index as int
            ].balance.total - reserved_cost);
        }
        crate::ledger::refund_account(&mut self.accounts, invoker_index, refund);
        proof {
            crate::ledger::lemma_charge_changes_total(
                accounts0,
                self.accounts@,
                invoker_index as int,
                transaction_fee as int,
            );
        }
        Err(ContractInvocationError { energy_used, transaction_fee, kind })
    }

    /// Invoke a contract entrypoint without persisting anything: the
    /// changeset is always discarded and nothing is charged.  Reserved
    /// energy is still simulated — balance queries observe the invoker's
    /// balance less the reserved cost, and the state-size delta is billed
    /// against the budget — so the reported fee matches what the same
    /// call would cost as an update.
    pub fn contract_invoke(
        &self,
        invoker: AccountAddress,
        sender: Address,
        energy_reserved: u64,
        payload: UpdateContractPayload,
    ) -> (r: Result<ContractInvocationSuccess, ContractInvocationError>)
        requires
            self.wf(),
            energy_reserved <= MAX_ALLOWED_INVOKE_ENERGY,
            self.spec_cost(energy_reserved as int) <= u64::MAX as int,
        ensures
            ({
                let reserved_cost = self.spec_cost(energy_reserved as int);
                match r {
                    Ok(s) => {
                        &&& spec_address_exists(*self, sender)
                        &&& has_account(self.accounts@, invoker)
                        &&& has_contract(self.contracts@, payload.address)
                        &&& payload.message@.len() <= MAX_PARAMETER_LEN
                        &&& account_of(self.accounts@, invoker).balance.spec_available()
                            >= reserved_cost + payload.amount
                        &&& s.energy_used <= energy_reserved
                        &&& s.transaction_fee == self.spec_cost(s.energy_used as int)
                    }
                    Err(e) => {
                        &&& e.energy_used <= energy_reserved
                        &&& e.transaction_fee == self.spec_cost(e.energy_used as int)
                        &&& e.kind is SenderDoesNotExist ==> !spec_address_exists(*self, sender)
                        &&& e.kind is InvokerDoesNotExist ==> !has_account(self.accounts@, invoker)
                        &&& e.kind is InstanceDoesNotExist ==> !has_contract(
                            self.contracts@,
                            payload.address,
                        )
                        &&& e.kind is ParameterTooLarge ==> payload.message@.len()
                            > MAX_PARAMETER_LEN
                        &&& e.kind is InsufficientFunds ==> account_of(
                            self.accounts@,
                            invoker,
                        ).balance.spec_available() < reserved_cost + payload.amount
                        &&& e.kind is OutOfEnergy ==> e.energy_used == energy_reserved
                        &&& (e.kind matches ContractInvocationErrorKind::EntrypointDoesNotExist(
                            ep,
                        ) ==> ep.0@ == spec_entrypoint_of(payload.receive_name@))
                    }
                }
            }),
            ({
                let reserved_cost = self.spec_cost(energy_reserved as int);
                let sender_ok = spec_address_exists(*self, sender);
                let invoker_ok = has_account(self.accounts@, invoker);
                let target_ok = has_contract(self.contracts@, payload.address);
                let param_ok = payload.message@.len() <= MAX_PARAMETER_LEN;
                let available = account_of(self.accounts@, invoker).balance.spec_available();
                &&& !sender_ok ==> r is Err && r.get_Err_0().kind is SenderDoesNotExist
                &&& sender_ok && !invoker_ok ==> r is Err && r.get_Err_0().kind
                    is InvokerDoesNotExist
                &&& sender_ok && invoker_ok && !target_ok ==> r is Err && r.get_Err_0().kind
                    is InstanceDoesNotExist
                &&& sender_ok && invoker_ok && target_ok && !param_ok ==> r is Err
                    && r.get_Err_0().kind is ParameterTooLarge
                &&& sender_ok && invoker_ok && target_ok && param_ok && available < reserved_cost
                    + payload.amount ==> r is Err && r.get_Err_0().kind is InsufficientFunds
            }),
    {
        proof {
            lemma_energy_cost_zero(
                self.parameters.euro_per_energy,
                self.parameters.micro_ccd_per_euro,
            );
        }
        if !self.address_exists(sender) {
            return Err(ContractInvocationError {
                energy_used: 0,
                transaction_fee: 0,
                kind: ContractInvocationErrorKind::SenderDoesNotExist(sender),
            });
        }
        let invoker_index = match find_account(&self.accounts, &invoker) {
            Some(i) => i,
            None => {
                return Err(ContractInvocationError {
                    energy_used: 0,
                    transaction_fee: 0,
                    kind: ContractInvocationErrorKind::InvokerDoesNotExist(
                        AccountMissing(invoker),
                    ),
                });
            }
        };
        if !self.contract_exists(payload.address) {
            return Err(ContractInvocationError {
                energy_used: 0,
                transaction_fee: 0,
                kind: ContractInvocationErrorKind::InstanceDoesNotExist(
                    ContractInstanceMissing(payload.address),
                ),
            });
        }
        if payload.message.len() > MAX_PARAMETER_LEN {
            return Err(ContractInvocationError {
                energy_used: 0,
                transaction_fee: 0,
                kind: ContractInvocationErrorKind::ParameterTooLarge,
            });
        }
        let reserved_cost = self.parameters.calculate_energy_cost(energy_reserved);
        proof {
            assert(self.accounts@[invoker_index as int].wf());
        }
        let available = self.accounts[invoker_index].balance.available();
        if payload.amount > u64::MAX - reserved_cost {
            return Err(ContractInvocationError {
                energy_used: 0,
                transaction_fee: 0,
                kind: ContractInvocationErrorKind::InsufficientFunds,
            });
        }
        if available < reserved_cost + payload.amount {
            return Err(ContractInvocationError {
                energy_used: 0,
                transaction_fee: 0,
                kind: ContractInvocationErrorKind::InsufficientFunds,
            });
        }
        let mut remaining_energy: u64 = energy_reserved;
        let entrypoint = entrypoint_of(&payload.receive_name);
        let entrypoint_name = copy_bytes(&entrypoint);
        let mut changeset = Changeset::new();
        let mut events: Vec<ChainEvent> = Vec::new();
        let result = invoke_entrypoint(
            self,
            &mut changeset,
            &mut remaining_energy,
            invoker,
            reserved_cost,
            sender,
            payload.address,
            entrypoint,
            payload.message,
            payload.amount,
            &mut events,
        );
        proof {
            lemma_energy_cost_monotone(
                (energy_reserved - remaining_energy) as int,
                energy_reserved as int,
                self.parameters.euro_per_energy,
                self.parameters.micro_ccd_per_euro,
            );
        }
        match result {
            Err(TestConfigurationError::OutOfEnergy) => Err(ContractInvocationError {
                energy_used: energy_reserved,
                transaction_fee: reserved_cost,
                kind: ContractInvocationErrorKind::OutOfEnergy,
            }),
            Err(TestConfigurationError::BalanceOverflow) => {
                let energy_used = energy_reserved - remaining_energy;
                let transaction_fee = self.parameters.calculate_energy_cost(energy_used);
                Err(ContractInvocationError {
                    energy_used,
                    transaction_fee,
                    kind: ContractInvocationErrorKind::BalanceOverflow,
                })
            }
            Ok(response) => match response.invoke_response {
                EntrypointInvokeResponse::Failure { kind } => {
                    let energy_used = energy_reserved - remaining_energy;
                    let transaction_fee = self.parameters.calculate_energy_cost(energy_used);
                    Err(ContractInvocationError {
                        energy_used,
                        transaction_fee,
                        kind: invocation_error_kind_of(kind, entrypoint_name),
                    })
                }
                EntrypointInvokeResponse::Success { new_balance, data } => {
                    let state_energy = changeset.collect_state_energy();
                    if !tick_energy(&mut remaining_energy, state_energy) {
                        return Err(ContractInvocationError {
                            energy_used: energy_reserved,
                            transaction_fee: reserved_cost,
                            kind: ContractInvocationErrorKind::OutOfEnergy,
                        });
                    }
                    let state_changed = changeset.any_state_changed();
                    proof {
                        lemma_energy_cost_monotone(
                            (energy_reserved - remaining_energy) as int,
                            energy_reserved as int,
                            self.parameters.euro_per_energy,
                            self.parameters.micro_ccd_per_euro,
                        );
                    }
                    let energy_used = energy_reserved - remaining_energy;
                    let transaction_fee = self.parameters.calculate_energy_cost(energy_used);
                    let return_value = match data {
                        Some(d) => d,
                        None => Vec::new(),
                    };
                    Ok(ContractInvocationSuccess {
                        chain_events: events,
                        energy_used,
                        transaction_fee,
                        return_value,
                        state_changed,
                        new_balance,
                        logs: response.logs,
                    })
                }
            },
        }
    }

    /// Apply every staged mutation of the changeset's current level to the
    /// real ledger and store, depth-first results included: afterwards
    /// every account carries its staged total and every instance its
    /// staged balance.  This is the only path by which an invocation
    /// mutates balances, states or modules of instances.
    pub(crate) fn apply_changeset(&mut self, changeset: Changeset)
        requires
            old(self).wf(),
            changeset.wf(old(self).accounts@, old(self).contracts@.len() as int),
        ensures
            final(self).wf(),
            final(self).parameters == old(self).parameters,
            final(self).modules == old(self).modules,
            final(self).next_contract_index == old(self).next_contract_index,
            spec_accounts_shape(old(self).accounts@, final(self).accounts@),
            spec_contracts_shape(old(self).contracts@, final(self).contracts@),
            forall|i: int|
                0 <= i < old(self).accounts@.len() ==> (
                #[trigger] final(self).accounts@[i]).balance.total as int == spec_staged_total(
                    old(self).accounts@,
                    changeset,
                    i,
                ),
            forall|i: int|
                0 <= i < old(self).contracts@.len() ==> (
                #[trigger] final(self).contracts@[i]).self_balance as int
                    == spec_staged_contract_balance(old(self).contracts@, changeset, i),
    {
        let ghost full_accounts = changeset.cur.accounts@;
        let ghost full_contracts = changeset.cur.contracts@;
        let Changeset { parents: _, cur } = changeset;
        let mut account_changes = cur.accounts;
        let mut contract_changes = cur.contracts;
        while account_changes.len() > 0
            invariant
                spec_accounts_shape(old(self).accounts@, self.accounts@),
                forall|i: int|
                    0 <= i < self.accounts@.len() ==> (#[trigger] self.accounts@[i]).wf(),
                crate::changeset::account_changes_wf(old(self).accounts@, account_changes@),
                forall|idx: int|
                    0 <= idx < old(self).accounts@.len()
                        ==> crate::changeset::spec_staged_total_of(
                        self.accounts@,
                        account_changes@,
                        idx,
                    ) == crate::changeset::spec_staged_total_of(
                        old(self).accounts@,
                        full_accounts,
                        idx,
                    ),
                self.contracts == old(self).contracts,
                self.modules == old(self).modules,
                self.parameters == old(self).parameters,
                self.next_contract_index == old(self).next_contract_index,
            decreases account_changes@.len(),
        {
            let ghost cs_before = account_changes@;
            let change = account_changes.pop().unwrap();
            let ghost pre_accounts = self.accounts@;
            let entry = &mut self.accounts[change.index];
            entry.balance.total = change.new_total;
            proof {
                assert(cs_before.last() == change);
                assert(account_changes@ =~= cs_before.drop_last());
                crate::changeset::lemma_apply_account_step(
                    pre_accounts,
                    self.accounts@,
                    cs_before,
                );
            }
        }
        proof {
            assert forall|idx: int| 0 <= idx < old(self).accounts@.len() implies (
            #[trigger] self.accounts@[idx]).balance.total as int
                == crate::changeset::spec_staged_total_of(
                old(self).accounts@,
                full_accounts,
                idx,
            ) by {
                assert(crate::changeset::spec_staged_total_of(
                    self.accounts@,
                    account_changes@,
                    idx,
                ) == self.accounts@[idx].balance.total as int);
            }
        }
        let ghost accounts_done = self.accounts@;
        while contract_changes.len() > 0
            invariant
                self.accounts@ == accounts_done,
                spec_contracts_shape(old(self).contracts@, self.contracts@),
                crate::changeset::contract_changes_wf(
                    old(self).contracts@.len() as int,
                    contract_changes@,
                ),
                forall|idx: int|
                    0 <= idx < old(self).contracts@.len()
                        ==> crate::changeset::spec_staged_contract_balance_of(
                        self.contracts@,
                        contract_changes@,
                        idx,
                    ) == crate::changeset::spec_staged_contract_balance_of(
                        old(self).contracts@,
                        full_contracts,
                        idx,
                    ),
                self.modules == old(self).modules,
                self.parameters == old(self).parameters,
                self.next_contract_index == old(self).next_contract_index,
            decreases contract_changes@.len(),
        {
            let ghost cs_before = contract_changes@;
            let change = contract_changes.pop().unwrap();
            let ghost pre_contracts = self.contracts@;
            let index = change.index;
            let ghost popped = change;
            match change.new_state {
                Some(state) => {
                    let entry = &mut self.contracts[index];
                    entry.state = state;
                }
                None => {}
            }
            match change.new_module {
                Some(reference) => {
                    let entry = &mut self.contracts[index];
                    entry.module_reference = reference;
                }
                None => {}
            }
            let entry = &mut self.contracts[index];
            entry.self_balance = change.new_balance;
            proof {
                assert(cs_before.last() == popped);
                assert(contract_changes@ =~= cs_before.drop_last());
                crate::changeset::lemma_apply_contract_step(
                    pre_contracts,
                    self.contracts@,
                    cs_before,
                );
            }
        }
        proof {
            assert forall|idx: int| 0 <= idx < old(self).contracts@.len() implies (
            #[trigger] self.contracts@[idx]).self_balance as int
                == crate::changeset::spec_staged_contract_balance_of(
                old(self).contracts@,
                full_contracts,
                idx,
            ) by {
                assert(crate::changeset::spec_staged_contract_balance_of(
                    self.contracts@,
                    contract_changes@,
                    idx,
                ) == self.contracts@[idx].self_balance as int);
            }
            lemma_shape_preserves_lookup(old(self).accounts@, self.accounts@);
            assert forall|i: int, j: int| 0 <= i < j < self.contracts@.len() implies (
            #[trigger] self.contracts@[i].address) != (#[trigger] self.contracts@[j].address) by {
                assert(self.contracts@[i].address == old(self).contracts@[i].address);
                assert(self.contracts@[j].address == old(self).contracts@[j].address);
            }
            assert forall|i: int| 0 <= i < self.contracts@.len() implies (
            #[trigger] self.contracts@[i].address).index < self.next_contract_index by {
                assert(self.contracts@[i].address == old(self).contracts@[i].address);
            }
        }
    }
}

} // verus!
