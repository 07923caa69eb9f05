//! The trusted boundary of the crate.
//!
//! Every item in this module either declares an outside type opaquely or
//! wraps a call into an outside crate behind a contract that Verus believes
//! without proof.  The doc comment of each wrapper names the outside
//! function relied upon.  The external Wasm validator and interpreter are
//! black boxes: nothing is assumed of the outcome of running a contract
//! except that the interpreter never reports more remaining energy than it
//! was given, which its metering enforces with checked subtraction.
//! Nothing else in the crate is trusted.

use vstd::prelude::*;
use num_bigint::BigUint;
use sha2::Digest;
use std::sync::Arc;
use concordium_base::contracts_common as cc;
use concordium_smart_contract_engine::{v0, v1, InterpreterEnergy};
use concordium_smart_contract_engine::v1::trie;
use concordium_smart_contract_engine::resumption::InterruptedState;
use concordium_smart_contract_engine::v1::{Interrupt, InvokeResult, ReceiveResult, ResumeResult};
use crate::engine::ReceiveOutcome as Outcome;
use concordium_wasm::artifact::{Artifact, CompiledFunction};
use concordium_wasm::validate::ValidationConfig;
use concordium_wasm::CostConfigurationV1;
use crate::types::{AccountAddress, Address, ContractAddress, ModuleReference};

verus! {

// ---------------------------------------------------------------------------
// Opaque declarations of the outside types that flow through the library.
// ---------------------------------------------------------------------------

#[verifier::external_type_specification]
#[verifier::external_body]
#[verifier::reject_recursive_types(I)]
#[verifier::reject_recursive_types(C)]
pub struct ExArtifact<I, C>(Artifact<I, C>);

#[verifier::external_type_specification]
#[verifier::external_body]
pub struct ExProcessedImports(v1::ProcessedImports);

#[verifier::external_type_specification]
#[verifier::external_body]
pub struct ExCompiledFunction(CompiledFunction);

#[verifier::external_type_specification]
#[verifier::external_body]
pub struct ExMutableState(trie::MutableState);

#[verifier::external_type_specification]
#[verifier::external_body]
pub struct ExPersistentState(trie::PersistentState);

#[verifier::external_type_specification]
#[verifier::external_body]
#[verifier::reject_recursive_types(I)]
#[verifier::reject_recursive_types(R)]
#[verifier::reject_recursive_types(H)]
pub struct ExInterruptedState<I, R, H>(InterruptedState<I, R, H>);

#[verifier::external_type_specification]
#[verifier::external_body]
#[verifier::reject_recursive_types(Ctx)]
pub struct ExSavedHost<Ctx>(v1::SavedHost<Ctx>);

#[verifier::external_type_specification]
#[verifier::external_body]
#[verifier::reject_recursive_types(P)]
pub struct ExReceiveContext<P>(v1::ReceiveContext<P>);

#[verifier::external_type_specification]
#[verifier::external_body]
#[verifier::reject_recursive_types(P)]
pub struct ExInitContext<P>(v0::InitContext<P>);

#[verifier::external_type_specification]
#[verifier::external_body]
pub struct ExInterrupt(v1::Interrupt);

#[verifier::external_type_specification]
#[verifier::external_body]
pub struct ExLogs(v0::Logs);

#[verifier::external_type_specification]
#[verifier::external_body]
pub struct ExReceiveInvocation<'a>(v1::ReceiveInvocation<'a>);

#[verifier::external_type_specification]
#[verifier::external_body]
#[verifier::reject_recursive_types(B)]
pub struct ExInstanceState<'a, B>(v1::InstanceState<'a, B>);

#[verifier::external_type_specification]
#[verifier::external_body]
#[verifier::reject_recursive_types(S)]
pub struct ExLoader<S>(trie::Loader<S>);

#[verifier::external_type_specification]
#[verifier::external_body]
#[verifier::reject_recursive_types(A)]
pub struct ExInitResult<A>(v1::InitResult<A>);

#[verifier::external_type_specification]
#[verifier::external_body]
pub struct ExInvokeFailure(v1::InvokeFailure);

#[verifier::external_type_specification]
#[verifier::external_body]
#[verifier::reject_recursive_types(A)]
pub struct ExInvalidReturnCodeError<A>(v1::InvalidReturnCodeError<A>);

#[verifier::external_type_specification]
#[verifier::external_body]
pub struct ExInvokeResponse(v1::InvokeResponse);

#[verifier::external_type_specification]
#[verifier::external_body]
pub struct ExReceiveParams(v1::ReceiveParams);

/// The compiled, metered form of a validated module, ready to run.
pub type ContractArtifact = Artifact<v1::ProcessedImports, CompiledFunction>;

/// The saved execution state of an interrupted entrypoint, needed to resume.
pub type InterruptConfig = Box<v1::ReceiveInterruptedState<CompiledFunction>>;

// ---------------------------------------------------------------------------
// Plain-value forms of the interpreter's reports.
// ---------------------------------------------------------------------------

/// The interpreter's report from running an init entrypoint.
pub enum InitOutcome {
    /// The entrypoint succeeded; `state` is the new instance's working state.
    Success { logs: v0::Logs, remaining_energy: u64, state: trie::MutableState },
    /// The entrypoint signalled a logic error with a negative code.
    Reject { reason: i32, return_value: Vec<u8>, remaining_energy: u64 },
    /// Execution stopped on a runtime error.
    Trap { remaining_energy: u64 },
    /// Execution exhausted the interpreter energy it was given.
    OutOfEnergy,
}

/// The interpreter's report from running or resuming a receive entrypoint.
pub enum ReceiveOutcome {
    /// The entrypoint finished: its logs, whether the state changed in the
    /// segment since the last resumption, the return value, and the
    /// remaining interpreter energy.
    Success(v0::Logs, bool, Vec<u8>, u64),
    /// The entrypoint asks the host to perform an operation and resume it:
    /// the remaining interpreter energy, whether the state changed in the
    /// last segment, the segment's logs, the saved execution state, and
    /// the requested operation.
    Interrupt(u64, bool, v0::Logs, InterruptConfig, v1::Interrupt),
    /// The entrypoint signalled a logic error: the negative code, the
    /// return value, and the remaining interpreter energy.
    Reject(i32, Vec<u8>, u64),
    /// Execution stopped on a runtime error, with the remaining
    /// interpreter energy.
    Trap(u64),
    /// Execution exhausted the interpreter energy it was given.
    OutOfEnergy,
}

/// The host operation requested by an interrupt, as plain values.
pub enum HostOperation {
    /// Move the amount from the running contract to the account.
    Transfer(AccountAddress, u64),
    /// Invoke the named entrypoint on the contract at the address with the
    /// parameter, passing the amount along.
    Call(ContractAddress, Vec<u8>, Vec<u8>, u64),
    /// Swap the running contract's module for the referenced one.
    Upgrade(ModuleReference),
    /// Report the balance triple of the account.
    QueryAccountBalance(AccountAddress),
    /// Report the balance of the contract at the address.
    QueryContractBalance(ContractAddress),
    /// Report the chain's two exchange rates.
    QueryExchangeRates,
    /// Check a signature on data against the account's keys.
    CheckAccountSignature(AccountAddress),
    /// Report the account's public keys.
    QueryAccountKeys(AccountAddress),
    /// An operation outside the supported protocol; the runtime parameters
    /// used here never produce one.
    Unsupported,
}

/// The host's answer to an interrupt, as plain values.
pub enum HostResponse {
    /// The operation succeeded; `new_balance` is the running contract's
    /// balance afterwards, `data` an optional return value.
    Success { new_balance: u64, data: Option<Vec<u8>> },
    /// The operation failed; the contract may inspect the failure and go on.
    Failure { failure: HostFailure },
}

/// Failures of host operations, reported back to the running contract.
#[derive(Clone, Debug)]
pub enum HostFailure {
    /// A called contract rejected with the (negative) code and return value.
    ContractReject { code: i32, data: Vec<u8> },
    /// A transfer or call exceeded the sender's balance.
    InsufficientAmount,
    /// The receiving account of a transfer does not exist.
    NonExistentAccount,
    /// The called contract does not exist.
    NonExistentContract,
    /// The called contract lacks the entrypoint and a fallback.
    NonExistentEntrypoint,
    /// The called contract failed with a runtime error.
    RuntimeError,
    /// The module to upgrade to is not deployed.
    UpgradeInvalidModuleRef,
    /// The module to upgrade to does not contain the running contract.
    UpgradeInvalidContractName,
    /// The module to upgrade to has an unsupported version.
    UpgradeInvalidVersion,
    /// A signature check did not verify against the account's keys.
    SignatureCheckFailed,
}

/// Every report of remaining interpreter energy in `o` is bounded by the
/// interpreter energy that was handed in.
pub open spec fn init_outcome_within(o: InitOutcome, energy: int) -> bool {
    match o {
        InitOutcome::Success { remaining_energy, .. } => remaining_energy <= energy,
        InitOutcome::Reject { remaining_energy, .. } => remaining_energy <= energy,
        InitOutcome::Trap { remaining_energy } => remaining_energy <= energy,
        InitOutcome::OutOfEnergy => true,
    }
}

/// Every report of remaining interpreter energy in `o` is bounded by the
/// interpreter energy that was handed in.
pub open spec fn receive_outcome_within(o: ReceiveOutcome, energy: int) -> bool {
    match o {
        ReceiveOutcome::Success(_, _, _, remaining_energy) => remaining_energy <= energy,
        ReceiveOutcome::Interrupt(remaining_energy, _, _, _, _) => remaining_energy <= energy,
        ReceiveOutcome::Reject(_, _, remaining_energy) => remaining_energy <= energy,
        ReceiveOutcome::Trap(remaining_energy) => remaining_energy <= energy,
        ReceiveOutcome::OutOfEnergy => true,
    }
}

// ---------------------------------------------------------------------------
// Pure computation taken from outside crates.
// ---------------------------------------------------------------------------

/// The result of the SHA-256 hash function on a byte sequence.  The digest
/// depends on the input bytes alone; no further properties are assumed.
pub uninterp spec fn sha256_of(bytes: Seq<u8>) -> Seq<u8>;

/// Whether the external validator accepts the module bytes.  The verdict
/// is a function of the bytes alone: the validation configuration, cost
/// configuration and allowed imports are fixed below.
pub uninterp spec fn wasm_module_valid(source: Seq<u8>) -> bool;

/// Relies on `sha2::Sha256`: the digest of the input bytes, 32 bytes long,
/// a function of the input alone.
#[verifier::external_body]
pub fn sha256(bytes: &Vec<u8>) -> (r: [u8; 32])
    ensures
        r@ == sha256_of(bytes@),
        r@.len() == 32,
{
    <[u8; 32]>::from(sha2::Sha256::digest(bytes.as_slice()))
}

/// Relies on `num_bigint::BigUint` multiplication, floor division and
/// conversion to `u64`: computes `(a * b * c) / (d1 * d2)` exactly, with no
/// intermediate overflow, and reports `None` exactly when the quotient does
/// not fit in 64 bits.
#[verifier::external_body]
pub fn mul_div_floor_u64(a: u64, b: u64, c: u64, d1: u64, d2: u64) -> (r: Option<u64>)
    requires
        d1 > 0,
        d2 > 0,
    ensures
        ({
            let q = (a * b * c) / (d1 * d2);
            if q <= u64::MAX as int {
                r == Some(q as u64)
            } else {
                r is None
            }
        }),
{
    let numerator = BigUint::from(a) * b * c;
    let denominator = BigUint::from(d1) * d2;
    u64::try_from(numerator / denominator).ok()
}

// ---------------------------------------------------------------------------
// The Wasm validator.
// ---------------------------------------------------------------------------

/// Relies on `concordium_wasm::utils::instantiate_with_metering`: validates
/// the module bytes under the protocol-6 validation configuration and
/// compiles them with cost metering.  On failure the validator's message is
/// returned as text.  The verdict is deterministic in the bytes, since
/// every configuration argument is fixed here; which bytes validate is not
/// further specified.
#[verifier::external_body]
pub fn validate_wasm_module(source: &Vec<u8>) -> (r: Result<Arc<ContractArtifact>, Vec<u8>>)
    ensures
        r is Ok <==> wasm_module_valid(source@),
{
    let imports = v1::ConcordiumAllowedImports { support_upgrade: true, enable_debug: false };
    let res = concordium_wasm::utils::instantiate_with_metering::<v1::ProcessedImports>(
        ValidationConfig::V1,
        CostConfigurationV1,
        &imports,
        source.as_slice(),
    );
    match res {
        Ok(module) => Ok(Arc::new(module.artifact)),
        Err(err) => Err(err.to_string().into_bytes()),
    }
}

/// Relies on the public `export` map of `concordium_wasm::artifact::Artifact`:
/// whether the compiled module exports an entrypoint of the given name.
#[verifier::external_body]
pub fn artifact_has_entrypoint(artifact: &Arc<ContractArtifact>, name: &Vec<u8>) -> bool {
    match core::str::from_utf8(name.as_slice()) {
        Ok(s) => artifact.export.contains_key(s),
        Err(_) => false,
    }
}

// ---------------------------------------------------------------------------
// Running entrypoints.
// ---------------------------------------------------------------------------

/// Relies on the field layout of `v0::InitContext`: builds the context an
/// init entrypoint observes from plain values.
#[verifier::external_body]
pub fn make_init_context(
    block_time: u64,
    origin: &AccountAddress,
    policy: &Vec<u8>,
) -> v0::InitContext<Vec<u8>> {
    v0::InitContext {
        metadata: cc::ChainMetadata { slot_time: cc::Timestamp::from_timestamp_millis(block_time) },
        init_origin: cc::AccountAddress(origin.0),
        sender_policies: policy.clone(),
    }
}

/// Relies on `v1::invoke_init`: runs the named init entrypoint of the
/// artifact under the given interpreter-energy limit.  The interpreter's
/// metering only ever subtracts from the energy it is given, so every
/// reported remainder is bounded by `energy`.
#[verifier::external_body]
pub fn run_init(
    artifact: &Arc<ContractArtifact>,
    ctx: v0::InitContext<Vec<u8>>,
    amount: u64,
    init_name: &Vec<u8>,
    parameter: &Vec<u8>,
    energy: u64,
) -> (r: InitOutcome)
    ensures
        init_outcome_within(r, energy as int),
{
    let name = core::str::from_utf8(init_name.as_slice()).unwrap_or("");
    let invocation = v1::InitInvocation { amount: cc::Amount::from_micro_ccd(amount), init_name: name, parameter: parameter.as_slice(), energy: InterpreterEnergy::from(energy) };
    let res: v1::InvokeResult<v1::InitResult<()>, ()> = v1::invoke_init(artifact.as_ref(), ctx, invocation, false, empty_loader());
    convert_init_result(res)
}

/// Relies on the variant layout of `v1::InitResult`: moves each variant's
/// fields into the plain-value form, one arm per variant.  An invalid
/// return code is a protocol violation and consumes all energy.
#[verifier::external_body]
fn convert_init_result(res: v1::InvokeResult<v1::InitResult<()>, ()>) -> InitOutcome {
    match res {
        Ok(v1::InitResult::Success { logs, remaining_energy, state, .. }) => InitOutcome::Success { logs, remaining_energy: remaining_energy.energy, state },
        Ok(v1::InitResult::Reject { reason, return_value, remaining_energy, .. }) => InitOutcome::Reject { reason, return_value, remaining_energy: remaining_energy.energy },
        Ok(v1::InitResult::Trap { remaining_energy, .. }) => InitOutcome::Trap { remaining_energy: remaining_energy.energy },
        Ok(v1::InitResult::OutOfEnergy { .. }) => InitOutcome::OutOfEnergy,
        Err(_) => InitOutcome::Trap { remaining_energy: 0 },
    }
}

/// Relies on the field layout of `v0::Logs`: the logged byte strings, in
/// order.
#[verifier::external_body]
pub fn logs_to_vec(logs: v0::Logs) -> Vec<Vec<u8>> {
    logs.logs.into_iter().collect()
}

/// Relies on the field layout of `v1::ReceiveInvocation`: builds the
/// invocation of a receive entrypoint from plain values.
#[verifier::external_body]
fn make_receive_invocation<'a>(
    receive_name: &'a Vec<u8>,
    parameter: &'a Vec<u8>,
    amount: u64,
    energy: u64,
) -> v1::ReceiveInvocation<'a> {
    v1::ReceiveInvocation {
        amount: cc::Amount::from_micro_ccd(amount),
        receive_name: cc::ReceiveName::new_unchecked(core::str::from_utf8(receive_name.as_slice()).unwrap_or("")),
        parameter: parameter.as_slice(),
        energy: InterpreterEnergy::from(energy),
    }
}

/// Relies on `trie::MutableState::get_inner` and `v1::InstanceState::new`:
/// an instance-state view of the working state, ready for execution.
#[verifier::external_body]
fn fresh_instance_state<'a>(
    state: &'a mut trie::MutableState,
) -> v1::InstanceState<'a, trie::Loader<&'static [u8]>> {
    let mut loader = empty_loader();
    let inner = state.get_inner(&mut loader);
    v1::InstanceState::new(empty_loader(), inner)
}

/// Relies on `trie::Loader::new`: a loader over no backing store, as this
/// simulator keeps all state in memory.
#[verifier::external_body]
fn empty_loader() -> trie::Loader<&'static [u8]> {
    trie::Loader::new(&[][..])
}

/// Relies on `v1::ReceiveParams::new_p6`: the protocol-6 runtime limits,
/// with balance, exchange-rate, account-key and signature queries
/// supported.
#[verifier::external_body]
fn receive_params() -> v1::ReceiveParams {
    v1::ReceiveParams::new_p6()
}

/// Relies on the field layout of `v1::ReceiveContext`: builds the context a
/// receive entrypoint observes from plain values.
#[verifier::external_body]
pub fn make_receive_context(
    block_time: u64,
    invoker: &AccountAddress,
    self_address: &ContractAddress,
    self_balance: u64,
    sender: &Address,
    owner: &AccountAddress,
    policy: &Vec<u8>,
    entrypoint: &Vec<u8>,
) -> v1::ReceiveContext<Vec<u8>> {
    let sender_address = match sender {
        Address::Account(a) => cc::Address::Account(cc::AccountAddress(a.0)),
        Address::Contract(c) => cc::Address::Contract(cc::ContractAddress { index: c.index, subindex: c.subindex }),
    };
    let common = v0::ReceiveContext {
        metadata: cc::ChainMetadata { slot_time: cc::Timestamp::from_timestamp_millis(block_time) },
        invoker: cc::AccountAddress(invoker.0),
        self_address: cc::ContractAddress { index: self_address.index, subindex: self_address.subindex },
        self_balance: cc::Amount::from_micro_ccd(self_balance),
        sender: sender_address, owner: cc::AccountAddress(owner.0), sender_policies: policy.clone(),
    };
    let entrypoint = cc::OwnedEntrypointName::new_unchecked(String::from_utf8_lossy(entrypoint.as_slice()).into_owned());
    v1::ReceiveContext { common, entrypoint }
}

/// Relies on `v1::invoke_receive`: runs the named receive entrypoint of the
/// artifact on the given working state under the protocol-6 runtime
/// parameters.  The interpreter's metering only ever subtracts from the
/// energy it is given, so every reported remainder is bounded by `energy`.
#[verifier::external_body]
pub fn run_receive(
    artifact: &Arc<ContractArtifact>,
    ctx: v1::ReceiveContext<Vec<u8>>,
    receive_name: &Vec<u8>,
    parameter: &Vec<u8>,
    amount: u64,
    energy: u64,
    state: &mut trie::MutableState,
) -> (r: ReceiveOutcome)
    ensures
        receive_outcome_within(r, energy as int),
{
    let res: InvokeResult<ReceiveResult<_, ()>, ()> = v1::invoke_receive(artifact.clone(), ctx, make_receive_invocation(receive_name, parameter, amount, energy), fresh_instance_state(state), receive_params());
    match res {
        Ok(ReceiveResult::Success { logs, state_changed, return_value, remaining_energy, .. }) => Outcome::Success(logs, state_changed, return_value, remaining_energy.energy),
        Ok(ReceiveResult::Interrupt { remaining_energy, state_changed, logs, config, interrupt, .. }) => Outcome::Interrupt(remaining_energy.energy, state_changed, logs, config, interrupt),
        Ok(ReceiveResult::Reject { reason, return_value, remaining_energy, .. }) => Outcome::Reject(reason, return_value, remaining_energy.energy),
        Ok(ReceiveResult::Trap { remaining_energy, .. }) => Outcome::Trap(remaining_energy.energy),
        Ok(ReceiveResult::OutOfEnergy { .. }) => Outcome::OutOfEnergy,
        Err(_) => Outcome::Trap(0),
    }
}

/// Relies on `v1::resume_receive`: resumes an interrupted entrypoint with
/// the host's response, on the current working state.  The interpreter's
/// metering only ever subtracts from the energy it is given, so every
/// reported remainder is bounded by `energy`.
#[verifier::external_body]
pub fn resume_receive(
    config: InterruptConfig,
    response: v1::InvokeResponse,
    energy: u64,
    state: &mut trie::MutableState,
    state_updated: bool,
) -> (r: ReceiveOutcome)
    ensures
        receive_outcome_within(r, energy as int),
{
    let res: ResumeResult<ReceiveResult<_, ()>, ()> = v1::resume_receive(config, response, InterpreterEnergy::from(energy), state, state_updated, empty_loader());
    match res {
        Ok(ReceiveResult::Success { logs, state_changed, return_value, remaining_energy, .. }) => Outcome::Success(logs, state_changed, return_value, remaining_energy.energy),
        Ok(ReceiveResult::Interrupt { remaining_energy, state_changed, logs, config, interrupt, .. }) => Outcome::Interrupt(remaining_energy.energy, state_changed, logs, config, interrupt),
        Ok(ReceiveResult::Reject { reason, return_value, remaining_energy, .. }) => Outcome::Reject(reason, return_value, remaining_energy.energy),
        Ok(ReceiveResult::Trap { remaining_energy, .. }) => Outcome::Trap(remaining_energy.energy),
        Ok(ReceiveResult::OutOfEnergy { .. }) => Outcome::OutOfEnergy,
        Err(_) => Outcome::Trap(0),
    }
}

/// Relies on the variant layout of `v1::Interrupt`: moves each variant's
/// fields into the plain-value form, one arm per variant.  Operations of
/// later protocols are never produced under the protocol-5 runtime
/// parameters and map to the unsupported operation.
#[verifier::external_body]
pub fn decode_interrupt(interrupt: v1::Interrupt) -> HostOperation {
    match interrupt {
        Interrupt::Transfer { to, amount } => HostOperation::Transfer(AccountAddress(to.0), amount.micro_ccd()),
        Interrupt::Call { address, parameter, name, amount } => HostOperation::Call(ContractAddress::new(address.index, address.subindex), parameter, name.to_string().into_bytes(), amount.micro_ccd()),
        Interrupt::Upgrade { module_ref } => HostOperation::Upgrade(ModuleReference(module_ref.bytes)),
        Interrupt::QueryAccountBalance { address } => HostOperation::QueryAccountBalance(AccountAddress(address.0)),
        Interrupt::QueryContractBalance { address } => HostOperation::QueryContractBalance(ContractAddress::new(address.index, address.subindex)),
        Interrupt::QueryExchangeRates => HostOperation::QueryExchangeRates,
        Interrupt::CheckAccountSignature { address, .. } => HostOperation::CheckAccountSignature(AccountAddress(address.0)),
        Interrupt::QueryAccountKeys { address } => HostOperation::QueryAccountKeys(AccountAddress(address.0)),
        _ => HostOperation::Unsupported,
    }
}

/// Relies on the variant layout of `v1::InvokeResponse`: builds the
/// response handed back to a resumed entrypoint from plain values.
#[verifier::external_body]
pub fn encode_response(response: HostResponse) -> v1::InvokeResponse {
    match response {
        HostResponse::Success { new_balance, data } => v1::InvokeResponse::Success {
            new_balance: cc::Amount::from_micro_ccd(new_balance),
            data,
        },
        HostResponse::Failure { failure } =>
            v1::InvokeResponse::Failure { kind: encode_failure(failure) },
    }
}

/// Relies on the variant layout of `v1::InvokeFailure`: one arm per variant
/// of the plain-value failure form.
#[verifier::external_body]
fn encode_failure(failure: HostFailure) -> v1::InvokeFailure {
    match failure {
        HostFailure::ContractReject { code, data } => v1::InvokeFailure::ContractReject { code, data },
        HostFailure::InsufficientAmount => v1::InvokeFailure::InsufficientAmount,
        HostFailure::NonExistentAccount => v1::InvokeFailure::NonExistentAccount,
        HostFailure::NonExistentContract => v1::InvokeFailure::NonExistentContract,
        HostFailure::NonExistentEntrypoint => v1::InvokeFailure::NonExistentEntrypoint,
        HostFailure::RuntimeError => v1::InvokeFailure::RuntimeError,
        HostFailure::UpgradeInvalidModuleRef => v1::InvokeFailure::UpgradeInvalidModuleRef,
        HostFailure::UpgradeInvalidContractName => v1::InvokeFailure::UpgradeInvalidContractName,
        HostFailure::UpgradeInvalidVersion => v1::InvokeFailure::UpgradeInvalidVersion,
        HostFailure::SignatureCheckFailed => v1::InvokeFailure::SignatureCheckFailed,
    }
}

// ---------------------------------------------------------------------------
// Persistent contract state.
// ---------------------------------------------------------------------------

/// Relies on `trie::PersistentState::thaw`: a fresh working state backed by
/// the given checkpoint.
#[verifier::external_body]
pub fn state_thaw(state: &trie::PersistentState) -> trie::MutableState {
    state.thaw()
}

/// Relies on `trie::MutableState::freeze` with a `trie::SizeCollector`:
/// turns the working state into a checkpoint and reports the number of
/// bytes of newly stored state, used for billing.
#[verifier::external_body]
pub fn state_freeze(state: &mut trie::MutableState) -> (trie::PersistentState, u64) {
    let mut loader = trie::Loader::new(&[][..]);
    let mut collector = trie::SizeCollector::default();
    let frozen = state.freeze(&mut loader, &mut collector);
    (frozen, collector.collect())
}

/// Relies on `trie::PersistentState::lookup`: a copy of the value stored
/// under the key, if any.
#[verifier::external_body]
pub fn state_lookup(state: &trie::PersistentState, key: &Vec<u8>) -> Option<Vec<u8>> {
    let mut loader = trie::Loader::new(&[][..]);
    state.lookup(&mut loader, key.as_slice())
}

/// Relies on `trie::PersistentState::clone`: an equal checkpoint value.
#[verifier::external_body]
pub fn state_clone(state: &trie::PersistentState) -> (r: trie::PersistentState)
    ensures
        r == *state,
{
    state.clone()
}

} // verus!
