//! Tests of the chain: accounts and aliasing, module loading and
//! deployment, contract initialization, updates and invocations.

use contract_testing::chain::{compute_module_reference, Chain};
use contract_testing::energy::{ExchangeRate, MAX_ALLOWED_INVOKE_ENERGY};
use contract_testing::types::{
    Account, AccountAddress, AccountAddressEq, AccountBalance, Address, ChainEvent,
    ContractAddress, ContractInitErrorKind, ContractInvocationErrorKind, ContractInvocationSuccess,
    InitContractPayload, ModuleDeployErrorKind, ModuleLoadError, ModuleReference, Signer,
    UpdateContractPayload, WasmModule, WasmVersion, ZeroKeysError,
};

/// A million micro-units: one whole currency unit.
const CCD: u64 = 1_000_000;

/// A minimal valid Wasm module with a succeeding and a rejecting init
/// entrypoint, `init_test` and `init_fail`, and a succeeding and a
/// rejecting receive entrypoint, `test.echo` and `test.reject`.
fn test_module_bytes() -> Vec<u8> {
    let mut bytes = vec![
        0x00, 0x61, 0x73, 0x6D, 0x01, 0x00, 0x00, 0x00, // magic, version
        0x01, 0x06, 0x01, 0x60, 0x01, 0x7E, 0x01, 0x7F, // type (i64) -> i32
        0x03, 0x05, 0x04, 0x00, 0x00, 0x00, 0x00, // four functions of that type
    ];
    // Export section.
    bytes.extend_from_slice(&[0x07, 0x33, 0x04, 0x09]);
    bytes.extend_from_slice(b"init_test");
    bytes.extend_from_slice(&[0x00, 0x00, 0x09]);
    bytes.extend_from_slice(b"init_fail");
    bytes.extend_from_slice(&[0x00, 0x01, 0x09]);
    bytes.extend_from_slice(b"test.echo");
    bytes.extend_from_slice(&[0x00, 0x02, 0x0B]);
    bytes.extend_from_slice(b"test.reject");
    bytes.extend_from_slice(&[0x00, 0x03]);
    // Code section: the bodies return 0 (success) or -1 (reject).
    bytes.extend_from_slice(&[
        0x0A, 0x15, 0x04, 0x04, 0x00, 0x41, 0x00, 0x0B, 0x04, 0x00, 0x41, 0x7F, 0x0B, 0x04, 0x00,
        0x41, 0x00, 0x0B, 0x04, 0x00, 0x41, 0x7F, 0x0B,
    ]);
    bytes
}

fn addr(prefix: u8, suffix: [u8; 3]) -> AccountAddress {
    let mut bytes = [0u8; 32];
    bytes[0] = prefix;
    bytes[29] = suffix[0];
    bytes[30] = suffix[1];
    bytes[31] = suffix[2];
    AccountAddress(bytes)
}

/// Test that account aliases are seen as one account.
#[test]
fn test_account_aliases() {
    let mut chain = Chain::new();
    let acc = AccountAddress([
        0, 0, 0, 0, 0, 0, 0, 0, 0, 0, 0, 0, 0, 0, 0, 0, 0, 0, 0, 0, 0, 0, 0, 0, 0, 0, 0, 0, 0, 0,
        0, 0,
    ]);
    let acc_alias = AccountAddress([
        0, 0, 0, 0, 0, 0, 0, 0, 0, 0, 0, 0, 0, 0, 0, 0, 0, 0, 0, 0, 0, 0, 0, 0, 0, 0, 0, 0, 0, 1,
        2, 3, // Last three bytes can differ for aliases.
    ]);
    let acc_other = AccountAddress([
        0, 0, 0, 0, 0, 0, 0, 0, 0, 0, 0, 0, 0, 0, 0, 0, 0, 0, 0, 0, 0, 0, 0, 0, 0, 0, 0, 0, 1, 2,
        3, 4, // This differs on last four bytes, so it is a different account.
    ]);
    let acc_eq = AccountAddressEq(acc);
    let acc_alias_eq = AccountAddressEq(acc_alias);
    let acc_other_eq = AccountAddressEq(acc_other);

    let expected_amount = 10 * CCD;
    let expected_amount_other = 123 * CCD;

    chain.create_account(Account::new(acc, expected_amount));
    chain.create_account(Account::new(acc_other, expected_amount_other));

    assert_eq!(acc_eq, acc_alias_eq);
    assert_ne!(acc_eq, acc_other_eq);

    assert_eq!(acc_eq.cmp(&acc_alias_eq), std::cmp::Ordering::Equal);
    assert_eq!(acc_eq.cmp(&acc_other_eq), std::cmp::Ordering::Less);

    assert_eq!(chain.account_balance_available(acc_alias), Some(expected_amount));
    assert_eq!(chain.account_balance_available(acc_other), Some(expected_amount_other));
}

/// Re-creating an account at an aliasing address replaces it and hands the
/// previous account back.
#[test]
fn create_account_replaces_aliases() {
    let mut chain = Chain::new();
    let a = addr(7, [0, 0, 0]);
    let a_alias = addr(7, [9, 9, 9]);
    assert!(chain.create_account(Account::new(a, 5 * CCD)).is_none());
    let previous = chain.create_account(Account::new(a_alias, 8 * CCD));
    assert!(previous.is_some());
    assert_eq!(previous.unwrap().balance.total, 5 * CCD);
    assert_eq!(chain.account_balance_available(a), Some(8 * CCD));
}

/// Versioned module bytes parse back into the module; trailing bytes such
/// as appended custom sections are ignored.
#[test]
fn module_load_v1_parses_versioned_bytes() {
    let mut bytes = vec![0, 0, 0, 1, 0, 0, 0, 2, 0xAA, 0xBB];
    let module = Chain::module_load_v1(bytes.clone()).expect("should parse");
    assert_eq!(module.version, WasmVersion::V1);
    assert_eq!(module.source, vec![0xAA, 0xBB]);
    bytes.extend_from_slice(&[1, 2, 3]);
    let module = Chain::module_load_v1(bytes).expect("trailing bytes are ignored");
    assert_eq!(module.source, vec![0xAA, 0xBB]);
}

/// A version tag of zero is an unsupported version, not a parse error.
#[test]
fn module_load_v1_rejects_version_zero() {
    let bytes = vec![0, 0, 0, 0, 0, 0, 0, 1, 0xAA];
    match Chain::module_load_v1(bytes) {
        Err(ModuleLoadError::UnsupportedModuleVersion(v)) => assert_eq!(v, WasmVersion::V0),
        other => panic!("expected an unsupported version, got {:?}", other.is_ok()),
    }
}

/// Truncated or oversized serializations are invalid modules.
#[test]
fn module_load_v1_rejects_malformed_bytes() {
    assert!(Chain::module_load_v1(vec![0, 0, 0, 1]).is_err());
    assert!(Chain::module_load_v1(vec![0, 0, 0, 1, 0, 0, 0, 9, 0xAA]).is_err());
    assert!(Chain::module_load_v1(vec![0, 0, 0, 2, 0, 0, 0, 0]).is_err());
}

/// Raw loading caps the module size and keeps the bytes as they are.
#[test]
fn module_load_v1_raw_caps_size() {
    let module = Chain::module_load_v1_raw(vec![1, 2, 3]).expect("should load");
    assert_eq!(module.version, WasmVersion::V1);
    assert_eq!(module.source, vec![1, 2, 3]);
    assert!(Chain::module_load_v1_raw(vec![0; 524289]).is_err());
}

/// The module reference is the SHA-256 digest of the versioned
/// serialization: version tag, length, module bytes, big-endian.
#[test]
fn module_reference_is_content_derived() {
    let module = WasmModule {
        version: WasmVersion::V1,
        source: vec![0x00, 0x61, 0x73, 0x6D, 0x01, 0x00, 0x00, 0x00],
    };
    let reference = compute_module_reference(&module);
    let expected: [u8; 32] = [
        5, 238, 197, 39, 113, 157, 169, 75, 241, 156, 60, 220, 151, 103, 168, 213, 105, 134, 238,
        231, 47, 136, 88, 121, 244, 7, 176, 196, 171, 129, 169, 37,
    ];
    assert_eq!(reference.0, expected);
    let other = WasmModule {
        version: WasmVersion::V1,
        source: vec![0x00, 0x61, 0x73, 0x6D, 0x01, 0x00, 0x00, 0x01],
    };
    assert_ne!(compute_module_reference(&other).0, expected);
}

/// Deploying the same module twice: the first call succeeds, the second
/// fails with the same reference, and both are charged.
#[test]
fn module_deploy_twice_charges_both_times() {
    let mut chain = Chain::new();
    let sender = addr(1, [0, 0, 0]);
    chain.create_account(Account::new(sender, 1000 * CCD));
    let module = WasmModule { version: WasmVersion::V1, source: test_module_bytes() };

    let balance0 = chain.account_balance_available(sender).unwrap();
    let success = chain
        .module_deploy_v1(Signer::with_one_key(), sender, module.clone())
        .expect("first deployment should succeed");
    assert!(success.transaction_fee > 0);
    let balance1 = chain.account_balance_available(sender).unwrap();
    assert_eq!(balance0 - balance1, success.transaction_fee);

    let error = chain
        .module_deploy_v1(Signer::with_one_key(), sender, module)
        .expect_err("second deployment should fail");
    match error.kind {
        ModuleDeployErrorKind::DuplicateModule(reference) => {
            assert_eq!(reference, success.module_reference);
        }
        _ => panic!("expected a duplicate module"),
    }
    assert_eq!(error.transaction_fee, success.transaction_fee);
    let balance2 = chain.account_balance_available(sender).unwrap();
    assert_eq!(balance1 - balance2, error.transaction_fee);
}

/// Deployment fails free of charge when the sender does not exist, the
/// version is wrong, or the header cannot be paid.
#[test]
fn module_deploy_precondition_failures() {
    let mut chain = Chain::new();
    let sender = addr(1, [0, 0, 0]);
    let module = WasmModule { version: WasmVersion::V1, source: test_module_bytes() };
    let error = chain
        .module_deploy_v1(Signer::with_one_key(), sender, module.clone())
        .expect_err("sender does not exist");
    assert!(matches!(error.kind, ModuleDeployErrorKind::SenderDoesNotExist(_)));
    assert_eq!(error.transaction_fee, 0);

    chain.create_account(Account::new(sender, 10));
    let error = chain
        .module_deploy_v1(Signer::with_one_key(), sender, module)
        .expect_err("cannot pay the header fee");
    assert!(matches!(error.kind, ModuleDeployErrorKind::InsufficientFunds));
    assert_eq!(error.transaction_fee, 0);
    assert_eq!(chain.account_balance_available(sender), Some(10));

    let v0 = WasmModule { version: WasmVersion::V0, source: vec![1, 2, 3] };
    let mut chain = Chain::new();
    chain.create_account(Account::new(sender, 1000 * CCD));
    let balance0 = chain.account_balance_available(sender).unwrap();
    let error = chain
        .module_deploy_v1(Signer::with_one_key(), sender, v0)
        .expect_err("only version 1 can be deployed");
    assert!(matches!(error.kind, ModuleDeployErrorKind::UnsupportedModuleVersion(WasmVersion::V0)));
    // The header fee was charged immediately, regardless of the version
    // check that followed.
    assert!(error.transaction_fee > 0);
    assert_eq!(error.energy_used, 1 + 8 + 3 + 60 + 100);
    let balance1 = chain.account_balance_available(sender).unwrap();
    assert_eq!(balance0 - balance1, error.transaction_fee);
}

/// An invoker who cannot cover the reserved cost plus the amount fails an
/// update with the header energy consumed and its fee charged.
#[test]
fn contract_update_insufficient_funds_charges_header() {
    let (mut chain, _, contract) = chain_with_instance();
    let poor = addr(6, [0, 0, 0]);
    chain.create_account(Account::new(poor, 1000));
    let payload = UpdateContractPayload {
        amount: 0,
        address: contract,
        receive_name: b"test.echo".to_vec(),
        message: Vec::new(),
    };
    let error = chain
        .contract_update(Signer::with_one_key(), poor, Address::Account(poor), 100_000, payload)
        .expect_err("one thousand micro-units cannot reserve one hundred thousand energy");
    assert!(matches!(error.kind, ContractInvocationErrorKind::InsufficientFunds));
    // Header size: 60 header + 1 tag + 28 fixed + 9 name + 100 per key.
    assert_eq!(error.energy_used, 60 + 1 + 28 + 9 + 100);
    assert_eq!(error.transaction_fee, error.energy_used);
    // The fee is charged as far as the balance covers it: fully, here.
    assert_eq!(chain.account_balance_available(poor), Some(1000 - error.transaction_fee));
}

/// A module that the validator refuses is charged the header fee and never
/// registered.
#[test]
fn module_deploy_invalid_module_charges_header() {
    let mut chain = Chain::new();
    let sender = addr(1, [0, 0, 0]);
    chain.create_account(Account::new(sender, 1000 * CCD));
    let module = WasmModule { version: WasmVersion::V1, source: vec![1, 2, 3, 4] };
    let balance0 = chain.account_balance_available(sender).unwrap();
    let error = chain
        .module_deploy_v1(Signer::with_one_key(), sender, module)
        .expect_err("not a Wasm module");
    assert!(matches!(error.kind, ModuleDeployErrorKind::InvalidModule(_)));
    assert!(error.transaction_fee > 0);
    let balance1 = chain.account_balance_available(sender).unwrap();
    assert_eq!(balance0 - balance1, error.transaction_fee);
}

/// Set up a chain with a funded account and the test module deployed.
fn chain_with_deployed_module() -> (Chain, AccountAddress, ModuleReference) {
    let mut chain = Chain::new();
    let sender = addr(1, [0, 0, 0]);
    chain.create_account(Account::new(sender, 1_000_000 * CCD));
    let module = WasmModule { version: WasmVersion::V1, source: test_module_bytes() };
    let success = chain
        .module_deploy_v1(Signer::with_one_key(), sender, module)
        .expect("deployment should succeed");
    (chain, sender, success.module_reference)
}

/// Initializing a contract creates the instance, moves the amount, and
/// charges the fee.
#[test]
fn contract_init_creates_instance() {
    let (mut chain, sender, module_reference) = chain_with_deployed_module();
    let balance0 = chain.account_balance_available(sender).unwrap();
    let payload = InitContractPayload {
        amount: 3 * CCD,
        mod_ref: module_reference,
        init_name: b"init_test".to_vec(),
        param: Vec::new(),
    };
    let success = chain
        .contract_init(Signer::with_one_key(), sender, 100_000, payload)
        .expect("initialization should succeed");
    assert_eq!(success.contract_address, ContractAddress::new(0, 0));
    assert!(success.energy_used > 0);
    assert!(success.transaction_fee > 0);
    let instance = chain.get_contract(ContractAddress::new(0, 0)).expect("instance exists");
    assert_eq!(instance.self_balance, 3 * CCD);
    assert_eq!(instance.owner, sender);
    assert_eq!(instance.contract_name, b"init_test".to_vec());
    let balance1 = chain.account_balance_available(sender).unwrap();
    assert_eq!(balance0 - balance1, 3 * CCD + success.transaction_fee);
    assert_eq!(chain.contract_balance(ContractAddress::new(0, 0)), Some(3 * CCD));
}

/// An init amount above the available balance fails with insufficient
/// funds, a zero fee, and no mutation at all.
#[test]
fn contract_init_insufficient_funds_mutates_nothing() {
    let (mut chain, sender, module_reference) = chain_with_deployed_module();
    let balance0 = chain.account_balance_available(sender).unwrap();
    let payload = InitContractPayload {
        amount: balance0 + 1,
        mod_ref: module_reference,
        init_name: b"init_test".to_vec(),
        param: Vec::new(),
    };
    let error = chain
        .contract_init(Signer::with_one_key(), sender, 100_000, payload)
        .expect_err("amount exceeds the balance");
    assert!(matches!(error.kind, ContractInitErrorKind::InsufficientFunds));
    assert_eq!(error.transaction_fee, 0);
    assert_eq!(error.energy_used, 0);
    assert_eq!(chain.account_balance_available(sender), Some(balance0));
    assert!(chain.get_contract(ContractAddress::new(0, 0)).is_none());
}

/// The remaining precondition failures of initialization.
#[test]
fn contract_init_precondition_failures() {
    let (mut chain, sender, module_reference) = chain_with_deployed_module();

    let missing_sender = addr(9, [0, 0, 0]);
    let payload = InitContractPayload {
        amount: 0,
        mod_ref: module_reference,
        init_name: b"init_test".to_vec(),
        param: Vec::new(),
    };
    let error = chain
        .contract_init(Signer::with_one_key(), missing_sender, 100_000, payload.clone())
        .expect_err("sender does not exist");
    assert!(matches!(error.kind, ContractInitErrorKind::SenderDoesNotExist(_)));

    let missing_module = InitContractPayload {
        amount: 0,
        mod_ref: ModuleReference([9; 32]),
        init_name: b"init_test".to_vec(),
        param: Vec::new(),
    };
    let error = chain
        .contract_init(Signer::with_one_key(), sender, 100_000, missing_module)
        .expect_err("module does not exist");
    assert!(matches!(error.kind, ContractInitErrorKind::ModuleDoesNotExist(_)));

    let big_param = InitContractPayload {
        amount: 0,
        mod_ref: module_reference,
        init_name: b"init_test".to_vec(),
        param: vec![0; 70000],
    };
    let error = chain
        .contract_init(Signer::with_one_key(), sender, 100_000, big_param)
        .expect_err("parameter exceeds the limit");
    assert!(matches!(error.kind, ContractInitErrorKind::ParameterTooLarge));
    assert_eq!(error.transaction_fee, 0);

    let error = chain
        .contract_init(Signer::with_one_key(), sender, 10, payload)
        .expect_err("the header alone exhausts ten energy");
    assert!(matches!(error.kind, ContractInitErrorKind::OutOfEnergy));
}

/// Set up a chain with one initialized instance of the test contract.
fn chain_with_instance() -> (Chain, AccountAddress, ContractAddress) {
    let (mut chain, sender, module_reference) = chain_with_deployed_module();
    let payload = InitContractPayload {
        amount: 3 * CCD,
        mod_ref: module_reference,
        init_name: b"init_test".to_vec(),
        param: Vec::new(),
    };
    let success = chain
        .contract_init(Signer::with_one_key(), sender, 100_000, payload)
        .expect("initialization should succeed");
    (chain, sender, success.contract_address)
}

/// A successful update runs the entrypoint, moves the amount, commits, and
/// charges the invoker exactly the fee plus the amount.
#[test]
fn contract_update_runs_entrypoint() {
    let (mut chain, sender, contract) = chain_with_instance();
    let balance0 = chain.account_balance_available(sender).unwrap();
    let payload = UpdateContractPayload {
        amount: 2 * CCD,
        address: contract,
        receive_name: b"test.echo".to_vec(),
        message: Vec::new(),
    };
    let success = chain
        .contract_update(Signer::with_one_key(), sender, Address::Account(sender), 100_000, payload)
        .expect("the update should succeed");
    assert!(success.energy_used > 0);
    assert!(success.transaction_fee > 0);
    assert!(!success.state_changed);
    assert_eq!(success.new_balance, 5 * CCD);
    assert_eq!(success.return_value, Vec::<u8>::new());
    assert!(success
        .chain_events
        .iter()
        .any(|e| matches!(e, ChainEvent::Updated { address, .. } if *address == contract)));
    let balance1 = chain.account_balance_available(sender).unwrap();
    assert_eq!(balance0 - balance1, 2 * CCD + success.transaction_fee);
    assert_eq!(chain.contract_balance(contract), Some(5 * CCD));
}

/// A failing update leaves the ledger and store exactly as before, except
/// that the invoker pays the fee of the energy used.
#[test]
fn contract_update_failure_is_all_or_nothing() {
    let (mut chain, sender, contract) = chain_with_instance();
    let balance0 = chain.account_balance_available(sender).unwrap();
    let contract_balance0 = chain.contract_balance(contract);
    let payload = UpdateContractPayload {
        amount: 0,
        address: contract,
        receive_name: b"test.nope".to_vec(),
        message: Vec::new(),
    };
    let error = chain
        .contract_update(Signer::with_one_key(), sender, Address::Account(sender), 100_000, payload)
        .expect_err("the entrypoint does not exist");
    assert!(matches!(error.kind, ContractInvocationErrorKind::EntrypointDoesNotExist(_)));
    assert!(error.transaction_fee > 0);
    let balance1 = chain.account_balance_available(sender).unwrap();
    assert_eq!(balance0 - balance1, error.transaction_fee);
    assert_eq!(chain.contract_balance(contract), contract_balance0);
}

/// The precondition failures of an update are free of charge.
#[test]
fn contract_update_precondition_failures() {
    let (mut chain, sender, contract) = chain_with_instance();
    let missing = addr(9, [0, 0, 0]);
    let payload = UpdateContractPayload {
        amount: 0,
        address: contract,
        receive_name: b"test.echo".to_vec(),
        message: Vec::new(),
    };

    let error = chain
        .contract_update(
            Signer::with_one_key(),
            missing,
            Address::Account(missing),
            100_000,
            payload.clone(),
        )
        .expect_err("the sender does not exist");
    assert!(matches!(error.kind, ContractInvocationErrorKind::SenderDoesNotExist(_)));
    assert_eq!(error.transaction_fee, 0);

    let error = chain
        .contract_update(
            Signer::with_one_key(),
            missing,
            Address::Account(sender),
            100_000,
            payload.clone(),
        )
        .expect_err("the invoker does not exist");
    assert!(matches!(error.kind, ContractInvocationErrorKind::InvokerDoesNotExist(_)));
    assert_eq!(error.transaction_fee, 0);

    let absent = UpdateContractPayload {
        amount: 0,
        address: ContractAddress::new(77, 0),
        receive_name: b"test.echo".to_vec(),
        message: Vec::new(),
    };
    let error = chain
        .contract_update(Signer::with_one_key(), sender, Address::Account(sender), 100_000, absent)
        .expect_err("the instance does not exist");
    assert!(matches!(error.kind, ContractInvocationErrorKind::InstanceDoesNotExist(_)));
    assert_eq!(error.transaction_fee, 0);

    let big = UpdateContractPayload {
        amount: 0,
        address: contract,
        receive_name: b"test.echo".to_vec(),
        message: vec![0; 70000],
    };
    let error = chain
        .contract_update(Signer::with_one_key(), sender, Address::Account(sender), 100_000, big)
        .expect_err("the parameter exceeds the limit");
    assert!(matches!(error.kind, ContractInvocationErrorKind::ParameterTooLarge));
    assert_eq!(error.transaction_fee, 0);

    let error = chain
        .contract_update(Signer::with_one_key(), sender, Address::Account(sender), 10, payload)
        .expect_err("the header alone exhausts ten energy");
    assert!(matches!(error.kind, ContractInvocationErrorKind::OutOfEnergy));
    assert_eq!(error.transaction_fee, 0);
}

/// A view invocation reports costs like an update but leaves the chain
/// byte for byte unchanged: nothing is charged and nothing is persisted.
#[test]
fn contract_invoke_is_read_only() {
    let (chain, sender, contract) = chain_with_instance();
    let balance0 = chain.account_balance_available(sender).unwrap();
    let contract_balance0 = chain.contract_balance(contract);
    let payload = UpdateContractPayload {
        amount: 1 * CCD,
        address: contract,
        receive_name: b"test.echo".to_vec(),
        message: Vec::new(),
    };
    let success = chain
        .contract_invoke(sender, Address::Account(sender), 100_000, payload)
        .expect("the view invocation should succeed");
    assert!(success.energy_used > 0);
    assert!(success.transaction_fee > 0);
    assert_eq!(success.new_balance, 4 * CCD);
    // The real ledger and store are untouched.
    assert_eq!(chain.account_balance_available(sender), Some(balance0));
    assert_eq!(chain.contract_balance(contract), contract_balance0);
}

/// An invoker that cannot cover the reserved energy plus the amount is
/// rejected before anything runs.
#[test]
fn contract_invoke_insufficient_funds() {
    let (mut chain, _, contract) = chain_with_instance();
    let poor = addr(5, [0, 0, 0]);
    chain.create_account(Account::new(poor, 10));
    let payload = UpdateContractPayload {
        amount: 0,
        address: contract,
        receive_name: b"test.echo".to_vec(),
        message: Vec::new(),
    };
    let error = chain
        .contract_invoke(poor, Address::Account(poor), 100_000, payload)
        .expect_err("ten micro-units cannot reserve one hundred thousand energy");
    assert!(matches!(error.kind, ContractInvocationErrorKind::InsufficientFunds));
}

/// Transfers are extracted from events in order, and grouping keeps every
/// event with its contract.
#[test]
fn invocation_success_event_views() {
    let a = ContractAddress::new(0, 0);
    let b = ContractAddress::new(1, 0);
    let acc = addr(3, [0, 0, 0]);
    let success = ContractInvocationSuccess {
        chain_events: vec![
            ChainEvent::Interrupted { address: a, logs: Vec::new() },
            ChainEvent::Transferred { from: a, amount: 7, to: acc },
            ChainEvent::Resumed { address: a, success: true },
            ChainEvent::Updated {
                address: b,
                contract: b"init_test".to_vec(),
                entrypoint: b"echo".to_vec(),
                amount: 1,
            },
            ChainEvent::Transferred { from: b, amount: 9, to: acc },
        ],
        energy_used: 0,
        transaction_fee: 0,
        return_value: Vec::new(),
        state_changed: false,
        new_balance: 0,
        logs: Vec::new(),
    };
    let transfers = success.transfers();
    assert_eq!(transfers.len(), 2);
    assert_eq!(transfers[0].amount, 7);
    assert_eq!(transfers[0].from, a);
    assert_eq!(transfers[1].amount, 9);
    assert_eq!(transfers[1].from, b);

    let groups = success.trace_elements_per_contract();
    assert_eq!(groups.len(), 2);
    assert_eq!(groups[0].0, a);
    assert_eq!(groups[0].1.len(), 3);
    assert_eq!(groups[1].0, b);
    assert_eq!(groups[1].1.len(), 2);
}

/// A rejecting init entrypoint reports its code, charges the fee of the
/// energy used, and creates nothing.
#[test]
fn contract_init_reject_reports_reason() {
    let (mut chain, sender, module_reference) = chain_with_deployed_module();
    let balance0 = chain.account_balance_available(sender).unwrap();
    let payload = InitContractPayload {
        amount: 0,
        mod_ref: module_reference,
        init_name: b"init_fail".to_vec(),
        param: Vec::new(),
    };
    let error = chain
        .contract_init(Signer::with_one_key(), sender, 100_000, payload)
        .expect_err("the init entrypoint rejects");
    match error.kind {
        ContractInitErrorKind::ExecutionError { failure_kind } => match failure_kind {
            contract_testing::types::InitFailure::Reject { reason, .. } => assert_eq!(reason, -1),
            other => panic!("expected a rejection, got {:?}", other),
        },
        other => panic!("expected an execution error, got {:?}", other),
    }
    assert!(error.transaction_fee > 0);
    let balance1 = chain.account_balance_available(sender).unwrap();
    assert_eq!(balance0 - balance1, error.transaction_fee);
    assert!(chain.get_contract(ContractAddress::new(0, 0)).is_none());
}

/// A rejecting receive entrypoint surfaces its code; nothing is committed
/// and the invoker pays exactly the fee.
#[test]
fn contract_update_reject_reports_reason() {
    let (mut chain, sender, contract) = chain_with_instance();
    let balance0 = chain.account_balance_available(sender).unwrap();
    let payload = UpdateContractPayload {
        amount: 0,
        address: contract,
        receive_name: b"test.reject".to_vec(),
        message: Vec::new(),
    };
    let error = chain
        .contract_update(Signer::with_one_key(), sender, Address::Account(sender), 100_000, payload)
        .expect_err("the entrypoint rejects");
    match error.kind {
        ContractInvocationErrorKind::ExecutionError { failure_kind } => match failure_kind {
            contract_testing::engine::HostFailure::ContractReject { code, .. } => {
                assert_eq!(code, -1)
            }
            other => panic!("expected a contract rejection, got {:?}", other),
        },
        other => panic!("expected an execution error, got {:?}", other),
    }
    let balance1 = chain.account_balance_available(sender).unwrap();
    assert_eq!(balance0 - balance1, error.transaction_fee);
    assert_eq!(chain.contract_balance(contract), Some(3 * CCD));
}

/// An amount that would push the instance's balance past the representable
/// range aborts the invocation with a balance overflow.
#[test]
fn contract_update_balance_overflow() {
    let (mut chain, sender, module_reference) = chain_with_deployed_module();
    let rich = addr(8, [0, 0, 0]);
    chain.create_account(Account::new(rich, u64::MAX));
    let payload = InitContractPayload {
        amount: u64::MAX - 1_000_000_000,
        mod_ref: module_reference,
        init_name: b"init_test".to_vec(),
        param: Vec::new(),
    };
    let init = chain
        .contract_init(Signer::with_one_key(), rich, 100_000, payload)
        .expect("initialization with a huge amount succeeds");
    let payload = UpdateContractPayload {
        amount: 2_000_000_000,
        address: init.contract_address,
        receive_name: b"test.echo".to_vec(),
        message: Vec::new(),
    };
    let error = chain
        .contract_update(
            Signer::with_one_key(),
            sender,
            Address::Account(sender),
            100_000,
            payload,
        )
        .expect_err("the instance balance would overflow");
    assert!(matches!(error.kind, ContractInvocationErrorKind::BalanceOverflow));
    assert_eq!(chain.contract_balance(init.contract_address), Some(u64::MAX - 1_000_000_000));
}

/// A Wasm module whose receive entrypoint `transfer.send` asks the host to
/// transfer one currency unit to the account given in its data segment,
/// through the `invoke` host function, and then succeeds.
fn transfer_module_bytes(recipient: [u8; 32]) -> Vec<u8> {
    let mut bytes = vec![
        0x00, 0x61, 0x73, 0x6D, 0x01, 0x00, 0x00, 0x00, // magic, version
        // types: (i64) -> i32 for entrypoints, (i32, i32, i32) -> i64 for invoke
        0x01, 0x0D, 0x02, 0x60, 0x01, 0x7E, 0x01, 0x7F, 0x60, 0x03, 0x7F, 0x7F, 0x7F, 0x01, 0x7E,
    ];
    // Import section: concordium.invoke of the second type.
    bytes.extend_from_slice(&[0x02, 0x15, 0x01, 0x0A]);
    bytes.extend_from_slice(b"concordium");
    bytes.extend_from_slice(&[0x06]);
    bytes.extend_from_slice(b"invoke");
    bytes.extend_from_slice(&[0x00, 0x01]);
    // Two local functions of the first type; one memory page.
    bytes.extend_from_slice(&[0x03, 0x03, 0x02, 0x00, 0x00]);
    bytes.extend_from_slice(&[0x05, 0x03, 0x01, 0x00, 0x01]);
    // Exports: "init_transfer" -> func 1, "transfer.send" -> func 2.
    bytes.extend_from_slice(&[0x07, 0x21, 0x02, 0x0D]);
    bytes.extend_from_slice(b"init_transfer");
    bytes.extend_from_slice(&[0x00, 0x01, 0x0D]);
    bytes.extend_from_slice(b"transfer.send");
    bytes.extend_from_slice(&[0x00, 0x02]);
    // Code: init returns 0; send invokes a transfer of the 40-byte payload
    // at offset 0 (tag 0), drops the response, and returns 0.
    bytes.extend_from_slice(&[
        0x0A, 0x14, 0x02, 0x04, 0x00, 0x41, 0x00, 0x0B, 0x0D, 0x00, 0x41, 0x00, 0x41, 0x00, 0x41,
        0x28, 0x10, 0x00, 0x1A, 0x41, 0x00, 0x0B,
    ]);
    // Data segment at offset 0: the recipient address and one currency
    // unit, little-endian.
    bytes.extend_from_slice(&[0x0B, 0x2E, 0x01, 0x00, 0x41, 0x00, 0x0B, 0x28]);
    bytes.extend_from_slice(&recipient);
    bytes.extend_from_slice(&(CCD).to_le_bytes());
    bytes
}

/// A contract-to-account transfer interrupt moves the amount on commit,
/// produces the interrupt, transfer and resumption events, and shows up in
/// the transfer view.
#[test]
fn contract_update_transfer_interrupt() {
    let mut chain = Chain::new();
    let sender = addr(1, [0, 0, 0]);
    let recipient = addr(3, [0, 0, 0]);
    chain.create_account(Account::new(sender, 1000 * CCD));
    chain.create_account(Account::new(recipient, 1 * CCD));
    let module = WasmModule {
        version: WasmVersion::V1,
        source: transfer_module_bytes(recipient.0),
    };
    let deployment = chain
        .module_deploy_v1(Signer::with_one_key(), sender, module)
        .expect("the transfer module should deploy");
    let payload = InitContractPayload {
        amount: 5 * CCD,
        mod_ref: deployment.module_reference,
        init_name: b"init_transfer".to_vec(),
        param: Vec::new(),
    };
    let init = chain
        .contract_init(Signer::with_one_key(), sender, 100_000, payload)
        .expect("initialization should succeed");
    let payload = UpdateContractPayload {
        amount: 0,
        address: init.contract_address,
        receive_name: b"transfer.send".to_vec(),
        message: Vec::new(),
    };
    let success = chain
        .contract_update(
            Signer::with_one_key(),
            sender,
            Address::Account(sender),
            100_000,
            payload.clone(),
        )
        .expect("the transfer should go through");
    assert_eq!(chain.account_balance_available(recipient), Some(2 * CCD));
    assert_eq!(chain.contract_balance(init.contract_address), Some(4 * CCD));
    let transfers = success.transfers();
    assert_eq!(transfers.len(), 1);
    assert_eq!(transfers[0].from, init.contract_address);
    assert_eq!(transfers[0].amount, 1 * CCD);
    assert_eq!(transfers[0].to, recipient);
    assert!(success
        .chain_events
        .iter()
        .any(|e| matches!(e, ChainEvent::Interrupted { .. })));
    assert!(success
        .chain_events
        .iter()
        .any(|e| matches!(e, ChainEvent::Resumed { success: true, .. })));

    // The same call as a view reports the work but moves nothing: the
    // staged transfer is discarded with the changeset.
    let view = chain
        .contract_invoke(sender, Address::Account(sender), 100_000, payload)
        .expect("the view call should succeed");
    assert!(view.transaction_fee > 0);
    assert_eq!(view.transfers().len(), 1);
    assert_eq!(chain.account_balance_available(recipient), Some(2 * CCD));
    assert_eq!(chain.contract_balance(init.contract_address), Some(4 * CCD));
}

/// A Wasm module whose receive entrypoint `caller.run` invokes the
/// entrypoint named in its data segment on the instance with index zero,
/// sending nothing, and then succeeds regardless of the nested outcome.
fn caller_module_bytes(entrypoint: &[u8]) -> Vec<u8> {
    let name_len = entrypoint.len() as u8;
    let payload_len = 28 + name_len;
    let mut bytes = vec![
        0x00, 0x61, 0x73, 0x6D, 0x01, 0x00, 0x00, 0x00,
        0x01, 0x0D, 0x02, 0x60, 0x01, 0x7E, 0x01, 0x7F, 0x60, 0x03, 0x7F, 0x7F, 0x7F, 0x01, 0x7E,
    ];
    bytes.extend_from_slice(&[0x02, 0x15, 0x01, 0x0A]);
    bytes.extend_from_slice(b"concordium");
    bytes.extend_from_slice(&[0x06]);
    bytes.extend_from_slice(b"invoke");
    bytes.extend_from_slice(&[0x00, 0x01]);
    bytes.extend_from_slice(&[0x03, 0x03, 0x02, 0x00, 0x00]);
    bytes.extend_from_slice(&[0x05, 0x03, 0x01, 0x00, 0x01]);
    bytes.extend_from_slice(&[0x07, 0x1C, 0x02, 0x0B]);
    bytes.extend_from_slice(b"init_caller");
    bytes.extend_from_slice(&[0x00, 0x01, 0x0A]);
    bytes.extend_from_slice(b"caller.run");
    bytes.extend_from_slice(&[0x00, 0x02]);
    // Code: init returns 0; run invokes a call (tag 1) with the payload at
    // offset 0, drops the response, and returns 0 either way.
    bytes.extend_from_slice(&[
        0x0A, 0x14, 0x02, 0x04, 0x00, 0x41, 0x00, 0x0B, 0x0D, 0x00, 0x41, 0x01, 0x41, 0x00, 0x41,
        payload_len, 0x10, 0x00, 0x1A, 0x41, 0x00, 0x0B,
    ]);
    // Data segment: target address (0, 0), an empty parameter, the
    // entrypoint name, and a zero amount, all little-endian.
    bytes.extend_from_slice(&[0x0B, 6 + payload_len, 0x01, 0x00, 0x41, 0x00, 0x0B, payload_len]);
    bytes.extend_from_slice(&[0; 16]);
    bytes.extend_from_slice(&[0, 0]);
    bytes.extend_from_slice(&(name_len as u16).to_le_bytes());
    bytes.extend_from_slice(entrypoint);
    bytes.extend_from_slice(&[0; 8]);
    bytes
}

/// Set up a chain with the test contract at index zero and a caller
/// contract that invokes the given entrypoint on it.
fn chain_with_nested_caller(entrypoint: &[u8]) -> (Chain, AccountAddress, ContractAddress) {
    let (mut chain, sender, _) = chain_with_instance();
    let module = WasmModule { version: WasmVersion::V1, source: caller_module_bytes(entrypoint) };
    let deployment = chain
        .module_deploy_v1(Signer::with_one_key(), sender, module)
        .expect("the caller module should deploy");
    let payload = InitContractPayload {
        amount: 0,
        mod_ref: deployment.module_reference,
        init_name: b"init_caller".to_vec(),
        param: Vec::new(),
    };
    let init = chain
        .contract_init(Signer::with_one_key(), sender, 100_000, payload)
        .expect("the caller instance should initialize");
    (chain, sender, init.contract_address)
}

/// A nested call into another contract runs within the same invocation:
/// the caller is interrupted, the called instance runs, and the caller
/// resumes with the nested success.
#[test]
fn contract_update_nested_call() {
    let (mut chain, sender, caller) = chain_with_nested_caller(b"echo");
    let payload = UpdateContractPayload {
        amount: 0,
        address: caller,
        receive_name: b"caller.run".to_vec(),
        message: Vec::new(),
    };
    let success = chain
        .contract_update(Signer::with_one_key(), sender, Address::Account(sender), 100_000, payload)
        .expect("the nested call should go through");
    let target = ContractAddress::new(0, 0);
    assert!(success
        .chain_events
        .iter()
        .any(|e| matches!(e, ChainEvent::Updated { address, .. } if *address == target)));
    assert!(success
        .chain_events
        .iter()
        .any(|e| matches!(e, ChainEvent::Resumed { address, success: true } if *address == caller)));
    let groups = success.trace_elements_per_contract();
    assert_eq!(groups.len(), 2);
}

/// A failing nested call is reported to the caller, which may go on: the
/// caller resumes with the failure and still succeeds, and nothing of the
/// rolled-back nested work is visible.
#[test]
fn contract_update_nested_call_failure_rolls_back() {
    let (mut chain, sender, caller) = chain_with_nested_caller(b"reject");
    let payload = UpdateContractPayload {
        amount: 0,
        address: caller,
        receive_name: b"caller.run".to_vec(),
        message: Vec::new(),
    };
    let success = chain
        .contract_update(Signer::with_one_key(), sender, Address::Account(sender), 100_000, payload)
        .expect("the outer call ignores the nested failure");
    assert!(success
        .chain_events
        .iter()
        .any(|e| matches!(e, ChainEvent::Resumed { address, success: false } if *address == caller)));
    // The rejecting instance's balance is untouched.
    assert_eq!(chain.contract_balance(ContractAddress::new(0, 0)), Some(3 * CCD));
}

/// A Wasm module whose receive entrypoint `rates.ask` queries the chain's
/// exchange rates through the `invoke` host function and succeeds.
fn rates_module_bytes() -> Vec<u8> {
    let mut bytes = vec![
        0x00, 0x61, 0x73, 0x6D, 0x01, 0x00, 0x00, 0x00,
        0x01, 0x0D, 0x02, 0x60, 0x01, 0x7E, 0x01, 0x7F, 0x60, 0x03, 0x7F, 0x7F, 0x7F, 0x01, 0x7E,
    ];
    bytes.extend_from_slice(&[0x02, 0x15, 0x01, 0x0A]);
    bytes.extend_from_slice(b"concordium");
    bytes.extend_from_slice(&[0x06]);
    bytes.extend_from_slice(b"invoke");
    bytes.extend_from_slice(&[0x00, 0x01]);
    bytes.extend_from_slice(&[0x03, 0x03, 0x02, 0x00, 0x00]);
    bytes.extend_from_slice(&[0x05, 0x03, 0x01, 0x00, 0x01]);
    bytes.extend_from_slice(&[0x07, 0x1A, 0x02, 0x0A]);
    bytes.extend_from_slice(b"init_rates");
    bytes.extend_from_slice(&[0x00, 0x01, 0x09]);
    bytes.extend_from_slice(b"rates.ask");
    bytes.extend_from_slice(&[0x00, 0x02]);
    // Code: init returns 0; ask invokes the exchange-rate query (tag 4,
    // no payload), drops the response, and returns 0.
    bytes.extend_from_slice(&[
        0x0A, 0x14, 0x02, 0x04, 0x00, 0x41, 0x00, 0x0B, 0x0D, 0x00, 0x41, 0x04, 0x41, 0x00, 0x41,
        0x00, 0x10, 0x00, 0x1A, 0x41, 0x00, 0x0B,
    ]);
    bytes
}

/// An exchange-rate query interrupt is answered from the chain parameters
/// without producing events, and the call succeeds.
#[test]
fn contract_update_exchange_rate_query() {
    let mut chain = Chain::new();
    let sender = addr(1, [0, 0, 0]);
    chain.create_account(Account::new(sender, 1000 * CCD));
    let module = WasmModule { version: WasmVersion::V1, source: rates_module_bytes() };
    let deployment = chain
        .module_deploy_v1(Signer::with_one_key(), sender, module)
        .expect("the query module should deploy");
    let payload = InitContractPayload {
        amount: 0,
        mod_ref: deployment.module_reference,
        init_name: b"init_rates".to_vec(),
        param: Vec::new(),
    };
    let init = chain
        .contract_init(Signer::with_one_key(), sender, 100_000, payload)
        .expect("initialization should succeed");
    let payload = UpdateContractPayload {
        amount: 0,
        address: init.contract_address,
        receive_name: b"rates.ask".to_vec(),
        message: Vec::new(),
    };
    let success = chain
        .contract_update(Signer::with_one_key(), sender, Address::Account(sender), 100_000, payload)
        .expect("the query should be answered");
    // Queries are answered without interrupt events; only the update
    // itself is recorded.
    assert!(success
        .chain_events
        .iter()
        .all(|e| matches!(e, ChainEvent::Updated { .. })));
}

/// A Wasm module whose receive entrypoint `bal.ask` queries the balance of
/// the account in its data segment through the `invoke` host function.
fn balance_query_module_bytes(queried: [u8; 32]) -> Vec<u8> {
    let mut bytes = vec![
        0x00, 0x61, 0x73, 0x6D, 0x01, 0x00, 0x00, 0x00,
        0x01, 0x0D, 0x02, 0x60, 0x01, 0x7E, 0x01, 0x7F, 0x60, 0x03, 0x7F, 0x7F, 0x7F, 0x01, 0x7E,
    ];
    bytes.extend_from_slice(&[0x02, 0x15, 0x01, 0x0A]);
    bytes.extend_from_slice(b"concordium");
    bytes.extend_from_slice(&[0x06]);
    bytes.extend_from_slice(b"invoke");
    bytes.extend_from_slice(&[0x00, 0x01]);
    bytes.extend_from_slice(&[0x03, 0x03, 0x02, 0x00, 0x00]);
    bytes.extend_from_slice(&[0x05, 0x03, 0x01, 0x00, 0x01]);
    bytes.extend_from_slice(&[0x07, 0x16, 0x02, 0x08]);
    bytes.extend_from_slice(b"init_bal");
    bytes.extend_from_slice(&[0x00, 0x01, 0x07]);
    bytes.extend_from_slice(b"bal.ask");
    bytes.extend_from_slice(&[0x00, 0x02]);
    // Code: init returns 0; ask queries the account balance (tag 2) of
    // the 32-byte address at offset 0, drops the answer, and returns 0.
    bytes.extend_from_slice(&[
        0x0A, 0x14, 0x02, 0x04, 0x00, 0x41, 0x00, 0x0B, 0x0D, 0x00, 0x41, 0x02, 0x41, 0x00, 0x41,
        0x20, 0x10, 0x00, 0x1A, 0x41, 0x00, 0x0B,
    ]);
    bytes.extend_from_slice(&[0x0B, 0x26, 0x01, 0x00, 0x41, 0x00, 0x0B, 0x20]);
    bytes.extend_from_slice(&queried);
    bytes
}

/// An account-balance query interrupt is answered from the ledger and the
/// call succeeds without recording events.
#[test]
fn contract_update_account_balance_query() {
    let mut chain = Chain::new();
    let sender = addr(1, [0, 0, 0]);
    chain.create_account(Account::new(sender, 1000 * CCD));
    let module =
        WasmModule { version: WasmVersion::V1, source: balance_query_module_bytes(sender.0) };
    let deployment = chain
        .module_deploy_v1(Signer::with_one_key(), sender, module)
        .expect("the query module should deploy");
    let payload = InitContractPayload {
        amount: 0,
        mod_ref: deployment.module_reference,
        init_name: b"init_bal".to_vec(),
        param: Vec::new(),
    };
    let init = chain
        .contract_init(Signer::with_one_key(), sender, 100_000, payload)
        .expect("initialization should succeed");
    let payload = UpdateContractPayload {
        amount: 0,
        address: init.contract_address,
        receive_name: b"bal.ask".to_vec(),
        message: Vec::new(),
    };
    let success = chain
        .contract_update(Signer::with_one_key(), sender, Address::Account(sender), 100_000, payload)
        .expect("the query should be answered");
    assert!(success.chain_events.iter().all(|e| matches!(e, ChainEvent::Updated { .. })));
}

/// A Wasm module with only an init entrypoint of the given name.
fn single_init_module_bytes(init_name: &[u8]) -> Vec<u8> {
    let name_len = init_name.len() as u8;
    let mut bytes = vec![
        0x00, 0x61, 0x73, 0x6D, 0x01, 0x00, 0x00, 0x00,
        0x01, 0x06, 0x01, 0x60, 0x01, 0x7E, 0x01, 0x7F, 0x03, 0x02, 0x01, 0x00,
    ];
    bytes.extend_from_slice(&[0x07, 4 + name_len, 0x01, name_len]);
    bytes.extend_from_slice(init_name);
    bytes.extend_from_slice(&[0x00, 0x00]);
    bytes.extend_from_slice(&[0x0A, 0x06, 0x01, 0x04, 0x00, 0x41, 0x00, 0x0B]);
    bytes
}

/// A Wasm module whose receive entrypoint `up.go` upgrades the running
/// contract to the module whose reference sits in its data segment.
fn upgrade_module_bytes(new_module: [u8; 32]) -> Vec<u8> {
    let mut bytes = vec![
        0x00, 0x61, 0x73, 0x6D, 0x01, 0x00, 0x00, 0x00,
        // types: (i64) -> i32 for entrypoints, (i32) -> i64 for upgrade
        0x01, 0x0B, 0x02, 0x60, 0x01, 0x7E, 0x01, 0x7F, 0x60, 0x01, 0x7F, 0x01, 0x7E,
    ];
    bytes.extend_from_slice(&[0x02, 0x16, 0x01, 0x0A]);
    bytes.extend_from_slice(b"concordium");
    bytes.extend_from_slice(&[0x07]);
    bytes.extend_from_slice(b"upgrade");
    bytes.extend_from_slice(&[0x00, 0x01]);
    bytes.extend_from_slice(&[0x03, 0x03, 0x02, 0x00, 0x00]);
    bytes.extend_from_slice(&[0x05, 0x03, 0x01, 0x00, 0x01]);
    bytes.extend_from_slice(&[0x07, 0x13, 0x02, 0x07]);
    bytes.extend_from_slice(b"init_up");
    bytes.extend_from_slice(&[0x00, 0x01, 0x05]);
    bytes.extend_from_slice(b"up.go");
    bytes.extend_from_slice(&[0x00, 0x02]);
    // Code: init returns 0; go upgrades to the reference at offset 0,
    // drops the answer, and returns 0.
    bytes.extend_from_slice(&[
        0x0A, 0x10, 0x02, 0x04, 0x00, 0x41, 0x00, 0x0B, 0x09, 0x00, 0x41, 0x00, 0x10, 0x00, 0x1A,
        0x41, 0x00, 0x0B,
    ]);
    bytes.extend_from_slice(&[0x0B, 0x26, 0x01, 0x00, 0x41, 0x00, 0x0B, 0x20]);
    bytes.extend_from_slice(&new_module);
    bytes
}

/// An upgrade interrupt swaps the instance's module on commit, records the
/// upgrade event, and leaves the state alone.
#[test]
fn contract_update_upgrade_interrupt() {
    let mut chain = Chain::new();
    let sender = addr(1, [0, 0, 0]);
    chain.create_account(Account::new(sender, 1000 * CCD));
    // The module to upgrade to also holds the contract `up`.
    let target_module =
        WasmModule { version: WasmVersion::V1, source: single_init_module_bytes(b"init_up") };
    let target = chain
        .module_deploy_v1(Signer::with_one_key(), sender, target_module)
        .expect("the target module should deploy");
    let module = WasmModule {
        version: WasmVersion::V1,
        source: upgrade_module_bytes(target.module_reference.0),
    };
    let deployment = chain
        .module_deploy_v1(Signer::with_one_key(), sender, module)
        .expect("the upgrading module should deploy");
    let payload = InitContractPayload {
        amount: 0,
        mod_ref: deployment.module_reference,
        init_name: b"init_up".to_vec(),
        param: Vec::new(),
    };
    let init = chain
        .contract_init(Signer::with_one_key(), sender, 100_000, payload)
        .expect("initialization should succeed");
    let payload = UpdateContractPayload {
        amount: 0,
        address: init.contract_address,
        receive_name: b"up.go".to_vec(),
        message: Vec::new(),
    };
    let success = chain
        .contract_update(Signer::with_one_key(), sender, Address::Account(sender), 100_000, payload)
        .expect("the upgrade should go through");
    assert!(success.chain_events.iter().any(|e| matches!(
        e,
        ChainEvent::Upgraded { from, to, .. }
            if *from == deployment.module_reference && *to == target.module_reference
    )));
    let instance = chain.get_contract(init.contract_address).expect("the instance remains");
    assert_eq!(instance.module_reference, target.module_reference);
}

/// A Wasm module whose receive entrypoint `keys.ask` queries the public
/// keys of the account in its data segment through the `invoke` host
/// function.
fn keys_query_module_bytes(queried: [u8; 32]) -> Vec<u8> {
    let mut bytes = vec![
        0x00, 0x61, 0x73, 0x6D, 0x01, 0x00, 0x00, 0x00,
        0x01, 0x0D, 0x02, 0x60, 0x01, 0x7E, 0x01, 0x7F, 0x60, 0x03, 0x7F, 0x7F, 0x7F, 0x01, 0x7E,
    ];
    bytes.extend_from_slice(&[0x02, 0x15, 0x01, 0x0A]);
    bytes.extend_from_slice(b"concordium");
    bytes.extend_from_slice(&[0x06]);
    bytes.extend_from_slice(b"invoke");
    bytes.extend_from_slice(&[0x00, 0x01]);
    bytes.extend_from_slice(&[0x03, 0x03, 0x02, 0x00, 0x00]);
    bytes.extend_from_slice(&[0x05, 0x03, 0x01, 0x00, 0x01]);
    bytes.extend_from_slice(&[0x07, 0x18, 0x02, 0x09]);
    bytes.extend_from_slice(b"init_keys");
    bytes.extend_from_slice(&[0x00, 0x01, 0x08]);
    bytes.extend_from_slice(b"keys.ask");
    bytes.extend_from_slice(&[0x00, 0x02]);
    // Code: init returns 0; ask queries the account keys (tag 6) of the
    // 32-byte address at offset 0, drops the answer, and returns 0.
    bytes.extend_from_slice(&[
        0x0A, 0x14, 0x02, 0x04, 0x00, 0x41, 0x00, 0x0B, 0x0D, 0x00, 0x41, 0x06, 0x41, 0x00, 0x41,
        0x20, 0x10, 0x00, 0x1A, 0x41, 0x00, 0x0B,
    ]);
    bytes.extend_from_slice(&[0x0B, 0x26, 0x01, 0x00, 0x41, 0x00, 0x0B, 0x20]);
    bytes.extend_from_slice(&queried);
    bytes
}

/// An account-keys query interrupt is answered from the ledger's (empty)
/// key model and the call succeeds without recording events.
#[test]
fn contract_update_account_keys_query() {
    let mut chain = Chain::new();
    let sender = addr(1, [0, 0, 0]);
    chain.create_account(Account::new(sender, 1000 * CCD));
    let module =
        WasmModule { version: WasmVersion::V1, source: keys_query_module_bytes(sender.0) };
    let deployment = chain
        .module_deploy_v1(Signer::with_one_key(), sender, module)
        .expect("the query module should deploy");
    let payload = InitContractPayload {
        amount: 0,
        mod_ref: deployment.module_reference,
        init_name: b"init_keys".to_vec(),
        param: Vec::new(),
    };
    let init = chain
        .contract_init(Signer::with_one_key(), sender, 100_000, payload)
        .expect("initialization should succeed");
    let payload = UpdateContractPayload {
        amount: 0,
        address: init.contract_address,
        receive_name: b"keys.ask".to_vec(),
        message: Vec::new(),
    };
    let success = chain
        .contract_update(Signer::with_one_key(), sender, Address::Account(sender), 100_000, payload)
        .expect("the query should be answered");
    assert!(success.chain_events.iter().all(|e| matches!(e, ChainEvent::Updated { .. })));
}

/// Signers must have at least one key.
#[test]
fn signer_rejects_zero_keys() {
    assert_eq!(Signer::with_keys(0), Err(ZeroKeysError));
    assert_eq!(Signer::with_keys(3).unwrap().num_keys, 3);
    assert_eq!(Signer::with_one_key().num_keys, 1);
}

/// Balance records reject staked and locked parts exceeding the total.
#[test]
fn account_balance_construction() {
    let balance = AccountBalance::new(10, 4, 5).expect("well formed");
    assert_eq!(balance.available(), 1);
    assert!(AccountBalance::new(10, 6, 5).is_none());
}

/// Setting invalid exchange rates leaves the chain's rates unchanged.
#[test]
fn set_exchange_rate_validates() {
    let mut chain = Chain::new();
    let too_high = ExchangeRate::new_unchecked(u64::MAX / MAX_ALLOWED_INVOKE_ENERGY + 1, 1);
    let one = ExchangeRate::new_unchecked(1, 1);
    assert!(chain.set_exchange_rate(too_high, one).is_err());
    assert_eq!(chain.micro_ccd_per_euro().numerator, 50000);
    assert!(chain.set_exchange_rate(ExchangeRate::new_unchecked(7, 3), one).is_ok());
    assert_eq!(chain.micro_ccd_per_euro().numerator, 7);
    assert_eq!(chain.micro_ccd_per_euro().denominator, 3);
    assert_eq!(chain.euro_per_energy().numerator, 1);
}
