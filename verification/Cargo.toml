[package]
name = "contract_testing"
version = "0.1.0"
edition = "2021"
publish = false

[dependencies]
concordium_base = "*"
concordium-contracts-common = "*"
concordium-smart-contract-engine = "*"
concordium-wasm = "*"
num-bigint = "*"
sha2 = "*"
