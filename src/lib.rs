//! Execution contexts of a smart-contract virtual machine: asset-transfer
//! ledgers, call stacks, lexical scopes, contract registries and the stack of
//! transactional save points that surrounds every evaluation.

pub mod types;
pub mod errors;
pub mod asset_map;
pub mod bindings;
pub mod call_stack;
pub mod local_context;
pub mod contract_context;
pub mod database;
pub mod global_context;
pub mod environment;
pub mod owned_environment;
