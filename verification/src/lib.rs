//! Bootstrap of an ephemeral test network for a distributed ledger: validator
//! key generation, validator-set assembly, and construction of the signed
//! genesis transaction that seeds the ledger's initial state.

pub mod address;
pub mod bytes_util;
pub mod config;
pub mod crypto;
pub mod entropy;
pub mod errors;
pub mod genesis;
pub mod keys;
pub mod validator;
