//! A conformance-test harness core for replaying declarative blockchain test
//! fixtures against an EVM-compatible execution backend.
//!
//! The library owns the state-translation and differential-verification
//! layer: it maps an abstract EVM account model (address, nonce, balance,
//! code, storage) onto a backend-native storage-variable layout, prepares the
//! fixture's transaction for execution, and computes a structural diff
//! between the backend's post-execution state and the fixture's expected
//! post-state, applying the protocol fee rules to reconcile balances.
//!
//! Fixture discovery and deserialization, logging, and the execution backend
//! itself are external collaborators; the backend is consumed through the
//! storage read/write surface modeled in [`evm_state`].

pub mod case;
pub mod codec;
pub mod diff;
pub mod error;
pub mod evm_state;
pub mod filter;
pub mod reconcile;
pub mod setup;
pub mod state;
pub mod word;

pub use state::AccountState;
pub use state::EvmAddress;
pub use word::U256;
