//! Core of a policy-lifecycle tool for WebAssembly-packaged admission
//! policies: locator resolution, trust-policy assembly and evaluation, a
//! content-addressed local store, and a portable bundle codec.
//!
//! Cryptographic signature checking, registry transport and policy execution
//! are external collaborators; this crate holds the decision logic that
//! composes them, stated and proved over plain values.

pub mod assoc;
pub mod bundle;
pub mod digest;
pub mod errors;
pub mod orchestrator;
pub mod policy;
pub mod reference;
pub mod sources;
pub mod store;
pub mod verify;
