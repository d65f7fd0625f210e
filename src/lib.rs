//! A host for sandboxed WebAssembly modules: a registry that turns stored
//! modules into ready-to-run environments, the capability configuration that
//! grants modules mediated access to outside resources, the handle table
//! through which host functions stream results to guests, and the rules that
//! turn one execution into its externally visible outcome.

pub mod bridge;
pub mod capability;
pub mod compile;
pub mod disk;
pub mod dispatcher;
pub mod registry;
pub mod runtime;
pub mod store;
