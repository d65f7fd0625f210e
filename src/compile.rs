//! Compilation of module binaries into executable modules.
use vstd::prelude::*;
use wasmtime::{Config, Engine, Module};

verus! {

#[verifier::external_type_specification]
#[verifier::external_body]
pub struct ExConfig(wasmtime::Config);

#[verifier::external_type_specification]
#[verifier::external_body]
pub struct ExEngine(wasmtime::Engine);

#[verifier::external_type_specification]
#[verifier::external_body]
pub struct ExModule(wasmtime::Module);

/// Relies on wasmtime::Config::new: the default compilation settings.
pub assume_specification[ wasmtime::Config::new ]() -> wasmtime::Config;

/// Relies on wasmtime::Config::async_support: lets guests run on an
/// asynchronous executor, so that host functions may suspend.
#[verifier::external_body]
fn enable_async(config: &mut Config) {
    config.async_support(true);
}

/// Relies on wasmtime::Engine::new: an engine for `config`, or nothing where
/// the settings are invalid.
#[verifier::external_body]
fn engine_for(config: &Config) -> Option<Engine> {
    Engine::new(config).ok()
}

/// Relies on wasmtime::Module::from_binary: the compiled module, or nothing
/// where the binary is malformed or cannot be compiled.
#[verifier::external_body]
fn module_from_binary(engine: &Engine, binary: &[u8]) -> Option<Module> {
    Module::from_binary(engine, binary).ok()
}

/// Compiles `binary` with an engine of its own, set up for asynchronous
/// execution; nothing where the binary does not compile.
pub fn compile(binary: &Vec<u8>) -> Option<(Engine, Module)> {
    let mut config = Config::new();
    enable_async(&mut config);
    match engine_for(&config) {
        None => None,
        Some(engine) => match module_from_binary(&engine, binary.as_slice()) {
            None => None,
            Some(module) => Some((engine, module)),
        },
    }
}

} // verus!
