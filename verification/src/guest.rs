//! A compute module instantiated in a store of its own.
//!
//! wasmtime panics when an instance, memory or function is used with a
//! store that does not own it. A [`GuestInstance`] keeps the store together
//! with everything taken from it; its fields are private to this module and
//! only [`instantiate`] builds one, so every call below uses the owning
//! store. Its ghost fields model what the calls did: the contents of the
//! exported memory, and the outcomes of the type check and of the call.
//!
//! The engine meters fuel and every store starts with `u64::MAX` units, so
//! a guest that would loop forever traps once the fuel is spent: every call
//! into the guest returns.

use vstd::prelude::*;
use wasmtime::{Config, Engine, Func, Instance, Linker, Memory, MemoryAccessError, Module, Store, TypedFunc};

verus! {

#[verifier::external_type_specification]
#[verifier::external_body]
pub struct ExEngine(Engine);

#[verifier::external_type_specification]
#[verifier::external_body]
#[verifier::reject_recursive_types(T)]
pub struct ExStore<T: 'static>(Store<T>);

#[verifier::external_type_specification]
#[verifier::external_body]
pub struct ExInstance(Instance);

#[verifier::external_type_specification]
#[verifier::external_body]
pub struct ExMemory(Memory);

#[verifier::external_type_specification]
#[verifier::external_body]
pub struct ExFunc(Func);

#[verifier::external_type_specification]
#[verifier::external_body]
#[verifier::reject_recursive_types(Params)]
#[verifier::reject_recursive_types(Results)]
pub struct ExTypedFunc<Params, Results>(TypedFunc<Params, Results>);

#[verifier::external_type_specification]
#[verifier::external_body]
pub struct ExWasmError(wasmtime::Error);

#[verifier::external_type_specification]
#[verifier::external_body]
pub struct ExMemoryAccessError(MemoryAccessError);

/// Whether the module with these bytes exports a memory under `name`
/// (what `Instance::get_memory` finds in an instance of it).
pub uninterp spec fn exports_memory(bytes: Seq<u8>, name: Seq<char>) -> bool;

/// Whether the module with these bytes exports a function under `name`
/// (what `Instance::get_func` finds in an instance of it).
pub uninterp spec fn exports_func(bytes: Seq<u8>, name: Seq<char>) -> bool;

/// Whether the function that the module with these bytes exports under
/// `name` has the type `(i32, i32, i32, i32) -> i32` (what `Func::typed`
/// accepts).
pub uninterp spec fn export_has_abi_type(bytes: Seq<u8>, name: Seq<char>) -> bool;

/// The engine that compiles and runs compute modules: wasmtime's default
/// configuration with fuel metering on.
pub struct GuestEngine {
    engine: Engine,
}

/// An instance of a module, its store, and what was looked up in it.
pub struct GuestInstance {
    store: Store<()>,
    instance: Instance,
    memory: Option<Memory>,
    func: Option<Func>,
    compute: Option<TypedFunc<(i32, i32, i32, i32), i32>>,
    source: Ghost<Seq<u8>>,
    func_name: Ghost<Seq<char>>,
    contents: Ghost<Seq<u8>>,
    found_contents: Ghost<Seq<u8>>,
    typed: Ghost<Option<Result<(), wasmtime::Error>>>,
    call: Ghost<Option<((i32, i32, i32, i32), Seq<u8>, Result<i32, wasmtime::Error>)>>,
}

impl GuestInstance {
    /// The bytes of the module this is an instance of.
    pub closed spec fn source(&self) -> Seq<u8> {
        self.source@
    }

    /// Whether an exported memory has been found.
    pub closed spec fn has_memory(&self) -> bool {
        self.memory is Some
    }

    /// The contents of the found memory now.
    pub closed spec fn contents(&self) -> Seq<u8> {
        self.contents@
    }

    /// The contents of the found memory when it was found.
    pub closed spec fn found_contents(&self) -> Seq<u8> {
        self.found_contents@
    }

    /// The name of the exported function found, if one has been.
    pub closed spec fn found_func(&self) -> Option<Seq<char>> {
        if self.func is Some {
            Some(self.func_name@)
        } else {
            None
        }
    }

    /// Whether the found function has been checked against the ABI type.
    pub closed spec fn has_typed(&self) -> bool {
        self.compute is Some
    }

    /// The outcome of the last check of the function's type, if any.
    pub closed spec fn typed_outcome(&self) -> Option<Result<(), wasmtime::Error>> {
        self.typed@
    }

    /// The last call into the guest, if any: its arguments, the memory
    /// contents it started from, and its outcome.
    pub closed spec fn call_record(&self) -> Option<((i32, i32, i32, i32), Seq<u8>, Result<i32, wasmtime::Error>)> {
        self.call@
    }
}

/// `wasmtime::Engine::new` with the default configuration plus fuel
/// metering (`Config::consume_fuel`). Like `Engine::default`, it panics
/// where the host cannot run that configuration; nothing here states that.
#[verifier::external_body]
pub(crate) fn new_engine() -> GuestEngine {
    let mut config = Config::new();
    config.consume_fuel(true);
    GuestEngine { engine: Engine::new(&config).unwrap() }
}

/// `wasmtime::Module::new` followed by `wasmtime::Linker::instantiate` in a
/// fresh `Store` of the same engine holding `u64::MAX` units of fuel, with
/// no host functions: the instance, or the error of either step. One engine
/// serves both steps, so the engine mismatch on which `instantiate` panics
/// cannot arise; the fuel bounds a start function. Whether either step
/// succeeds depends on the host (memory reservations, code generation) as
/// well as on the bytes, so it is not stated.
#[verifier::external_body]
pub(crate) fn instantiate(engine: &GuestEngine, bytes: &[u8]) -> (r: Result<GuestInstance, wasmtime::Error>)
    ensures
        r matches Ok(g) ==> {
            &&& g.source() == bytes@
            &&& !g.has_memory()
            &&& g.found_func() is None
            &&& !g.has_typed()
            &&& g.typed_outcome() is None
            &&& g.call_record() is None
        },
{
    let module = match Module::new(&engine.engine, bytes) {
        Ok(m) => m,
        Err(e) => return Err(e),
    };
    let mut store = Store::new(&engine.engine, ());
    let _ = store.set_fuel(u64::MAX);
    match Linker::new(&engine.engine).instantiate(&mut store, &module) {
        Ok(instance) => Ok(GuestInstance { store, instance, memory: None, func: None, compute: None, source: Ghost(bytes@), func_name: Ghost(Seq::empty()), contents: Ghost(Seq::empty()), found_contents: Ghost(Seq::empty()), typed: Ghost(None), call: Ghost(None) }),
        Err(e) => Err(e),
    }
}

/// `wasmtime::Instance::get_memory`: looks up the exported memory `name`
/// and keeps it; whether there is one is a matter of the module alone.
/// What the memory holds when found is left open.
#[verifier::external_body]
pub(crate) fn find_memory(g: &mut GuestInstance, name: &str) -> (r: bool)
    ensures
        r == exports_memory(old(g).source(), name@),
        final(g).has_memory() == r,
        final(g).found_contents() == final(g).contents(),
        final(g).source() == old(g).source(),
        final(g).found_func() == old(g).found_func(),
        final(g).has_typed() == old(g).has_typed(),
        final(g).typed_outcome() == old(g).typed_outcome(),
        final(g).call_record() == old(g).call_record(),
{
    let m = g.instance.get_memory(&mut g.store, name);
    g.memory = m;
    m.is_some()
}

/// `wasmtime::Memory::write`: copies `data` to `offset` of the found
/// memory when it fits, and otherwise fails without writing.
#[verifier::external_body]
pub(crate) fn write_memory(g: &mut GuestInstance, offset: usize, data: &[u8]) -> (r: Result<(), MemoryAccessError>)
    requires
        old(g).has_memory(),
    ensures
        r is Ok <==> offset + data@.len() <= old(g).contents().len(),
        r is Ok ==> final(g).contents() == old(g).contents().take(offset as int) + data@ + old(g).contents().skip(
            offset + data@.len(),
        ),
        r is Err ==> final(g).contents() == old(g).contents(),
        final(g).has_memory(),
        final(g).found_contents() == old(g).found_contents(),
        final(g).source() == old(g).source(),
        final(g).found_func() == old(g).found_func(),
        final(g).has_typed() == old(g).has_typed(),
        final(g).typed_outcome() == old(g).typed_outcome(),
        final(g).call_record() == old(g).call_record(),
{
    g.memory.unwrap().write(&mut g.store, offset, data)
}

/// `wasmtime::Instance::get_func`: looks up the exported function `name`
/// and keeps it; whether there is one is a matter of the module alone.
#[verifier::external_body]
pub(crate) fn find_func(g: &mut GuestInstance, name: &str) -> (r: bool)
    ensures
        r == exports_func(old(g).source(), name@),
        final(g).found_func() == if r { Some(name@) } else { None::<Seq<char>> },
        !final(g).has_typed(),
        final(g).has_memory() == old(g).has_memory(),
        final(g).contents() == old(g).contents(),
        final(g).found_contents() == old(g).found_contents(),
        final(g).source() == old(g).source(),
        final(g).typed_outcome() == old(g).typed_outcome(),
        final(g).call_record() == old(g).call_record(),
{
    let f = g.instance.get_func(&mut g.store, name);
    g.func = f;
    g.compute = None;
    g.func_name = Ghost(name@);
    f.is_some()
}

/// `wasmtime::Func::typed` with the signature `(i32, i32, i32, i32) ->
/// i32`: succeeds exactly when the found function has that type; the
/// outcome is recorded.
#[verifier::external_body]
pub(crate) fn type_func(g: &mut GuestInstance) -> (r: Result<(), wasmtime::Error>)
    requires
        old(g).found_func() is Some,
    ensures
        r is Ok <==> export_has_abi_type(old(g).source(), old(g).found_func()->0),
        final(g).typed_outcome() == Some(r),
        final(g).has_typed() == r is Ok,
        final(g).has_memory() == old(g).has_memory(),
        final(g).contents() == old(g).contents(),
        final(g).found_contents() == old(g).found_contents(),
        final(g).found_func() == old(g).found_func(),
        final(g).source() == old(g).source(),
        final(g).call_record() == old(g).call_record(),
{
    g.compute = None;
    let r = match g.func.unwrap().typed::<(i32, i32, i32, i32), i32>(&g.store) {
        Ok(t) => {
            g.compute = Some(t);
            Ok(())
        },
        Err(e) => Err(e),
    };
    g.typed = Ghost(Some(r));
    r
}

/// `wasmtime::TypedFunc::call`: runs the guest with the arguments; its
/// result, or the trap (an exhausted fuel supply among them). The call
/// and its outcome are recorded. What the guest returns and what it
/// leaves in memory depend on its code and on the host (stack and memory
/// limits), so they are left open.
#[verifier::external_body]
pub(crate) fn call_func(g: &mut GuestInstance, args: (i32, i32, i32, i32)) -> (r: Result<i32, wasmtime::Error>)
    requires
        old(g).has_typed(),
    ensures
        final(g).call_record() == Some((args, old(g).contents(), r)),
        final(g).has_memory() == old(g).has_memory(),
        final(g).has_typed(),
        final(g).found_contents() == old(g).found_contents(),
        final(g).found_func() == old(g).found_func(),
        final(g).typed_outcome() == old(g).typed_outcome(),
        final(g).source() == old(g).source(),
{
    let r = g.compute.as_ref().unwrap().call(&mut g.store, args);
    g.call = Ghost(Some((args, g.contents@, r)));
    r
}

/// `wasmtime::Memory::read`: fills the whole buffer from `offset` of the
/// found memory when that range lies within it, and otherwise fails
/// leaving the buffer untouched.
#[verifier::external_body]
pub(crate) fn read_memory(g: &GuestInstance, offset: usize, buffer: &mut Vec<u8>) -> (r: Result<(), MemoryAccessError>)
    requires
        g.has_memory(),
    ensures
        r is Ok <==> offset + old(buffer)@.len() <= g.contents().len(),
        r is Ok ==> final(buffer)@ == g.contents().subrange(offset as int, offset + old(buffer)@.len()),
        r is Err ==> final(buffer)@ == old(buffer)@,
{
    g.memory.unwrap().read(&g.store, offset, buffer.as_mut_slice())
}

/// The text of a `wasmtime::MemoryAccessError`, which its `Display`
/// writes as "out of bounds memory access" whatever the access was.
#[verifier::external_body]
pub(crate) fn access_error_text(e: &MemoryAccessError) -> (r: String)
    ensures
        r@ == "out of bounds memory access"@,
{
    e.to_string()
}

} // verus!
