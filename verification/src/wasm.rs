//! Running a vertex compute function compiled to WebAssembly.
//!
//! ABI: the host writes the encoded input at offset 0 of the guest's linear
//! memory, calls `compute(input_ptr, input_len, output_ptr, output_max_len)`
//! and reads `output_len` bytes back from the output offset. A negative
//! return value is an [`AbiErrorCode`]. Input and output share the first
//! 64 KiB page: input at 0, output at 32 KiB.

use vstd::prelude::*;
use vstd::string::*;
use crate::errors::PregelError;
use crate::types::AbiErrorCode;
use crate::guest::{
    access_error_text, call_func, export_has_abi_type, exports_func, exports_memory, find_func, find_memory,
    instantiate, new_engine, read_memory, type_func, write_memory, GuestEngine, GuestInstance,
};
use wasmtime::MemoryAccessError;

verus! {

/// Largest input, in bytes, that fits below the output area.
pub const INPUT_MAX_LEN: usize = 32768;

/// Offset of the output area in guest memory.
pub const OUTPUT_OFFSET: u32 = 32768;

/// Room for output, in bytes.
pub const OUTPUT_MAX_LEN: u32 = 32768;

/// A compiled-module source: the raw `.wasm` bytes, compiled and
/// instantiated afresh for each compute call.
#[derive(Debug)]
pub struct WasmModule {
    pub bytes: Vec<u8>,
}

impl WasmModule {
    /// A module from in-memory bytes (downloaded, generated, or read by the
    /// caller).
    pub fn from_bytes(bytes: Vec<u8>) -> (r: Self)
        ensures
            r.bytes == bytes,
    {
        Self { bytes }
    }
}

/// The name of a guest error code, as the host reports it.
pub open spec fn abi_error_label(code: i32) -> Seq<char> {
    if code == -1 {
        "EINVALID"@
    } else if code == -2 {
        "EDESERIALIZE"@
    } else if code == -3 {
        "ESERIALIZE"@
    } else if code == -4 {
        "EOUTPUT_OVERRUN"@
    } else if code == -5 {
        "EALLOC"@
    } else if code == -6 {
        "EUSER"@
    } else {
        "UNKNOWN"@
    }
}

/// The name of a guest error code: `EINVALID`, ..., `EUSER`, or `UNKNOWN`
/// for a number that is no code.
pub fn abi_error_name(code: i32) -> (r: &'static str)
    ensures
        r@ == abi_error_label(code),
{
    match AbiErrorCode::from_i32(code) {
        None => "UNKNOWN",
        Some(c) => match c {
            AbiErrorCode::Invalid => "EINVALID",
            AbiErrorCode::Deserialize => "EDESERIALIZE",
            AbiErrorCode::Serialize => "ESERIALIZE",
            AbiErrorCode::OutputOverrun => "EOUTPUT_OVERRUN",
            AbiErrorCode::Alloc => "EALLOC",
            AbiErrorCode::User => "EUSER",
        },
    }
}

/// The arguments of the guest's `compute`: input at 0, output at
/// `OUTPUT_OFFSET` with room for `OUTPUT_MAX_LEN` bytes.
pub fn compute_args(input_len: usize) -> (r: (i32, i32, i32, i32))
    requires
        input_len <= INPUT_MAX_LEN,
    ensures
        r == (0i32, input_len as i32, OUTPUT_OFFSET as i32, OUTPUT_MAX_LEN as i32),
{
    (0, input_len as i32, OUTPUT_OFFSET as i32, OUTPUT_MAX_LEN as i32)
}

/// What the guest's return value means: a negative value is the error it
/// reports, any other is the length of its output.
pub fn guest_output_len(result: i32) -> (r: Result<usize, PregelError>)
    ensures
        result < 0 ==> (r matches Err(PregelError::WasmGuest(name, code)) && code == result && name@
            == abi_error_label(result)),
        result >= 0 ==> r == Ok::<usize, PregelError>(result as usize),
{
    if result < 0 {
        Err(PregelError::WasmGuest(String::from_str(abi_error_name(result)), result))
    } else {
        Ok(result as usize)
    }
}

fn serialization_error(msg: &str) -> (r: PregelError)
    ensures
        r matches PregelError::Serialization(s) && s@ == msg@,
{
    PregelError::Serialization(String::from_str(msg))
}

fn wasm_error(e: wasmtime::Error) -> (r: PregelError)
    ensures
        r matches PregelError::Serialization(s) && to_string_from_display_ensures::<wasmtime::Error>(&e, s),
{
    PregelError::Serialization(e.to_string())
}

fn access_error(e: MemoryAccessError) -> (r: PregelError)
    ensures
        r matches PregelError::Serialization(s) && s@ == out_of_bounds(),
{
    PregelError::Serialization(access_error_text(&e))
}

/// The text of a failed access to guest memory.
pub open spec fn out_of_bounds() -> Seq<char> {
    "out of bounds memory access"@
}

/// Whether `r` is a serialization error with the text of the error `e`.
pub open spec fn wasm_text(r: Result<Vec<u8>, PregelError>, e: wasmtime::Error) -> bool {
    r matches Err(PregelError::Serialization(s)) && to_string_from_display_ensures::<wasmtime::Error>(&e, s)
}

/// Whether `r` is a serialization error with the text `t`.
pub open spec fn serialization_text(r: Result<Vec<u8>, PregelError>, t: Seq<char>) -> bool {
    r matches Err(PregelError::Serialization(s)) && s@ == t
}

/// The arguments the guest's `compute` is called with for an input of
/// `len` bytes.
pub open spec fn abi_args(len: int) -> (i32, i32, i32, i32) {
    (0i32, len as i32, OUTPUT_OFFSET as i32, OUTPUT_MAX_LEN as i32)
}

/// What running an instance of the module with bytes `b` on `input` gives,
/// `fin` being the instance afterwards:
/// - without an exported `memory`: "no memory export";
/// - with input over `INPUT_MAX_LEN`: "input too large", and the guest is
///   not called;
/// - with input longer than the memory: the out-of-bounds error, and the
///   guest is not called;
/// - without an exported `compute`: no output, and the guest is not called;
/// - with a `compute` of another type: the type check's error;
/// - otherwise `compute` is called once, with the ABI arguments and the
///   input written at offset 0 of the memory as it was found; a trap gives
///   its error, a negative value the guest error of that code, and a
///   length the bytes that the memory holds from `OUTPUT_OFFSET` on
///   after the call (the out-of-bounds error when they are not all there).
pub open spec fn run_outcome(b: Seq<u8>, input: Seq<u8>, fin: GuestInstance, r: Result<Vec<u8>, PregelError>) -> bool {
    if !exports_memory(b, "memory"@) {
        serialization_text(r, "no memory export"@) && fin.call_record() is None
    } else if input.len() > INPUT_MAX_LEN {
        serialization_text(r, "input too large"@) && fin.call_record() is None
    } else if input.len() > fin.found_contents().len() {
        serialization_text(r, out_of_bounds()) && fin.call_record() is None
    } else if !exports_func(b, "compute"@) {
        (r matches Ok(out) && out@.len() == 0) && fin.call_record() is None
    } else if !export_has_abi_type(b, "compute"@) {
        (fin.typed_outcome() matches Some(Err(e)) && wasm_text(r, e)) && fin.call_record() is None
    } else {
        match fin.call_record() {
            Some((args, before, outcome)) => {
                &&& args == abi_args(input.len() as int)
                &&& before == input + fin.found_contents().skip(input.len() as int)
                &&& match outcome {
                    Err(e) => wasm_text(r, e),
                    Ok(v) => if v < 0 {
                        r matches Err(PregelError::WasmGuest(name, code)) && code == v && name@ == abi_error_label(v)
                    } else if OUTPUT_OFFSET + v > fin.contents().len() {
                        serialization_text(r, out_of_bounds())
                    } else {
                        r matches Ok(out) && out@ == fin.contents().subrange(
                            OUTPUT_OFFSET as int,
                            OUTPUT_OFFSET + v,
                        )
                    },
                }
            },
            None => false,
        }
    }
}

/// Runs an instance's `compute` on `input`: finds its memory, checks the
/// input's size, writes it at offset 0, finds and checks `compute`, calls
/// it with the ABI arguments and reads back the output it reports.
pub fn run_instance(g: &mut GuestInstance, input: &[u8]) -> (r: Result<Vec<u8>, PregelError>)
    requires
        old(g).typed_outcome() is None,
        old(g).call_record() is None,
    ensures
        run_outcome(old(g).source(), input@, *final(g), r),
        match final(g).call_record() {
            Some((args, _, Ok(v))) => v >= 0 ==> {
                &&& args.2 == OUTPUT_OFFSET as i32
                &&& (r is Ok <==> args.2 + v <= final(g).contents().len())
                &&& (r matches Ok(out) ==> out@ == final(g).contents().subrange(args.2 as int, args.2 + v))
            },
            _ => true,
        },
{
    if !find_memory(g, "memory") {
        return Err(serialization_error("no memory export"));
    }
    if input.len() > INPUT_MAX_LEN {
        return Err(serialization_error("input too large"));
    }
    if let Err(e) = write_memory(g, 0, input) {
        return Err(access_error(e));
    }
    proof {
        assert(g.found_contents().take(0) + input@ + g.found_contents().skip(input@.len() as int) =~= input@
            + g.found_contents().skip(input@.len() as int));
    }
    if !find_func(g, "compute") {
        return Ok(Vec::new());
    }
    if let Err(e) = type_func(g) {
        return Err(wasm_error(e));
    }
    let result = match call_func(g, compute_args(input.len())) {
        Ok(v) => v,
        Err(e) => return Err(wasm_error(e)),
    };
    let out_len = match guest_output_len(result) {
        Ok(n) => n,
        Err(e) => return Err(e),
    };
    let mut buf: Vec<u8> = vec![0u8; out_len];
    if let Err(e) = read_memory(g, OUTPUT_OFFSET as usize, &mut buf) {
        return Err(access_error(e));
    }
    Ok(buf)
}

/// When the guest's `compute` was called and returned a length `v`, the
/// output is read from the memory at the offset that the call was given
/// for it (its third argument, `OUTPUT_OFFSET`): the result is the `v`
/// bytes the memory holds there after the call, and an error exactly when
/// they do not all lie within the memory.
pub proof fn lemma_run_reads_output_window(
    b: Seq<u8>,
    input: Seq<u8>,
    fin: GuestInstance,
    r: Result<Vec<u8>, PregelError>,
    args: (i32, i32, i32, i32),
    before: Seq<u8>,
    v: i32,
)
    requires
        run_outcome(b, input, fin, r),
        fin.call_record() == Some((args, before, Ok::<i32, wasmtime::Error>(v))),
        v >= 0,
    ensures
        args == abi_args(input.len() as int),
        args.2 == OUTPUT_OFFSET as i32,
        before == input + fin.found_contents().skip(input.len() as int),
        r is Ok <==> args.2 + v <= fin.contents().len(),
        r matches Ok(out) ==> out@ == fin.contents().subrange(args.2 as int, args.2 + v),
{
}

/// Executes WASM vertex compute functions.
pub struct WasmExecutor {
    engine: GuestEngine,
}

impl WasmExecutor {
    pub fn new() -> Self {
        Self { engine: new_engine() }
    }

    /// Compiles and instantiates the module, writes `input` at offset 0 of
    /// its memory, calls its `compute` export and returns the bytes it
    /// wrote. A module without a `compute` export gives no output. Whether
    /// compiling and instantiating succeed depends on the host as well as
    /// on the bytes: when they fail, the result is a serialization error
    /// with wasmtime's text; otherwise it is what `run_instance` gives.
    pub fn compute(&self, module: &WasmModule, input: &[u8]) -> (r: Result<Vec<u8>, PregelError>)
        ensures
            (r matches Err(PregelError::Serialization(_))) || exists|fin: GuestInstance| run_outcome(module.bytes@, input@, fin, r),
    {
        let mut g = match instantiate(&self.engine, module.bytes.as_slice()) {
            Ok(g) => g,
            Err(e) => return Err(wasm_error(e)),
        };
        let r = run_instance(&mut g, input);
        assert(run_outcome(module.bytes@, input@, g, r));
        r
    }
}

impl Default for WasmExecutor {
    fn default() -> Self {
        Self::new()
    }
}

} // verus!
