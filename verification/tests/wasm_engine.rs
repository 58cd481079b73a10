use pregel::errors::PregelError;
use pregel::wasm::{abi_error_name, compute_args, guest_output_len, WasmExecutor, WasmModule};

/// A module exporting `compute(i32, i32, i32, i32) -> i32` (returning -6)
/// and no memory.
fn module_without_memory() -> Vec<u8> {
    let mut m = vec![0x00, 0x61, 0x73, 0x6d, 0x01, 0x00, 0x00, 0x00];
    m.extend_from_slice(&[0x01, 0x09, 0x01, 0x60, 0x04, 0x7f, 0x7f, 0x7f, 0x7f, 0x01, 0x7f]);
    m.extend_from_slice(&[0x03, 0x02, 0x01, 0x00]);
    m.extend_from_slice(&[0x07, 0x0b, 0x01, 0x07, b'c', b'o', b'm', b'p', b'u', b't', b'e', 0x00, 0x00]);
    m.extend_from_slice(&[0x0a, 0x06, 0x01, 0x04, 0x00, 0x41, 0x7a, 0x0b]);
    m
}

#[test]
fn guest_error_names() {
    assert_eq!(abi_error_name(-1), "EINVALID");
    assert_eq!(abi_error_name(-2), "EDESERIALIZE");
    assert_eq!(abi_error_name(-3), "ESERIALIZE");
    assert_eq!(abi_error_name(-4), "EOUTPUT_OVERRUN");
    assert_eq!(abi_error_name(-5), "EALLOC");
    assert_eq!(abi_error_name(-6), "EUSER");
    assert_eq!(abi_error_name(-7), "UNKNOWN");
    assert_eq!(abi_error_name(3), "UNKNOWN");
}

#[test]
fn guest_return_values() {
    assert_eq!(guest_output_len(12).unwrap(), 12);
    assert_eq!(guest_output_len(0).unwrap(), 0);
    match guest_output_len(-4) {
        Err(PregelError::WasmGuest(name, code)) => {
            assert_eq!(name, "EOUTPUT_OVERRUN");
            assert_eq!(code, -4);
        }
        other => panic!("unexpected {:?}", other),
    }
    match guest_output_len(-100) {
        Err(PregelError::WasmGuest(name, code)) => assert_eq!((name.as_str(), code), ("UNKNOWN", -100)),
        other => panic!("unexpected {:?}", other),
    }
    assert_eq!(compute_args(10), (0, 10, 32768, 32768));
}

#[test]
fn executor_rejects_garbage_modules() {
    let exec = WasmExecutor::new();
    let module = WasmModule::from_bytes(vec![1, 2, 3]);
    assert!(matches!(exec.compute(&module, &[1, 2]), Err(PregelError::Serialization(_))));
}

#[test]
fn executor_requires_a_memory_export() {
    let exec = WasmExecutor::default();
    let module = WasmModule::from_bytes(module_without_memory());
    match exec.compute(&module, &[1, 2, 3]) {
        Err(PregelError::Serialization(m)) => assert_eq!(m, "no memory export"),
        other => panic!("unexpected {:?}", other),
    }
}
