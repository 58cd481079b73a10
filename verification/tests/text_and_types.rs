use pregel::abi;
use pregel::errors::PregelError;
use pregel::text::{i32_to_decimal, parse_unsigned_exec, str_chars, u64_to_decimal};
use pregel::types::{AbiErrorCode, ComputeInput, ComputeResultWire};

#[test]
fn decimal_rendering_matches_format() {
    assert_eq!(u64_to_decimal(0), "0");
    assert_eq!(u64_to_decimal(7), "7");
    assert_eq!(u64_to_decimal(1234567890), "1234567890");
    assert_eq!(u64_to_decimal(u64::MAX), u64::MAX.to_string());
    assert_eq!(i32_to_decimal(-42), "-42");
    assert_eq!(i32_to_decimal(i32::MIN), i32::MIN.to_string());
    assert_eq!(i32_to_decimal(5), "5");
}

#[test]
fn unsigned_tokens_parse_within_bounds() {
    let s = str_chars("12 x 99999999999999999999");
    assert_eq!(parse_unsigned_exec(&s, 0, 2, u64::MAX), Some(12));
    assert_eq!(parse_unsigned_exec(&s, 3, 4, u64::MAX), None);
    assert_eq!(parse_unsigned_exec(&s, 5, 25, u64::MAX), None);
    assert_eq!(parse_unsigned_exec(&s, 0, 2, 10), None);
}

#[test]
fn abi_codes_round_trip() {
    let all = [
        AbiErrorCode::Invalid,
        AbiErrorCode::Deserialize,
        AbiErrorCode::Serialize,
        AbiErrorCode::OutputOverrun,
        AbiErrorCode::Alloc,
        AbiErrorCode::User,
    ];
    for (i, c) in all.iter().enumerate() {
        let n = c.as_i32();
        assert_eq!(n, -(i as i32) - 1);
        assert_eq!(AbiErrorCode::from_i32(n).map(|d| d.as_i32()), Some(n));
    }
    assert!(AbiErrorCode::from_i32(0).is_none());
    assert!(AbiErrorCode::from_i32(-7).is_none());
}

fn input(value_len: usize, edges: usize, messages: usize) -> ComputeInput {
    ComputeInput {
        vertex_id: 1,
        value: vec![0u8; value_len],
        edges: vec![2u64; edges],
        messages: vec![(3u64, vec![1u8]); messages],
        superstep: 0,
        total_vertices: 4,
    }
}

#[test]
fn compute_input_limits() {
    assert_eq!(input(8, 3, 2).validate(), Ok(()));
    assert_eq!(input(1048577, 0, 0).validate(), Err("value exceeds MAX_VALUE_LEN"));
    assert_eq!(input(0, 1000001, 0).validate(), Err("edges exceeds MAX_EDGES_LEN"));
    assert_eq!(input(0, 0, 1000001).validate(), Err("messages exceeds MAX_MESSAGES_LEN"));
    let mut big = input(0, 0, 1);
    big.messages[0].1 = vec![0u8; 65537];
    assert_eq!(big.validate(), Err("message payload exceeds MAX_MESSAGE_PAYLOAD_LEN"));
}

#[test]
fn compute_result_limits() {
    let ok = ComputeResultWire { new_value: Some(vec![1, 2]), outgoing: vec![(1, vec![0u8; 8])] };
    assert_eq!(ok.validate(), Ok(()));
    let big = ComputeResultWire { new_value: None, outgoing: vec![(1, vec![0u8; 65537])] };
    assert_eq!(big.validate(), Err("outgoing payload exceeds MAX_MESSAGE_PAYLOAD_LEN"));
    let value = ComputeResultWire { new_value: Some(vec![0u8; 1048577]), outgoing: vec![] };
    assert_eq!(value.validate(), Err("new_value exceeds MAX_VALUE_LEN"));
    let many = ComputeResultWire { new_value: None, outgoing: vec![(1, vec![]); 1000001] };
    assert_eq!(many.validate(), Err("outgoing exceeds MAX_EDGES_LEN"));
}

#[test]
fn abi_result_reports_outgoing_overflow() {
    let r = abi::ComputeResultWire { new_value: None, outgoing: vec![(1, vec![1]), (2, vec![2]), (3, vec![3])] };
    assert_eq!(r.validate(2), Err("outgoing messages 3 exceed limit 2".to_string()));
    assert_eq!(r.validate(3), Ok(()));
    let v = abi::ComputeResultWire { new_value: Some(vec![0u8; 65537]), outgoing: vec![] };
    assert_eq!(v.validate(10), Err("new_value exceeds 64KB".to_string()));
    let p = abi::ComputeResultWire { new_value: None, outgoing: vec![(1, vec![0u8; 65537])] };
    assert_eq!(p.validate(10), Err("outgoing payload exceeds 64KB".to_string()));
}

#[test]
fn abi_input_limits() {
    let ok = abi::ComputeInput { vertex_id: 0, value: vec![0u8; 10], edges: vec![1, 2], messages: vec![] };
    assert_eq!(ok.validate(), Ok(()));
    let edges = abi::ComputeInput { vertex_id: 0, value: vec![], edges: vec![0u64; 1000001], messages: vec![] };
    assert_eq!(edges.validate(), Err("edges count exceeds limit (1M)".to_string()));
    let msgs = abi::ComputeInput { vertex_id: 0, value: vec![], edges: vec![], messages: vec![(0, vec![]); 100001] };
    assert_eq!(msgs.validate(), Err("messages count exceeds limit (100K)".to_string()));
    let value = abi::ComputeInput { vertex_id: 0, value: vec![0u8; 65537], edges: vec![], messages: vec![] };
    assert_eq!(value.validate(), Err("vertex value exceeds 64KB".to_string()));
}

#[test]
fn error_messages() {
    assert_eq!(PregelError::Io("disk".into()).message(), "IO error: disk");
    assert_eq!(PregelError::Serialization("bad".into()).message(), "Serialization error: bad");
    assert_eq!(PregelError::Network("down".into()).message(), "Network error: down");
    assert_eq!(PregelError::Worker("crash".into()).message(), "Worker error: crash");
    assert_eq!(PregelError::Checkpoint("lost".into()).message(), "Checkpoint error: lost");
    assert_eq!(
        PregelError::WasmGuest("EUSER".into(), -6).message(),
        "WASM guest error: EUSER (code -6)"
    );
}
