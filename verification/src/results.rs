//! How the coordinator presents job results to whoever submitted the job:
//! vertex values as numbers where they decode as one, and the text of a
//! timeout.

use vstd::prelude::*;
use vstd::string::*;
use crate::codec::{decode_u64, decoded_u64};
use crate::observability::join;
use crate::text::{decimal, u64_to_decimal};
use crate::types::WorkerId;

verus! {

/// A vertex value as it appears in a job result.
#[derive(Debug, Clone, PartialEq, Eq)]
pub enum ValueJson {
    /// The value decoded as an unsigned integer.
    Number(u64),
    /// The raw bytes in standard, padded base64.
    Base64(String),
}

/// The character of a six-bit value in the standard base64 alphabet
/// (`A`-`Z`, `a`-`z`, `0`-`9`, `+`, `/`).
pub open spec fn base64_char(v: int) -> char {
    if v < 26 {
        (65 + v) as char
    } else if v < 52 {
        (97 + v - 26) as char
    } else if v < 62 {
        (48 + v - 52) as char
    } else if v == 62 {
        '+'
    } else {
        '/'
    }
}

/// Standard base64 with padding: each group of three bytes becomes four
/// characters; a last group of one or two bytes becomes two or three
/// characters followed by `=` padding to four.
pub open spec fn base64_standard(b: Seq<u8>) -> Seq<char>
    decreases b.len(),
{
    if b.len() == 0 {
        Seq::empty()
    } else if b.len() == 1 {
        let x = b[0] as int;
        seq![base64_char(x / 4), base64_char((x % 4) * 16), '=', '=']
    } else if b.len() == 2 {
        let x = b[0] as int;
        let y = b[1] as int;
        seq![base64_char(x / 4), base64_char((x % 4) * 16 + y / 16), base64_char((y % 16) * 4), '=']
    } else {
        let x = b[0] as int;
        let y = b[1] as int;
        let z = b[2] as int;
        seq![
            base64_char(x / 4),
            base64_char((x % 4) * 16 + y / 16),
            base64_char((y % 16) * 4 + z / 64),
            base64_char(z % 64),
        ] + base64_standard(b.skip(3))
    }
}

/// `base64::Engine::encode` with the standard alphabet and padding
/// (`general_purpose::STANDARD`), which writes the encoding above. It
/// panics when the encoded length overflows `usize`, which `requires`
/// rules out.
#[verifier::external_body]
fn base64_encode(b: &[u8]) -> (r: String)
    requires
        b@.len() <= usize::MAX / 2,
    ensures
        r@ == base64_standard(b@),
{
    base64::Engine::encode(&base64::engine::general_purpose::STANDARD, b)
}

/// The JSON form of a stored vertex value: a number when the bytes decode
/// as a `u64` (at least eight bytes, little-endian), otherwise base64 text.
/// (Any eight bytes decode as a `u64`, so a value never reaches a
/// floating-point reading.)
pub fn decode_value_for_json(value: &[u8]) -> (r: ValueJson)
    requires
        value@.len() <= usize::MAX / 2,
    ensures
        match decoded_u64(value@) {
            Some(v) => r == ValueJson::Number(v),
            None => r matches ValueJson::Base64(s) && s@ == base64_standard(value@),
        },
{
    match decode_u64(value) {
        Some(v) => ValueJson::Number(v),
        None => ValueJson::Base64(base64_encode(value)),
    }
}

/// The message sent to the submitter of a job whose workers timed out:
/// `Worker(s) [1, 2] timed out`.
pub open spec fn timeout_text(ids: Seq<WorkerId>) -> Seq<char> {
    "Worker(s) ["@ + join(ids.map_values(|w: WorkerId| decimal(w as nat)), ", "@) + "] timed out"@
}

pub fn timeout_message(timed_out: &Vec<WorkerId>) -> (r: String)
    ensures
        r@ == timeout_text(timed_out@),
{
    let mut list = String::new();
    for i in 0..timed_out.len()
        invariant
            list@ == join(timed_out@.take(i as int).map_values(|w: WorkerId| decimal(w as nat)), ", "@),
    {
        proof {
            let pre = timed_out@.take(i as int).map_values(|w: WorkerId| decimal(w as nat));
            let post = timed_out@.take(i + 1).map_values(|w: WorkerId| decimal(w as nat));
            assert(post.drop_last() =~= pre);
            assert(post.last() == decimal(timed_out@[i as int] as nat));
        }
        if i > 0 {
            list.append(", ");
        }
        let d = u64_to_decimal(timed_out[i] as u64);
        list.append(d.as_str());
    }
    assert(timed_out@.take(timed_out@.len() as int) =~= timed_out@);
    let mut s = String::from_str("Worker(s) [");
    s.append(list.as_str());
    s.append("] timed out");
    s
}

} // verus!
