//! The value that a compiled function hands to the host that called it: one
//! wide integer that is either a result or the signal of a runtime error.
use vstd::prelude::*;

verus! {

/// The bit of a returned value that tells an error from a result.
pub const ERROR_BIT: u64 = 0x8000_0000_0000_0000;

/// The bits of a returned value that hold the result or the index of the
/// error point.
pub const PAYLOAD_MASK: u64 = 0x7fff_ffff_ffff_ffff;

/// What a returned value means.
#[derive(Debug, Clone, Copy, PartialEq, Eq, Structural)]
pub enum ReturnValue {
    /// The function ended with the runtime error whose index in the table
    /// of error points is given.
    Error(u64),
    /// The function gave a result, which is read by the function's return
    /// type.
    Value(u64),
}

/// The returned value that signals the runtime error with the index
/// `error_index`.
pub open spec fn spec_encode_error(error_index: usize) -> u64 {
    (error_index as u64) | ERROR_BIT
}

/// The returned value that signals the runtime error with the index
/// `error_index`: the top bit set, and the index in the other bits.
#[verifier::when_used_as_spec(spec_encode_error)]
pub fn encode_error(error_index: usize) -> (raw: u64)
    ensures
        raw == spec_encode_error(error_index),
{
    (error_index as u64) | ERROR_BIT
}

/// What the returned value `raw` means.
pub open spec fn spec_decode_return_value(raw: u64) -> ReturnValue {
    if raw & ERROR_BIT != 0 {
        ReturnValue::Error(raw & PAYLOAD_MASK)
    } else {
        ReturnValue::Value(raw & PAYLOAD_MASK)
    }
}

/// What the returned value `raw` means: with the top bit set, the error
/// whose index the other bits hold; with the top bit clear, the result that
/// the other bits hold.
#[verifier::when_used_as_spec(spec_decode_return_value)]
pub fn decode_return_value(raw: u64) -> (meaning: ReturnValue)
    ensures
        meaning == spec_decode_return_value(raw),
{
    if raw & ERROR_BIT != 0 {
        ReturnValue::Error(raw & PAYLOAD_MASK)
    } else {
        ReturnValue::Value(raw & PAYLOAD_MASK)
    }
}

/// The signal of an error is read back as that error: decoding the value
/// that encodes the index of an error point gives an error with that index.
/// An index with the top bit set has no room beside the error bit.
pub proof fn lemma_error_round_trip(error_index: usize)
    requires
        error_index < 0x8000_0000_0000_0000,
    ensures
        decode_return_value(encode_error(error_index)) == ReturnValue::Error(error_index as u64),
{
    let k = error_index as u64;
    assert((k | 0x8000_0000_0000_0000u64) & 0x8000_0000_0000_0000u64 != 0) by (bit_vector);
    assert(k < 0x8000_0000_0000_0000u64 ==> (k | 0x8000_0000_0000_0000u64)
        & 0x7fff_ffff_ffff_ffffu64 == k) by (bit_vector);
}

/// A result is read back as that result: decoding a value whose top bit is
/// clear gives the value itself.
pub proof fn lemma_value_round_trip(value: u64)
    requires
        value < 0x8000_0000_0000_0000,
    ensures
        decode_return_value(value) == ReturnValue::Value(value),
{
    assert(value < 0x8000_0000_0000_0000u64 ==> value & 0x8000_0000_0000_0000u64 == 0)
        by (bit_vector);
    assert(value < 0x8000_0000_0000_0000u64 ==> value & 0x7fff_ffff_ffff_ffffu64 == value)
        by (bit_vector);
}

/// The signal of an error is carried unchanged by the signed integer that a
/// function returns: read as unsigned again, it is the signal, and it
/// decodes to the error with the index that was encoded.
pub proof fn lemma_signal_survives_sign(error_index: usize)
    requires
        error_index < 0x8000_0000_0000_0000,
    ensures
        (spec_encode_error(error_index) as i64) < 0i64,
        (spec_encode_error(error_index) as i64) as u64 == spec_encode_error(error_index),
        decode_return_value((spec_encode_error(error_index) as i64) as u64) == ReturnValue::Error(
            error_index as u64,
        ),
{
    let k = error_index as u64;
    let raw = k | 0x8000_0000_0000_0000u64;
    assert((raw as i64) as u64 == raw) by (bit_vector);
    assert(((k | 0x8000_0000_0000_0000u64) as i64) < 0i64) by (bit_vector);
    lemma_error_round_trip(error_index);
}

/// Every returned value is read as exactly one of the two: an error where
/// its top bit is set, a result where it is clear.
pub proof fn lemma_decode_is_total(raw: u64)
    ensures
        raw >= 0x8000_0000_0000_0000 <==> decode_return_value(raw) is Error,
        raw < 0x8000_0000_0000_0000 <==> decode_return_value(raw) is Value,
{
    assert(raw >= 0x8000_0000_0000_0000u64 <==> raw & 0x8000_0000_0000_0000u64 != 0)
        by (bit_vector);
}

} // verus!
