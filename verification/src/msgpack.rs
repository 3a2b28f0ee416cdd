use vstd::prelude::*;

use rmpv::Value as Rv;

use crate::value::{MsgValue, ValueModel};

verus! {

/// rmpv's value type, which the codec wrappers hand to and take from rmpv.
#[verifier::external_type_specification]
#[verifier::external_body]
pub struct ExOutsideValue(Rv);

/// The bytes that `rmpv::encode::write_value` writes for a value.
pub uninterp spec fn msgpack_encoding(v: ValueModel) -> Seq<u8>;

/// The value that `rmpv::decode::read_value` reads from the front of `data`,
/// or `None` where it reports an error.
pub uninterp spec fn msgpack_decoding(data: Seq<u8>) -> Option<ValueModel>;

/// The lengths that the encoder writes as 32-bit numbers fit in them.
pub open spec fn fits_u32(n: nat) -> bool {
    n <= 0xffff_ffff
}

/// The number of bytes of the UTF-8 encoding of a character.
pub open spec fn utf8_char_len(c: char) -> nat {
    if (c as int) < 0x80 {
        1
    } else if (c as int) < 0x800 {
        2
    } else if (c as int) < 0x10000 {
        3
    } else {
        4
    }
}

/// The number of bytes of the UTF-8 encoding of a text.
pub open spec fn utf8_len(s: Seq<char>) -> nat
    decreases s.len(),
{
    if s.len() == 0 {
        0
    } else {
        utf8_len(s.drop_last()) + utf8_char_len(s.last())
    }
}

/// A text takes at most four UTF-8 bytes per character.
pub proof fn lemma_utf8_len_bound(s: Seq<char>)
    ensures
        utf8_len(s) <= 4 * s.len(),
    decreases s.len(),
{
    if s.len() > 0 {
        lemma_utf8_len_bound(s.drop_last());
    }
}

/// `v` is written and read back unchanged when the reader starts it with
/// `d` depth steps left. `read_value` spends one step on every value, one
/// more on a container before its items, and two more on a string or an
/// extension body (one on binary data); it fails when a step is due with
/// none left. Integers must be in normal form, strings valid UTF-8, and
/// every length must fit the format's 32-bit length fields.
pub open spec fn decodable_within(v: ValueModel, d: nat) -> bool
    decreases d,
{
    match v {
        ValueModel::NegInt(n) => d >= 1 && n < 0,
        ValueModel::Str(s) => d >= 3 && fits_u32(utf8_len(s)),
        ValueModel::InvalidStr(_) => false,
        ValueModel::Binary(b) => d >= 2 && fits_u32(b.len()),
        ValueModel::Ext(_, b) => d >= 3 && fits_u32(b.len()),
        ValueModel::Array(items) => d >= 2 && fits_u32(items.len()) && forall|i: int|
            0 <= i < items.len() ==> decodable_within(#[trigger] items[i], (d - 2) as nat),
        ValueModel::Dict(pairs) => d >= 2 && fits_u32(pairs.len()) && forall|i: int|
            0 <= i < pairs.len() ==> decodable_within(#[trigger] pairs[i].0, (d - 2) as nat)
                && decodable_within(pairs[i].1, (d - 2) as nat),
        _ => d >= 1,
    }
}

/// The values that survive a write and a read: `read_value` starts with
/// its limit of 1024 depth steps.
pub open spec fn encodable(v: ValueModel) -> bool {
    decodable_within(v, 1024)
}

/// Converts the library's value into rmpv's, one variant for one.
#[verifier::external_body]
fn to_outside(v: &MsgValue) -> Rv {
    match v {
        MsgValue::Array(a) => Rv::Array(a.iter().map(to_outside).collect()),
        MsgValue::Dict(m) => Rv::Map(m.iter().map(|(k, x)| (to_outside(k), to_outside(x))).collect()),
        _ => scalar_to_outside(v),
    }
}

/// Converts a value that is not a container, one variant for one. An
/// invalid string becomes binary data, which is what `write_value` writes
/// for an invalid rmpv string.
#[verifier::external_body]
fn scalar_to_outside(v: &MsgValue) -> Rv {
    match v {
        MsgValue::Boolean(b) => Rv::Boolean(*b),
        MsgValue::PosInt(n) => Rv::from(*n),
        MsgValue::NegInt(n) => Rv::from(*n),
        MsgValue::F32(b) => float_from_marker_and_bits(0xca, &b.to_be_bytes()),
        MsgValue::F64(b) => float_from_marker_and_bits(0xcb, &b.to_be_bytes()),
        MsgValue::String(s) => Rv::from(s.as_str()),
        MsgValue::InvalidString(b) | MsgValue::Binary(b) => Rv::Binary(b.clone()),
        MsgValue::Ext(t, b) => Rv::Ext(*t, b.clone()),
        _ => Rv::Nil,
    }
}

/// Converts rmpv's value into the library's, one variant for one.
#[verifier::external_body]
fn from_outside(v: Rv) -> MsgValue {
    match v {
        Rv::Array(a) => MsgValue::Array(a.into_iter().map(from_outside).collect()),
        Rv::Map(m) => MsgValue::Dict(m.into_iter().map(|(k, x)| (from_outside(k), from_outside(x))).collect()),
        other => scalar_from_outside(other),
    }
}

/// Converts an rmpv value that is not a container, one variant for one.
#[verifier::external_body]
fn scalar_from_outside(v: Rv) -> MsgValue {
    match v {
        Rv::Boolean(b) => MsgValue::Boolean(b),
        Rv::Integer(i) => i.as_u64().map_or(MsgValue::NegInt(i.as_i64().unwrap_or(-1)), MsgValue::PosInt),
        Rv::F32(f) => MsgValue::F32(f.to_bits()),
        Rv::F64(f) => MsgValue::F64(f.to_bits()),
        Rv::String(s) if s.is_str() => MsgValue::String(s.into_str().unwrap_or_default()),
        Rv::String(s) => MsgValue::InvalidString(s.into_bytes()),
        Rv::Binary(b) => MsgValue::Binary(b),
        Rv::Ext(t, b) => MsgValue::Ext(t, b),
        _ => MsgValue::Nil,
    }
}

/// Reads the float that a marker byte and its big-endian bit pattern denote.
#[verifier::external_body]
fn float_from_marker_and_bits(marker: u8, bits: &[u8]) -> Rv {
    let bytes: Vec<u8> = [&[marker][..], bits].concat();
    rmpv::decode::read_value(&mut &bytes[..]).unwrap_or(Rv::Nil)
}

/// Writes `v` in MessagePack with `rmpv::encode::write_value` into a fresh
/// vector. Writing into a `Vec<u8>` does not fail, so the result is `Ok`;
/// and `rmpv::decode::read_value` reads an encodable value back unchanged
/// from the bytes written.
#[verifier::external_body]
pub(crate) fn write_msgpack(v: &MsgValue) -> (r: Result<Vec<u8>, String>)
    ensures
        r is Ok,
        r matches Ok(bytes) ==> bytes@ == msgpack_encoding(v@),
        r matches Ok(bytes) ==> (encodable(v@) ==> msgpack_decoding(bytes@) == Some(v@)),
{
    let mut buf: Vec<u8> = Vec::new();
    match rmpv::encode::write_value(&mut buf, &to_outside(v)) {
        Ok(()) => Ok(buf),
        Err(e) => Err(e.to_string()),
    }
}

/// Reads one MessagePack value from the front of `data` with
/// `rmpv::decode::read_value`. The text of an error is not stated.
#[verifier::external_body]
pub(crate) fn read_msgpack(data: &[u8]) -> (r: Result<MsgValue, String>)
    ensures
        r is Ok <==> msgpack_decoding(data@) is Some,
        r matches Ok(v) ==> v@ == msgpack_decoding(data@).unwrap(),
{
    let mut rd: &[u8] = data;
    match rmpv::decode::read_value(&mut rd) {
        Ok(v) => Ok(from_outside(v)),
        Err(e) => Err(e.to_string()),
    }
}

} // verus!
