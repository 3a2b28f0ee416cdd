use vstd::prelude::*;

use crate::constants::{FIELD_CUSTOM_META, FIELD_CUSTOM_TYPE, KEY_APP, KEY_COMMAND, KEY_PAYLOAD, KEY_SESSION, PROTOCOL_TYPE};
use crate::envelope::{lxmf_field_pairs, envelope_encodable, lemma_envelope_encodable, lemma_map_of_dict, dict_of, first_missing_key, is_lrgp_marker, is_marker, map_from_value, map_of_value, value_from_map, Envelope};
use crate::errors::LrgpError;
use crate::fields::{field_map_of, FieldMap};
use crate::msgpack::{lemma_utf8_len_bound, msgpack_decoding, msgpack_encoding, read_msgpack, write_msgpack};
use crate::text::{concat, hex_byte, hex_byte_text};
use crate::value::{map_of_pairs, model_as_str, value_as_str, MsgValue, StrMap, ValueModel};

verus! {

/// The text starts with `prefix`.
pub open spec fn starts_with(text: Seq<char>, prefix: Seq<char>) -> bool {
    text.len() >= prefix.len() && text.subrange(0, prefix.len() as int) == prefix
}

/// The marker text of a decoded type field: its string, or the empty text.
pub open spec fn marker_of(v: ValueModel) -> Seq<char> {
    match model_as_str(v) {
        Some(s) => s,
        None => Seq::empty(),
    }
}

/// Field 0xFB holds the MessagePack encoding of an LRGP (current or legacy) marker.
pub open spec fn lrgp_marked(f: Map<u8, Seq<u8>>) -> bool {
    &&& f.contains_key(FIELD_CUSTOM_TYPE)
    &&& msgpack_decoding(f[FIELD_CUSTOM_TYPE]) matches Some(v)
    &&& model_as_str(v) matches Some(s)
    &&& is_lrgp_marker(s)
}

/// What extracting an envelope out of raw LXMF fields comes to.
pub enum Extracted {
    /// Not an LRGP message.
    NotLrgp,
    /// A valid envelope.
    Found(Map<Seq<char>, ValueModel>),
    /// An LRGP message whose envelope is invalid, with the reason.
    Rejected(Seq<char>),
    /// A field that does not decode; the reason starts with this text and
    /// goes on with the decoder's own message.
    Undecodable(Seq<char>),
}

/// The outcome of `extract_envelope` on raw fields.
pub open spec fn extract_outcome(f: Map<u8, Seq<u8>>) -> Extracted {
    if !f.contains_key(FIELD_CUSTOM_TYPE) {
        Extracted::NotLrgp
    } else {
        match msgpack_decoding(f[FIELD_CUSTOM_TYPE]) {
            None => Extracted::Undecodable("type field decode error: "@),
            Some(t) => if !is_lrgp_marker(marker_of(t)) {
                Extracted::NotLrgp
            } else if !f.contains_key(FIELD_CUSTOM_META) {
                Extracted::Rejected("FIELD_CUSTOM_META (0xFD) missing"@)
            } else {
                match msgpack_decoding(f[FIELD_CUSTOM_META]) {
                    None => Extracted::Undecodable("meta field decode error: "@),
                    Some(mv) => match map_of_value(mv) {
                        None => Extracted::Rejected("meta field is not a map"@),
                        Some(m) => match first_missing_key(m) {
                            Some(k) => Extracted::Rejected("Missing required key: "@ + k),
                            None => Extracted::Found(m),
                        },
                    },
                }
            },
        }
    }
}

/// Check whether raw LXMF fields carry an LRGP game message: field 0xFB
/// decodes to `lrgp.v1` or one of the legacy markers.
pub fn is_lrgp_message(fields: &FieldMap<Vec<u8>>) -> (r: bool)
    ensures
        r == lrgp_marked(fields@),
{
    match fields.get(FIELD_CUSTOM_TYPE) {
        Some(data) => match read_msgpack(data.as_slice()) {
            Ok(val) => match value_as_str(&val) {
                Some(s) => is_marker(s),
                None => false,
            },
            Err(_) => false,
        },
        None => false,
    }
}

/// Extract an LRGP envelope from raw LXMF field bytes: check the marker in
/// field 0xFB, decode field 0xFD, and check that it is a map with the four
/// envelope keys. `Ok(None)` for a message that is not an LRGP message.
pub fn extract_envelope(fields: &FieldMap<Vec<u8>>) -> (r: Result<Option<Envelope>, LrgpError>)
    ensures
        match extract_outcome(fields@) {
            Extracted::NotLrgp => r matches Ok(None),
            Extracted::Found(m) => r matches Ok(Some(e)) && e@ == m,
            Extracted::Rejected(msg) => r matches Err(LrgpError::InvalidEnvelope(t)) && t@ == msg,
            Extracted::Undecodable(prefix) => r matches Err(LrgpError::InvalidEnvelope(t))
                && starts_with(t@, prefix),
        },
{
    let type_data = match fields.get(FIELD_CUSTOM_TYPE) {
        Some(d) => d,
        None => {
            return Ok(None);
        },
    };
    let type_val = match read_msgpack(type_data.as_slice()) {
        Ok(v) => v,
        Err(e) => {
            let t = concat("type field decode error: ", e.as_str());
            assert(t@.subrange(0, "type field decode error: "@.len() as int) =~= "type field decode error: "@);
            return Err(LrgpError::InvalidEnvelope(t));
        },
    };
    proof {
        reveal_strlit("");
        assert(""@ =~= Seq::<char>::empty());
    }
    let marker = match value_as_str(&type_val) {
        Some(s) => s,
        None => "",
    };
    if !is_marker(marker) {
        return Ok(None);
    }
    let meta_data = match fields.get(FIELD_CUSTOM_META) {
        Some(d) => d,
        None => {
            return Err(LrgpError::InvalidEnvelope("FIELD_CUSTOM_META (0xFD) missing".to_owned()));
        },
    };
    let meta_val = match read_msgpack(meta_data.as_slice()) {
        Ok(v) => v,
        Err(e) => {
            let t = concat("meta field decode error: ", e.as_str());
            assert(t@.subrange(0, "meta field decode error: "@.len() as int) =~= "meta field decode error: "@);
            return Err(LrgpError::InvalidEnvelope(t));
        },
    };
    let env = match map_from_value(&meta_val) {
        Some(m) => m,
        None => {
            return Err(LrgpError::InvalidEnvelope("meta field is not a map".to_owned()));
        },
    };
    if !env.contains_key(KEY_APP) {
        return Err(LrgpError::InvalidEnvelope(concat("Missing required key: ", KEY_APP)));
    }
    if !env.contains_key(KEY_COMMAND) {
        return Err(LrgpError::InvalidEnvelope(concat("Missing required key: ", KEY_COMMAND)));
    }
    if !env.contains_key(KEY_SESSION) {
        return Err(LrgpError::InvalidEnvelope(concat("Missing required key: ", KEY_SESSION)));
    }
    if !env.contains_key(KEY_PAYLOAD) {
        return Err(LrgpError::InvalidEnvelope(concat("Missing required key: ", KEY_PAYLOAD)));
    }
    Ok(Some(env))
}

/// The raw LXMF fields of an outgoing message: the encoded protocol marker
/// in field 0xFB and the encoded envelope in field 0xFD.
pub open spec fn raw_field_pairs(envelope_pairs: Seq<(Seq<char>, ValueModel)>) -> Seq<(u8, Seq<u8>)> {
    seq![
        (FIELD_CUSTOM_TYPE, msgpack_encoding(ValueModel::Str(PROTOCOL_TYPE@))),
        (FIELD_CUSTOM_META, msgpack_encoding(dict_of(envelope_pairs))),
    ]
}

/// Pack an LRGP envelope into raw LXMF field bytes: `lrgp.v1` in field
/// 0xFB and the envelope in field 0xFD, each MessagePack-encoded. Packing
/// does not fail; the fields are recognized as an LRGP message, and an
/// encodable envelope is extracted from them as it was (or rejected for
/// the first envelope key it lacks).
pub fn pack_into_fields(envelope: &Envelope) -> (r: Result<FieldMap<Vec<u8>>, LrgpError>)
    ensures
        r is Ok,
        r matches Ok(f) ==> f.pairs() == raw_field_pairs(envelope.pairs()),
        r matches Ok(f) ==> f@ == field_map_of(raw_field_pairs(envelope.pairs())),
        r matches Ok(f) ==> lrgp_marked(f@),
        r matches Ok(f) ==> (envelope_encodable(envelope.pairs()) ==> extract_outcome(f@) == match first_missing_key(
            envelope@,
        ) {
            Some(k) => Extracted::Rejected("Missing required key: "@ + k),
            None => Extracted::Found(envelope@),
        }),
        r matches Ok(f) ==> (envelope_encodable(envelope.pairs()) ==> all_decodable(f.pairs())
            && decoded_pairs(f.pairs()) == lxmf_field_pairs(envelope.pairs())),
{
    let mut fields: FieldMap<Vec<u8>> = FieldMap::new();
    let type_val = MsgValue::from_str(PROTOCOL_TYPE);
    let type_buf = match write_msgpack(&type_val) {
        Ok(b) => b,
        Err(e) => {
            return Err(LrgpError::InvalidEnvelope(concat("type encode error: ", e.as_str())));
        },
    };
    fields.insert(FIELD_CUSTOM_TYPE, type_buf);
    let env_val = value_from_map(envelope.duplicate());
    let env_buf = match write_msgpack(&env_val) {
        Ok(b) => b,
        Err(e) => {
            return Err(LrgpError::InvalidEnvelope(concat("envelope encode error: ", e.as_str())));
        },
    };
    fields.insert(FIELD_CUSTOM_META, env_buf);
    proof {
        reveal_with_fuel(crate::fields::last_field_index, 3);
        reveal_with_fuel(field_map_of, 3);
        reveal_strlit("lrgp.v1");
        lemma_utf8_len_bound(PROTOCOL_TYPE@);
        fields.lemma_view();
        let f = fields@;
        envelope.lemma_view();
        lemma_map_of_dict(envelope.pairs());
        if envelope_encodable(envelope.pairs()) {
            lemma_envelope_encodable(envelope.pairs());
            assert(decoded_pairs(fields.pairs()) =~= lxmf_field_pairs(envelope.pairs()));
        }
    }
    Ok(fields)
}

/// Every field's bytes decode.
pub open spec fn all_decodable(p: Seq<(u8, Seq<u8>)>) -> bool {
    forall|i: int| 0 <= i < p.len() ==> (#[trigger] msgpack_decoding(p[i].1)) is Some
}

/// The fields with their bytes decoded.
pub open spec fn decoded_pairs(p: Seq<(u8, Seq<u8>)>) -> Seq<(u8, ValueModel)> {
    p.map_values(|e: (u8, Seq<u8>)| (e.0, msgpack_decoding(e.1).unwrap()))
}

/// The text an error on field `k` starts with.
pub open spec fn field_error_prefix(k: u8) -> Seq<char> {
    "field "@ + hex_byte_text(k) + " decode error: "@
}

/// Convert raw LXMF field bytes into MessagePack values, field by field
/// in order; the first field that does not decode fails the whole.
pub fn fields_bytes_to_rmpv(fields: &FieldMap<Vec<u8>>) -> (r: Result<FieldMap<MsgValue>, LrgpError>)
    ensures
        all_decodable(fields.pairs()) ==> (r matches Ok(m) && m@ == field_map_of(
            decoded_pairs(fields.pairs()),
        )),
        !all_decodable(fields.pairs()) ==> exists|j: int|
            {
                &&& 0 <= j < fields.pairs().len()
                &&& #[trigger] msgpack_decoding(fields.pairs()[j].1) is None
                &&& forall|i: int| 0 <= i < j ==> (#[trigger] msgpack_decoding(fields.pairs()[i].1)) is Some
                &&& r matches Err(LrgpError::InvalidEnvelope(t)) && starts_with(
                    t@,
                    field_error_prefix(fields.pairs()[j].0),
                )
            },
{
    let ghost p = fields.pairs();
    let ghost dp = decoded_pairs(p);
    let mut result: FieldMap<MsgValue> = FieldMap::new();
    let n = fields.len();
    let mut i: usize = 0;
    proof {
        result.lemma_view();
    }
    while i < n
        invariant
            n == p.len(),
            p == fields.pairs(),
            dp == decoded_pairs(p),
            i <= n,
            forall|j: int| 0 <= j < i ==> (#[trigger] msgpack_decoding(p[j].1)) is Some,
            result@ == field_map_of(dp.subrange(0, i as int)),
        decreases n - i,
    {
        let (key, data) = fields.entry(i);
        match read_msgpack(data.as_slice()) {
            Ok(val) => {
                result.insert(key, val);
                proof {
                    assert(dp.subrange(0, i + 1).drop_last() =~= dp.subrange(0, i as int));
                }
            },
            Err(e) => {
                let a = concat("field ", hex_byte(key).as_str());
                let b = concat(a.as_str(), " decode error: ");
                let t = concat(b.as_str(), e.as_str());
                proof {
                    assert(t@.subrange(0, field_error_prefix(key).len() as int) =~= field_error_prefix(key));
                }
                return Err(LrgpError::InvalidEnvelope(t));
            },
        }
        i = i + 1;
    }
    proof {
        assert(dp.subrange(0, n as int) =~= dp);
    }
    Ok(result)
}

/// Fields whose 0xFB field decodes to the current or a legacy marker and
/// whose 0xFD field decodes to an envelope map with the four keys are
/// extracted as that envelope.
pub proof fn law_marked_fields_extract(f: Map<u8, Seq<u8>>, marker: Seq<char>, pairs: Seq<(Seq<char>, ValueModel)>)
    requires
        is_lrgp_marker(marker),
        f.contains_key(FIELD_CUSTOM_TYPE),
        msgpack_decoding(f[FIELD_CUSTOM_TYPE]) == Some(ValueModel::Str(marker)),
        f.contains_key(FIELD_CUSTOM_META),
        msgpack_decoding(f[FIELD_CUSTOM_META]) == Some(dict_of(pairs)),
        first_missing_key(map_of_pairs(pairs)) is None,
    ensures
        extract_outcome(f) == Extracted::Found(map_of_pairs(pairs)),
{
    lemma_map_of_dict(pairs);
}

} // verus!
