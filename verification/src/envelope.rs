use vstd::prelude::*;

use crate::constants::{lemma_envelope_keys, FIELD_CUSTOM_META, FIELD_CUSTOM_TYPE, KEY_APP, KEY_COMMAND, KEY_PAYLOAD, KEY_SESSION, PROTOCOL_TYPE, ENVELOPE_MAX_PACKED, LEGACY_TYPE_RLAP, LEGACY_TYPE_RATSPEAK};
use crate::errors::LrgpError;
use crate::fields::{field_map_of, last_field_index, FieldMap};
use crate::msgpack::{fits_u32, encodable, decodable_within, utf8_len, msgpack_decoding, msgpack_encoding, read_msgpack, write_msgpack};
use crate::text::{char_vec, last_index_of, lemma_last_index_of, lemma_parse_decimal, parse_u32, rfind_char, spec_parse_u32, contains_char, debug_quoted, debug_text, str_eq, concat, decimal, u64_to_decimal};
use crate::value::{last_key_index, map_of_pairs, model_as_str, MsgValue, StrMap, ValueModel};
pub use crate::value::{value_as_bool, value_as_i64, value_as_str, value_as_u64};

verus! {

/// An LRGP envelope: the top-level map stored in LXMF field 0xFD.
pub type Envelope = StrMap;

/// The text of the `a` key: the game id, a dot, and the version in decimal.
pub open spec fn app_ver_text(app_id: Seq<char>, version: u32) -> Seq<char> {
    app_id + "."@ + decimal(version as nat)
}

/// The MessagePack map that a string-keyed map becomes.
pub open spec fn dict_of(pairs: Seq<(Seq<char>, ValueModel)>) -> ValueModel {
    ValueModel::Dict(pairs.map_values(|p: (Seq<char>, ValueModel)| (ValueModel::Str(p.0), p.1)))
}

/// Every key of the pairs is a valid string.
pub open spec fn string_keyed(pairs: Seq<(ValueModel, ValueModel)>) -> bool {
    forall|i: int| 0 <= i < pairs.len() ==> (#[trigger] pairs[i]).0 is Str
}

/// The pairs with each string key replaced by its text.
pub open spec fn key_texts(pairs: Seq<(ValueModel, ValueModel)>) -> Seq<(Seq<char>, ValueModel)> {
    pairs.map_values(|p: (ValueModel, ValueModel)| (model_as_str(p.0).unwrap(), p.1))
}

/// The string-keyed map that a value denotes, if it is a map whose keys are
/// all valid strings (later pairs replace earlier ones with the same key).
pub open spec fn map_of_value(v: ValueModel) -> Option<Map<Seq<char>, ValueModel>> {
    match v {
        ValueModel::Dict(pairs) => if string_keyed(pairs) {
            Some(map_of_pairs(key_texts(pairs)))
        } else {
            None
        },
        _ => None,
    }
}

/// Convert a string-keyed map into a MessagePack map value.
pub fn value_from_map(map: StrMap) -> (r: MsgValue)
    ensures
        r@ == dict_of(map.pairs()),
{
    let n = map.len();
    let mut out: Vec<(MsgValue, MsgValue)> = Vec::new();
    let mut i: usize = 0;
    while i < n
        invariant
            n == map.pairs().len(),
            i <= n,
            out@.len() == i,
            forall|j: int|
                0 <= j < i ==> (#[trigger] out@[j]).0@ == ValueModel::Str(map.pairs()[j].0) && out@[j].1@
                    == map.pairs()[j].1,
        decreases n - i,
    {
        let (k, v) = map.entry(i);
        out.push((MsgValue::String(k.clone()), v.deep_copy()));
        i = i + 1;
    }
    let r = MsgValue::Dict(out);
    proof {
        let d = dict_of(map.pairs());
        assert(MsgValue::pair_views(out@) =~= d->Dict_0);
    }
    r
}

/// Try to convert a MessagePack map value into a string-keyed map.
pub fn map_from_value(value: &MsgValue) -> (r: Option<StrMap>)
    ensures
        r is Some <==> map_of_value(value@) is Some,
        r matches Some(m) ==> m@ == map_of_value(value@).unwrap(),
{
    match value {
        MsgValue::Dict(pairs) => {
            let mut map = StrMap::new();
            let ghost pv = MsgValue::pair_views(pairs@);
            let mut i: usize = 0;
            while i < pairs.len()
                invariant
                    i <= pairs.len(),
                    pv == MsgValue::pair_views(pairs@),
                    value@ == ValueModel::Dict(pv),
                    forall|j: int| 0 <= j < i ==> (#[trigger] pv[j]).0 is Str,
                    map@ == map_of_pairs(key_texts(pv.subrange(0, i as int))),
                decreases pairs.len() - i,
            {
                let key = match &pairs[i].0 {
                    MsgValue::String(s) => s.clone(),
                    _ => {
                        return None;
                    },
                };
                let ghost before = map@;
                map.insert(key, pairs[i].1.deep_copy());
                proof {
                    let s0 = key_texts(pv.subrange(0, i as int));
                    let s1 = key_texts(pv.subrange(0, i + 1));
                    assert(s1.drop_last() =~= s0);
                }
                i = i + 1;
            }
            proof {
                assert(pv.subrange(0, pairs@.len() as int) =~= pv);
            }
            Some(map)
        },
        _ => None,
    }
}

/// The payload entry of an envelope: the payload map, or an empty map.
pub open spec fn payload_model(payload: Option<StrMap>) -> ValueModel {
    match payload {
        Some(p) => dict_of(p.pairs()),
        None => ValueModel::Dict(Seq::empty()),
    }
}

/// The entries of a packed envelope, in the order they are written.
pub open spec fn envelope_pairs(
    app_id: Seq<char>,
    version: u32,
    command: Seq<char>,
    session_id: Seq<char>,
    payload: ValueModel,
) -> Seq<(Seq<char>, ValueModel)> {
    seq![
        (KEY_APP@, ValueModel::Str(app_ver_text(app_id, version))),
        (KEY_COMMAND@, ValueModel::Str(command)),
        (KEY_SESSION@, ValueModel::Str(session_id)),
        (KEY_PAYLOAD@, payload),
    ]
}

/// Build an LRGP envelope map.
pub fn pack_envelope(
    app_id: &str,
    version: u32,
    command: &str,
    session_id: &str,
    payload: Option<StrMap>,
) -> (r: Envelope)
    ensures
        r.pairs() == envelope_pairs(
            app_id@,
            version,
            command@,
            session_id@,
            payload_model(payload),
        ),
        r@ == map_of_pairs(r.pairs()),
{
    let mut env = StrMap::new();
    let app = concat(app_id, ".");
    let app_ver = concat(app.as_str(), u64_to_decimal(version as u64).as_str());
    proof {
        lemma_envelope_keys();
        assert(KEY_COMMAND@[0] != KEY_PAYLOAD@[0]);
        assert(KEY_SESSION@[0] != KEY_PAYLOAD@[0]);
        reveal_with_fuel(last_key_index, 5);
    }
    env.insert(KEY_APP.to_owned(), MsgValue::String(app_ver));
    env.insert(KEY_COMMAND.to_owned(), MsgValue::from_str(command));
    env.insert(KEY_SESSION.to_owned(), MsgValue::from_str(session_id));
    let p = match payload {
        Some(p) => value_from_map(p),
        None => MsgValue::Dict(Vec::new()),
    };
    proof {
        if payload is None {
            assert(MsgValue::pair_views(Seq::<(MsgValue, MsgValue)>::empty()) =~= Seq::empty());
        }
    }
    env.insert(KEY_PAYLOAD.to_owned(), p);
    proof {
        env.lemma_view();
    }
    env
}

/// Every entry of the envelope can be written and read back inside the
/// envelope's map: keys of at most `u32::MAX` UTF-8 bytes, and values
/// within the depth steps the reader has left inside the map (1022).
pub open spec fn envelope_encodable(pairs: Seq<(Seq<char>, ValueModel)>) -> bool {
    &&& fits_u32(pairs.len())
    &&& forall|i: int|
        0 <= i < pairs.len() ==> fits_u32(utf8_len((#[trigger] pairs[i]).0)) && decodable_within(
            pairs[i].1,
            1022,
        )
}

/// A map is read back from its MessagePack map value as it was.
pub proof fn lemma_map_of_dict(pairs: Seq<(Seq<char>, ValueModel)>)
    ensures
        map_of_value(dict_of(pairs)) == Some(map_of_pairs(pairs)),
{
    let d = dict_of(pairs)->Dict_0;
    assert(key_texts(d) =~= pairs);
}

/// An encodable envelope gives an encodable map value.
pub proof fn lemma_envelope_encodable(pairs: Seq<(Seq<char>, ValueModel)>)
    requires
        envelope_encodable(pairs),
    ensures
        encodable(dict_of(pairs)),
{
    let d = dict_of(pairs)->Dict_0;
    assert forall|i: int| 0 <= i < d.len() implies decodable_within(#[trigger] d[i].0, 1022)
        && decodable_within(d[i].1, 1022) by {}
}

/// Serialize an envelope to MessagePack bytes. Writing does not fail, and
/// the bytes of an encodable envelope read back as the same map.
pub fn pack_to_bytes(envelope: &Envelope) -> (r: Result<Vec<u8>, LrgpError>)
    ensures
        r is Ok,
        r matches Ok(bytes) ==> bytes@ == msgpack_encoding(dict_of(envelope.pairs())),
        r matches Ok(bytes) ==> (envelope_encodable(envelope.pairs()) ==> (msgpack_decoding(bytes@)
            matches Some(v) && map_of_value(v) == Some(envelope@))),
{
    let value = value_from_map(envelope.duplicate());
    proof {
        envelope.lemma_view();
        lemma_map_of_dict(envelope.pairs());
        if envelope_encodable(envelope.pairs()) {
            lemma_envelope_encodable(envelope.pairs());
        }
    }
    match write_msgpack(&value) {
        Ok(bytes) => Ok(bytes),
        Err(e) => Err(LrgpError::InvalidEnvelope(concat("msgpack encode error: ", e.as_str()))),
    }
}

/// Deserialize MessagePack bytes into an envelope.
pub fn unpack_from_bytes(data: &[u8]) -> (r: Result<Envelope, LrgpError>)
    ensures
        msgpack_decoding(data@) is None ==> (r matches Err(LrgpError::InvalidEnvelope(m)) && m@.len()
            >= "msgpack decode error: "@.len() && m@.subrange(
            0,
            "msgpack decode error: "@.len() as int,
        ) == "msgpack decode error: "@),
        msgpack_decoding(data@) matches Some(v) ==> match map_of_value(v) {
            Some(m) => r matches Ok(e) && e@ == m,
            None => r matches Err(LrgpError::InvalidEnvelope(m)) && m@
                == "top-level value is not a map"@,
        },
{
    match read_msgpack(data) {
        Err(e) => {
            let m = concat("msgpack decode error: ", e.as_str());
            Err(LrgpError::InvalidEnvelope(m))
        },
        Ok(value) => match map_from_value(&value) {
            Some(m) => Ok(m),
            None => Err(LrgpError::InvalidEnvelope("top-level value is not a map".to_owned())),
        },
    }
}

/// The packed size of an envelope, in bytes.
pub open spec fn packed_size(envelope: Envelope) -> nat {
    msgpack_encoding(dict_of(envelope.pairs())).len()
}

/// Validate that the packed envelope fits within ENVELOPE_MAX_PACKED.
/// Returns the packed size in bytes.
pub fn validate_envelope_size(envelope: &Envelope) -> (r: Result<usize, LrgpError>)
    ensures
        packed_size(*envelope) <= ENVELOPE_MAX_PACKED ==> r == Ok::<usize, LrgpError>(
            packed_size(*envelope) as usize,
        ),
        packed_size(*envelope) > ENVELOPE_MAX_PACKED ==> (r matches Err(
            LrgpError::EnvelopeTooLarge(size, max),
        ) && size == packed_size(*envelope) && max == ENVELOPE_MAX_PACKED),
{
    let packed = match pack_to_bytes(envelope) {
        Ok(p) => p,
        Err(e) => return Err(e),
    };
    let size = packed.len();
    if size > ENVELOPE_MAX_PACKED {
        return Err(LrgpError::EnvelopeTooLarge(size, ENVELOPE_MAX_PACKED));
    }
    Ok(size)
}

/// The LXMF fields of an outgoing message: the protocol marker and the envelope.
pub open spec fn lxmf_field_pairs(envelope_pairs: Seq<(Seq<char>, ValueModel)>) -> Seq<(u8, ValueModel)> {
    seq![
        (FIELD_CUSTOM_TYPE, ValueModel::Str(PROTOCOL_TYPE@)),
        (FIELD_CUSTOM_META, dict_of(envelope_pairs)),
    ]
}

/// Return LXMF fields ready for inclusion in an LXMF message:
/// `{0xFB: "lrgp.v1", 0xFD: envelope}`.
pub fn pack_lxmf_fields(envelope: &Envelope) -> (r: FieldMap<MsgValue>)
    ensures
        r.pairs() == lxmf_field_pairs(envelope.pairs()),
        r@ == field_map_of(r.pairs()),
{
    let mut fields: FieldMap<MsgValue> = FieldMap::new();
    fields.insert(FIELD_CUSTOM_TYPE, MsgValue::from_str(PROTOCOL_TYPE));
    fields.insert(FIELD_CUSTOM_META, value_from_map(envelope.duplicate()));
    proof {
        reveal_with_fuel(last_field_index, 3);
        fields.lemma_view();
    }
    fields
}

/// The current protocol marker or one of the legacy ones.
pub open spec fn is_lrgp_marker(s: Seq<char>) -> bool {
    s == PROTOCOL_TYPE@ || s == LEGACY_TYPE_RLAP@ || s == LEGACY_TYPE_RATSPEAK@
}

/// Whether `s` is the current protocol marker or one of the legacy ones.
pub fn is_marker(s: &str) -> (r: bool)
    ensures
        r == is_lrgp_marker(s@),
{
    str_eq(s, PROTOCOL_TYPE) || str_eq(s, LEGACY_TYPE_RLAP) || str_eq(s, LEGACY_TYPE_RATSPEAK)
}

/// The fields carry a (current or legacy) LRGP marker in field 0xFB.
pub open spec fn marks_lrgp(f: Map<u8, ValueModel>) -> bool {
    f.contains_key(FIELD_CUSTOM_TYPE) && (f[FIELD_CUSTOM_TYPE] matches ValueModel::Str(s)
        && is_lrgp_marker(s))
}

/// The first of the keys `a`, `c`, `s`, `p` that the map lacks.
pub open spec fn first_missing_key(m: Map<Seq<char>, ValueModel>) -> Option<Seq<char>> {
    if !m.contains_key(KEY_APP@) {
        Some(KEY_APP@)
    } else if !m.contains_key(KEY_COMMAND@) {
        Some(KEY_COMMAND@)
    } else if !m.contains_key(KEY_SESSION@) {
        Some(KEY_SESSION@)
    } else if !m.contains_key(KEY_PAYLOAD@) {
        Some(KEY_PAYLOAD@)
    } else {
        None
    }
}

/// What reading an envelope out of LXMF fields comes to.
pub enum Unpacked {
    /// Not an LRGP message.
    NotLrgp,
    /// A valid envelope.
    Found(Map<Seq<char>, ValueModel>),
    /// An LRGP message whose envelope is invalid, with the reason.
    Rejected(Seq<char>),
}

/// The outcome of `unpack_envelope` on fields.
pub open spec fn unpack_outcome(f: Map<u8, ValueModel>) -> Unpacked {
    if !marks_lrgp(f) {
        Unpacked::NotLrgp
    } else if !f.contains_key(FIELD_CUSTOM_META) {
        Unpacked::Rejected("FIELD_CUSTOM_META is missing"@)
    } else {
        match map_of_value(f[FIELD_CUSTOM_META]) {
            None => Unpacked::Rejected("FIELD_CUSTOM_META is not a map"@),
            Some(m) => match first_missing_key(m) {
                Some(k) => Unpacked::Rejected("Missing envelope key: "@ + k),
                None => match m[KEY_APP@] {
                    ValueModel::Str(app) => if app.contains('.') {
                        Unpacked::Found(m)
                    } else {
                        Unpacked::Rejected("Invalid app.version format: "@ + debug_text(app))
                    },
                    _ => Unpacked::Rejected("KEY_APP is not a string"@),
                },
            },
        }
    }
}

/// Extract and validate an LRGP envelope from LXMF fields.
/// Returns `None` if this is not an LRGP (or legacy) message.
pub fn unpack_envelope(fields: &FieldMap<MsgValue>) -> (r: Result<Option<Envelope>, LrgpError>)
    ensures
        match unpack_outcome(fields@) {
            Unpacked::NotLrgp => r matches Ok(None),
            Unpacked::Found(m) => r matches Ok(Some(e)) && e@ == m,
            Unpacked::Rejected(msg) => r matches Err(LrgpError::InvalidEnvelope(t)) && t@ == msg,
        },
{
    let is_lrgp = match fields.get(FIELD_CUSTOM_TYPE) {
        Some(MsgValue::String(s)) => is_marker(s.as_str()),
        _ => false,
    };
    if !is_lrgp {
        return Ok(None);
    }
    let meta = match fields.get(FIELD_CUSTOM_META) {
        Some(m) => m,
        None => {
            return Err(LrgpError::InvalidEnvelope("FIELD_CUSTOM_META is missing".to_owned()));
        },
    };
    let envelope = match map_from_value(meta) {
        Some(e) => e,
        None => {
            return Err(LrgpError::InvalidEnvelope("FIELD_CUSTOM_META is not a map".to_owned()));
        },
    };
    if !envelope.contains_key(KEY_APP) {
        return Err(LrgpError::InvalidEnvelope(concat("Missing envelope key: ", KEY_APP)));
    }
    if !envelope.contains_key(KEY_COMMAND) {
        return Err(LrgpError::InvalidEnvelope(concat("Missing envelope key: ", KEY_COMMAND)));
    }
    if !envelope.contains_key(KEY_SESSION) {
        return Err(LrgpError::InvalidEnvelope(concat("Missing envelope key: ", KEY_SESSION)));
    }
    if !envelope.contains_key(KEY_PAYLOAD) {
        return Err(LrgpError::InvalidEnvelope(concat("Missing envelope key: ", KEY_PAYLOAD)));
    }
    let app_ver = match envelope.get(KEY_APP) {
        Some(MsgValue::String(s)) => s.as_str(),
        _ => {
            return Err(LrgpError::InvalidEnvelope("KEY_APP is not a string".to_owned()));
        },
    };
    if !contains_char(app_ver, '.') {
        return Err(
            LrgpError::InvalidEnvelope(
                concat("Invalid app.version format: ", debug_quoted(app_ver).as_str()),
            ),
        );
    }
    Ok(Some(envelope))
}

/// What `parse_app_version` gives: the text before the last dot and the
/// number after it.
pub open spec fn spec_parse_app_version(s: Seq<char>) -> Option<(Seq<char>, u32)> {
    let dot = last_index_of(s, '.');
    if dot < 0 {
        None
    } else {
        match spec_parse_u32(s.subrange(dot + 1, s.len() as int)) {
            Some(v) => Some((s.subrange(0, dot), v)),
            None => None,
        }
    }
}

/// Split "app_id.version" into (app_id, version) at the last dot.
pub fn parse_app_version(app_ver_string: &str) -> (r: Option<(&str, u32)>)
    ensures
        match spec_parse_app_version(app_ver_string@) {
            None => r is None,
            Some((a, v)) => r matches Some((x, y)) && x@ == a && y == v,
        },
{
    let chars = char_vec(app_ver_string);
    let dot = match rfind_char(&chars, '.') {
        Some(d) => d,
        None => {
            return None;
        },
    };
    proof {
        lemma_last_index_of(chars@, '.');
    }
    let app_id = app_ver_string.substring_char(0, dot);
    let rest = app_ver_string.substring_char(dot + 1, chars.len());
    match parse_u32(rest) {
        Some(v) => Some((app_id, v)),
        None => None,
    }
}

/// The `a` value that `pack_envelope` writes splits back into the game id
/// and version it was built from, whatever dots the game id holds.
pub proof fn law_app_version_roundtrip(app_id: Seq<char>, version: u32)
    ensures
        spec_parse_app_version(app_ver_text(app_id, version)) == Some((app_id, version)),
{
    reveal_strlit(".");
    let d = decimal(version as nat);
    let s = app_ver_text(app_id, version);
    lemma_parse_decimal(version);
    lemma_last_index_of(s, '.');
    let dot = last_index_of(s, '.');
    assert(s[app_id.len() as int] == '.');
    if dot > app_id.len() {
    }
    assert(s.subrange(dot + 1, s.len() as int) =~= d);
}

/// The LXMF fields that `pack_lxmf_fields` makes of an envelope built by
/// `pack_envelope` are unpacked back into that envelope.
pub proof fn law_lxmf_fields_unpack(
    app_id: Seq<char>,
    version: u32,
    command: Seq<char>,
    session_id: Seq<char>,
    payload: ValueModel,
)
    ensures
        unpack_outcome(
            field_map_of(lxmf_field_pairs(envelope_pairs(app_id, version, command, session_id, payload))),
        ) == Unpacked::Found(map_of_pairs(envelope_pairs(app_id, version, command, session_id, payload))),
{
    let pairs = envelope_pairs(app_id, version, command, session_id, payload);
    let env = map_of_pairs(pairs);
    let f = field_map_of(lxmf_field_pairs(pairs));
    reveal_strlit("lrgp.v1");
    reveal_strlit(".");
    reveal_with_fuel(field_map_of, 3);
    reveal_with_fuel(map_of_pairs, 5);
    lemma_envelope_keys();
    lemma_map_of_dict(pairs);
    assert(KEY_COMMAND@[0] != KEY_PAYLOAD@[0]);
    assert(KEY_SESSION@[0] != KEY_PAYLOAD@[0]);
    let t = app_ver_text(app_id, version);
    assert(t[app_id.len() as int] == '.');
}

} // verus!
