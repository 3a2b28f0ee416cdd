use vstd::prelude::*;

use crate::text::{hex_encode, hex_text};
use crate::value::{MsgValue, ValueModel};

verus! {

/// A JSON value for the UI, made from a MessagePack value: integers keep
/// their sign, floats their bit patterns, objects their entries in order.
pub enum JsonValue {
    Null,
    Bool(bool),
    UInt(u64),
    Int(i64),
    F32(u32),
    F64(u64),
    String(String),
    Array(Vec<JsonValue>),
    Object(Vec<(String, JsonValue)>),
}

/// The model of a JSON value.
pub enum JsonModel {
    Null,
    Bool(bool),
    UInt(u64),
    Int(i64),
    F32(u32),
    F64(u64),
    Str(Seq<char>),
    Array(Seq<JsonModel>),
    Object(Seq<(Seq<char>, JsonModel)>),
}

impl View for JsonValue {
    type V = JsonModel;

    open spec fn view(&self) -> JsonModel
        decreases self,
    {
        match self {
            JsonValue::Null => JsonModel::Null,
            JsonValue::Bool(b) => JsonModel::Bool(*b),
            JsonValue::UInt(n) => JsonModel::UInt(*n),
            JsonValue::Int(n) => JsonModel::Int(*n),
            JsonValue::F32(b) => JsonModel::F32(*b),
            JsonValue::F64(b) => JsonModel::F64(*b),
            JsonValue::String(s) => JsonModel::Str(s@),
            JsonValue::Array(items) => JsonModel::Array(JsonValue::views(items@)),
            JsonValue::Object(entries) => JsonModel::Object(JsonValue::entry_views(entries@)),
        }
    }
}

impl JsonValue {
    /// The models of a sequence of JSON values.
    pub open spec fn views(items: Seq<JsonValue>) -> Seq<JsonModel>
        decreases items,
    {
        Seq::new(
            items.len(),
            |i: int|
                if 0 <= i < items.len() {
                    items[i].view()
                } else {
                    JsonModel::Null
                },
        )
    }

    /// The models of a sequence of object entries.
    pub open spec fn entry_views(entries: Seq<(String, JsonValue)>) -> Seq<(Seq<char>, JsonModel)>
        decreases entries,
    {
        Seq::new(
            entries.len(),
            |i: int|
                if 0 <= i < entries.len() {
                    (entries[i].0@, entries[i].1.view())
                } else {
                    (Seq::empty(), JsonModel::Null)
                },
        )
    }
}

/// The JSON form of a MessagePack value: binary data as lowercase hex, a
/// string that is not valid UTF-8 as the empty string, map entries with a
/// string key only, and extension values as null.
pub open spec fn json_of(v: ValueModel) -> JsonModel
    decreases v,
{
    match v {
        ValueModel::Nil => JsonModel::Null,
        ValueModel::Boolean(b) => JsonModel::Bool(b),
        ValueModel::PosInt(n) => JsonModel::UInt(n),
        ValueModel::NegInt(n) => if n >= 0 {
            JsonModel::UInt(n as u64)
        } else {
            JsonModel::Int(n)
        },
        ValueModel::F32(b) => JsonModel::F32(b),
        ValueModel::F64(b) => JsonModel::F64(b),
        ValueModel::Str(s) => JsonModel::Str(s),
        ValueModel::InvalidStr(_) => JsonModel::Str(Seq::empty()),
        ValueModel::Binary(b) => JsonModel::Str(hex_text(b)),
        ValueModel::Array(items) => JsonModel::Array(
            Seq::new(
                items.len(),
                |i: int|
                    if 0 <= i < items.len() {
                        json_of(items[i])
                    } else {
                        JsonModel::Null
                    },
            ),
        ),
        ValueModel::Dict(pairs) => JsonModel::Object(object_entries(pairs)),
        ValueModel::Ext(_, _) => JsonModel::Null,
    }
}

/// The JSON object entries of MessagePack map pairs: those with a string
/// key, in order.
pub open spec fn object_entries(pairs: Seq<(ValueModel, ValueModel)>) -> Seq<(Seq<char>, JsonModel)>
    decreases pairs,
{
    if pairs.len() == 0 {
        Seq::empty()
    } else {
        let rest = object_entries(pairs.subrange(0, pairs.len() - 1));
        match pairs[pairs.len() - 1].0 {
            ValueModel::Str(k) => rest.push((k, json_of(pairs[pairs.len() - 1].1))),
            _ => rest,
        }
    }
}

/// The JSON form of a MessagePack value, for the UI.
#[verifier::loop_isolation(false)]
pub fn rmpv_to_json(v: &MsgValue) -> (r: JsonValue)
    ensures
        r@ == json_of(v@),
    decreases v,
{
    match v {
        MsgValue::Nil => JsonValue::Null,
        MsgValue::Boolean(b) => JsonValue::Bool(*b),
        MsgValue::PosInt(n) => JsonValue::UInt(*n),
        MsgValue::NegInt(n) => if *n >= 0 {
            JsonValue::UInt(*n as u64)
        } else {
            JsonValue::Int(*n)
        },
        MsgValue::F32(b) => JsonValue::F32(*b),
        MsgValue::F64(b) => JsonValue::F64(*b),
        MsgValue::String(s) => JsonValue::String(s.clone()),
        MsgValue::InvalidString(_) => JsonValue::String(String::new()),
        MsgValue::Binary(b) => JsonValue::String(hex_encode(b)),
        MsgValue::Array(items) => {
            let mut out: Vec<JsonValue> = Vec::new();
            let mut i: usize = 0;
            while i < items.len()
                invariant
                    i <= items.len(),
                    out@.len() == i,
                    forall|j: int| 0 <= j < i ==> #[trigger] out@[j]@ == json_of(items@[j]@),
                decreases items.len() - i,
            {
                out.push(rmpv_to_json(&items[i]));
                i = i + 1;
            }
            let r = JsonValue::Array(out);
            assert forall|j: int| 0 <= j < items@.len() implies #[trigger] JsonValue::views(
                out@,
            )[j] == json_of(MsgValue::views(items@)[j]) by {
                assert(out@[j]@ == json_of(items@[j]@));
            }
            assert(JsonValue::views(out@) =~= (json_of(v@))->Array_0);
            r
        },
        MsgValue::Dict(pairs) => {
            let ghost pv = MsgValue::pair_views(pairs@);
            let mut out: Vec<(String, JsonValue)> = Vec::new();
            let mut i: usize = 0;
            assert(pv.subrange(0, 0) =~= Seq::<(ValueModel, ValueModel)>::empty());
            assert(JsonValue::entry_views(out@) =~= Seq::<(Seq<char>, JsonModel)>::empty());
            while i < pairs.len()
                invariant
                    i <= pairs.len(),
                    JsonValue::entry_views(out@) == object_entries(pv.subrange(0, i as int)),
                decreases pairs.len() - i,
            {
                let ghost before = out@;
                assert(pv.subrange(0, i + 1).subrange(0, i as int) =~= pv.subrange(0, i as int));
                assert(pv.subrange(0, i + 1)[i as int] == (pairs@[i as int].0@, pairs@[i as int].1@));
                match &pairs[i].0 {
                    MsgValue::String(k) => {
                        let x = rmpv_to_json(&pairs[i].1);
                        out.push((k.clone(), x));
                        assert(JsonValue::entry_views(out@) =~= JsonValue::entry_views(before).push(
                            (k@, json_of(pairs@[i as int].1@)),
                        ));
                    },
                    _ => {},
                }
                i = i + 1;
            }
            assert(pv.subrange(0, pairs.len() as int) =~= pv);
            JsonValue::Object(out)
        },
        MsgValue::Ext(_, _) => JsonValue::Null,
    }
}

} // verus!
