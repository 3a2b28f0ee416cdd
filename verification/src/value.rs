use vstd::prelude::*;

use crate::text::str_eq;

verus! {

/// The library's model of a MessagePack value.
pub enum MsgValue {
    Nil,
    Boolean(bool),
    PosInt(u64),
    NegInt(i64),
    F32(u32),
    F64(u64),
    String(String),
    InvalidString(Vec<u8>),
    Binary(Vec<u8>),
    Array(Vec<MsgValue>),
    Dict(Vec<(MsgValue, MsgValue)>),
    Ext(i8, Vec<u8>),
}

/// The mathematical model of a MessagePack value: texts as character
/// sequences, byte strings as byte sequences.
pub enum ValueModel {
    Nil,
    Boolean(bool),
    PosInt(u64),
    NegInt(i64),
    F32(u32),
    F64(u64),
    Str(Seq<char>),
    InvalidStr(Seq<u8>),
    Binary(Seq<u8>),
    Array(Seq<ValueModel>),
    Dict(Seq<(ValueModel, ValueModel)>),
    Ext(i8, Seq<u8>),
}

impl View for MsgValue {
    type V = ValueModel;

    open spec fn view(&self) -> ValueModel
        decreases self,
    {
        match self {
            MsgValue::Nil => ValueModel::Nil,
            MsgValue::Boolean(b) => ValueModel::Boolean(*b),
            MsgValue::PosInt(n) => ValueModel::PosInt(*n),
            MsgValue::NegInt(n) => ValueModel::NegInt(*n),
            MsgValue::F32(b) => ValueModel::F32(*b),
            MsgValue::F64(b) => ValueModel::F64(*b),
            MsgValue::String(s) => ValueModel::Str(s@),
            MsgValue::InvalidString(b) => ValueModel::InvalidStr(b@),
            MsgValue::Binary(b) => ValueModel::Binary(b@),
            MsgValue::Array(items) => ValueModel::Array(MsgValue::views(items@)),
            MsgValue::Dict(pairs) => ValueModel::Dict(MsgValue::pair_views(pairs@)),
            MsgValue::Ext(t, b) => ValueModel::Ext(*t, b@),
        }
    }
}

impl MsgValue {
    /// The models of a sequence of values.
    pub open spec fn views(items: Seq<MsgValue>) -> Seq<ValueModel>
        decreases items,
    {
        Seq::new(
            items.len(),
            |i: int|
                if 0 <= i < items.len() {
                    items[i].view()
                } else {
                    ValueModel::Nil
                },
        )
    }

    /// The models of a sequence of key/value pairs.
    pub open spec fn pair_views(pairs: Seq<(MsgValue, MsgValue)>) -> Seq<(ValueModel, ValueModel)>
        decreases pairs,
    {
        Seq::new(
            pairs.len(),
            |i: int|
                if 0 <= i < pairs.len() {
                    (pairs[i].0.view(), pairs[i].1.view())
                } else {
                    (ValueModel::Nil, ValueModel::Nil)
                },
        )
    }

    /// A copy of the value, all the way down.
    #[verifier::loop_isolation(false)]
    pub fn deep_copy(&self) -> (r: MsgValue)
        ensures
            r@ == self@,
        decreases self,
    {
        match self {
            MsgValue::Nil => MsgValue::Nil,
            MsgValue::Boolean(b) => MsgValue::Boolean(*b),
            MsgValue::PosInt(n) => MsgValue::PosInt(*n),
            MsgValue::NegInt(n) => MsgValue::NegInt(*n),
            MsgValue::F32(b) => MsgValue::F32(*b),
            MsgValue::F64(b) => MsgValue::F64(*b),
            MsgValue::String(s) => MsgValue::String(s.clone()),
            MsgValue::InvalidString(b) => MsgValue::InvalidString(copy_bytes(b)),
            MsgValue::Binary(b) => MsgValue::Binary(copy_bytes(b)),
            MsgValue::Array(items) => {
                let mut out: Vec<MsgValue> = Vec::new();
                let mut i: usize = 0;
                while i < items.len()
                    invariant
                        i <= items.len(),
                        out@.len() == i,
                        forall|j: int| 0 <= j < i ==> #[trigger] out@[j]@ == items@[j]@,
                    decreases items.len() - i,
                {
                    out.push(items[i].deep_copy());
                    i = i + 1;
                }
                let r = MsgValue::Array(out);
                assert forall|j: int| 0 <= j < items@.len() implies #[trigger] MsgValue::views(
                    out@,
                )[j] == MsgValue::views(items@)[j] by {
                    assert(out@[j]@ == items@[j]@);
                }
                assert(MsgValue::views(out@) =~= MsgValue::views(items@));
                r
            },
            MsgValue::Dict(pairs) => {
                let mut out: Vec<(MsgValue, MsgValue)> = Vec::new();
                let mut i: usize = 0;
                while i < pairs.len()
                    invariant
                        i <= pairs.len(),
                        out@.len() == i,
                        forall|j: int|
                            0 <= j < i ==> #[trigger] out@[j].0@ == pairs@[j].0@ && out@[j].1@
                                == pairs@[j].1@,
                    decreases pairs.len() - i,
                {
                    let k = pairs[i].0.deep_copy();
                    let v = pairs[i].1.deep_copy();
                    out.push((k, v));
                    i = i + 1;
                }
                let r = MsgValue::Dict(out);
                assert forall|j: int| 0 <= j < pairs@.len() implies #[trigger] MsgValue::pair_views(
                    out@,
                )[j] == MsgValue::pair_views(pairs@)[j] by {
                    assert(out@[j].0@ == pairs@[j].0@);
                }
                assert(MsgValue::pair_views(out@) =~= MsgValue::pair_views(pairs@));
                r
            },
            MsgValue::Ext(t, b) => MsgValue::Ext(*t, copy_bytes(b)),
        }
    }
}

/// A copy of the bytes.
pub fn copy_bytes(b: &Vec<u8>) -> (r: Vec<u8>)
    ensures
        r@ == b@,
{
    let mut out: Vec<u8> = Vec::new();
    let mut i: usize = 0;
    while i < b.len()
        invariant
            i <= b.len(),
            out@ == b@.subrange(0, i as int),
        decreases b.len() - i,
    {
        out.push(b[i]);
        i = i + 1;
    }
    out
}

/// The text of a string value, if the value is a valid string.
pub open spec fn model_as_str(v: ValueModel) -> Option<Seq<char>> {
    match v {
        ValueModel::Str(s) => Some(s),
        _ => None,
    }
}

/// The value as an unsigned 64-bit integer, if it is an integer in that range.
pub open spec fn model_as_u64(v: ValueModel) -> Option<u64> {
    match v {
        ValueModel::PosInt(n) => Some(n),
        ValueModel::NegInt(n) => if n >= 0 {
            Some(n as u64)
        } else {
            None
        },
        _ => None,
    }
}

/// The value as a signed 64-bit integer, if it is an integer in that range.
pub open spec fn model_as_i64(v: ValueModel) -> Option<i64> {
    match v {
        ValueModel::PosInt(n) => if n <= i64::MAX {
            Some(n as i64)
        } else {
            None
        },
        ValueModel::NegInt(n) => Some(n),
        _ => None,
    }
}

/// The value as a boolean, if it is one.
pub open spec fn model_as_bool(v: ValueModel) -> Option<bool> {
    match v {
        ValueModel::Boolean(b) => Some(b),
        _ => None,
    }
}

/// Get a string from a value.
pub fn value_as_str(v: &MsgValue) -> (r: Option<&str>)
    ensures
        r is Some <==> model_as_str(v@) is Some,
        r matches Some(s) ==> s@ == model_as_str(v@).unwrap(),
{
    match v {
        MsgValue::String(s) => Some(s.as_str()),
        _ => None,
    }
}

/// Get a `u64` from a value.
pub fn value_as_u64(v: &MsgValue) -> (r: Option<u64>)
    ensures
        r == model_as_u64(v@),
{
    match v {
        MsgValue::PosInt(n) => Some(*n),
        MsgValue::NegInt(n) => if *n >= 0 {
            Some(*n as u64)
        } else {
            None
        },
        _ => None,
    }
}

/// Get an `i64` from a value.
pub fn value_as_i64(v: &MsgValue) -> (r: Option<i64>)
    ensures
        r == model_as_i64(v@),
{
    match v {
        MsgValue::PosInt(n) => if *n <= 9223372036854775807u64 {
            Some(*n as i64)
        } else {
            None
        },
        MsgValue::NegInt(n) => Some(*n),
        _ => None,
    }
}

/// Get a `bool` from a value.
pub fn value_as_bool(v: &MsgValue) -> (r: Option<bool>)
    ensures
        r == model_as_bool(v@),
{
    match v {
        MsgValue::Boolean(b) => Some(*b),
        _ => None,
    }
}

/// The integer value of `n`, in the normal form that a decoder produces.
pub open spec fn model_of_i64(n: i64) -> ValueModel {
    if n < 0 {
        ValueModel::NegInt(n)
    } else {
        ValueModel::PosInt(n as u64)
    }
}

impl MsgValue {
    /// An integer value.
    pub fn from_i64(n: i64) -> (r: MsgValue)
        ensures
            r@ == model_of_i64(n),
    {
        if n < 0 {
            MsgValue::NegInt(n)
        } else {
            MsgValue::PosInt(n as u64)
        }
    }

    /// A string value holding `s`.
    pub fn from_str(s: &str) -> (r: MsgValue)
        ensures
            r@ == ValueModel::Str(s@),
    {
        MsgValue::String(s.to_owned())
    }
}

/// The map that a sequence of key/value pairs denotes when later pairs
/// replace earlier ones with the same key.
pub open spec fn map_of_pairs(s: Seq<(Seq<char>, ValueModel)>) -> Map<Seq<char>, ValueModel>
    decreases s.len(),
{
    if s.len() == 0 {
        Map::empty()
    } else {
        map_of_pairs(s.drop_last()).insert(s.last().0, s.last().1)
    }
}

/// Index of the last pair whose key is `k`, or -1 if there is none.
pub open spec fn last_key_index(s: Seq<(Seq<char>, ValueModel)>, k: Seq<char>) -> int
    decreases s.len(),
{
    if s.len() == 0 {
        -1
    } else if s.last().0 == k {
        s.len() - 1
    } else {
        last_key_index(s.drop_last(), k)
    }
}

/// `last_key_index` finds the last pair of the key, and the map holds
/// that pair's value.
pub proof fn lemma_last_key_index(s: Seq<(Seq<char>, ValueModel)>, k: Seq<char>)
    ensures
        -1 <= last_key_index(s, k) < s.len(),
        last_key_index(s, k) >= 0 ==> s[last_key_index(s, k)].0 == k,
        forall|i: int| last_key_index(s, k) < i < s.len() ==> s[i].0 != k,
        map_of_pairs(s).contains_key(k) <==> last_key_index(s, k) >= 0,
        last_key_index(s, k) >= 0 ==> map_of_pairs(s)[k] == s[last_key_index(s, k)].1,
    decreases s.len(),
{
    if s.len() > 0 && s.last().0 != k {
        let p = s.drop_last();
        lemma_last_key_index(p, k);
        assert forall|i: int| last_key_index(s, k) < i < s.len() implies s[i].0 != k by {
            if i < s.len() - 1 {
                assert(s[i] == p[i]);
            }
        }
    }
}

/// A string-keyed map of values that keeps its keys in insertion order.
pub struct StrMap {
    entries: Vec<(String, MsgValue)>,
}

impl StrMap {
    /// The key/value pairs in insertion order, by their views.
    pub closed spec fn pairs(self) -> Seq<(Seq<char>, ValueModel)> {
        Seq::new(self.entries@.len(), |i: int| (self.entries@[i].0@, self.entries@[i].1@))
    }

    /// The view is the map that the pairs denote.
    pub proof fn lemma_view(&self)
        ensures
            self@ == map_of_pairs(self.pairs()),
    {
    }

    /// An empty map.
    pub fn new() -> (r: StrMap)
        ensures
            r.pairs() == Seq::<(Seq<char>, ValueModel)>::empty(),
            r@ == Map::<Seq<char>, ValueModel>::empty(),
    {
        StrMap { entries: Vec::new() }
    }

    /// Number of entries.
    pub fn len(&self) -> (r: usize)
        ensures
            r == self.pairs().len(),
    {
        self.entries.len()
    }

    /// Position of the entry of `key`, if present.
    fn find(&self, key: &str) -> (r: Option<usize>)
        ensures
            r is None ==> last_key_index(self.pairs(), key@) == -1,
            r matches Some(i) ==> i == last_key_index(self.pairs(), key@),
    {
        proof {
            lemma_last_key_index(self.pairs(), key@);
        }
        let mut i: usize = self.entries.len();
        while i > 0
            invariant
                i <= self.entries.len(),
                self.entries@.len() == self.pairs().len(),
                forall|j: int| i <= j < self.pairs().len() ==> self.pairs()[j].0 != key@,
                -1 <= last_key_index(self.pairs(), key@) < self.pairs().len(),
                last_key_index(self.pairs(), key@) >= 0 ==> self.pairs()[last_key_index(
                    self.pairs(),
                    key@,
                )].0 == key@,
                forall|j: int|
                    last_key_index(self.pairs(), key@) < j < self.pairs().len() ==> self.pairs()[j].0
                        != key@,
            decreases i,
        {
            i = i - 1;
            assert(self.pairs()[i as int].0 == self.entries@[i as int].0@);
            if str_eq(self.entries[i].0.as_str(), key) {
                return Some(i);
            }
        }
        None
    }

    /// Whether `key` is present.
    pub fn contains_key(&self, key: &str) -> (r: bool)
        ensures
            r == self@.contains_key(key@),
    {
        proof {
            lemma_last_key_index(self.pairs(), key@);
        }
        self.find(key).is_some()
    }

    /// The value stored under `key`.
    pub fn get(&self, key: &str) -> (r: Option<&MsgValue>)
        ensures
            r is Some <==> self@.contains_key(key@),
            r matches Some(v) ==> v@ == self@[key@],
    {
        proof {
            lemma_last_key_index(self.pairs(), key@);
        }
        match self.find(key) {
            Some(i) => Some(&self.entries[i].1),
            None => None,
        }
    }

    /// A copy of the map, entry for entry.
    pub fn duplicate(&self) -> (r: StrMap)
        ensures
            r.pairs() == self.pairs(),
            r@ == self@,
    {
        let mut out: Vec<(String, MsgValue)> = Vec::new();
        let mut i: usize = 0;
        while i < self.entries.len()
            invariant
                i <= self.entries.len(),
                out@.len() == i,
                forall|j: int|
                    0 <= j < i ==> (#[trigger] out@[j]).0@ == self.entries@[j].0@ && out@[j].1@
                        == self.entries@[j].1@,
            decreases self.entries.len() - i,
        {
            out.push((self.entries[i].0.clone(), self.entries[i].1.deep_copy()));
            i = i + 1;
        }
        let r = StrMap { entries: out };
        r
    }

    /// The `i`-th entry in insertion order.
    pub fn entry(&self, i: usize) -> (r: (&String, &MsgValue))
        requires
            i < self.pairs().len(),
        ensures
            r.0@ == self.pairs()[i as int].0,
            r.1@ == self.pairs()[i as int].1,
    {
        (&self.entries[i].0, &self.entries[i].1)
    }

    /// Insert `value` under `key`, replacing an earlier value of that key
    /// in its place.
    pub fn insert(&mut self, key: String, value: MsgValue)
        ensures
            final(self)@ == old(self)@.insert(key@, value@),
            ({
                let i = last_key_index(old(self).pairs(), key@);
                if i >= 0 {
                    final(self).pairs() == old(self).pairs().update(i, (key@, value@))
                } else {
                    final(self).pairs() == old(self).pairs().push((key@, value@))
                }
            }),
    {
        proof {
            lemma_last_key_index(self.pairs(), key@);
        }
        let ghost old_pairs = self.pairs();
        let ghost k = key@;
        let ghost vm = value@;
        let found = self.find(key.as_str());
        match found {
            Some(i) => {
                self.entries.set(i, (key, value));
            },
            None => {
                self.entries.push((key, value));
            },
        }
        proof {
            let new_pairs = self.pairs();
            if found is Some {
                let i = last_key_index(old_pairs, k);
                assert(new_pairs =~= old_pairs.update(i, (k, vm)));
                assert forall|kk: Seq<char>| #[trigger] map_of_pairs(new_pairs).contains_key(kk)
                    == map_of_pairs(old_pairs).insert(k, vm).contains_key(kk) && (
                map_of_pairs(new_pairs).contains_key(kk) ==> map_of_pairs(new_pairs)[kk]
                    == map_of_pairs(old_pairs).insert(k, vm)[kk]) by {
                    lemma_last_key_index(new_pairs, kk);
                    lemma_last_key_index(old_pairs, kk);
                    if kk != k {
                        lemma_update_other_key(old_pairs, i, (k, vm), kk);
                    } else {
                        assert(new_pairs[i].0 == k);
                        let j = last_key_index(new_pairs, kk);
                        if j > i {
                        }
                    }
                }
            } else {
                assert(new_pairs.drop_last() =~= old_pairs);
            }
        }
    }
}

/// Replacing a pair whose key is not `kk` leaves the lookup of `kk` alone.
proof fn lemma_update_other_key(
    s: Seq<(Seq<char>, ValueModel)>,
    i: int,
    p: (Seq<char>, ValueModel),
    kk: Seq<char>,
)
    requires
        0 <= i < s.len(),
        s[i].0 != kk,
        p.0 != kk,
    ensures
        last_key_index(s.update(i, p), kk) == last_key_index(s, kk),
    decreases s.len(),
{
    let t = s.update(i, p);
    if s.len() > 0 {
        if i == s.len() - 1 {
            assert(t.drop_last() =~= s.drop_last());
        } else {
            assert(t.drop_last() =~= s.drop_last().update(i, p));
            lemma_update_other_key(s.drop_last(), i, p, kk);
        }
    }
}

impl View for StrMap {
    type V = Map<Seq<char>, ValueModel>;

    closed spec fn view(&self) -> Map<Seq<char>, ValueModel> {
        map_of_pairs(self.pairs())
    }
}

} // verus!
