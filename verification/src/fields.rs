use vstd::prelude::*;

verus! {

/// The map that a sequence of field/value pairs denotes when later pairs
/// replace earlier ones with the same field id.
pub open spec fn field_map_of<W>(s: Seq<(u8, W)>) -> Map<u8, W>
    decreases s.len(),
{
    if s.len() == 0 {
        Map::empty()
    } else {
        field_map_of(s.drop_last()).insert(s.last().0, s.last().1)
    }
}

/// Index of the last pair of field `k`, or -1 if there is none.
pub open spec fn last_field_index<W>(s: Seq<(u8, W)>, k: u8) -> int
    decreases s.len(),
{
    if s.len() == 0 {
        -1
    } else if s.last().0 == k {
        s.len() - 1
    } else {
        last_field_index(s.drop_last(), k)
    }
}

/// `last_field_index` finds the last pair of the field, and the map holds
/// that pair's value.
pub proof fn lemma_last_field_index<W>(s: Seq<(u8, W)>, k: u8)
    ensures
        -1 <= last_field_index(s, k) < s.len(),
        last_field_index(s, k) >= 0 ==> s[last_field_index(s, k)].0 == k,
        forall|i: int| last_field_index(s, k) < i < s.len() ==> s[i].0 != k,
        field_map_of(s).contains_key(k) <==> last_field_index(s, k) >= 0,
        last_field_index(s, k) >= 0 ==> field_map_of(s)[k] == s[last_field_index(s, k)].1,
    decreases s.len(),
{
    if s.len() > 0 && s.last().0 != k {
        let p = s.drop_last();
        lemma_last_field_index(p, k);
        assert forall|i: int| last_field_index(s, k) < i < s.len() implies s[i].0 != k by {
            if i < s.len() - 1 {
                assert(s[i] == p[i]);
            }
        }
    }
}

/// Replacing a pair of another field leaves the last pair of `kk` in place.
proof fn lemma_update_other_field<W>(s: Seq<(u8, W)>, i: int, p: (u8, W), kk: u8)
    requires
        0 <= i < s.len(),
        s[i].0 != kk,
        p.0 != kk,
    ensures
        last_field_index(s.update(i, p), kk) == last_field_index(s, kk),
    decreases s.len(),
{
    let t = s.update(i, p);
    if i == s.len() - 1 {
        assert(t.drop_last() =~= s.drop_last());
    } else {
        assert(t.drop_last() =~= s.drop_last().update(i, p));
        lemma_update_other_field(s.drop_last(), i, p, kk);
    }
}

/// A map from LXMF field ids to values, keeping fields in insertion order.
pub struct FieldMap<V> {
    entries: Vec<(u8, V)>,
}

impl<V: View> FieldMap<V> {
    /// The field/value pairs in insertion order, by the views of the values.
    pub closed spec fn pairs(self) -> Seq<(u8, V::V)> {
        Seq::new(self.entries@.len(), |i: int| (self.entries@[i].0, self.entries@[i].1@))
    }

    /// The view is the map that the pairs denote.
    pub proof fn lemma_view(&self)
        ensures
            self@ == field_map_of(self.pairs()),
    {
    }

    /// An empty map.
    pub fn new() -> (r: FieldMap<V>)
        ensures
            r.pairs() == Seq::<(u8, V::V)>::empty(),
            r@ == Map::<u8, V::V>::empty(),
    {
        FieldMap { entries: Vec::new() }
    }

    /// Number of entries.
    pub fn len(&self) -> (r: usize)
        ensures
            r == self.pairs().len(),
    {
        self.entries.len()
    }

    /// Position of the last entry of `key`, if present.
    fn find(&self, key: u8) -> (r: Option<usize>)
        ensures
            r is None ==> last_field_index(self.pairs(), key) == -1,
            r matches Some(i) ==> i == last_field_index(self.pairs(), key),
    {
        proof {
            lemma_last_field_index(self.pairs(), key);
        }
        let mut i: usize = self.entries.len();
        while i > 0
            invariant
                i <= self.entries.len(),
                self.entries@.len() == self.pairs().len(),
                forall|j: int| i <= j < self.pairs().len() ==> self.pairs()[j].0 != key,
                -1 <= last_field_index(self.pairs(), key) < self.pairs().len(),
                last_field_index(self.pairs(), key) >= 0 ==> self.pairs()[last_field_index(
                    self.pairs(),
                    key,
                )].0 == key,
                forall|j: int|
                    last_field_index(self.pairs(), key) < j < self.pairs().len() ==> self.pairs()[j].0
                        != key,
            decreases i,
        {
            i = i - 1;
            assert(self.pairs()[i as int].0 == self.entries@[i as int].0);
            if self.entries[i].0 == key {
                return Some(i);
            }
        }
        None
    }

    /// Whether field `key` is present.
    pub fn contains_key(&self, key: u8) -> (r: bool)
        ensures
            r == self@.contains_key(key),
    {
        proof {
            lemma_last_field_index(self.pairs(), key);
        }
        self.find(key).is_some()
    }

    /// The value of field `key`.
    pub fn get(&self, key: u8) -> (r: Option<&V>)
        ensures
            r is Some <==> self@.contains_key(key),
            r matches Some(v) ==> v@ == self@[key],
    {
        proof {
            lemma_last_field_index(self.pairs(), key);
        }
        match self.find(key) {
            Some(i) => Some(&self.entries[i].1),
            None => None,
        }
    }

    /// The `i`-th entry in insertion order.
    pub fn entry(&self, i: usize) -> (r: (u8, &V))
        requires
            i < self.pairs().len(),
        ensures
            r.0 == self.pairs()[i as int].0,
            r.1@ == self.pairs()[i as int].1,
    {
        (self.entries[i].0, &self.entries[i].1)
    }

    /// Set field `key` to `value`, in the place of an earlier value of it.
    pub fn insert(&mut self, key: u8, value: V)
        ensures
            final(self)@ == old(self)@.insert(key, value@),
            ({
                let i = last_field_index(old(self).pairs(), key);
                if i >= 0 {
                    final(self).pairs() == old(self).pairs().update(i, (key, value@))
                } else {
                    final(self).pairs() == old(self).pairs().push((key, value@))
                }
            }),
    {
        proof {
            lemma_last_field_index(self.pairs(), key);
        }
        let ghost old_pairs = self.pairs();
        let ghost vm = value@;
        let found = self.find(key);
        match found {
            Some(i) => {
                self.entries.set(i, (key, value));
            },
            None => {
                self.entries.push((key, value));
            },
        }
        proof {
            let new_pairs = self.pairs();
            if found is Some {
                let i = last_field_index(old_pairs, key);
                assert(new_pairs =~= old_pairs.update(i, (key, vm)));
                assert forall|kk: u8| #[trigger] field_map_of(new_pairs).contains_key(kk)
                    == field_map_of(old_pairs).insert(key, vm).contains_key(kk) && (
                field_map_of(new_pairs).contains_key(kk) ==> field_map_of(new_pairs)[kk]
                    == field_map_of(old_pairs).insert(key, vm)[kk]) by {
                    lemma_last_field_index(new_pairs, kk);
                    lemma_last_field_index(old_pairs, kk);
                    if kk != key {
                        lemma_update_other_field(old_pairs, i, (key, vm), kk);
                    } else {
                        assert(new_pairs[i].0 == key);
                        let j = last_field_index(new_pairs, kk);
                        if j > i {
                        }
                    }
                }
            } else {
                assert(new_pairs.drop_last() =~= old_pairs);
            }
        }
    }
}

impl<V: View> View for FieldMap<V> {
    type V = Map<u8, V::V>;

    closed spec fn view(&self) -> Map<u8, V::V> {
        field_map_of(self.pairs())
    }
}

} // verus!
