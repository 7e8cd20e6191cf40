//! A string-to-string map kept sorted by key, the shape a planner
//! configuration's parameters are stored and reported in.
//!
//! Its arrays come out key-sorted and index-paired, which is what a client
//! that rebuilds a map from two parallel arrays relies on.

use vstd::prelude::*;

use crate::order::{
    lemma_lex_asymmetric, lemma_lex_irreflexive, lemma_lex_total, lemma_lex_transitive, lex_less,
    lex_lt, strictly_sorted_by_lex,
};
use crate::text::string_views;

verus! {

/// No value occurs twice in `s`.
pub open spec fn distinct(s: Seq<Seq<char>>) -> bool {
    forall|i: int, j: int| 0 <= i < s.len() && 0 <= j < s.len() && i != j ==> #[trigger] s[i] != #[trigger] s[j]
}

/// The map two index-paired arrays describe: `keys[i]` maps to
/// `values[i]`.
pub open spec fn map_of_pairs(keys: Seq<Seq<char>>, values: Seq<Seq<char>>) -> Map<Seq<char>, Seq<char>> {
    Map::new(
        |k: Seq<char>| exists|i: int| 0 <= i < keys.len() && keys[i] == k,
        |k: Seq<char>| values[choose|i: int| 0 <= i < keys.len() && keys[i] == k],
    )
}

/// With distinct keys, each key maps to the value at its own index.
pub proof fn lemma_map_of_pairs_at(keys: Seq<Seq<char>>, values: Seq<Seq<char>>, i: int)
    requires
        distinct(keys),
        0 <= i < keys.len(),
    ensures
        map_of_pairs(keys, values).contains_key(keys[i]),
        map_of_pairs(keys, values)[keys[i]] == values[i],
{
    let m = map_of_pairs(keys, values);
    assert(m.contains_key(keys[i]));
    let j = choose|j: int| 0 <= j < keys.len() && keys[j] == keys[i];
    assert(keys[j] == keys[i]);
    if j != i {
        assert(keys[j] != keys[i]);
    }
}

/// A strictly sorted sequence is distinct.
pub proof fn lemma_sorted_is_distinct(s: Seq<Seq<char>>)
    requires
        strictly_sorted_by_lex(s),
    ensures
        distinct(s),
{
    assert forall|i: int, j: int| 0 <= i < s.len() && 0 <= j < s.len() && i != j implies #[trigger] s[i]
        != #[trigger] s[j] by {
        if i < j {
            assert(lex_lt(s[i], s[j]));
            lemma_lex_irreflexive(s[i]);
        } else {
            assert(lex_lt(s[j], s[i]));
            lemma_lex_irreflexive(s[j]);
        }
    }
}

/// Inserting into sorted index-paired arrays at the position that keeps
/// them sorted describes the map with that one key added.
proof fn lemma_insert_pair(
    keys: Seq<Seq<char>>,
    values: Seq<Seq<char>>,
    i: int,
    k: Seq<char>,
    v: Seq<char>,
)
    requires
        keys.len() == values.len(),
        distinct(keys),
        0 <= i <= keys.len(),
        forall|m: int| 0 <= m < keys.len() ==> #[trigger] keys[m] != k,
    ensures
        distinct(keys.insert(i, k)),
        map_of_pairs(keys.insert(i, k), values.insert(i, v)) =~= map_of_pairs(keys, values).insert(k, v),
{
    let nk = keys.insert(i, k);
    let nv = values.insert(i, v);
    assert(distinct(nk)) by {
        assert forall|a: int, b: int| 0 <= a < nk.len() && 0 <= b < nk.len() && a != b implies #[trigger] nk[a]
            != #[trigger] nk[b] by {
            let oa = if a < i { a } else { a - 1 };
            let ob = if b < i { b } else { b - 1 };
            if a != i && b != i {
                assert(nk[a] == keys[oa]);
                assert(nk[b] == keys[ob]);
            } else if a == i {
                assert(nk[b] == keys[ob]);
            } else {
                assert(nk[a] == keys[oa]);
            }
        }
    }
    let old_m = map_of_pairs(keys, values);
    let new_m = map_of_pairs(nk, nv);
    assert forall|q: Seq<char>| #[trigger] new_m.contains_key(q) <==> old_m.insert(k, v).contains_key(q) by {
        if new_m.contains_key(q) {
            let a = choose|a: int| 0 <= a < nk.len() && nk[a] == q;
            if a < i {
                assert(keys[a] == q);
            } else if a > i {
                assert(keys[a - 1] == q);
            }
        }
        if old_m.contains_key(q) {
            let a = choose|a: int| 0 <= a < keys.len() && keys[a] == q;
            if a < i {
                assert(nk[a] == q);
            } else {
                assert(nk[a + 1] == q);
            }
        }
        if q == k {
            assert(nk[i] == q);
        }
    }
    assert forall|q: Seq<char>| #[trigger] new_m.contains_key(q) implies new_m[q] == old_m.insert(k, v)[q] by {
        let a = choose|a: int| 0 <= a < nk.len() && nk[a] == q;
        lemma_map_of_pairs_at(nk, nv, a);
        if a < i {
            lemma_map_of_pairs_at(keys, values, a);
        } else if a > i {
            lemma_map_of_pairs_at(keys, values, a - 1);
        }
    }
}

/// Replacing the value at an index changes only that key's value.
proof fn lemma_update_value(keys: Seq<Seq<char>>, values: Seq<Seq<char>>, i: int, v: Seq<char>)
    requires
        keys.len() == values.len(),
        distinct(keys),
        0 <= i < keys.len(),
    ensures
        map_of_pairs(keys, values.update(i, v)) =~= map_of_pairs(keys, values).insert(keys[i], v),
{
    let old_m = map_of_pairs(keys, values);
    let new_m = map_of_pairs(keys, values.update(i, v));
    assert forall|q: Seq<char>| #[trigger] new_m.contains_key(q) implies new_m[q] == old_m.insert(keys[i], v)[q] by {
        let a = choose|a: int| 0 <= a < keys.len() && keys[a] == q;
        lemma_map_of_pairs_at(keys, values.update(i, v), a);
        lemma_map_of_pairs_at(keys, values, a);
    }
    lemma_map_of_pairs_at(keys, values, i);
}

/// A string-to-string map whose entries are kept sorted by key.
#[derive(Debug)]
pub struct ParamMap {
    keys: Vec<String>,
    values: Vec<String>,
}

impl View for ParamMap {
    type V = Map<Seq<char>, Seq<char>>;

    closed spec fn view(&self) -> Map<Seq<char>, Seq<char>> {
        map_of_pairs(string_views(self.keys@), string_views(self.values@))
    }
}

impl ParamMap {
    /// The keys are strictly sorted and paired one for one with the values.
    #[verifier::type_invariant]
    closed spec fn sorted_and_paired(self) -> bool {
        &&& self.keys@.len() == self.values@.len()
        &&& strictly_sorted_by_lex(string_views(self.keys@))
    }

    /// The empty map.
    pub fn new() -> (m: ParamMap)
        ensures
            m@ == Map::<Seq<char>, Seq<char>>::empty(),
    {
        let m = ParamMap { keys: Vec::new(), values: Vec::new() };
        assert(m@ =~= Map::<Seq<char>, Seq<char>>::empty());
        m
    }

    /// The number of entries.
    pub fn len(&self) -> (n: usize)
        ensures
            n == self@.dom().len(),
    {
        proof {
            use_type_invariant(self);
            self.lemma_dom_len();
        }
        self.keys.len()
    }

    proof fn lemma_dom_len(&self)
        requires
            self.sorted_and_paired(),
        ensures
            self@.dom().len() == self.keys@.len(),
            self@.dom().finite(),
    {
        let ks = string_views(self.keys@);
        lemma_sorted_is_distinct(ks);
        assert(self@.dom() =~= ks.to_set());
        ks.unique_seq_to_set();
    }

    /// Where `key` is or would go: the first index whose key does not sort
    /// before `key`, and whether that key is `key`.
    fn find(&self, key: &str) -> (r: (usize, bool))
        ensures
            r.0 <= self.keys@.len(),
            forall|m: int| 0 <= m < r.0 ==> lex_lt(#[trigger] string_views(self.keys@)[m], key@),
            r.1 ==> r.0 < self.keys@.len() && self.keys@[r.0 as int]@ == key@,
            !r.1 ==> (r.0 < self.keys@.len() ==> lex_lt(key@, self.keys@[r.0 as int]@)),
            r.1 <==> self@.contains_key(key@),
    {
        proof {
            use_type_invariant(self);
        }
        let ghost ks = string_views(self.keys@);
        let n = self.keys.len();
        let mut i: usize = 0;
        while i < n && lex_less(self.keys[i].as_str(), key)
            invariant
                self.sorted_and_paired(),
                ks == string_views(self.keys@),
                n == self.keys@.len(),
                i <= n,
                forall|m: int| 0 <= m < i ==> lex_lt(#[trigger] ks[m], key@),
            decreases n - i,
        {
            i = i + 1;
        }
        let found = i < n && {
            let k: &String = &self.keys[i];
            k.as_str().to_owned() == key.to_owned()
        };
        proof {
            lemma_sorted_is_distinct(ks);
            if i < n && !found {
                assert(ks[i as int] == self.keys@[i as int]@);
                lemma_lex_total(key@, ks[i as int]);
                assert(!lex_lt(ks[i as int], key@));
            }
            if self@.contains_key(key@) {
                let a = choose|a: int| 0 <= a < ks.len() && ks[a] == key@;
                if a < i {
                    lemma_lex_irreflexive(key@);
                } else if !found {
                    if a > i {
                        assert(lex_lt(ks[i as int], ks[a]));
                        lemma_lex_asymmetric(key@, ks[i as int]);
                        lemma_lex_transitive(key@, ks[i as int], ks[a]);
                        lemma_lex_irreflexive(key@);
                    }
                }
            }
            if found {
                assert(ks[i as int] == key@);
            }
        }
        (i, found)
    }

    /// The value `key` maps to, if any.
    pub fn get(&self, key: &str) -> (r: Option<&String>)
        ensures
            r is Some <==> self@.contains_key(key@),
            r matches Some(v) ==> v@ == self@[key@],
    {
        proof {
            use_type_invariant(self);
        }
        let (i, found) = self.find(key);
        if found {
            proof {
                lemma_sorted_is_distinct(string_views(self.keys@));
                lemma_map_of_pairs_at(string_views(self.keys@), string_views(self.values@), i as int);
            }
            Some(&self.values[i])
        } else {
            None
        }
    }

    /// Maps `key` to `value`, replacing any value it had.
    pub fn insert(&mut self, key: String, value: String)
        ensures
            final(self)@ == old(self)@.insert(key@, value@),
    {
        proof {
            use_type_invariant(&*self);
        }
        let (i, found) = self.find(key.as_str());
        let ghost ks = string_views(self.keys@);
        let ghost vs = string_views(self.values@);
        proof {
            lemma_sorted_is_distinct(ks);
        }
        if found {
            proof {
                lemma_update_value(ks, vs, i as int, value@);
                assert(string_views(self.values@.update(i as int, value)) =~= vs.update(i as int, value@));
            }
            self.values[i] = value;
        } else {
            proof {
                assert forall|m: int| 0 <= m < ks.len() implies #[trigger] ks[m] != key@ by {
                    if ks[m] == key@ {
                        assert(self@.contains_key(key@));
                    }
                }
                lemma_insert_pair(ks, vs, i as int, key@, value@);
                assert(string_views(self.keys@.insert(i as int, key)) =~= ks.insert(i as int, key@));
                assert(string_views(self.values@.insert(i as int, value)) =~= vs.insert(i as int, value@));
                let nk = ks.insert(i as int, key@);
                assert forall|a: int, b: int| 0 <= a < b < nk.len() implies lex_lt(#[trigger] nk[a], #[trigger] nk[b]) by {
                    if b < i {
                    } else if a < i && b == i {
                    } else if a < i && b > i {
                        assert(nk[b] == ks[b - 1]);
                        if i < ks.len() {
                            assert(lex_lt(key@, ks[i as int]));
                            if b - 1 > i {
                                assert(lex_lt(ks[i as int], ks[b - 1]));
                                lemma_lex_transitive(key@, ks[i as int], ks[b - 1]);
                            }
                            lemma_lex_transitive(ks[a], key@, ks[b - 1]);
                        }
                    } else if a == i {
                        assert(nk[b] == ks[b - 1]);
                        assert(lex_lt(key@, ks[i as int]));
                        if b - 1 > i {
                            assert(lex_lt(ks[i as int], ks[b - 1]));
                            lemma_lex_transitive(key@, ks[i as int], ks[b - 1]);
                        }
                    } else {
                        assert(nk[a] == ks[a - 1]);
                        assert(nk[b] == ks[b - 1]);
                    }
                }
            }
            let mut taken = ParamMap::new();
            std::mem::swap(&mut taken, self);
            let ParamMap { mut keys, mut values } = taken;
            keys.insert(i, key);
            values.insert(i, value);
            *self = ParamMap { keys, values };
        }
    }

    /// Maps `key` to `value` unless `key` already has a value.
    pub fn insert_if_absent(&mut self, key: String, value: String)
        ensures
            final(self)@ == if old(self)@.contains_key(key@) {
                old(self)@
            } else {
                old(self)@.insert(key@, value@)
            },
    {
        proof {
            use_type_invariant(&*self);
        }
        let (_, found) = self.find(key.as_str());
        if !found {
            self.insert(key, value);
        }
    }

    /// Removes every entry.
    pub fn clear(&mut self)
        ensures
            final(self)@ == Map::<Seq<char>, Seq<char>>::empty(),
    {
        *self = ParamMap::new();
    }

    /// The entries as two index-paired arrays, keys strictly sorted.
    pub fn to_arrays(&self) -> (r: (Vec<String>, Vec<String>))
        ensures
            r.0@.len() == r.1@.len(),
            strictly_sorted_by_lex(string_views(r.0@)),
            map_of_pairs(string_views(r.0@), string_views(r.1@)) == self@,
    {
        proof {
            use_type_invariant(self);
        }
        let keys = self.keys.clone();
        let values = self.values.clone();
        assert(keys@ =~= self.keys@);
        assert(values@ =~= self.values@);
        (keys, values)
    }

    /// Adds every entry of `other`, whose values win over this map's.
    pub fn extend_from(&mut self, other: &ParamMap)
        ensures
            final(self)@ == old(self)@.union_prefer_right(other@),
    {
        proof {
            use_type_invariant(other);
        }
        let ghost ks = string_views(other.keys@);
        let ghost vs = string_views(other.values@);
        let ghost start = self@;
        proof {
            lemma_sorted_is_distinct(ks);
            assert(ks.take(0) =~= Seq::<Seq<char>>::empty());
            assert(map_of_pairs(ks.take(0), vs.take(0)) =~= Map::<Seq<char>, Seq<char>>::empty());
            assert(start.union_prefer_right(map_of_pairs(ks.take(0), vs.take(0))) =~= start);
        }
        let n = other.keys.len();
        let mut i: usize = 0;
        while i < n
            invariant
                other.sorted_and_paired(),
                ks == string_views(other.keys@),
                vs == string_views(other.values@),
                distinct(ks),
                n == ks.len(),
                i <= n,
                self@ == start.union_prefer_right(map_of_pairs(ks.take(i as int), vs.take(i as int))),
            decreases n - i,
        {
            proof {
                lemma_take_step(ks, vs, i as int);
            }
            self.insert(other.keys[i].clone(), other.values[i].clone());
            proof {
                let m = map_of_pairs(ks.take(i as int), vs.take(i as int));
                assert(start.union_prefer_right(m).insert(ks[i as int], vs[i as int]) =~= start.union_prefer_right(
                    m.insert(ks[i as int], vs[i as int]),
                ));
            }
            i = i + 1;
        }
        proof {
            assert(ks.take(n as int) =~= ks);
            assert(vs.take(n as int) =~= vs);
        }
    }

    /// Adds the entries of `other` whose keys this map lacks; this map's
    /// values win.
    pub fn fill_absent_from(&mut self, other: &ParamMap)
        ensures
            final(self)@ == other@.union_prefer_right(old(self)@),
    {
        proof {
            use_type_invariant(other);
        }
        let ghost ks = string_views(other.keys@);
        let ghost vs = string_views(other.values@);
        let ghost start = self@;
        proof {
            lemma_sorted_is_distinct(ks);
            assert(map_of_pairs(ks.take(0), vs.take(0)) =~= Map::<Seq<char>, Seq<char>>::empty());
            assert(map_of_pairs(ks.take(0), vs.take(0)).union_prefer_right(start) =~= start);
        }
        let n = other.keys.len();
        let mut i: usize = 0;
        while i < n
            invariant
                other.sorted_and_paired(),
                ks == string_views(other.keys@),
                vs == string_views(other.values@),
                distinct(ks),
                n == ks.len(),
                i <= n,
                self@ == map_of_pairs(ks.take(i as int), vs.take(i as int)).union_prefer_right(start),
            decreases n - i,
        {
            proof {
                lemma_take_step(ks, vs, i as int);
            }
            let ghost before = self@;
            self.insert_if_absent(other.keys[i].clone(), other.values[i].clone());
            proof {
                let m = map_of_pairs(ks.take(i as int), vs.take(i as int));
                let k = ks[i as int];
                assert(!m.contains_key(k)) by {
                    if m.contains_key(k) {
                        let a = choose|a: int| 0 <= a < ks.take(i as int).len() && ks.take(i as int)[a] == k;
                        assert(ks[a] == k);
                    }
                }
                assert(self@ =~= m.insert(k, vs[i as int]).union_prefer_right(start));
            }
            i = i + 1;
        }
        proof {
            assert(ks.take(n as int) =~= ks);
            assert(vs.take(n as int) =~= vs);
        }
    }

    /// Maps each `keys[i]` to `values[i]` in turn, so a key that occurs
    /// twice ends with its later value.
    pub fn insert_pairs(&mut self, keys: &Vec<String>, values: &Vec<String>)
        requires
            keys@.len() == values@.len(),
        ensures
            final(self)@ == spec_insert_pairs(old(self)@, string_views(keys@), string_views(values@)),
    {
        let ghost ks = string_views(keys@);
        let ghost vs = string_views(values@);
        let ghost start = self@;
        proof {
            assert(ks.take(0) =~= Seq::<Seq<char>>::empty());
        }
        let n = keys.len();
        let mut i: usize = 0;
        while i < n
            invariant
                ks == string_views(keys@),
                vs == string_views(values@),
                n == ks.len(),
                n == vs.len(),
                i <= n,
                self@ == spec_insert_pairs(start, ks.take(i as int), vs.take(i as int)),
            decreases n - i,
        {
            self.insert(keys[i].clone(), values[i].clone());
            proof {
                assert(ks.take(i + 1).drop_last() =~= ks.take(i as int));
                assert(vs.take(i + 1).drop_last() =~= vs.take(i as int));
            }
            i = i + 1;
        }
        proof {
            assert(ks.take(n as int) =~= ks);
            assert(vs.take(n as int) =~= vs);
        }
    }
}

/// One more pair at the end of a distinct prefix adds one key to the map
/// the prefix describes.
proof fn lemma_take_step(ks: Seq<Seq<char>>, vs: Seq<Seq<char>>, i: int)
    requires
        distinct(ks),
        ks.len() == vs.len(),
        0 <= i < ks.len(),
    ensures
        map_of_pairs(ks.take(i + 1), vs.take(i + 1)) =~= map_of_pairs(ks.take(i), vs.take(i)).insert(ks[i], vs[i]),
        distinct(ks.take(i)),
        !map_of_pairs(ks.take(i), vs.take(i)).contains_key(ks[i]),
{
    let kt = ks.take(i);
    assert(distinct(kt));
    assert forall|m: int| 0 <= m < kt.len() implies #[trigger] kt[m] != ks[i] by {
        assert(kt[m] == ks[m]);
    }
    lemma_insert_pair(kt, vs.take(i), i, ks[i], vs[i]);
    assert(kt.insert(i, ks[i]) =~= ks.take(i + 1));
    assert(vs.take(i).insert(i, vs[i]) =~= vs.take(i + 1));
}

/// The map after mapping each `ks[i]` to `vs[i]` in turn, starting from
/// `m`.
pub open spec fn spec_insert_pairs(
    m: Map<Seq<char>, Seq<char>>,
    ks: Seq<Seq<char>>,
    vs: Seq<Seq<char>>,
) -> Map<Seq<char>, Seq<char>>
    decreases ks.len(),
{
    if ks.len() == 0 {
        m
    } else {
        spec_insert_pairs(m, ks.drop_last(), vs.drop_last()).insert(ks.last(), vs[ks.len() - 1])
    }
}

/// The keys after a run of writes are the keys before it and the keys
/// written.
pub proof fn lemma_insert_pairs_dom(m: Map<Seq<char>, Seq<char>>, ks: Seq<Seq<char>>, vs: Seq<Seq<char>>)
    requires
        ks.len() == vs.len(),
    ensures
        spec_insert_pairs(m, ks, vs).dom() == m.dom() + ks.to_set(),
    decreases ks.len(),
{
    if ks.len() == 0 {
        assert(ks.to_set() =~= Set::<Seq<char>>::empty());
        assert(m.dom() + ks.to_set() =~= m.dom());
    } else {
        let front = ks.drop_last();
        lemma_insert_pairs_dom(m, front, vs.drop_last());
        assert forall|x: Seq<char>| ks.to_set().contains(x) <==> (front.to_set().contains(x) || x == ks.last()) by {
            if ks.to_set().contains(x) {
                let i = choose|i: int| 0 <= i < ks.len() && ks[i] == x;
                if i < ks.len() - 1 {
                    assert(front[i] == x);
                }
            }
            if front.to_set().contains(x) {
                let i = choose|i: int| 0 <= i < front.len() && front[i] == x;
                assert(ks[i] == x);
            }
            if x == ks.last() {
                assert(ks[ks.len() - 1] == x);
            }
        }
        assert(spec_insert_pairs(m, ks, vs).dom() =~= m.dom() + ks.to_set());
    }
}

} // verus!
