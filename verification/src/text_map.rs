//! A small map from strings to strings, kept in the order of insertion.

use vstd::prelude::*;
use vstd::string::*;
use crate::text::same;

verus! {

/// Strings keyed by strings. No key occurs twice.
#[derive(Debug)]
pub struct TextMap {
    pairs: Vec<(String, String)>,
}

impl View for TextMap {
    type V = Map<Seq<char>, Seq<char>>;

    closed spec fn view(&self) -> Map<Seq<char>, Seq<char>> {
        pairs_map(self.pairs@)
    }
}

/// The keys of a list of pairs.
pub open spec fn pair_keys(pairs: Seq<(String, String)>) -> Seq<Seq<char>> {
    pairs.map_values(|p: (String, String)| p.0@)
}

/// What each key of a list of pairs stands for: the value beside its first occurrence.
pub open spec fn pairs_map(pairs: Seq<(String, String)>) -> Map<Seq<char>, Seq<char>> {
    Map::new(
        |k: Seq<char>| pair_keys(pairs).contains(k),
        |k: Seq<char>| pairs[pair_keys(pairs).index_of_first(k)->0].1@,
    )
}

/// A pair of a list without repeated keys is what the map holds under its key.
pub proof fn lemma_pairs_map(pairs: Seq<(String, String)>, i: int)
    requires
        pair_keys(pairs).no_duplicates(),
        0 <= i < pairs.len(),
    ensures
        pairs_map(pairs).contains_key(pairs[i].0@),
        pairs_map(pairs)[pairs[i].0@] == pairs[i].1@,
{
    let keys = pair_keys(pairs);
    let k = pairs[i].0@;
    assert(keys[i] == k);
    keys.index_of_first_ensures(k);
}

impl TextMap {
    #[verifier::type_invariant]
    spec fn keys_once(self) -> bool {
        pair_keys(self.pairs@).no_duplicates()
    }

    /// An empty map.
    pub fn new() -> (r: TextMap)
        ensures
            r@ == Map::<Seq<char>, Seq<char>>::empty(),
    {
        let r = TextMap { pairs: Vec::new() };
        assert(r@ =~= Map::<Seq<char>, Seq<char>>::empty());
        r
    }

    /// How many keys there are.
    pub fn len(&self) -> (r: usize)
        ensures
            r == self@.dom().len(),
            self@.dom().finite(),
    {
        proof {
            use_type_invariant(self);
            let keys = pair_keys(self.pairs@);
            keys.unique_seq_to_set();
            assert(self@.dom() =~= keys.to_set());
        }
        self.pairs.len()
    }

    fn find(&self, key: &str) -> (r: Option<usize>)
        ensures
            match r {
                Some(i) => i < self.pairs@.len() && self.pairs@[i as int].0@ == key@
                    && self@.contains_key(key@) && self@[key@] == self.pairs@[i as int].1@,
                None => !self@.contains_key(key@) && !pair_keys(self.pairs@).contains(key@),
            },
    {
        proof {
            use_type_invariant(self);
        }
        let mut i: usize = 0;
        while i < self.pairs.len()
            invariant
                self.keys_once(),
                i <= self.pairs.len(),
                forall|k: int| 0 <= k < i ==> self.pairs@[k].0@ != key@,
            decreases self.pairs.len() - i,
        {
            if same(self.pairs[i].0.as_str(), key) {
                proof {
                    lemma_pairs_map(self.pairs@, i as int);
                }
                return Some(i);
            }
            i = i + 1;
        }
        proof {
            let keys = pair_keys(self.pairs@);
            assert forall|k: int| 0 <= k < keys.len() implies keys[k] != key@ by {
                assert(keys[k] == self.pairs@[k].0@);
            }
        }
        None
    }

    /// What `key` stands for, if anything.
    pub fn get(&self, key: &str) -> (r: Option<&str>)
        ensures
            r is Some <==> self@.contains_key(key@),
            r matches Some(v) ==> v@ == self@[key@],
    {
        match self.find(key) {
            Some(i) => Some(self.pairs[i].1.as_str()),
            None => None,
        }
    }

    /// Lets `key` stand for `value`, whatever it stood for before.
    pub fn insert(&mut self, key: &str, value: String)
        ensures
            final(self)@ == old(self)@.insert(key@, value@),
    {
        proof {
            use_type_invariant(&*self);
        }
        let ghost before = self.pairs@;
        let ghost mut w: int = 0;
        let found = self.find(key);
        let mut pairs: Vec<(String, String)> = Vec::new();
        std::mem::swap(&mut pairs, &mut self.pairs);
        match found {
            Some(i) => {
                let name = pairs[i].0.clone();
                pairs.set(i, (name, value));
                proof {
                    w = i as int;
                    assert(pair_keys(pairs@) =~= pair_keys(before));
                }
            },
            None => {
                pairs.push((key.to_owned(), value));
                proof {
                    w = before.len() as int;
                    assert(pair_keys(pairs@) =~= pair_keys(before).push(key@));
                }
            },
        }
        proof {
            let after = pairs@;
            let keys = pair_keys(after);
            assert(after[w].0@ == key@ && after[w].1@ == value@);
            assert forall|k: Seq<char>| #[trigger]
                pairs_map(after).contains_key(k) <==> pairs_map(before).insert(
                    key@,
                    value@,
                ).contains_key(k) by {
                if pairs_map(before).contains_key(k) {
                    let j = pair_keys(before).index_of(k);
                    assert(pair_keys(before)[j] == k);
                    assert(keys[j] == k);
                }
                if k == key@ {
                    assert(keys[w] == k);
                }
                if keys.contains(k) && k != key@ {
                    let j = keys.index_of(k);
                    assert(keys[j] == k);
                    assert(after[j].0@ == k);
                    assert(pair_keys(before)[j] == k);
                }
            }
            assert forall|k: Seq<char>| pairs_map(after).contains_key(k) implies pairs_map(
                after,
            )[k] == pairs_map(before).insert(key@, value@)[k] by {
                let j = keys.index_of(k);
                assert(keys[j] == k);
                assert(after[j].0@ == k);
                lemma_pairs_map(after, j);
                if k != key@ {
                    assert(before[j].0@ == k && before[j].1@ == after[j].1@);
                    lemma_pairs_map(before, j);
                } else {
                    assert(keys[w] == key@);
                    assert(w == j);
                }
            }
            assert(pairs_map(after) =~= pairs_map(before).insert(key@, value@));
        }
        self.pairs = pairs;
    }

    /// The pairs, each key once.
    pub fn pairs(&self) -> (r: &Vec<(String, String)>)
        ensures
            pair_keys(r@).no_duplicates(),
            pairs_map(r@) == self@,
    {
        proof {
            use_type_invariant(self);
        }
        &self.pairs
    }

    /// The map of a list of pairs that has no key twice.
    pub fn of(pairs: &Vec<(String, String)>) -> (r: TextMap)
        requires
            pair_keys(pairs@).no_duplicates(),
        ensures
            r@ == pairs_map(pairs@),
    {
        let mut all: Vec<(String, String)> = Vec::new();
        let mut i: usize = 0;
        while i < pairs.len()
            invariant
                i <= pairs.len(),
                all@ == pairs@.take(i as int),
            decreases pairs.len() - i,
        {
            let p = &pairs[i];
            all.push((p.0.clone(), p.1.clone()));
            assert(all@ =~= pairs@.take(i + 1));
            i = i + 1;
        }
        assert(all@ =~= pairs@);
        TextMap { pairs: all }
    }

    /// A copy that maps the same keys to the same values.
    pub fn copy(&self) -> (r: TextMap)
        ensures
            r@ == self@,
    {
        proof {
            use_type_invariant(self);
        }
        TextMap::of(&self.pairs)
    }

    fn within(&self, other: &TextMap) -> (r: bool)
        ensures
            r == self@.submap_of(other@),
    {
        proof {
            use_type_invariant(self);
        }
        let mut i: usize = 0;
        while i < self.pairs.len()
            invariant
                self.keys_once(),
                i <= self.pairs.len(),
                forall|k: int|
                    0 <= k < i ==> other@.contains_key((#[trigger] self.pairs@[k]).0@)
                        && other@[self.pairs@[k].0@] == self.pairs@[k].1@,
            decreases self.pairs.len() - i,
        {
            proof {
                lemma_pairs_map(self.pairs@, i as int);
            }
            let key = self.pairs[i].0.as_str();
            match other.get(key) {
                Some(v) => {
                    if !same(v, self.pairs[i].1.as_str()) {
                        return false;
                    }
                },
                None => {
                    return false;
                },
            }
            i = i + 1;
        }
        proof {
            let keys = pair_keys(self.pairs@);
            assert forall|k: Seq<char>| #[trigger] self@.contains_key(k) implies other@.contains_key(
                k,
            ) && self@[k] == other@[k] by {
                let j = keys.index_of(k);
                assert(keys[j] == k);
                assert(self.pairs@[j].0@ == k);
                lemma_pairs_map(self.pairs@, j);
            }
        }
        true
    }

    /// Whether two maps hold the same values under the same keys.
    pub fn equals(&self, other: &TextMap) -> (r: bool)
        ensures
            r == (self@ == other@),
    {
        let r = self.within(other) && other.within(self);
        assert(r ==> self@ =~= other@);
        r
    }
}

/// A map made of pairs holds every pair and nothing else.
pub proof fn law_pairs(pairs: Seq<(String, String)>, key: Seq<char>)
    requires
        pair_keys(pairs).no_duplicates(),
    ensures
        pairs_map(pairs).contains_key(key) <==> exists|i: int|
            0 <= i < pairs.len() && (#[trigger] pairs[i]).0@ == key,
        forall|i: int|
            0 <= i < pairs.len() ==> pairs_map(pairs)[(#[trigger] pairs[i]).0@] == pairs[i].1@,
        forall|i: int, j: int|
            0 <= i < j < pairs.len() ==> (#[trigger] pairs[i]).0@ != (#[trigger] pairs[j]).0@,
{
    let keys = pair_keys(pairs);
    assert forall|i: int| 0 <= i < pairs.len() implies pairs_map(pairs)[(#[trigger] pairs[i]).0@]
        == pairs[i].1@ by {
        lemma_pairs_map(pairs, i);
    }
    if keys.contains(key) {
        let i = choose|i: int| 0 <= i < keys.len() && keys[i] == key;
        assert(pairs[i].0@ == key);
    }
    if exists|i: int| 0 <= i < pairs.len() && (#[trigger] pairs[i]).0@ == key {
        let i = choose|i: int| 0 <= i < pairs.len() && (#[trigger] pairs[i]).0@ == key;
        assert(keys[i] == key);
    }
    assert forall|i: int, j: int| 0 <= i < j < pairs.len() implies (#[trigger] pairs[i]).0@ != (
    #[trigger] pairs[j]).0@ by {
        assert(keys[i] != keys[j]);
    }
}

} // verus!
