//! The keys of a descriptor that are not well known, kept with their values
//! in the order of the keys.

use vstd::prelude::*;
use vstd::utf8::encode_utf8;
use crate::order::{
    compare_keys, key_before, lemma_bytes_before_irreflexive, lemma_bytes_before_transitive, Side,
};

verus! {

/// Every key stands strictly before the keys that follow it.
pub open spec fn ascending(pairs: Seq<(Seq<char>, Seq<char>)>) -> bool {
    forall|i: int, j: int|
        0 <= i < j < pairs.len() ==> key_before(#[trigger] pairs[i].0, #[trigger] pairs[j].0)
}

/// Whether some pair holds `key`.
pub open spec fn holds_key(pairs: Seq<(Seq<char>, Seq<char>)>, key: Seq<char>) -> bool {
    exists|i: int| 0 <= i < pairs.len() && #[trigger] pairs[i].0 == key
}

/// A place at which `key` stands, if any pair holds it.
pub open spec fn place_of(pairs: Seq<(Seq<char>, Seq<char>)>, key: Seq<char>) -> int {
    choose|i: int| 0 <= i < pairs.len() && #[trigger] pairs[i].0 == key
}

/// The map that a sequence of pairs stands for: each key with the value beside
/// it.
pub open spec fn map_of(pairs: Seq<(Seq<char>, Seq<char>)>) -> Map<Seq<char>, Seq<char>> {
    Map::new(
        |key: Seq<char>| holds_key(pairs, key),
        |key: Seq<char>| pairs[place_of(pairs, key)].1,
    )
}

/// In an ascending sequence no key occurs twice.
pub proof fn lemma_ascending_keys_differ(pairs: Seq<(Seq<char>, Seq<char>)>, i: int, j: int)
    requires
        ascending(pairs),
        0 <= i < pairs.len(),
        0 <= j < pairs.len(),
        pairs[i].0 == pairs[j].0,
    ensures
        i == j,
{
    lemma_bytes_before_irreflexive(encode_utf8(pairs[i].0));
}

/// In an ascending sequence the map gives each key the value beside it.
pub proof fn lemma_map_of_entry(pairs: Seq<(Seq<char>, Seq<char>)>, i: int)
    requires
        ascending(pairs),
        0 <= i < pairs.len(),
    ensures
        map_of(pairs).contains_key(pairs[i].0),
        map_of(pairs)[pairs[i].0] == pairs[i].1,
{
    lemma_ascending_keys_differ(pairs, i, place_of(pairs, pairs[i].0));
}

/// The map of an ascending sequence has as many keys as the sequence has
/// pairs.
pub proof fn lemma_map_of_len(pairs: Seq<(Seq<char>, Seq<char>)>)
    requires
        ascending(pairs),
    ensures
        map_of(pairs).dom().finite(),
        map_of(pairs).dom().len() == pairs.len(),
    decreases pairs.len(),
{
    if pairs.len() == 0 {
        assert(map_of(pairs).dom() =~= Set::<Seq<char>>::empty());
    } else {
        let front = pairs.drop_last();
        let key = pairs.last().0;
        lemma_map_of_len(front);
        assert forall|k: Seq<char>| holds_key(pairs, k) <==> (k == key || holds_key(front, k)) by {
            if holds_key(pairs, k) && k != key {
                assert(front[place_of(pairs, k)].0 == k);
            }
            if k == key {
                assert(pairs[pairs.len() - 1].0 == k);
            }
            if holds_key(front, k) {
                assert(pairs[place_of(front, k)].0 == k);
            }
        }
        if holds_key(front, key) {
            lemma_ascending_keys_differ(pairs, place_of(front, key), pairs.len() - 1);
        }
        assert(map_of(pairs).dom() =~= map_of(front).dom().insert(key));
    }
}

/// A key that the order wants between two neighbours is held by no pair.
pub proof fn lemma_key_between_is_absent(
    pairs: Seq<(Seq<char>, Seq<char>)>,
    place: int,
    key: Seq<char>,
)
    requires
        0 <= place <= pairs.len(),
        forall|j: int| 0 <= j < place ==> key_before(#[trigger] pairs[j].0, key),
        forall|j: int| place <= j < pairs.len() ==> key_before(key, #[trigger] pairs[j].0),
    ensures
        !holds_key(pairs, key),
        !map_of(pairs).contains_key(key),
{
    lemma_bytes_before_irreflexive(encode_utf8(key));
}

/// Putting a pair with a new key at the place where the order wants it keeps
/// the sequence ascending and adds that key to the map.
pub proof fn lemma_insert_new_key(
    pairs: Seq<(Seq<char>, Seq<char>)>,
    place: int,
    key: Seq<char>,
    value: Seq<char>,
)
    requires
        ascending(pairs),
        0 <= place <= pairs.len(),
        forall|j: int| 0 <= j < place ==> key_before(#[trigger] pairs[j].0, key),
        forall|j: int| place <= j < pairs.len() ==> key_before(key, #[trigger] pairs[j].0),
    ensures
        !holds_key(pairs, key),
        ascending(pairs.insert(place, (key, value))),
        map_of(pairs.insert(place, (key, value))) == map_of(pairs).insert(key, value),
{
    let grown = pairs.insert(place, (key, value));
    lemma_key_between_is_absent(pairs, place, key);
    assert forall|i: int, j: int| 0 <= i < j < grown.len() implies key_before(
        #[trigger] grown[i].0,
        #[trigger] grown[j].0,
    ) by {
        let from_i = if i < place { i } else { i - 1 };
        let from_j = if j < place { j } else { j - 1 };
        if i != place && j != place {
            assert(grown[i] == pairs[from_i]);
            assert(grown[j] == pairs[from_j]);
        } else if i == place {
            assert(grown[j] == pairs[from_j]);
        } else {
            assert(grown[i] == pairs[from_i]);
        }
    }
    assert forall|k: Seq<char>| holds_key(grown, k) <==> (k == key || holds_key(pairs, k)) by {
        if holds_key(grown, k) && k != key {
            let i = place_of(grown, k);
            let from_i = if i < place { i } else { i - 1 };
            assert(pairs[from_i].0 == k);
        }
        if k == key {
            assert(grown[place].0 == k);
        }
        if holds_key(pairs, k) {
            let i = place_of(pairs, k);
            let to_i = if i < place { i } else { i + 1 };
            assert(grown[to_i].0 == k);
        }
    }
    let wanted = map_of(pairs).insert(key, value);
    assert forall|k: Seq<char>| holds_key(grown, k) implies map_of(grown)[k] == wanted[k] by {
        let i = place_of(grown, k);
        lemma_map_of_entry(grown, i);
        if k != key {
            let from_i = if i < place { i } else { i - 1 };
            assert(grown[i] == pairs[from_i]);
            lemma_map_of_entry(pairs, from_i);
        } else {
            lemma_ascending_keys_differ(grown, i, place);
        }
    }
    assert(map_of(grown) =~= wanted);
}

/// Giving the key at `place` another value keeps the sequence ascending and
/// changes the map at that key alone.
pub proof fn lemma_replace_value(
    pairs: Seq<(Seq<char>, Seq<char>)>,
    place: int,
    key: Seq<char>,
    value: Seq<char>,
)
    requires
        ascending(pairs),
        0 <= place < pairs.len(),
        pairs[place].0 == key,
    ensures
        map_of(pairs).contains_key(key),
        map_of(pairs)[key] == pairs[place].1,
        ascending(pairs.update(place, (key, value))),
        map_of(pairs.update(place, (key, value))) == map_of(pairs).insert(key, value),
{
    let changed = pairs.update(place, (key, value));
    lemma_map_of_entry(pairs, place);
    assert forall|i: int, j: int| 0 <= i < j < changed.len() implies key_before(
        #[trigger] changed[i].0,
        #[trigger] changed[j].0,
    ) by {
        assert(changed[i].0 == pairs[i].0);
        assert(changed[j].0 == pairs[j].0);
    }
    assert forall|k: Seq<char>| holds_key(changed, k) <==> (k == key || holds_key(pairs, k)) by {
        if holds_key(changed, k) {
            let i = place_of(changed, k);
            assert(pairs[i].0 == k);
        }
        if k == key {
            assert(changed[place].0 == k);
        }
        if holds_key(pairs, k) {
            let i = place_of(pairs, k);
            assert(changed[i].0 == k);
        }
    }
    let wanted = map_of(pairs).insert(key, value);
    assert forall|k: Seq<char>| holds_key(changed, k) implies map_of(changed)[k] == wanted[k] by {
        let i = place_of(changed, k);
        lemma_map_of_entry(changed, i);
        if k != key {
            assert(changed[i] == pairs[i]);
            lemma_map_of_entry(pairs, i);
        } else {
            lemma_ascending_keys_differ(changed, i, place);
        }
    }
    assert(map_of(changed) =~= wanted);
}

/// The keys of a descriptor that are not well known, each with the value that
/// was last given to it. The pairs are kept ascending by key, so no key occurs
/// twice and the order in which they are read out does not depend on the order
/// in which they came.
#[derive(Debug, PartialEq, Eq)]
pub struct ExtraMap {
    entries: Vec<(String, String)>,
}

impl View for ExtraMap {
    type V = Map<Seq<char>, Seq<char>>;

    open spec fn view(&self) -> Map<Seq<char>, Seq<char>> {
        map_of(self.pairs())
    }
}

impl Clone for ExtraMap {
    fn clone(&self) -> (copy: ExtraMap)
        ensures
            copy.pairs() == self.pairs(),
            copy@ == self@,
    {
        proof {
            use_type_invariant(self);
        }
        let mut entries: Vec<(String, String)> = Vec::new();
        let mut i: usize = 0;
        while i < self.entries.len()
            invariant
                i <= self.entries.len(),
                entries.len() == i,
                forall|j: int| 0 <= j < i ==> entries@[j] == self.entries@[j],
            decreases self.entries.len() - i,
        {
            entries.push((self.entries[i].0.clone(), self.entries[i].1.clone()));
            i += 1;
        }
        assert(entries@ =~= self.entries@);
        ExtraMap { entries }
    }
}

impl ExtraMap {
    /// The pairs of this map, in the order in which it keeps them.
    pub closed spec fn pairs(&self) -> Seq<(Seq<char>, Seq<char>)> {
        self.entries.deep_view()
    }

    #[verifier::type_invariant]
    spec fn well_formed(&self) -> bool {
        ascending(self.pairs())
    }

    /// A map without keys.
    pub fn new() -> (map: ExtraMap)
        ensures
            map.pairs() == Seq::<(Seq<char>, Seq<char>)>::empty(),
            map@ == Map::<Seq<char>, Seq<char>>::empty(),
    {
        let map = ExtraMap { entries: Vec::new() };
        assert(map.pairs() =~= Seq::<(Seq<char>, Seq<char>)>::empty());
        assert(map@ =~= Map::<Seq<char>, Seq<char>>::empty());
        map
    }

    /// The pairs in the order of their keys.
    pub fn entries(&self) -> (entries: &Vec<(String, String)>)
        ensures
            entries.deep_view() == self.pairs(),
            ascending(self.pairs()),
    {
        proof {
            use_type_invariant(self);
        }
        &self.entries
    }

    /// The number of keys.
    pub fn len(&self) -> (count: usize)
        ensures
            self@.dom().finite(),
            count == self@.len(),
    {
        proof {
            use_type_invariant(self);
            lemma_map_of_len(self.pairs());
        }
        self.entries.len()
    }

    /// The value of `key`, if the map holds that key.
    pub fn get(&self, key: &str) -> (value: Option<&String>)
        ensures
            match value {
                Some(text) => self@.contains_key(key@) && self@[key@] == text@,
                None => !self@.contains_key(key@),
            },
    {
        proof {
            use_type_invariant(self);
        }
        let (place, found) = self.locate(key);
        if found {
            proof {
                lemma_map_of_entry(self.pairs(), place as int);
            }
            Some(&self.entries[place].1)
        } else {
            proof {
                lemma_key_between_is_absent(self.pairs(), place as int, key@);
            }
            None
        }
    }

    /// Gives `key` the value `value`, whether or not the map held the key, and
    /// hands back the value that it had.
    pub fn insert(&mut self, key: String, value: String) -> (previous: Option<String>)
        ensures
            final(self)@ == old(self)@.insert(key@, value@),
            previous.deep_view() == if old(self)@.contains_key(key@) {
                Some(old(self)@[key@])
            } else {
                None
            },
    {
        proof {
            use_type_invariant(&*self);
        }
        let (place, found) = self.locate(key.as_str());
        let ghost before = self.pairs();
        let mut entries: Vec<(String, String)> = Vec::new();
        core::mem::swap(&mut self.entries, &mut entries);
        assert(entries.deep_view() == before);
        let previous = if found {
            let previous = entries[place].1.clone();
            entries[place] = (key, value);
            proof {
                lemma_replace_value(before, place as int, key@, value@);
                assert(entries.deep_view() =~= before.update(place as int, (key@, value@)));
            }
            Some(previous)
        } else {
            entries.insert(place, (key, value));
            proof {
                lemma_insert_new_key(before, place as int, key@, value@);
                assert(entries.deep_view() =~= before.insert(place as int, (key@, value@)));
            }
            None
        };
        self.entries = entries;
        previous
    }

    /// The place at which `key` stands or would have to stand, and whether it
    /// stands there.
    fn locate(&self, key: &str) -> (place: (usize, bool))
        ensures
            place.0 <= self.pairs().len(),
            forall|j: int| 0 <= j < place.0 ==> key_before(#[trigger] self.pairs()[j].0, key@),
            place.1 ==> place.0 < self.pairs().len() && self.pairs()[place.0 as int].0 == key@,
            !place.1 ==> forall|j: int|
                place.0 <= j < self.pairs().len() ==> key_before(
                    key@,
                    #[trigger] self.pairs()[j].0,
                ),
    {
        proof {
            use_type_invariant(self);
        }
        let mut low: usize = 0;
        let mut high: usize = self.entries.len();
        while low < high
            invariant
                low <= high <= self.entries.len(),
                self.entries.len() == self.pairs().len(),
                ascending(self.pairs()),
                forall|j: int| 0 <= j < low ==> key_before(#[trigger] self.pairs()[j].0, key@),
                forall|j: int|
                    high <= j < self.pairs().len() ==> key_before(
                        key@,
                        #[trigger] self.pairs()[j].0,
                    ),
            decreases high - low,
        {
            let middle = low + (high - low) / 2;
            let ghost pivot = self.pairs()[middle as int].0;
            match compare_keys(self.entries[middle].0.as_str(), key) {
                Side::Before => {
                    assert forall|j: int| 0 <= j < middle + 1 implies key_before(
                        #[trigger] self.pairs()[j].0,
                        key@,
                    ) by {
                        if j < middle {
                            lemma_bytes_before_transitive(
                                encode_utf8(self.pairs()[j].0),
                                encode_utf8(pivot),
                                encode_utf8(key@),
                            );
                        }
                    }
                    low = middle + 1;
                },
                Side::Same => {
                    return (middle, true);
                },
                Side::After => {
                    assert forall|j: int| middle <= j < self.pairs().len() implies key_before(
                        key@,
                        #[trigger] self.pairs()[j].0,
                    ) by {
                        if middle < j {
                            lemma_bytes_before_transitive(
                                encode_utf8(key@),
                                encode_utf8(pivot),
                                encode_utf8(self.pairs()[j].0),
                            );
                        }
                    }
                    high = middle;
                },
            }
        }
        (low, false)
    }
}

} // verus!
