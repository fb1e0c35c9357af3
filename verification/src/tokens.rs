//! The substitution values of one recipient: a finite map from token name to
//! the text that replaces it.

use vstd::prelude::*;
use crate::text::same_text;

verus! {

/// The map that a sequence of `(name, value)` pairs describes: each pair is
/// inserted in turn, so a later pair with the same name overrides an earlier
/// one.
pub open spec fn map_of_pairs(pairs: Seq<(String, String)>) -> Map<Seq<char>, Seq<char>>
    decreases pairs.len(),
{
    if pairs.len() == 0 {
        Map::empty()
    } else {
        map_of_pairs(pairs.drop_last()).insert(pairs.last().0@, pairs.last().1@)
    }
}

/// No two pairs carry the same name.
pub open spec fn distinct_names(pairs: Seq<(String, String)>) -> bool {
    forall|i: int, j: int| 0 <= i < j < pairs.len() ==> pairs[i].0@ != pairs[j].0@
}

/// A pair whose name occurs nowhere else decides what the map holds under
/// that name.
proof fn lemma_pair_is_mapped(pairs: Seq<(String, String)>, i: int)
    requires
        distinct_names(pairs),
        0 <= i < pairs.len(),
    ensures
        map_of_pairs(pairs).contains_key(pairs[i].0@),
        map_of_pairs(pairs)[pairs[i].0@] == pairs[i].1@,
    decreases pairs.len(),
{
    if i < pairs.len() - 1 {
        lemma_pair_is_mapped(pairs.drop_last(), i);
    }
}

/// A name that no pair carries is not in the map.
proof fn lemma_name_is_absent(pairs: Seq<(String, String)>, name: Seq<char>)
    requires
        forall|i: int| 0 <= i < pairs.len() ==> pairs[i].0@ != name,
    ensures
        !map_of_pairs(pairs).contains_key(name),
    decreases pairs.len(),
{
    if pairs.len() > 0 {
        lemma_name_is_absent(pairs.drop_last(), name);
    }
}

/// Replacing the value of the pair at `i` is an insertion under its name.
proof fn lemma_replace_is_insert(pairs: Seq<(String, String)>, i: int, pair: (String, String))
    requires
        distinct_names(pairs),
        0 <= i < pairs.len(),
        pairs[i].0@ == pair.0@,
    ensures
        map_of_pairs(pairs.update(i, pair)) == map_of_pairs(pairs).insert(pair.0@, pair.1@),
        distinct_names(pairs.update(i, pair)),
    decreases pairs.len(),
{
    let updated = pairs.update(i, pair);
    if i == pairs.len() - 1 {
        assert(updated.drop_last() == pairs.drop_last());
        assert(map_of_pairs(updated) == map_of_pairs(pairs).insert(pair.0@, pair.1@));
    } else {
        lemma_replace_is_insert(pairs.drop_last(), i, pair);
        assert(updated.drop_last() == pairs.drop_last().update(i, pair));
        assert(updated.last() == pairs.last());
        assert(pairs.last().0@ != pair.0@);
        assert(map_of_pairs(updated) == map_of_pairs(pairs).insert(pair.0@, pair.1@));
    }
}

/// With distinct names the map has as many entries as there are pairs.
proof fn lemma_size(pairs: Seq<(String, String)>)
    requires
        distinct_names(pairs),
    ensures
        map_of_pairs(pairs).dom().finite(),
        map_of_pairs(pairs).len() == pairs.len(),
    decreases pairs.len(),
{
    if pairs.len() > 0 {
        lemma_size(pairs.drop_last());
        lemma_name_is_absent(pairs.drop_last(), pairs.last().0@);
    }
}

/// A finite map from token name to substitution value, names unique.
pub struct TokenMap {
    entries: Vec<(String, String)>,
}

impl View for TokenMap {
    type V = Map<Seq<char>, Seq<char>>;

    closed spec fn view(&self) -> Map<Seq<char>, Seq<char>> {
        map_of_pairs(self.entries@)
    }
}

impl TokenMap {
    #[verifier::type_invariant]
    spec fn names_unique(&self) -> bool {
        distinct_names(self.entries@)
    }

    /// The empty map.
    pub fn new() -> (tokens: Self)
        ensures
            tokens@ == Map::<Seq<char>, Seq<char>>::empty(),
    {
        Self { entries: Vec::new() }
    }

    /// The position of the entry called `name`, if there is one.
    fn position(&self, name: &str) -> (found: Option<usize>)
        ensures
            match found {
                Some(i) => i < self.entries@.len() && self.entries@[i as int].0@ == name@,
                None => forall|k: int| 0 <= k < self.entries@.len() ==> self.entries@[k].0@ != name@,
            },
    {
        let mut i: usize = 0;
        while i < self.entries.len()
            invariant
                i <= self.entries@.len(),
                forall|k: int| 0 <= k < i ==> self.entries@[k].0@ != name@,
            decreases self.entries@.len() - i,
        {
            if same_text(self.entries[i].0.as_str(), name) {
                return Some(i);
            }
            i += 1;
        }
        None
    }

    /// The value under `name`, if the map holds one.
    pub fn get(&self, name: &str) -> (value: Option<&String>)
        ensures
            match value {
                Some(v) => self@.contains_key(name@) && v@ == self@[name@],
                None => !self@.contains_key(name@),
            },
    {
        proof {
            use_type_invariant(self);
        }
        match self.position(name) {
            Some(i) => {
                proof {
                    lemma_pair_is_mapped(self.entries@, i as int);
                }
                Some(&self.entries[i].1)
            },
            None => {
                proof {
                    lemma_name_is_absent(self.entries@, name@);
                }
                None
            },
        }
    }

    /// Whether the map holds a value under `name`.
    pub fn contains_key(&self, name: &str) -> (present: bool)
        ensures
            present == self@.contains_key(name@),
    {
        self.get(name).is_some()
    }

    /// Puts `value` under `name`, in place of what was there.
    pub fn insert(&mut self, name: String, value: String)
        ensures
            final(self)@ == old(self)@.insert(name@, value@),
    {
        proof {
            use_type_invariant(&*self);
        }
        let found = self.position(name.as_str());
        let mut entries: Vec<(String, String)> = Vec::new();
        core::mem::swap(&mut entries, &mut self.entries);
        match found {
            Some(i) => {
                proof {
                    lemma_replace_is_insert(entries@, i as int, (name, value));
                }
                entries.set(i, (name, value));
            },
            None => {
                proof {
                    assert(entries@.push((name, value)).drop_last() == entries@);
                }
                entries.push((name, value));
            },
        }
        *self = Self { entries };
    }

    /// The number of names in the map.
    pub fn len(&self) -> (n: usize)
        ensures
            self@.dom().finite(),
            n == self@.len(),
    {
        proof {
            use_type_invariant(self);
            lemma_size(self.entries@);
        }
        self.entries.len()
    }

    /// Whether the map holds no name at all.
    pub fn is_empty(&self) -> (empty: bool)
        ensures
            empty == (self@ == Map::<Seq<char>, Seq<char>>::empty()),
    {
        proof {
            use_type_invariant(self);
            lemma_size(self.entries@);
            if self.entries@.len() == 0 {
            } else {
                lemma_pair_is_mapped(self.entries@, 0);
            }
        }
        self.entries.len() == 0
    }

    /// The names with their values, each name once.
    pub fn pairs(&self) -> (pairs: Vec<(String, String)>)
        ensures
            distinct_names(pairs@),
            map_of_pairs(pairs@) == self@,
    {
        proof {
            use_type_invariant(self);
        }
        let mut pairs: Vec<(String, String)> = Vec::new();
        let mut i: usize = 0;
        while i < self.entries.len()
            invariant
                i <= self.entries@.len(),
                pairs@ == self.entries@.take(i as int),
            decreases self.entries@.len() - i,
        {
            let entry = &self.entries[i];
            pairs.push((entry.0.clone(), entry.1.clone()));
            i += 1;
        }
        proof {
            assert(pairs@ == self.entries@);
        }
        pairs
    }
}

/// The order in which two different names are put into a map makes no
/// difference.
pub proof fn lemma_insert_order(
    tokens: Map<Seq<char>, Seq<char>>,
    name: Seq<char>,
    value: Seq<char>,
    other_name: Seq<char>,
    other_value: Seq<char>,
)
    requires
        name != other_name,
    ensures
        tokens.insert(name, value).insert(other_name, other_value) == tokens.insert(
            other_name,
            other_value,
        ).insert(name, value),
{
}

} // verus!
