//! A finite mapping from text keys to text values.

use vstd::prelude::*;

verus! {

/// A key and its text.
pub type Pair = (Seq<char>, Seq<char>);

/// The mapping that a sequence of key-value pairs stands for: a later pair
/// overrides an earlier one with the same key.
pub open spec fn map_of(pairs: Seq<Pair>) -> Map<Seq<char>, Seq<char>>
    decreases pairs.len(),
{
    if pairs.len() == 0 {
        Map::empty()
    } else {
        map_of(pairs.drop_last()).insert(pairs.last().0, pairs.last().1)
    }
}

/// No key stands twice in `pairs`.
pub open spec fn distinct_keys(pairs: Seq<Pair>) -> bool {
    forall|i: int, j: int| 0 <= i < j < pairs.len() ==> pairs[i].0 != pairs[j].0
}

/// Some pair has that key.
pub open spec fn has_key(pairs: Seq<Pair>, key: Seq<char>) -> bool {
    exists|i: int| 0 <= i < pairs.len() && pairs[i].0 == key
}

/// The keys of the mapping are the keys of the pairs.
pub proof fn lemma_map_of_dom(pairs: Seq<Pair>, key: Seq<char>)
    ensures
        map_of(pairs).dom().contains(key) <==> has_key(pairs, key),
        map_of(pairs).dom().finite(),
    decreases pairs.len(),
{
    if pairs.len() > 0 {
        let front = pairs.drop_last();
        lemma_map_of_dom(front, key);
        if has_key(front, key) {
            let i = choose|i: int| 0 <= i < front.len() && front[i].0 == key;
            assert(pairs[i].0 == key);
        }
        if has_key(pairs, key) {
            let i = choose|i: int| 0 <= i < pairs.len() && pairs[i].0 == key;
            if i < front.len() {
                assert(front[i].0 == key);
            }
        }
        if pairs.last().0 == key {
            assert(pairs[pairs.len() - 1].0 == key);
        }
    }
}

/// Where no key stands twice, every pair is in the mapping.
pub proof fn lemma_map_of_index(pairs: Seq<Pair>, i: int)
    requires
        distinct_keys(pairs),
        0 <= i < pairs.len(),
    ensures
        map_of(pairs).dom().contains(pairs[i].0),
        map_of(pairs)[pairs[i].0] == pairs[i].1,
    decreases pairs.len(),
{
    let front = pairs.drop_last();
    if i < pairs.len() - 1 {
        assert(distinct_keys(front));
        lemma_map_of_index(front, i);
        assert(pairs[i].0 != pairs[pairs.len() - 1].0);
    }
}

/// Where no key stands twice, the mapping has as many keys as there are pairs.
pub proof fn lemma_map_of_len(pairs: Seq<Pair>)
    requires
        distinct_keys(pairs),
    ensures
        map_of(pairs).dom().finite(),
        map_of(pairs).dom().len() == pairs.len(),
    decreases pairs.len(),
{
    lemma_map_of_dom(pairs, Seq::empty());
    if pairs.len() > 0 {
        let front = pairs.drop_last();
        assert(distinct_keys(front));
        lemma_map_of_len(front);
        lemma_map_of_dom(front, pairs.last().0);
        if has_key(front, pairs.last().0) {
            let i = choose|i: int| 0 <= i < front.len() && front[i].0 == pairs.last().0;
            assert(pairs[i].0 == pairs[pairs.len() - 1].0);
        }
    }
}

/// One more pair at the end is one more insertion.
pub proof fn lemma_map_of_push(pairs: Seq<Pair>, key: Seq<char>, value: Seq<char>)
    ensures
        map_of(pairs.push((key, value))) == map_of(pairs).insert(key, value),
{
    assert(pairs.push((key, value)).drop_last() == pairs);
}

/// Where no key stands twice, a new text for the key of a pair is an
/// insertion under that key.
pub proof fn lemma_map_of_update(pairs: Seq<Pair>, i: int, value: Seq<char>)
    requires
        distinct_keys(pairs),
        0 <= i < pairs.len(),
    ensures
        distinct_keys(pairs.update(i, (pairs[i].0, value))),
        map_of(pairs.update(i, (pairs[i].0, value))) == map_of(pairs).insert(pairs[i].0, value),
    decreases pairs.len(),
{
    let key = pairs[i].0;
    let changed = pairs.update(i, (key, value));
    let front = pairs.drop_last();
    assert(distinct_keys(front));
    if i == pairs.len() - 1 {
        assert(changed.drop_last() == front);
        assert(map_of(changed) =~= map_of(pairs).insert(key, value));
    } else {
        lemma_map_of_update(front, i, value);
        assert(changed.drop_last() == front.update(i, (key, value)));
        assert(pairs[i].0 != pairs[pairs.len() - 1].0);
        assert(map_of(changed) =~= map_of(pairs).insert(key, value));
    }
}

/// A mapping from translation keys to texts.  No key occurs twice.
#[derive(Debug)]
pub struct TextMap {
    entries: Vec<(String, String)>,
}

impl View for TextMap {
    type V = Map<Seq<char>, Seq<char>>;

    closed spec fn view(&self) -> Map<Seq<char>, Seq<char>> {
        map_of(self.pairs())
    }
}

impl TextMap {
    /// The pairs in the order in which their keys first came in.
    pub closed spec fn pairs(&self) -> Seq<Pair> {
        self.entries@.map_values(|p: (String, String)| (p.0@, p.1@))
    }

    #[verifier::type_invariant]
    closed spec fn inv(&self) -> bool {
        distinct_keys(self.pairs())
    }

    /// The empty mapping.
    pub fn new() -> (m: TextMap)
        ensures
            m@ == Map::<Seq<char>, Seq<char>>::empty(),
            m.pairs() == Seq::<Pair>::empty(),
    {
        let m = TextMap { entries: Vec::new() };
        assert(m.pairs() =~= Seq::<Pair>::empty());
        m
    }

    /// Index of `key` among the entries.
    fn position(&self, key: &String) -> (r: Option<usize>)
        ensures
            r matches Some(i) ==> i < self.pairs().len() && self.pairs()[i as int].0 == key@,
            r is None ==> !has_key(self.pairs(), key@),
    {
        let mut i: usize = 0;
        while i < self.entries.len()
            invariant
                i <= self.entries.len(),
                forall|j: int| 0 <= j < i ==> self.pairs()[j].0 != key@,
            decreases self.entries.len() - i,
        {
            if self.entries[i].0 == *key {
                return Some(i);
            }
            i += 1;
        }
        None
    }

    /// Number of keys.
    pub fn len(&self) -> (n: usize)
        ensures
            n == self@.dom().len(),
            n == self.pairs().len(),
            self@.dom().finite(),
    {
        proof {
            use_type_invariant(self);
            lemma_map_of_len(self.pairs());
        }
        self.entries.len()
    }

    /// Whether the mapping has no key.
    pub fn is_empty(&self) -> (b: bool)
        ensures
            b == (self@.dom().len() == 0),
            self@.dom().finite(),
    {
        self.len() == 0
    }

    /// Whether `key` has a text.
    pub fn contains_key(&self, key: &str) -> (b: bool)
        ensures
            b == self@.dom().contains(key@),
    {
        let k = key.to_owned();
        proof {
            lemma_map_of_dom(self.pairs(), key@);
        }
        self.position(&k).is_some()
    }

    /// The text stored under `key`.
    pub fn get(&self, key: &str) -> (r: Option<String>)
        ensures
            r is Some <==> self@.dom().contains(key@),
            r matches Some(v) ==> v@ == self@[key@],
    {
        let k = key.to_owned();
        proof {
            use_type_invariant(self);
            lemma_map_of_dom(self.pairs(), key@);
        }
        match self.position(&k) {
            Some(i) => {
                proof {
                    lemma_map_of_index(self.pairs(), i as int);
                }
                Some(self.entries[i].1.clone())
            },
            None => None,
        }
    }

    /// Stores `value` under `key`, replacing what stood there.
    pub fn insert(&mut self, key: String, value: String)
        ensures
            final(self)@ == old(self)@.insert(key@, value@),
    {
        proof {
            use_type_invariant(&*self);
        }
        let ghost before = self.pairs();
        let found = self.position(&key);
        let mut entries: Vec<(String, String)> = Vec::new();
        proof {
            assert(entries@.map_values(|p: (String, String)| (p.0@, p.1@)) =~= Seq::<Pair>::empty());
        }
        core::mem::swap(&mut self.entries, &mut entries);
        match found {
            Some(i) => {
                entries.set(i, (key, value));
                proof {
                    let after = entries@.map_values(|p: (String, String)| (p.0@, p.1@));
                    assert(after =~= before.update(i as int, (key@, value@)));
                    lemma_map_of_update(before, i as int, value@);
                }
                self.entries = entries;
            },
            None => {
                entries.push((key, value));
                proof {
                    let after = entries@.map_values(|p: (String, String)| (p.0@, p.1@));
                    assert(after =~= before.push((key@, value@)));
                    lemma_map_of_push(before, key@, value@);
                    assert forall|i: int, j: int| 0 <= i < j < after.len() implies after[i].0
                        != after[j].0 by {
                        if j == before.len() {
                            assert(before[i].0 == after[i].0);
                        }
                    }
                }
                self.entries = entries;
            },
        }
    }

    /// The pairs of the mapping, in the order in which their keys first
    /// came in.
    pub fn to_pairs(&self) -> (r: Vec<(String, String)>)
        ensures
            r@.map_values(|p: (String, String)| (p.0@, p.1@)) == self.pairs(),
            distinct_keys(self.pairs()),
            map_of(self.pairs()) == self@,
    {
        proof {
            use_type_invariant(self);
        }
        let mut r: Vec<(String, String)> = Vec::new();
        let mut i: usize = 0;
        while i < self.entries.len()
            invariant
                i <= self.entries.len(),
                r@.map_values(|p: (String, String)| (p.0@, p.1@)) == self.pairs().take(i as int),
            decreases self.entries.len() - i,
        {
            let ghost before = r@.map_values(|p: (String, String)| (p.0@, p.1@));
            let key = self.entries[i].0.clone();
            let value = self.entries[i].1.clone();
            r.push((key, value));
            proof {
                assert(r@.map_values(|p: (String, String)| (p.0@, p.1@)) =~= before.push(
                    (key@, value@),
                ));
                assert(self.pairs().take(i + 1) =~= self.pairs().take(i as int).push(
                    (key@, value@),
                ));
            }
            i += 1;
        }
        proof {
            assert(self.pairs().take(self.pairs().len() as int) == self.pairs());
        }
        r
    }

    /// The key and the text of the entry at `index`.
    pub fn entry(&self, index: usize) -> (r: (String, String))
        requires
            index < self.pairs().len(),
        ensures
            (r.0@, r.1@) == self.pairs()[index as int],
            self@.dom().contains(r.0@),
            self@[r.0@] == r.1@,
    {
        proof {
            use_type_invariant(self);
            lemma_map_of_index(self.pairs(), index as int);
        }
        (self.entries[index].0.clone(), self.entries[index].1.clone())
    }
}

} // verus!
