//! A mapping from names to values, both strings.
//!
//! [`Variables`] keeps its pairs in a vector and holds no key twice. What it
//! means is its view, a `Map` from the characters of a key to the characters
//! of its value: two values with the same view are equal, whatever the order
//! of their pairs. A key is found by going through the pairs, which suits
//! the few dozen variables of a file or of a process.

use vstd::prelude::*;
use vstd::set_lib::lemma_subset_equality;
use vstd::std_specs::cmp::PartialEqSpecImpl;

verus! {

/// The mapping that a sequence of pairs describes when each pair in turn
/// assigns its value to its key: of two pairs with one key the later counts.
pub open spec fn map_of_pairs(pairs: Seq<(String, String)>) -> Map<Seq<char>, Seq<char>>
    decreases pairs.len(),
{
    if pairs.len() == 0 {
        Map::empty()
    } else {
        map_of_pairs(pairs.drop_last()).insert(pairs.last().0@, pairs.last().1@)
    }
}

/// No two pairs have the same key.
pub open spec fn keys_distinct(pairs: Seq<(String, String)>) -> bool {
    forall|i: int, j: int|
        0 <= i < j < pairs.len() ==> (#[trigger] pairs[i]).0@ != (#[trigger] pairs[j]).0@
}

/// The keys of [`map_of_pairs`] are the keys of the pairs, so there are
/// finitely many and no more than there are pairs.
pub proof fn lemma_map_of_pairs_keys(pairs: Seq<(String, String)>)
    ensures
        map_of_pairs(pairs).dom().finite(),
        map_of_pairs(pairs).dom().len() <= pairs.len(),
        forall|k: Seq<char>|
            map_of_pairs(pairs).contains_key(k) <==> exists|i: int|
                0 <= i < pairs.len() && (#[trigger] pairs[i]).0@ == k,
    decreases pairs.len(),
{
    if pairs.len() > 0 {
        let front = pairs.drop_last();
        let last = pairs.last();
        lemma_map_of_pairs_keys(front);
        assert forall|k: Seq<char>|
            map_of_pairs(pairs).contains_key(k) <==> exists|i: int|
                0 <= i < pairs.len() && (#[trigger] pairs[i]).0@ == k by {
            if map_of_pairs(pairs).contains_key(k) {
                if k == last.0@ {
                    assert(pairs[pairs.len() - 1].0@ == k);
                } else {
                    let i = choose|i: int| 0 <= i < front.len() && (#[trigger] front[i]).0@ == k;
                    assert(pairs[i].0@ == k);
                }
            }
            if exists|i: int| 0 <= i < pairs.len() && (#[trigger] pairs[i]).0@ == k {
                let i = choose|i: int| 0 <= i < pairs.len() && (#[trigger] pairs[i]).0@ == k;
                if i < front.len() {
                    assert(front[i].0@ == k);
                }
            }
        }
    }
}

/// Where no key occurs twice, [`map_of_pairs`] has as many keys as there are
/// pairs and gives each key the value of its pair.
pub proof fn lemma_map_of_distinct_pairs(pairs: Seq<(String, String)>)
    requires
        keys_distinct(pairs),
    ensures
        map_of_pairs(pairs).dom().len() == pairs.len(),
        forall|i: int|
            0 <= i < pairs.len() ==> map_of_pairs(pairs).contains_key((#[trigger] pairs[i]).0@)
                && map_of_pairs(pairs)[pairs[i].0@] == pairs[i].1@,
    decreases pairs.len(),
{
    if pairs.len() > 0 {
        let front = pairs.drop_last();
        let last = pairs.last();
        assert(keys_distinct(front)) by {
            assert forall|i: int, j: int| 0 <= i < j < front.len() implies (#[trigger] front[i]).0@
                != (#[trigger] front[j]).0@ by {
                assert(pairs[i].0@ != pairs[j].0@);
            }
        }
        lemma_map_of_distinct_pairs(front);
        lemma_map_of_pairs_keys(front);
        assert(!map_of_pairs(front).contains_key(last.0@)) by {
            if map_of_pairs(front).contains_key(last.0@) {
                let i = choose|i: int| 0 <= i < front.len() && (#[trigger] front[i]).0@ == last.0@;
                assert(pairs[i].0@ != pairs[pairs.len() - 1].0@);
            }
        }
        assert forall|i: int| 0 <= i < pairs.len() implies map_of_pairs(pairs).contains_key(
            (#[trigger] pairs[i]).0@,
        ) && map_of_pairs(pairs)[pairs[i].0@] == pairs[i].1@ by {
            if i < front.len() {
                assert(front[i] == pairs[i]);
                assert(map_of_pairs(front).contains_key(front[i].0@));
            }
        }
    }
}

/// Giving the pair at `i` another value, under the key it has, assigns that
/// value to the key and changes nothing else.
pub proof fn lemma_map_of_pairs_update(pairs: Seq<(String, String)>, i: int, e: (String, String))
    requires
        keys_distinct(pairs),
        0 <= i < pairs.len(),
        e.0@ == pairs[i].0@,
    ensures
        keys_distinct(pairs.update(i, e)),
        map_of_pairs(pairs.update(i, e)) == map_of_pairs(pairs).insert(e.0@, e.1@),
{
    let changed = pairs.update(i, e);
    assert(keys_distinct(changed)) by {
        assert forall|a: int, b: int| 0 <= a < b < changed.len() implies (#[trigger] changed[a]).0@
            != (#[trigger] changed[b]).0@ by {
            assert(pairs[a].0@ != pairs[b].0@);
        }
    }
    lemma_map_of_pairs_keys(pairs);
    lemma_map_of_pairs_keys(changed);
    lemma_map_of_distinct_pairs(pairs);
    lemma_map_of_distinct_pairs(changed);
    let left = map_of_pairs(changed);
    let right = map_of_pairs(pairs).insert(e.0@, e.1@);
    assert forall|k: Seq<char>| left.contains_key(k) <==> right.contains_key(k) by {
        if left.contains_key(k) {
            let j = choose|j: int| 0 <= j < changed.len() && (#[trigger] changed[j]).0@ == k;
            assert(pairs[j].0@ == k);
        }
        if right.contains_key(k) {
            if k != e.0@ {
                let j = choose|j: int| 0 <= j < pairs.len() && (#[trigger] pairs[j]).0@ == k;
                assert(changed[j].0@ == k);
            } else {
                assert(changed[i].0@ == k);
            }
        }
    }
    assert forall|k: Seq<char>| left.contains_key(k) implies left[k] == right[k] by {
        let j = choose|j: int| 0 <= j < changed.len() && (#[trigger] changed[j]).0@ == k;
        assert(left[changed[j].0@] == changed[j].1@);
        assert(map_of_pairs(pairs)[pairs[j].0@] == pairs[j].1@);
        if j != i {
            assert(pairs[j].0@ != pairs[i].0@);
        }
    }
    assert(left =~= right);
}

/// The order of the pairs does not matter where no key occurs twice: two
/// sequences that hold the same keys with the same values describe the same
/// mapping.
pub proof fn lemma_order_is_irrelevant(a: Seq<(String, String)>, b: Seq<(String, String)>)
    requires
        keys_distinct(a),
        keys_distinct(b),
        forall|i: int|
            0 <= i < a.len() ==> exists|j: int|
                0 <= j < b.len() && (#[trigger] b[j]).0@ == (#[trigger] a[i]).0@ && b[j].1@
                    == a[i].1@,
        forall|j: int|
            0 <= j < b.len() ==> exists|i: int|
                0 <= i < a.len() && (#[trigger] a[i]).0@ == (#[trigger] b[j]).0@ && a[i].1@
                    == b[j].1@,
    ensures
        map_of_pairs(a) == map_of_pairs(b),
{
    lemma_map_of_pairs_keys(a);
    lemma_map_of_pairs_keys(b);
    lemma_map_of_distinct_pairs(a);
    lemma_map_of_distinct_pairs(b);
    let left = map_of_pairs(a);
    let right = map_of_pairs(b);
    assert forall|k: Seq<char>| left.contains_key(k) implies right.contains_key(k) && left[k]
        == right[k] by {
        let i = choose|i: int| 0 <= i < a.len() && (#[trigger] a[i]).0@ == k;
        let j = choose|j: int|
            0 <= j < b.len() && (#[trigger] b[j]).0@ == a[i].0@ && b[j].1@ == a[i].1@;
        assert(right.contains_key(b[j].0@));
    }
    assert forall|k: Seq<char>| right.contains_key(k) implies left.contains_key(k) by {
        let j = choose|j: int| 0 <= j < b.len() && (#[trigger] b[j]).0@ == k;
        let i = choose|i: int|
            0 <= i < a.len() && (#[trigger] a[i]).0@ == b[j].0@ && a[i].1@ == b[j].1@;
        assert(left.contains_key(a[i].0@));
    }
    assert(left =~= right);
}

/// A finite mapping from names to values.
#[derive(Debug)]
pub struct Variables {
    entries: Vec<(String, String)>,
}

impl View for Variables {
    type V = Map<Seq<char>, Seq<char>>;

    closed spec fn view(&self) -> Map<Seq<char>, Seq<char>> {
        map_of_pairs(self.entries@)
    }
}

impl Clone for Variables {
    fn clone(&self) -> (copy: Self)
        ensures
            copy@ == self@,
    {
        proof {
            use_type_invariant(self);
        }
        let mut entries: Vec<(String, String)> = Vec::new();
        let mut i: usize = 0;
        while i < self.entries.len()
            invariant
                i <= self.entries@.len(),
                entries@.len() == i,
                forall|j: int| 0 <= j < i ==> entries@[j] == self.entries@[j],
            decreases self.entries@.len() - i,
        {
            entries.push((self.entries[i].0.clone(), self.entries[i].1.clone()));
            i += 1;
        }
        assert(entries@ =~= self.entries@);
        Variables { entries }
    }
}

impl PartialEq for Variables {
    /// Two values are equal where they are the same mapping, whatever the
    /// order of their pairs.
    fn eq(&self, other: &Self) -> (equal: bool) {
        proof {
            use_type_invariant(self);
            use_type_invariant(other);
            lemma_map_of_pairs_keys(self.entries@);
            lemma_map_of_pairs_keys(other.entries@);
            lemma_map_of_distinct_pairs(self.entries@);
            lemma_map_of_distinct_pairs(other.entries@);
        }
        if self.entries.len() != other.entries.len() {
            return false;
        }
        let mut i: usize = 0;
        while i < self.entries.len()
            invariant
                i <= self.entries@.len(),
                self@ == map_of_pairs(self.entries@),
                other@ == map_of_pairs(other.entries@),
                forall|j: int|
                    0 <= j < self.entries@.len() ==> self@.contains_key(
                        (#[trigger] self.entries@[j]).0@,
                    ) && self@[self.entries@[j].0@] == self.entries@[j].1@,
                forall|j: int|
                    0 <= j < other.entries@.len() ==> other@.contains_key(
                        (#[trigger] other.entries@[j]).0@,
                    ) && other@[other.entries@[j].0@] == other.entries@[j].1@,
                forall|k: Seq<char>|
                    other@.contains_key(k) <==> exists|j: int|
                        0 <= j < other.entries@.len() && (#[trigger] other.entries@[j]).0@ == k,
                forall|j: int|
                    0 <= j < i ==> other@.contains_key((#[trigger] self.entries@[j]).0@)
                        && other@[self.entries@[j].0@] == self.entries@[j].1@,
            decreases self.entries@.len() - i,
        {
            match other.position(&self.entries[i].0) {
                Some(at) => {
                    if !(other.entries[at].1 == self.entries[i].1) {
                        assert(other@[self.entries@[i as int].0@] == other.entries@[at as int].1@);
                        assert(self@[self.entries@[i as int].0@] == self.entries@[i as int].1@);
                        return false;
                    }
                    assert(other@[other.entries@[at as int].0@] == other.entries@[at as int].1@);
                },
                None => {
                    assert(self@.contains_key(self.entries@[i as int].0@));
                    assert(!other@.contains_key(self.entries@[i as int].0@));
                    return false;
                },
            }
            i += 1;
        }
        proof {
            assert forall|k: Seq<char>| self@.contains_key(k) implies other@.contains_key(k)
                && self@[k] == other@[k] by {
                let j = choose|j: int|
                    0 <= j < self.entries@.len() && (#[trigger] self.entries@[j]).0@ == k;
                assert(other@.contains_key(self.entries@[j].0@));
            }
            assert(self@.dom().subset_of(other@.dom()));
            lemma_subset_equality(self@.dom(), other@.dom());
            assert(self@ =~= other@);
        }
        true
    }
}

impl Eq for Variables {
}

impl PartialEqSpecImpl for Variables {
    open spec fn obeys_eq_spec() -> bool {
        true
    }

    open spec fn eq_spec(&self, other: &Self) -> bool {
        self@ == other@
    }
}

impl Variables {
    #[verifier::type_invariant]
    spec fn well_formed(self) -> bool {
        keys_distinct(self.entries@)
    }

    /// The mapping without any key.
    pub fn new() -> (vars: Self)
        ensures
            vars@ == Map::<Seq<char>, Seq<char>>::empty(),
    {
        Variables { entries: Vec::new() }
    }

    /// The mapping of the pairs in order: a later pair replaces the value of
    /// an earlier one with the same key.
    pub fn from_pairs(pairs: &Vec<(String, String)>) -> (vars: Self)
        ensures
            vars@ == map_of_pairs(pairs@),
    {
        let mut vars = Variables::new();
        let mut i: usize = 0;
        while i < pairs.len()
            invariant
                i <= pairs.len(),
                vars@ == map_of_pairs(pairs@.take(i as int)),
            decreases pairs.len() - i,
        {
            assert(pairs@.take(i + 1).drop_last() =~= pairs@.take(i as int));
            vars.insert(pairs[i].0.clone(), pairs[i].1.clone());
            i += 1;
        }
        assert(pairs@.take(i as int) =~= pairs@);
        vars
    }

    /// The number of keys.
    pub fn len(&self) -> (n: usize)
        ensures
            n == self@.len(),
            self@.dom().finite(),
    {
        proof {
            use_type_invariant(self);
            lemma_map_of_distinct_pairs(self.entries@);
            lemma_map_of_pairs_keys(self.entries@);
        }
        self.entries.len()
    }

    /// Whether there is no key.
    pub fn is_empty(&self) -> (b: bool)
        ensures
            b == (self@ == Map::<Seq<char>, Seq<char>>::empty()),
    {
        proof {
            use_type_invariant(self);
            lemma_map_of_distinct_pairs(self.entries@);
            lemma_map_of_pairs_keys(self.entries@);
            if self.entries@.len() == 0 {
                assert(self@ =~= Map::<Seq<char>, Seq<char>>::empty());
            } else {
                assert(self@.contains_key(self.entries@[0].0@));
            }
        }
        self.entries.len() == 0
    }

    fn position(&self, key: &String) -> (r: Option<usize>)
        ensures
            match r {
                Some(i) => i < self.entries@.len() && self.entries@[i as int].0@ == key@,
                None => forall|j: int|
                    0 <= j < self.entries@.len() ==> (#[trigger] self.entries@[j]).0@ != key@,
            },
    {
        let mut i: usize = 0;
        while i < self.entries.len()
            invariant
                i <= self.entries@.len(),
                forall|j: int| 0 <= j < i ==> (#[trigger] self.entries@[j]).0@ != key@,
            decreases self.entries@.len() - i,
        {
            if self.entries[i].0 == *key {
                return Some(i);
            }
            i += 1;
        }
        None
    }

    /// The value of `key`, if it has one.
    pub fn get(&self, key: &str) -> (r: Option<&String>)
        ensures
            match r {
                Some(value) => self@.contains_key(key@) && value@ == self@[key@],
                None => !self@.contains_key(key@),
            },
    {
        proof {
            use_type_invariant(self);
            lemma_map_of_distinct_pairs(self.entries@);
            lemma_map_of_pairs_keys(self.entries@);
        }
        let owned = key.to_owned();
        match self.position(&owned) {
            Some(i) => {
                assert(self.entries@[i as int].0@ == key@);
                Some(&self.entries[i].1)
            },
            None => None,
        }
    }

    /// Whether `key` has a value.
    pub fn contains_key(&self, key: &str) -> (b: bool)
        ensures
            b == self@.contains_key(key@),
    {
        self.get(key).is_some()
    }

    /// Gives `key` the value `value`, in place of the one it had, if any.
    pub fn insert(&mut self, key: String, value: String)
        ensures
            final(self)@ == old(self)@.insert(key@, value@),
    {
        proof {
            use_type_invariant(&*self);
        }
        let found = self.position(&key);
        // The pairs leave the value while they change, so that it is well
        // formed at every step.
        let mut entries: Vec<(String, String)> = Vec::new();
        core::mem::swap(&mut self.entries, &mut entries);
        match found {
            Some(i) => {
                proof {
                    lemma_map_of_pairs_update(entries@, i as int, (key, value));
                }
                entries.set(i, (key, value));
            },
            None => {
                proof {
                    let grown = entries@.push((key, value));
                    assert(grown.drop_last() =~= entries@);
                    assert forall|a: int, b: int| 0 <= a < b < grown.len() implies (
                    #[trigger] grown[a]).0@ != (#[trigger] grown[b]).0@ by {
                        if b < entries@.len() {
                            assert(entries@[a].0@ != entries@[b].0@);
                        } else {
                            assert(entries@[a].0@ != key@);
                        }
                    }
                }
                entries.push((key, value));
            },
        }
        self.entries = entries;
    }

    /// The pairs, each key once. Their order carries no meaning.
    pub fn entries(&self) -> (pairs: &Vec<(String, String)>)
        ensures
            keys_distinct(pairs@),
            map_of_pairs(pairs@) == self@,
    {
        proof {
            use_type_invariant(self);
        }
        &self.entries
    }
}

} // verus!
