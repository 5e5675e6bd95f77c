//! The variables that fill a request description's placeholders.

use vstd::prelude::*;

use crate::chars::{from_chars, same, to_chars};

verus! {

/// The map that a list of pairs stands for when, of two pairs with one
/// name, the earlier holds.
pub open spec fn first_wins(pairs: Seq<(Seq<char>, Seq<char>)>) -> Map<Seq<char>, Seq<char>>
    decreases pairs.len(),
{
    if pairs.len() == 0 {
        Map::empty()
    } else {
        let m = first_wins(pairs.drop_last());
        if m.contains_key(pairs.last().0) {
            m
        } else {
            m.insert(pairs.last().0, pairs.last().1)
        }
    }
}

/// A name is in `first_wins(pairs)` where some pair has it, and is then
/// mapped to the value of the first such pair.
pub proof fn lemma_first_wins(pairs: Seq<(Seq<char>, Seq<char>)>, name: Seq<char>)
    ensures
        first_wins(pairs).contains_key(name) <==> exists|i: int|
            0 <= i < pairs.len() && (#[trigger] pairs[i]).0 == name,
        forall|i: int|
            0 <= i < pairs.len() && (#[trigger] pairs[i]).0 == name && (forall|j: int|
                0 <= j < i ==> (#[trigger] pairs[j]).0 != name) ==> first_wins(pairs)[name]
                == pairs[i].1,
    decreases pairs.len(),
{
    if pairs.len() > 0 {
        let init = pairs.drop_last();
        lemma_first_wins(init, name);
        let n = pairs.len() - 1;
        if first_wins(init).contains_key(name) {
            let w = choose|i: int| 0 <= i < init.len() && (#[trigger] init[i]).0 == name;
            assert(pairs[w].0 == name);
        } else if pairs.last().0 == name {
            assert(pairs[n].0 == name);
        } else {
            assert forall|i: int| 0 <= i < pairs.len() implies (#[trigger] pairs[i]).0
                != name by {
                if i < n {
                    assert(init[i].0 != name);
                }
            }
        }
        assert forall|i: int|
            0 <= i < pairs.len() && (#[trigger] pairs[i]).0 == name && (forall|j: int|
                0 <= j < i ==> (#[trigger] pairs[j]).0 != name) implies first_wins(pairs)[name]
            == pairs[i].1 by {
            if i < n {
                assert(init[i].0 == name);
                assert forall|j: int| 0 <= j < i implies (#[trigger] init[j]).0 != name by {
                    assert(pairs[j].0 != name);
                }
            } else {
                assert forall|j: int| 0 <= j < init.len() implies (#[trigger] init[j]).0
                    != name by {
                    assert(pairs[j].0 != name);
                }
            }
        }
    }
}

/// Pairs that follow others add the names that the others lack, and change
/// nothing else.
pub proof fn lemma_first_wins_concat(
    a: Seq<(Seq<char>, Seq<char>)>,
    b: Seq<(Seq<char>, Seq<char>)>,
)
    ensures
        first_wins(a + b) == first_wins(b).union_prefer_right(first_wins(a)),
    decreases b.len(),
{
    if b.len() == 0 {
        assert(a + b == a);
        assert(first_wins(a) =~= first_wins(b).union_prefer_right(first_wins(a)));
    } else {
        assert((a + b).drop_last() == a + b.drop_last());
        assert((a + b).last() == b.last());
        lemma_first_wins_concat(a, b.drop_last());
        assert(first_wins(a + b) =~= first_wins(b).union_prefer_right(first_wins(a)));
    }
}

/// Of pairs given by the caller and pairs from elsewhere that follow them,
/// the caller's hold: a name that the caller gives keeps the caller's
/// value, and any other name has the value it has elsewhere.
pub proof fn lemma_given_goes_first(
    given: Seq<(Seq<char>, Seq<char>)>,
    ambient: Seq<(Seq<char>, Seq<char>)>,
    name: Seq<char>,
)
    ensures
        first_wins(given + ambient).contains_key(name) <==> first_wins(given).contains_key(name)
            || first_wins(ambient).contains_key(name),
        first_wins(given).contains_key(name) ==> first_wins(given + ambient)[name] == first_wins(
            given,
        )[name],
        !first_wins(given).contains_key(name) && first_wins(ambient).contains_key(name)
            ==> first_wins(given + ambient)[name] == first_wins(ambient)[name],
{
    lemma_first_wins_concat(given, ambient);
}

/// The names and values that the pairs hold, as character sequences.
pub open spec fn pair_views(v: Seq<(Vec<char>, Vec<char>)>) -> Seq<(Seq<char>, Seq<char>)> {
    Seq::new(v.len(), |i: int| (v[i].0@, v[i].1@))
}

/// A mapping from names to values, each name held once.
pub struct VarMap {
    entries: Vec<(Vec<char>, Vec<char>)>,
}

impl View for VarMap {
    type V = Map<Seq<char>, Seq<char>>;

    closed spec fn view(&self) -> Map<Seq<char>, Seq<char>> {
        first_wins(pair_views(self.entries@))
    }
}

impl VarMap {
    #[verifier::type_invariant]
    closed spec fn names_differ(&self) -> bool {
        forall|i: int, j: int|
            0 <= i < j < self.entries@.len() ==> (#[trigger] self.entries@[i]).0@
                != (#[trigger] self.entries@[j]).0@
    }

    /// A map without names.
    pub fn new() -> (m: VarMap)
        ensures
            m@ == Map::<Seq<char>, Seq<char>>::empty(),
    {
        VarMap { entries: Vec::new() }
    }

    /// The number of names held.
    pub fn len(&self) -> (n: usize)
        ensures
            self@.dom().finite(),
            n == self@.dom().len(),
    {
        proof {
            use_type_invariant(self);
            lemma_distinct_names_counted(self.entries@);
        }
        self.entries.len()
    }

    /// The index of the entry whose name is `name`.
    fn position(&self, name: &[char]) -> (r: Option<usize>)
        ensures
            match r {
                Some(i) => i < self.entries@.len() && self.entries@[i as int].0@ == name@
                    && self@.contains_key(name@) && self@[name@] == self.entries@[i as int].1@,
                None => !self@.contains_key(name@),
            },
    {
        let mut i: usize = 0;
        while i < self.entries.len()
            invariant
                i <= self.entries@.len(),
                forall|j: int| 0 <= j < i ==> (#[trigger] self.entries@[j]).0@ != name@,
            decreases self.entries@.len() - i,
        {
            if same(self.entries[i].0.as_slice(), name) {
                proof {
                    let pairs = pair_views(self.entries@);
                    lemma_first_wins(pairs, name@);
                    assert(pairs[i as int].0 == name@);
                    assert forall|j: int| 0 <= j < i implies (#[trigger] pairs[j]).0
                        != name@ by {
                        assert(self.entries@[j].0@ != name@);
                    }
                }
                return Some(i);
            }
            i += 1;
        }
        proof {
            let pairs = pair_views(self.entries@);
            lemma_first_wins(pairs, name@);
            assert forall|j: int| 0 <= j < pairs.len() implies (#[trigger] pairs[j]).0
                != name@ by {
                assert(self.entries@[j].0@ != name@);
            }
        }
        None
    }

    /// The value that `name` is mapped to.
    pub fn lookup(&self, name: &[char]) -> (r: Option<&Vec<char>>)
        ensures
            match r {
                Some(v) => self@.contains_key(name@) && self@[name@] == v@,
                None => !self@.contains_key(name@),
            },
    {
        match self.position(name) {
            Some(i) => Some(&self.entries[i].1),
            None => None,
        }
    }

    /// The value that `name` is mapped to.
    pub fn get(&self, name: &str) -> (r: Option<String>)
        ensures
            match r {
                Some(v) => self@.contains_key(name@) && self@[name@] == v@,
                None => !self@.contains_key(name@),
            },
    {
        let key = to_chars(name);
        match self.lookup(key.as_slice()) {
            Some(v) => Some(from_chars(v.as_slice())),
            None => None,
        }
    }

    /// Whether `name` is mapped to a value.
    pub fn contains_key(&self, name: &str) -> (r: bool)
        ensures
            r == self@.contains_key(name@),
    {
        let key = to_chars(name);
        self.position(key.as_slice()).is_some()
    }

    /// Maps `name` to `value` unless `name` is mapped already.
    pub fn insert_if_absent(&mut self, name: &str, value: &str)
        ensures
            final(self)@ == if old(self)@.contains_key(name@) {
                old(self)@
            } else {
                old(self)@.insert(name@, value@)
            },
    {
        proof {
            use_type_invariant(&*self);
        }
        let key = to_chars(name);
        if self.position(key.as_slice()).is_none() {
            let ghost before = self.entries@;
            proof {
                lemma_first_wins(pair_views(before), name@);
            }
            let val = to_chars(value);
            let mut taken = VarMap::new();
            core::mem::swap(self, &mut taken);
            let mut entries = taken.entries;
            entries.push((key, val));
            proof {
                assert(pair_views(entries@).drop_last() == pair_views(before));
                assert(pair_views(entries@).last() == (name@, value@));
                assert forall|i: int, j: int| 0 <= i < j < entries@.len() implies (
                #[trigger] entries@[i]).0@ != (#[trigger] entries@[j]).0@ by {
                    if j == before.len() {
                        assert(pair_views(before)[i].0 == before[i].0@);
                    } else {
                        assert(before[i].0@ != before[j].0@);
                    }
                }
            }
            *self = VarMap { entries };
        }
    }
}

/// Entries whose names differ stand for a map of as many names.
proof fn lemma_distinct_names_counted(entries: Seq<(Vec<char>, Vec<char>)>)
    requires
        forall|i: int, j: int|
            0 <= i < j < entries.len() ==> (#[trigger] entries[i]).0@ != (#[trigger] entries[j]).0@,
    ensures
        first_wins(pair_views(entries)).dom().finite(),
        first_wins(pair_views(entries)).dom().len() == entries.len(),
    decreases entries.len(),
{
    if entries.len() > 0 {
        let init = entries.drop_last();
        let n = entries.len() - 1;
        assert forall|i: int, j: int| 0 <= i < j < init.len() implies (#[trigger] init[i]).0@ != (
        #[trigger] init[j]).0@ by {
            assert(entries[i].0@ != entries[j].0@);
        }
        lemma_distinct_names_counted(init);
        assert(pair_views(entries).drop_last() == pair_views(init));
        let name = entries[n].0@;
        lemma_first_wins(pair_views(init), name);
        if first_wins(pair_views(init)).contains_key(name) {
            let w = choose|i: int|
                0 <= i < pair_views(init).len() && (#[trigger] pair_views(init)[i]).0 == name;
            assert(entries[w].0@ != entries[n].0@);
        }
    }
}

} // verus!
