//! Maps from strings to values.

use vstd::prelude::*;

verus! {

/// A map from strings to values, held as a list of entries. A key that is
/// inserted again gets the new value.
#[derive(Debug)]
pub struct StringMap<V> {
    entries: Vec<(String, V)>,
}

/// The map that a list of entries stands for: of two entries with one key the
/// later one counts.
pub open spec fn map_of<V>(entries: Seq<(String, V)>) -> Map<Seq<char>, V>
    decreases entries.len(),
{
    if entries.len() == 0 {
        Map::empty()
    } else {
        map_of(entries.drop_last()).insert(entries.last().0@, entries.last().1)
    }
}

/// An entry counts for nothing once its key is inserted again.
proof fn lemma_remove_then_insert<V>(entries: Seq<(String, V)>, i: int, v: V)
    requires
        0 <= i < entries.len(),
    ensures
        map_of(entries.remove(i)).insert(entries[i].0@, v) == map_of(entries).insert(
            entries[i].0@,
            v,
        ),
    decreases entries.len(),
{
    let k = entries[i].0@;
    let rest = entries.drop_last();
    let last = entries.last();
    if i == entries.len() - 1 {
        assert(entries.remove(i) =~= rest);
        assert(map_of(rest).insert(k, v) =~= map_of(entries).insert(k, v));
    } else {
        lemma_remove_then_insert(rest, i, v);
        assert(entries.remove(i).drop_last() =~= rest.remove(i));
        assert(entries.remove(i).last() == last);
        let smaller = map_of(rest.remove(i));
        let larger = map_of(rest);
        assert(smaller.insert(last.0@, last.1).insert(k, v) =~= smaller.insert(k, v).insert(
            last.0@,
            last.1,
        ).insert(k, v));
        assert(larger.insert(last.0@, last.1).insert(k, v) =~= larger.insert(k, v).insert(
            last.0@,
            last.1,
        ).insert(k, v));
    }
}

impl<V> View for StringMap<V> {
    type V = Map<Seq<char>, V>;

    closed spec fn view(&self) -> Map<Seq<char>, V> {
        map_of(self.entries@)
    }
}

impl<V> StringMap<V> {
    /// The empty map.
    pub fn new() -> (r: Self)
        ensures
            r@ == Map::<Seq<char>, V>::empty(),
    {
        StringMap { entries: Vec::new() }
    }

    /// The index of the entry that counts for a key.
    fn find(&self, key: &str) -> (r: Option<usize>)
        ensures
            match r {
                Some(i) => i < self.entries@.len() && self.entries@[i as int].0@ == key@
                    && self@.contains_key(key@) && self@[key@] == self.entries@[i as int].1,
                None => !self@.contains_key(key@),
            },
    {
        let mut i: usize = self.entries.len();
        proof {
            assert(self.entries@.take(i as int) =~= self.entries@);
        }
        while i > 0
            invariant
                i <= self.entries@.len(),
                map_of(self.entries@.take(i as int)).contains_key(key@) == self@.contains_key(key@),
                map_of(self.entries@.take(i as int)).contains_key(key@) ==> map_of(
                    self.entries@.take(i as int),
                )[key@] == self@[key@],
            decreases i,
        {
            let ghost seen = self.entries@.take(i as int);
            proof {
                assert(seen.drop_last() =~= self.entries@.take(i - 1));
            }
            i = i - 1;
            if crate::text::same_text(self.entries[i].0.as_str(), key) {
                return Some(i);
            }
        }
        None
    }

    /// Binds a key to a value.
    pub fn insert(&mut self, key: String, value: V)
        ensures
            final(self)@ == old(self)@.insert(key@, value),
    {
        let ghost before = self.entries@;
        match self.find(key.as_str()) {
            Some(i) => {
                proof {
                    lemma_remove_then_insert(before, i as int, value);
                }
                self.entries.remove(i);
            },
            None => {},
        }
        let ghost kept = self.entries@;
        self.entries.push((key, value));
        proof {
            assert(self.entries@.drop_last() =~= kept);
        }
    }

    /// The value of a key.
    pub fn get(&self, key: &str) -> (r: Option<&V>)
        ensures
            match r {
                Some(v) => self@.contains_key(key@) && *v == self@[key@],
                None => !self@.contains_key(key@),
            },
    {
        match self.find(key) {
            Some(i) => Some(&self.entries[i].1),
            None => None,
        }
    }

    /// Removes every key.
    pub fn clear(&mut self)
        ensures
            final(self)@ == Map::<Seq<char>, V>::empty(),
    {
        self.entries.clear();
    }
}

} // verus!
