//! A map from TA uuids to values.

use vstd::prelude::*;

verus! {

/// A map keyed by uuid text. No uuid occurs twice.
pub struct UuidMap<V> {
    items: Vec<(String, V)>,
}

/// Some item has this uuid.
spec fn holds<V>(items: Seq<(String, V)>, uuid: Seq<char>) -> bool {
    exists|i: int| 0 <= i < items.len() && (#[trigger] items[i]).0@ == uuid
}

/// The place of the item with this uuid.
spec fn place_of<V>(items: Seq<(String, V)>, uuid: Seq<char>) -> int {
    choose|i: int| 0 <= i < items.len() && (#[trigger] items[i]).0@ == uuid
}

impl<V> View for UuidMap<V> {
    type V = Map<Seq<char>, V>;

    closed spec fn view(&self) -> Map<Seq<char>, V> {
        Map::new(
            |uuid: Seq<char>| holds(self.items@, uuid),
            |uuid: Seq<char>| self.items@[place_of(self.items@, uuid)].1,
        )
    }
}

impl<V> UuidMap<V> {
    /// No uuid occurs twice.
    pub closed spec fn wf(self) -> bool {
        forall|i: int, j: int|
            0 <= i < j < self.items@.len() ==> (#[trigger] self.items@[i]).0@ != (
            #[trigger] self.items@[j]).0@
    }

    /// A map without items.
    pub fn new() -> (map: UuidMap<V>)
        ensures
            map.wf(),
            map@ == Map::<Seq<char>, V>::empty(),
    {
        let map = UuidMap { items: Vec::new() };
        assert(map@ =~= Map::<Seq<char>, V>::empty());
        map
    }

    /// The place of the item with this uuid.
    fn find(&self, uuid: &str) -> (place: Option<usize>)
        requires
            self.wf(),
        ensures
            place is Some <==> self@.contains_key(uuid@),
            place matches Some(i) ==> i < self.items@.len() && self.items@[i as int].0@ == uuid@
                && self.items@[i as int].1 == self@[uuid@],
    {
        let wanted: String = uuid.to_owned();
        let mut i: usize = 0;
        while i < self.items.len()
            invariant
                0 <= i <= self.items@.len(),
                wanted@ == uuid@,
                self.wf(),
                forall|k: int| 0 <= k < i ==> (#[trigger] self.items@[k]).0@ != uuid@,
            decreases self.items.len() - i,
        {
            if self.items[i].0 == wanted {
                assert(place_of(self.items@, uuid@) == i);
                return Some(i);
            }
            i = i + 1;
        }
        None
    }

    /// The value under a uuid.
    pub fn get(&self, uuid: &str) -> (value: Option<&V>)
        requires
            self.wf(),
        ensures
            value is Some <==> self@.contains_key(uuid@),
            value matches Some(v) ==> *v == self@[uuid@],
    {
        match self.find(uuid) {
            Some(i) => Some(&self.items[i].1),
            None => None,
        }
    }

    /// Takes the value under a uuid out of the map.
    pub fn take(&mut self, uuid: &str) -> (value: Option<V>)
        requires
            old(self).wf(),
        ensures
            final(self).wf(),
            final(self)@ == old(self)@.remove(uuid@),
            value is Some <==> old(self)@.contains_key(uuid@),
            value matches Some(v) ==> v == old(self)@[uuid@],
    {
        match self.find(uuid) {
            Some(i) => {
                let item: (String, V) = self.items.remove(i);
                proof {
                    let before = old(self).items@;
                    let after = self.items@;
                    assert forall|key: Seq<char>| holds(after, key) <==> holds(before, key) && key
                        != uuid@ by {
                        if holds(before, key) && key != uuid@ {
                            let k = place_of(before, key);
                            let moved = if k < i {
                                k
                            } else {
                                k - 1
                            };
                            assert(after[moved].0@ == key);
                        }
                        if holds(after, key) {
                            let k = place_of(after, key);
                            let moved = if k < i {
                                k
                            } else {
                                k + 1
                            };
                            assert(before[moved].0@ == key);
                        }
                    }
                    assert forall|key: Seq<char>| holds(after, key) implies after[place_of(
                        after,
                        key,
                    )].1 == before[place_of(before, key)].1 by {
                        let k = place_of(after, key);
                        let moved = if k < i {
                            k
                        } else {
                            k + 1
                        };
                        assert(before[moved].0@ == key);
                    }
                    assert(self@ =~= old(self)@.remove(uuid@));
                }
                Some(item.1)
            },
            None => {
                assert(self@ =~= old(self)@.remove(uuid@));
                None
            },
        }
    }

    /// Enters a value under a uuid that has none.
    pub fn put(&mut self, uuid: &str, value: V)
        requires
            old(self).wf(),
            !old(self)@.contains_key(uuid@),
        ensures
            final(self).wf(),
            final(self)@ == old(self)@.insert(uuid@, value),
    {
        self.items.push((uuid.to_owned(), value));
        proof {
            let before = old(self).items@;
            let after = self.items@;
            assert(after[before.len() as int].0@ == uuid@);
            assert forall|key: Seq<char>| holds(after, key) <==> holds(before, key) || key
                == uuid@ by {
                if holds(before, key) {
                    assert(after[place_of(before, key)].0@ == key);
                }
            }
            assert forall|key: Seq<char>| holds(before, key) implies after[place_of(after, key)].1
                == before[place_of(before, key)].1 by {
                assert(after[place_of(before, key)].0@ == key);
            }
            assert(self@ =~= old(self)@.insert(uuid@, value));
        }
    }
}

} // verus!
