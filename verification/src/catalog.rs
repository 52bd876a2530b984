//! The sensor catalog: an immutable mapping, built once at startup, from a
//! normalized sensor name to its sensor. Lookup is the only operation the
//! query layer needs.

use crate::helpers::slug_of;
use crate::sensor::SensorTypes;
use vstd::prelude::*;

verus! {

/// A sound catalog entry: its key is the normalized form of its sensor's
/// name, and the sensor itself is well formed.
pub open spec fn catalog_entry_ok(e: (String, SensorTypes)) -> bool {
    &&& e.0@ == slug_of(e.1.spec_name())
    &&& e.1.wf()
}

/// A named collection of sensors with unique normalized names.
pub struct Catalog {
    pub entries: Vec<(String, SensorTypes)>,
}

impl Catalog {
    /// Keys are pairwise distinct, so each name maps to one sensor.
    pub open spec fn wf(self) -> bool {
        forall|i: int, j: int|
            0 <= i < j < self.entries@.len() ==> (#[trigger] self.entries@[i]).0@ != (
            #[trigger] self.entries@[j]).0@
    }

    /// Whether the catalog holds an entry under the key `k`.
    pub open spec fn has_key(self, k: Seq<char>) -> bool {
        exists|i: int| 0 <= i < self.entries@.len() && (#[trigger] self.entries@[i]).0@ == k
    }

    /// Every entry of the catalog is sound.
    pub open spec fn entries_ok(self) -> bool {
        forall|i: int| 0 <= i < self.entries@.len() ==> catalog_entry_ok(#[trigger] self.entries@[i])
    }

    /// An empty catalog.
    pub fn new() -> (c: Catalog)
        ensures
            c.wf(),
            c.entries@.len() == 0,
    {
        Catalog { entries: Vec::new() }
    }

    /// Binds a name to a sensor: an existing binding of the same name is
    /// replaced, any other binding is kept, a new name is appended. Every
    /// key present before stays present, the new name's key is present
    /// afterwards, and sound entries stay sound when the new binding is.
    pub fn insert(&mut self, name: String, sensor: SensorTypes)
        requires
            old(self).wf(),
        ensures
            final(self).wf(),
            final(self).has_key(name@),
            forall|k: Seq<char>| old(self).has_key(k) ==> final(self).has_key(k),
            old(self).entries_ok() && catalog_entry_ok((name, sensor))
                ==> final(self).entries_ok(),
            (exists|i: int|
                0 <= i < old(self).entries@.len() && (#[trigger] old(self).entries@[i]).0@
                    == name@) ==> exists|i: int|
                0 <= i < old(self).entries@.len() && (#[trigger] old(self).entries@[i]).0@ == name@
                    && final(self).entries@ == old(self).entries@.update(i, (name, sensor)),
            (forall|i: int|
                0 <= i < old(self).entries@.len() ==> (#[trigger] old(self).entries@[i]).0@
                    != name@) ==> final(self).entries@ == old(self).entries@.push((name, sensor)),
    {
        let mut i: usize = 0;
        while i < self.entries.len()
            invariant
                i <= self.entries@.len(),
                *self == *old(self),
                old(self).wf(),
                forall|j: int| 0 <= j < i ==> (#[trigger] self.entries@[j]).0@ != name@,
            decreases self.entries@.len() - i,
        {
            if self.entries[i].0 == name {
                proof {
                    assert(old(self).entries@[i as int].0@ == name@);
                }
                self.entries.set(i, (name, sensor));
                proof {
                    assert forall|p: int, q: int|
                        0 <= p < q < self.entries@.len() implies (#[trigger] self.entries@[p]).0@
                        != (#[trigger] self.entries@[q]).0@ by {
                        assert(self.entries@[p].0@ == old(self).entries@[p].0@);
                        assert(self.entries@[q].0@ == old(self).entries@[q].0@);
                        assert(old(self).entries@[p].0@ != old(self).entries@[q].0@);
                    }
                    assert(self.entries@[i as int].0@ == name@);
                    assert(self.has_key(name@));
                    assert forall|k: Seq<char>| old(self).has_key(k) implies self.has_key(k) by {
                        let j = choose|j: int|
                            0 <= j < old(self).entries@.len() && old(self).entries@[j].0@ == k;
                        if j == i {
                            assert(self.entries@[i as int].0@ == k);
                        } else {
                            assert(self.entries@[j].0@ == k);
                        }
                    }
                    if old(self).entries_ok() && catalog_entry_ok((name, sensor)) {
                        assert forall|m: int|
                            0 <= m < self.entries@.len() implies catalog_entry_ok(
                            #[trigger] self.entries@[m],
                        ) by {
                            if m != i {
                                assert(self.entries@[m] == old(self).entries@[m]);
                            }
                        }
                    }
                }
                return ;
            }
            i += 1;
        }
        let ghost pre = self.entries@;
        self.entries.push((name, sensor));
        proof {
            assert(self.entries@[pre.len() as int].0@ == name@);
            assert(self.has_key(name@));
            assert forall|k: Seq<char>| old(self).has_key(k) implies self.has_key(k) by {
                let j = choose|j: int|
                    0 <= j < old(self).entries@.len() && old(self).entries@[j].0@ == k;
                assert(self.entries@[j].0@ == k);
            }
            if old(self).entries_ok() && catalog_entry_ok((name, sensor)) {
                assert forall|m: int|
                    0 <= m < self.entries@.len() implies catalog_entry_ok(
                    #[trigger] self.entries@[m],
                ) by {
                    if m < pre.len() {
                        assert(self.entries@[m] == old(self).entries@[m]);
                    }
                }
            }
        }
    }

    /// Looks a sensor up by its normalized name: the sensor bound to the
    /// name, or nothing when the catalog holds no such name.
    pub fn lookup(&self, name: &str) -> (r: Option<&SensorTypes>)
        requires
            self.wf(),
        ensures
            match r {
                Some(s) => exists|i: int|
                    0 <= i < self.entries@.len() && (#[trigger] self.entries@[i]).0@ == name@ && *s
                        == self.entries@[i].1,
                None => forall|i: int|
                    0 <= i < self.entries@.len() ==> (#[trigger] self.entries@[i]).0@ != name@,
            },
    {
        let key: String = name.to_owned();
        let mut i: usize = 0;
        while i < self.entries.len()
            invariant
                i <= self.entries@.len(),
                key@ == name@,
                forall|j: int| 0 <= j < i ==> (#[trigger] self.entries@[j]).0@ != name@,
            decreases self.entries@.len() - i,
        {
            if self.entries[i].0 == key {
                return Some(&self.entries[i].1);
            }
            i += 1;
        }
        None
    }

    /// How many sensors the catalog holds.
    pub fn len(&self) -> (n: usize)
        ensures
            n == self.entries@.len(),
    {
        self.entries.len()
    }
}

} // verus!
