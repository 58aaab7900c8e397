//! Small tables keyed by username, kept in insertion order: the session keys
//! negotiated with each peer and the identity keys pinned on first use.

use vstd::prelude::*;

verus! {

/// The names of a list of entries.
pub open spec fn names_of<V>(entries: Seq<(String, V)>) -> Seq<Seq<char>> {
    Seq::new(entries.len(), |i: int| entries[i].0@)
}

/// The position of `name` among `names`, if present.
pub open spec fn index_of(names: Seq<Seq<char>>, name: Seq<char>) -> Option<int> {
    if names.contains(name) {
        Some(choose|i: int| 0 <= i < names.len() && names[i] == name)
    } else {
        None
    }
}

/// A table from usernames to values, each name at most once, in the order
/// the names were first added.
pub struct NameMap<V> {
    entries: Vec<(String, V)>,
}

impl<V> NameMap<V> {
    /// The names, in order.
    pub closed spec fn names(&self) -> Seq<Seq<char>> {
        names_of(self.entries@)
    }

    /// The values, in the order of their names.
    pub closed spec fn values(&self) -> Seq<V> {
        Seq::new(self.entries@.len(), |i: int| self.entries@[i].1)
    }

    /// Each name occurs once.
    pub open spec fn wf(&self) -> bool {
        self.names().no_duplicates() && self.names().len() == self.values().len()
    }

    /// The table as a map.
    pub open spec fn as_map(&self) -> Map<Seq<char>, V> {
        Map::new(
            |n: Seq<char>| self.names().contains(n),
            |n: Seq<char>| self.values()[index_of(self.names(), n)->Some_0],
        )
    }

    pub fn new() -> (r: Self)
        ensures
            r.names() == Seq::<Seq<char>>::empty(),
            r.wf(),
    {
        let r = NameMap { entries: Vec::new() };
        assert(r.names() =~= Seq::<Seq<char>>::empty());
        r
    }

    pub fn len(&self) -> (r: usize)
        ensures
            r == self.names().len(),
    {
        self.entries.len()
    }

    /// The position of `name`.
    pub fn position(&self, name: &String) -> (r: Option<usize>)
        ensures
            r matches Some(i) ==> i < self.names().len() && self.names()[i as int] == name@,
            r is None ==> !self.names().contains(name@),
    {
        let mut i: usize = 0;
        while i < self.entries.len()
            invariant
                i <= self.entries@.len(),
                forall|j: int| 0 <= j < i ==> self.names()[j] != name@,
            decreases self.entries@.len() - i,
        {
            if self.entries[i].0 == *name {
                return Some(i);
            }
            i = i + 1;
        }
        proof {
            if self.names().contains(name@) {
                let j = choose|j: int| 0 <= j < self.names().len() && self.names()[j] == name@;
                assert(self.names()[j] != name@);
            }
        }
        None
    }

    /// The entry at position `i`.
    pub fn entry(&self, i: usize) -> (r: (&String, &V))
        requires
            i < self.names().len(),
        ensures
            r.0@ == self.names()[i as int],
            *r.1 == self.values()[i as int],
            self.wf() ==> *r.1 == self.as_map()[self.names()[i as int]],
    {
        proof {
            if self.wf() {
                self.lemma_index_unique(i as int);
            }
        }
        (&self.entries[i].0, &self.entries[i].1)
    }

    /// The value of `name`, if present.
    pub fn get(&self, name: &String) -> (r: Option<&V>)
        requires
            self.wf(),
        ensures
            r matches Some(v) ==> self.as_map().contains_key(name@) && *v == self.as_map()[name@],
            r is None ==> !self.as_map().contains_key(name@),
    {
        match self.position(name) {
            Some(i) => {
                proof {
                    self.lemma_index_unique(i as int);
                }
                Some(&self.entries[i].1)
            },
            None => None,
        }
    }

    proof fn lemma_index_unique(&self, i: int)
        requires
            self.wf(),
            0 <= i < self.names().len(),
        ensures
            index_of(self.names(), self.names()[i]) == Some(i),
    {
        let n = self.names()[i];
        assert(self.names().contains(n));
        let j = choose|j: int| 0 <= j < self.names().len() && self.names()[j] == n;
        assert(j == i);
    }

    /// Puts `v` in place of the value at position `i` and hands back the
    /// value that was there; the names and their order stay.
    pub fn swap_value(&mut self, i: usize, v: V) -> (r: V)
        requires
            old(self).wf(),
            i < old(self).names().len(),
        ensures
            final(self).wf(),
            r == old(self).values()[i as int],
            r == old(self).as_map()[old(self).names()[i as int]],
            final(self).names() == old(self).names(),
            final(self).values() == old(self).values().update(i as int, v),
            final(self).as_map() == old(self).as_map().insert(old(self).names()[i as int], v),
    {
        let ghost old_names = self.names();
        let ghost old_values = self.values();
        let ghost old_map = self.as_map();
        let ghost old_entries = self.entries@;
        let (name, old_v) = self.entries.remove(i);
        self.entries.insert(i, (name, v));
        proof {
            assert(self.entries@ =~= old_entries.update(i as int, (name, v)));
            assert(self.names() =~= old_names);
            assert(self.values() =~= old_values.update(i as int, v));
            self.lemma_index_unique(i as int);
            assert forall|n: Seq<char>| self.names().contains(n) && n != old_names[i as int] implies index_of(
                self.names(),
                n,
            ) == index_of(old_names, n) by {}
            assert(self.as_map() =~= old_map.insert(old_names[i as int], v));
        }
        old_v
    }

    /// Sets the value of `name`: replaced in place when present (the name
    /// keeps its position), appended otherwise. Returns whether the name
    /// was present.
    pub fn insert(&mut self, name: String, v: V) -> (r: bool)
        requires
            old(self).wf(),
        ensures
            final(self).wf(),
            r == old(self).names().contains(name@),
            final(self).as_map() == old(self).as_map().insert(name@, v),
            r ==> final(self).names() == old(self).names(),
            !r ==> final(self).names() == old(self).names().push(name@),
    {
        let ghost old_names = self.names();
        let ghost old_values = self.values();
        let ghost old_map = self.as_map();
        match self.position(&name) {
            Some(i) => {
                self.entries.set(i, (name, v));
                proof {
                    assert(self.names() =~= old_names);
                    assert(self.values() =~= old_values.update(i as int, v));
                    self.lemma_index_unique(i as int);
                    assert forall|n: Seq<char>| self.names().contains(n) && n != name@ implies index_of(
                        self.names(),
                        n,
                    ) == index_of(old_names, n) by {}
                    assert(self.as_map() =~= old_map.insert(name@, v));
                }
                true
            },
            None => {
                self.entries.push((name, v));
                proof {
                    assert(self.names() =~= old_names.push(name@));
                    assert(self.values() =~= old_values.push(v));
                    assert(self.names().no_duplicates()) by {
                        assert forall|a: int, b: int|
                            0 <= a < b < self.names().len() implies self.names()[a]
                            != self.names()[b] by {
                            if b == old_names.len() {
                                assert(old_names.contains(self.names()[a]));
                            }
                        }
                    }
                    let last = old_names.len() as int;
                    assert(index_of(self.names(), name@) == Some(last)) by {
                        self.lemma_index_unique(last);
                    }
                    assert forall|n: Seq<char>| old_names.contains(n) implies index_of(
                        self.names(),
                        n,
                    ) == index_of(old_names, n) by {
                        let j = choose|j: int| 0 <= j < old_names.len() && old_names[j] == n;
                        self.lemma_index_unique(j);
                        assert(self.names()[j] == n);
                        assert(old_names.no_duplicates());
                        let k = choose|k: int| 0 <= k < old_names.len() && old_names[k] == n;
                        assert(k == j);
                    }
                    assert forall|n: Seq<char>| #[trigger] self.names().contains(n) <==> old_names.contains(n)
                        || n == name@ by {
                        if self.names().contains(n) && n != name@ {
                            let j = choose|j: int| 0 <= j < self.names().len() && self.names()[j] == n;
                            assert(old_names[j] == n);
                        }
                        if old_names.contains(n) {
                            let j = choose|j: int| 0 <= j < old_names.len() && old_names[j] == n;
                            assert(self.names()[j] == n);
                        }
                        if n == name@ {
                            assert(self.names()[last] == n);
                        }
                    }
                    assert(self.as_map() =~= old_map.insert(name@, v));
                }
                false
            },
        }
    }
}

/// What checking a peer's identity key against the pinned one found.
#[derive(Debug, PartialEq, Eq, Structural, Clone, Copy)]
pub enum PinCheck {
    /// The name was unknown; its key is now pinned.
    Pinned,
    /// The name's pinned key is the one presented.
    Matched,
    /// The name is pinned to a different key: a possible man in the middle.
    Mismatch,
}

/// The pins after `username` presents `key_hex`, and the outcome:
/// an unknown name gets the key pinned; a pinned name keeps its pin.
pub open spec fn spec_check_pin(
    pins: Map<Seq<char>, Seq<char>>,
    username: Seq<char>,
    key_hex: Seq<char>,
) -> (Map<Seq<char>, Seq<char>>, PinCheck) {
    if !pins.contains_key(username) {
        (pins.insert(username, key_hex), PinCheck::Pinned)
    } else if pins[username] == key_hex {
        (pins, PinCheck::Matched)
    } else {
        (pins, PinCheck::Mismatch)
    }
}

/// The identity keys pinned on first use, by username, for the
/// lifetime of the process.
pub struct TofuRegistry {
    pins: NameMap<String>,
}

impl TofuRegistry {
    /// The pinned identity key text of each username.
    pub closed spec fn pins(&self) -> Map<Seq<char>, Seq<char>> {
        self.pins.as_map().map_values(|k: String| k@)
    }

    pub closed spec fn wf(&self) -> bool {
        self.pins.wf()
    }

    pub fn new() -> (r: Self)
        ensures
            r.wf(),
            r.pins() == Map::<Seq<char>, Seq<char>>::empty(),
    {
        let r = TofuRegistry { pins: NameMap::new() };
        assert(r.pins() =~= Map::<Seq<char>, Seq<char>>::empty());
        r
    }

    /// The identity key text pinned for `username`, if any.
    pub fn pinned(&self, username: &String) -> (r: Option<&String>)
        requires
            self.wf(),
        ensures
            r matches Some(k) ==> self.pins().contains_key(username@) && k@ == self.pins()[username@],
            r is None ==> !self.pins().contains_key(username@),
    {
        self.pins.get(username)
    }

    /// Checks the identity key a peer presents under `username` and pins it
    /// when the name is new. A pin, once made, never changes: a different
    /// key for a pinned name is reported and nothing is stored.
    pub fn check_and_pin(&mut self, username: &String, key_hex: &String) -> (r: PinCheck)
        requires
            old(self).wf(),
        ensures
            final(self).wf(),
            (final(self).pins(), r) == spec_check_pin(old(self).pins(), username@, key_hex@),
            !old(self).pins().contains_key(username@) ==> r == PinCheck::Pinned
                && final(self).pins() == old(self).pins().insert(username@, key_hex@),
            old(self).pins().contains_key(username@) ==> final(self).pins() == old(self).pins()
                && r == (if old(self).pins()[username@] == key_hex@ {
                PinCheck::Matched
            } else {
                PinCheck::Mismatch
            }),
    {
        match self.pins.get(username) {
            Some(pinned) => {
                if *pinned == *key_hex {
                    PinCheck::Matched
                } else {
                    PinCheck::Mismatch
                }
            },
            None => {
                let ghost old_map = self.pins.as_map();
                self.pins.insert(username.clone(), key_hex.clone());
                assert(self.pins() =~= old_map.map_values(|k: String| k@).insert(
                    username@,
                    key_hex@,
                ));
                PinCheck::Pinned
            },
        }
    }
}

/// Once pinned, a key stays: after any check, every earlier pin is still
/// there with the same key.
pub proof fn lemma_pins_only_grow(
    before: Map<Seq<char>, Seq<char>>,
    after: Map<Seq<char>, Seq<char>>,
    username: Seq<char>,
    key_hex: Seq<char>,
)
    requires
        !before.contains_key(username) ==> after == before.insert(username, key_hex),
        before.contains_key(username) ==> after == before,
    ensures
        forall|n: Seq<char>| #[trigger]
            before.contains_key(n) ==> after.contains_key(n) && after[n] == before[n],
{
}

} // verus!
