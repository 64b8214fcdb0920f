use vstd::prelude::*;

verus! {

/// A token is named by its identifier and its nonce.
pub type TokenKey = (Seq<u8>, u64);

/// Whether two byte strings are equal.
pub fn same_bytes(a: &Vec<u8>, b: &Vec<u8>) -> (r: bool)
    ensures
        r == (a@ == b@),
{
    if a.len() != b.len() {
        return false;
    }
    let mut i: usize = 0;
    while i < a.len()
        invariant
            a.len() == b.len(),
            i <= a.len(),
            forall|j: int| 0 <= j < i ==> a@[j] == b@[j],
        decreases a.len() - i,
    {
        if a[i] != b[i] {
            return false;
        }
        i = i + 1;
    }
    assert(a@ =~= b@);
    true
}

/// Storage of one value per token, keyed by `(identifier, nonce)`.
///
/// The entries are three parallel vectors with no key twice; `model` is the map they stand for.
pub struct TokenMap<V> {
    identifiers: Vec<Vec<u8>>,
    nonces: Vec<u64>,
    values: Vec<V>,
    model: Ghost<Map<TokenKey, V>>,
}

impl<V> View for TokenMap<V> {
    type V = Map<TokenKey, V>;

    closed spec fn view(&self) -> Map<TokenKey, V> {
        self.model@
    }
}

impl<V: Copy> TokenMap<V> {
    /// The key of the entry at index `i`.
    pub closed spec fn key_at(&self, i: int) -> TokenKey {
        (self.identifiers@[i]@, self.nonces@[i])
    }

    /// The entries stand for `model`: each entry is in it, each key of it is an entry,
    /// and no key occurs twice.
    pub closed spec fn wf(&self) -> bool {
        &&& self.identifiers.len() == self.nonces.len()
        &&& self.identifiers.len() == self.values.len()
        &&& forall|i: int|
            0 <= i < self.values.len() ==> {
                &&& self.model@.contains_key(#[trigger] self.key_at(i))
                &&& self.model@[self.key_at(i)] == self.values@[i]
            }
        &&& forall|k: TokenKey|
            #[trigger] self.model@.contains_key(k) ==> exists|i: int|
                0 <= i < self.values.len() && self.key_at(i) == k
        &&& forall|i: int, j: int|
            0 <= i < self.values.len() && 0 <= j < self.values.len() && i != j ==> self.key_at(i)
                != self.key_at(j)
    }

    /// A map with no entry.
    pub fn new() -> (r: Self)
        ensures
            r.wf(),
            r@ == Map::<TokenKey, V>::empty(),
    {
        TokenMap {
            identifiers: Vec::new(),
            nonces: Vec::new(),
            values: Vec::new(),
            model: Ghost(Map::empty()),
        }
    }

    /// The index of the entry for `(identifier, nonce)`, if there is one.
    fn find(&self, identifier: &Vec<u8>, nonce: u64) -> (r: Option<usize>)
        requires
            self.wf(),
        ensures
            match r {
                Some(i) => i < self.values.len() && self.key_at(i as int) == (identifier@, nonce),
                None => !self@.contains_key((identifier@, nonce)),
            },
    {
        let mut i: usize = 0;
        while i < self.values.len()
            invariant
                self.wf(),
                i <= self.values.len(),
                forall|j: int| 0 <= j < i ==> self.key_at(j) != (identifier@, nonce),
            decreases self.values.len() - i,
        {
            if self.nonces[i] == nonce && same_bytes(&self.identifiers[i], identifier) {
                return Some(i);
            }
            i = i + 1;
        }
        proof {
            let k = (identifier@, nonce);
            if self@.contains_key(k) {
                assert(exists|j: int| 0 <= j < self.values.len() && self.key_at(j) == k);
            }
        }
        None
    }

    /// The value stored for `(identifier, nonce)`, if there is one.
    pub fn get(&self, identifier: &Vec<u8>, nonce: u64) -> (r: Option<V>)
        requires
            self.wf(),
        ensures
            r == (if self@.contains_key((identifier@, nonce)) {
                Some(self@[(identifier@, nonce)])
            } else {
                None::<V>
            }),
    {
        match self.find(identifier, nonce) {
            Some(i) => Some(self.values[i]),
            None => None,
        }
    }

    /// Stores `value` for `(identifier, nonce)`.
    pub fn insert(&mut self, identifier: &Vec<u8>, nonce: u64, value: V)
        requires
            old(self).wf(),
        ensures
            final(self).wf(),
            final(self)@ == old(self)@.insert((identifier@, nonce), value),
    {
        let ghost k = (identifier@, nonce);
        match self.find(identifier, nonce) {
            Some(i) => {
                self.values.set(i, value);
                self.model = Ghost(self.model@.insert(k, value));
                assert forall|j: int| 0 <= j < self.values.len() implies {
                    &&& self.model@.contains_key(#[trigger] self.key_at(j))
                    &&& self.model@[self.key_at(j)] == self.values@[j]
                } by {
                    assert(self.key_at(j) == old(self).key_at(j));
                    if j != i {
                        assert(old(self).key_at(j) != old(self).key_at(i as int));
                    }
                }
                assert forall|a: int, b: int|
                    0 <= a < self.values.len() && 0 <= b < self.values.len() && a != b implies self.key_at(a)
                    != self.key_at(b) by {
                    assert(self.key_at(a) == old(self).key_at(a));
                    assert(self.key_at(b) == old(self).key_at(b));
                }
                assert forall|k2: TokenKey| #[trigger] self.model@.contains_key(k2) implies exists|
                    j: int,
                | 0 <= j < self.values.len() && self.key_at(j) == k2 by {
                    if k2 == k {
                        assert(self.key_at(i as int) == k2);
                    } else {
                        assert(old(self).model@.contains_key(k2));
                        let j = choose|j: int|
                            0 <= j < old(self).values.len() && old(self).key_at(j) == k2;
                        assert(self.key_at(j) == k2);
                    }
                }
            },
            None => {
                let id = crate::structs::copy_bytes(identifier);
                self.identifiers.push(id);
                self.nonces.push(nonce);
                self.values.push(value);
                self.model = Ghost(self.model@.insert(k, value));
                let ghost n = self.values.len() - 1;
                assert(self.key_at(n) == k);
                assert forall|j: int| 0 <= j < n implies #[trigger] self.key_at(j) == old(
                    self,
                ).key_at(j) by {}
                assert forall|k2: TokenKey| #[trigger] self.model@.contains_key(k2) implies exists|
                    j: int,
                | 0 <= j < self.values.len() && self.key_at(j) == k2 by {
                    if k2 == k {
                        assert(self.key_at(n) == k2);
                    } else {
                        assert(old(self).model@.contains_key(k2));
                        let j = choose|j: int|
                            0 <= j < old(self).values.len() && old(self).key_at(j) == k2;
                        assert(self.key_at(j) == k2);
                    }
                }
                assert forall|i: int| 0 <= i < self.values.len() implies {
                    &&& self.model@.contains_key(#[trigger] self.key_at(i))
                    &&& self.model@[self.key_at(i)] == self.values@[i]
                } by {
                    if i < n {
                        assert(old(self).key_at(i) != k);
                    }
                }
                assert forall|a: int, b: int|
                    0 <= a < self.values.len() && 0 <= b < self.values.len() && a != b implies self.key_at(a)
                    != self.key_at(b) by {
                    if a < n {
                        assert(old(self).model@.contains_key(old(self).key_at(a)));
                    }
                    if b < n {
                        assert(old(self).model@.contains_key(old(self).key_at(b)));
                    }
                }
            },
        }
    }

    /// Removes the entry for `(identifier, nonce)`, if there is one.
    pub fn remove(&mut self, identifier: &Vec<u8>, nonce: u64)
        requires
            old(self).wf(),
        ensures
            final(self).wf(),
            final(self)@ == old(self)@.remove((identifier@, nonce)),
    {
        let ghost k = (identifier@, nonce);
        match self.find(identifier, nonce) {
            Some(i) => {
                let ghost len = self.values.len() as int;
                self.identifiers.remove(i);
                self.nonces.remove(i);
                self.values.remove(i);
                self.model = Ghost(self.model@.remove(k));
                assert forall|j: int| 0 <= j < self.values.len() implies #[trigger] self.key_at(j)
                    == old(self).key_at(if j < i { j } else { j + 1 }) by {}
                assert forall|k2: TokenKey| #[trigger] self.model@.contains_key(k2) implies exists|
                    j: int,
                | 0 <= j < self.values.len() && self.key_at(j) == k2 by {
                    assert(old(self).model@.contains_key(k2));
                    let j = choose|j: int|
                        0 <= j < old(self).values.len() && old(self).key_at(j) == k2;
                    assert(j != i);
                    if j < i {
                        assert(self.key_at(j) == k2);
                    } else {
                        assert(self.key_at(j - 1) == k2);
                    }
                }
                assert forall|a: int| 0 <= a < self.values.len() implies {
                    &&& self.model@.contains_key(#[trigger] self.key_at(a))
                    &&& self.model@[self.key_at(a)] == self.values@[a]
                } by {
                    let oa = if a < i { a } else { a + 1 };
                    assert(old(self).key_at(oa) != old(self).key_at(i as int));
                }
                assert forall|a: int, b: int|
                    0 <= a < self.values.len() && 0 <= b < self.values.len() && a != b implies self.key_at(a)
                    != self.key_at(b) by {
                    let oa = if a < i { a } else { a + 1 };
                    let ob = if b < i { b } else { b + 1 };
                    assert(old(self).key_at(oa) != old(self).key_at(ob));
                }
            },
            None => {
                assert(self.model@.remove(k) =~= self.model@);
            },
        }
    }

    /// A copy of this map.
    pub fn copy(&self) -> (r: Self)
        requires
            self.wf(),
        ensures
            r.wf(),
            r@ == self@,
    {
        let mut identifiers: Vec<Vec<u8>> = Vec::new();
        let mut nonces: Vec<u64> = Vec::new();
        let mut values: Vec<V> = Vec::new();
        let mut i: usize = 0;
        while i < self.values.len()
            invariant
                self.wf(),
                i <= self.values.len(),
                identifiers.len() == i,
                nonces.len() == i,
                values.len() == i,
                forall|j: int| 0 <= j < i ==> #[trigger] identifiers@[j]@ == self.identifiers@[j]@,
                forall|j: int| 0 <= j < i ==> #[trigger] nonces@[j] == self.nonces@[j],
                forall|j: int| 0 <= j < i ==> #[trigger] values@[j] == self.values@[j],
            decreases self.values.len() - i,
        {
            let ghost old_identifiers = identifiers@;
            identifiers.push(crate::structs::copy_bytes(&self.identifiers[i]));
            nonces.push(self.nonces[i]);
            values.push(self.values[i]);
            assert forall|j: int| 0 <= j < i implies identifiers@[j]@ == self.identifiers@[j]@ by {
                assert(identifiers@[j] == old_identifiers[j]);
            }
            i = i + 1;
        }
        let r = TokenMap { identifiers, nonces, values, model: Ghost(self.model@) };
        assert forall|j: int| 0 <= j < r.values.len() implies #[trigger] r.key_at(j) == self.key_at(
            j,
        ) by {}
        assert forall|k: TokenKey| #[trigger] r.model@.contains_key(k) implies exists|j: int|
            0 <= j < r.values.len() && r.key_at(j) == k by {
            let j = choose|j: int| 0 <= j < self.values.len() && self.key_at(j) == k;
            assert(r.key_at(j) == k);
        }
        r
    }
}

} // verus!
