//! A small keyed store: slots addressed by a namespace tag and a byte string.
use vstd::prelude::*;

verus! {

/// One slot of a [`Store`]; `None` marks a key that was removed.
pub struct Slot<V> {
    pub tag: u32,
    pub bytes: Vec<u8>,
    pub value: Option<V>,
}

/// A map from `(tag, bytes)` keys to values, kept as a vector of slots.
///
/// A key is found in the last slot that carries it. The keys hold byte
/// strings (accounts are 32-byte digests), and vstd specifies std's hash and
/// tree maps only for keys whose equality and hashing it models, such as
/// integers; over `Vec<u8>` keys their lookups would prove nothing, so the
/// slots are searched here, with every step verified.
pub struct Store<V> {
    slots: Vec<Slot<V>>,
}

pub open spec fn slot_matches<V>(s: Slot<V>, tag: u32, bytes: Seq<u8>) -> bool {
    s.tag == tag && s.bytes@ == bytes
}

/// What the slots `s` hold for a key: the value of the last slot with that key.
pub open spec fn lookup<V>(s: Seq<Slot<V>>, tag: u32, bytes: Seq<u8>) -> Option<V>
    decreases s.len(),
{
    if s.len() == 0 {
        None
    } else if slot_matches(s.last(), tag, bytes) {
        s.last().value
    } else {
        lookup(s.drop_last(), tag, bytes)
    }
}

proof fn lemma_lookup_push<V>(s: Seq<Slot<V>>, new: Slot<V>, tag: u32, bytes: Seq<u8>)
    ensures
        lookup(s.push(new), tag, bytes) == if slot_matches(new, tag, bytes) {
            new.value
        } else {
            lookup(s, tag, bytes)
        },
{
    assert(s.push(new).drop_last() =~= s);
}

proof fn lemma_lookup_update<V>(
    s: Seq<Slot<V>>,
    i: int,
    new: Slot<V>,
    tag: u32,
    bytes: Seq<u8>,
    ktag: u32,
    kbytes: Seq<u8>,
)
    requires
        0 <= i < s.len(),
        slot_matches(s[i], tag, bytes),
        slot_matches(new, tag, bytes),
        forall|j: int| i < j < s.len() ==> !slot_matches(#[trigger] s[j], tag, bytes),
    ensures
        lookup(s.update(i, new), ktag, kbytes) == if ktag == tag && kbytes == bytes {
            new.value
        } else {
            lookup(s, ktag, kbytes)
        },
    decreases s.len(),
{
    if i == s.len() - 1 {
        assert(s.update(i, new).drop_last() =~= s.drop_last());
    } else {
        assert(s.update(i, new).drop_last() =~= s.drop_last().update(i, new));
        assert(!slot_matches(s[s.len() - 1], tag, bytes));
        lemma_lookup_update(s.drop_last(), i, new, tag, bytes, ktag, kbytes);
    }
}

/// Whether two byte strings are equal.
pub fn bytes_eq(a: &Vec<u8>, b: &Vec<u8>) -> (r: bool)
    ensures
        r == (a@ == b@),
{
    if a.len() != b.len() {
        return false;
    }
    let mut i: usize = 0;
    while i < a.len()
        invariant
            a.len() == b.len(),
            i <= a.len(),
            forall|j: int| 0 <= j < i ==> a@[j] == b@[j],
        decreases a.len() - i,
    {
        if a[i] != b[i] {
            return false;
        }
        i = i + 1;
    }
    assert(a@ =~= b@);
    true
}

/// A fresh copy of a byte string.
pub fn copy_bytes(a: &Vec<u8>) -> (r: Vec<u8>)
    ensures
        r@ == a@,
{
    let mut r: Vec<u8> = Vec::new();
    let mut i: usize = 0;
    while i < a.len()
        invariant
            i <= a.len(),
            r@ == a@.subrange(0, i as int),
        decreases a.len() - i,
    {
        r.push(a[i]);
        i = i + 1;
        assert(r@ =~= a@.subrange(0, i as int));
    }
    assert(r@ =~= a@);
    r
}

impl<V> View for Store<V> {
    type V = Map<(u32, Seq<u8>), V>;

    closed spec fn view(&self) -> Map<(u32, Seq<u8>), V> {
        Map::new(
            |k: (u32, Seq<u8>)| lookup(self.slots@, k.0, k.1) is Some,
            |k: (u32, Seq<u8>)| lookup(self.slots@, k.0, k.1)->Some_0,
        )
    }
}

impl<V: Copy> Store<V> {
    /// An empty store.
    pub fn new() -> (r: Self)
        ensures
            r@ == Map::<(u32, Seq<u8>), V>::empty(),
    {
        let r = Store { slots: Vec::new() };
        assert(r@ =~= Map::<(u32, Seq<u8>), V>::empty());
        r
    }

    /// The index of the last slot with the given key.
    fn find(&self, tag: u32, bytes: &Vec<u8>) -> (r: Option<usize>)
        ensures
            match r {
                Some(i) => {
                    &&& i < self.slots.len()
                    &&& slot_matches(self.slots@[i as int], tag, bytes@)
                    &&& forall|j: int|
                        i < j < self.slots.len() ==> !slot_matches(
                            #[trigger] self.slots@[j],
                            tag,
                            bytes@,
                        )
                    &&& lookup(self.slots@, tag, bytes@) == self.slots@[i as int].value
                },
                None => lookup(self.slots@, tag, bytes@) is None,
            },
    {
        let mut i: usize = self.slots.len();
        assert(self.slots@.subrange(0, i as int) =~= self.slots@);
        while i > 0
            invariant
                i <= self.slots.len(),
                lookup(self.slots@, tag, bytes@) == lookup(
                    self.slots@.subrange(0, i as int),
                    tag,
                    bytes@,
                ),
                forall|j: int|
                    i <= j < self.slots.len() ==> !slot_matches(#[trigger] self.slots@[j], tag, bytes@),
            decreases i,
        {
            let s = &self.slots[i - 1];
            let ghost prefix = self.slots@.subrange(0, i as int);
            assert(prefix.drop_last() =~= self.slots@.subrange(0, i - 1));
            assert(prefix.last() == self.slots@[i - 1]);
            if s.tag == tag && bytes_eq(&s.bytes, bytes) {
                return Some(i - 1);
            }
            i = i - 1;
        }
        assert(self.slots@.subrange(0, 0) =~= Seq::<Slot<V>>::empty());
        None
    }

    /// The value stored under a key, if any.
    pub fn get(&self, tag: u32, bytes: &Vec<u8>) -> (r: Option<V>)
        ensures
            r == (if self@.contains_key((tag, bytes@)) {
                Some(self@[(tag, bytes@)])
            } else {
                None
            }),
    {
        match self.find(tag, bytes) {
            Some(i) => self.slots[i].value,
            None => None,
        }
    }

    /// Stores `value` under a key (`None` removes the key).
    pub fn put(&mut self, tag: u32, bytes: &Vec<u8>, value: Option<V>)
        ensures
            final(self)@ == match value {
                Some(v) => old(self)@.insert((tag, bytes@), v),
                None => old(self)@.remove((tag, bytes@)),
            },
    {
        let slot = Slot { tag, bytes: copy_bytes(bytes), value };
        let ghost s0 = self.slots@;
        match self.find(tag, bytes) {
            Some(i) => {
                self.slots.set(i, slot);
                proof {
                    assert forall|k: (u32, Seq<u8>)| #![all_triggers]
                        lookup(self.slots@, k.0, k.1) == (if k == (tag, bytes@) {
                            value
                        } else {
                            lookup(s0, k.0, k.1)
                        }) by {
                        lemma_lookup_update(s0, i as int, slot, tag, bytes@, k.0, k.1);
                    }
                }
            },
            None => {
                self.slots.push(slot);
                proof {
                    assert forall|k: (u32, Seq<u8>)| #![all_triggers]
                        lookup(self.slots@, k.0, k.1) == (if k == (tag, bytes@) {
                            value
                        } else {
                            lookup(s0, k.0, k.1)
                        }) by {
                        lemma_lookup_push(s0, slot, k.0, k.1);
                    }
                }
            },
        }
        proof {
            match value {
                Some(v) => {
                    assert(self@ =~= old(self)@.insert((tag, bytes@), v));
                },
                None => {
                    assert(self@ =~= old(self)@.remove((tag, bytes@)));
                },
            }
        }
    }
}

} // verus!

verus! {

/// A map from byte strings to values.
pub struct ByteMap<V> {
    store: Store<V>,
}

impl<V> View for ByteMap<V> {
    type V = Map<Seq<u8>, V>;

    closed spec fn view(&self) -> Map<Seq<u8>, V> {
        Map::new(|b: Seq<u8>| self.store@.contains_key((0u32, b)), |b: Seq<u8>| self.store@[(0u32, b)])
    }
}

impl<V: Copy> ByteMap<V> {
    /// An empty map.
    pub fn new() -> (r: Self)
        ensures
            r@ == Map::<Seq<u8>, V>::empty(),
    {
        let r = ByteMap { store: Store::new() };
        assert(r@ =~= Map::<Seq<u8>, V>::empty());
        r
    }

    /// The value under `key`, if any.
    pub fn get(&self, key: &Vec<u8>) -> (r: Option<V>)
        ensures
            r == (if self@.contains_key(key@) {
                Some(self@[key@])
            } else {
                None
            }),
    {
        self.store.get(0, key)
    }

    /// Stores `value` under `key`.
    pub fn insert(&mut self, key: &Vec<u8>, value: V)
        ensures
            final(self)@ == old(self)@.insert(key@, value),
    {
        self.store.put(0, key, Some(value));
        assert(self@ =~= old(self)@.insert(key@, value));
    }

    /// Removes `key`.
    pub fn remove(&mut self, key: &Vec<u8>)
        ensures
            final(self)@ == old(self)@.remove(key@),
    {
        self.store.put(0, key, None);
        assert(self@ =~= old(self)@.remove(key@));
    }
}

} // verus!
