//! A small keyed store with a fixed capacity.
//!
//! The coordinator keeps the first game of each colour-reversed pair in one
//! of these until the partner game finishes.

use vstd::prelude::*;

verus! {

/// A key type the store can compare. Implementations must decide exactly
/// structural equality; the integer impls below do so by `==`.
pub trait StoreKey: Sized + Copy {
    fn key_eq(&self, other: &Self) -> (r: bool)
        ensures
            r == (*self == *other),
    ;
}

impl StoreKey for i32 {
    fn key_eq(&self, other: &Self) -> (r: bool)
        ensures
            r == (*self == *other),
    {
        *self == *other
    }
}

impl StoreKey for usize {
    fn key_eq(&self, other: &Self) -> (r: bool)
        ensures
            r == (*self == *other),
    {
        *self == *other
    }
}

impl StoreKey for u64 {
    fn key_eq(&self, other: &Self) -> (r: bool)
        ensures
            r == (*self == *other),
    {
        *self == *other
    }
}

/// An association from keys to values holding at most `capacity` entries.
pub struct Store<K: StoreKey, V> {
    keys: Vec<K>,
    vals: Vec<V>,
    capacity: usize,
}

impl<K: StoreKey, V> Store<K, V> {
    /// Keys and values run in parallel and no key occurs twice.
    pub closed spec fn wf(self) -> bool {
        &&& self.keys@.len() == self.vals@.len()
        &&& self.keys@.len() <= self.capacity
        &&& forall|i: int, j: int|
            0 <= i < j < self.keys@.len() ==> self.keys@[i] != self.keys@[j]
    }

    /// The entries as a mathematical map.
    pub closed spec fn view(self) -> Map<K, V> {
        Map::new(
            |k: K| exists|i: int| 0 <= i < self.keys@.len() && self.keys@[i] == k,
            |k: K|
                self.vals@[choose|i: int| 0 <= i < self.keys@.len() && self.keys@[i] == k],
        )
    }

    pub closed spec fn spec_len(self) -> int {
        self.keys@.len() as int
    }

    pub closed spec fn spec_capacity(self) -> int {
        self.capacity as int
    }

    pub closed spec fn has_key(self, key: K) -> bool {
        exists|i: int| 0 <= i < self.keys@.len() && self.keys@[i] == key
    }

    /// The value stored under `key`, meaningful only when `has_key(key)`.
    pub closed spec fn value_of(self, key: K) -> V {
        self.vals@[choose|i: int| 0 <= i < self.keys@.len() && self.keys@[i] == key]
    }

    pub fn with_capacity(capacity: usize) -> (r: Self)
        ensures
            r.wf(),
            r.spec_len() == 0,
            r.spec_capacity() == capacity,
            forall|k: K| !r.has_key(k),
    {
        Self { keys: Vec::new(), vals: Vec::new(), capacity }
    }

    pub fn len(&self) -> (r: usize)
        ensures
            r == self.spec_len(),
    {
        self.keys.len()
    }

    pub fn capacity(&self) -> (r: usize)
        ensures
            r == self.spec_capacity(),
    {
        self.capacity
    }

    pub fn is_empty(&self) -> (r: bool)
        ensures
            r == (self.spec_len() == 0),
    {
        self.keys.len() == 0
    }

    pub fn is_full(&self) -> (r: bool)
        ensures
            r == (self.spec_len() == self.spec_capacity()),
    {
        self.keys.len() == self.capacity
    }

    /// Index of `key` among the stored keys, if present.
    fn find(&self, key: K) -> (r: Option<usize>)
        ensures
            match r {
                Some(i) => i < self.keys@.len() && self.keys@[i as int] == key,
                None => !self.has_key(key),
            },
    {
        let mut i: usize = 0;
        while i < self.keys.len()
            invariant
                i <= self.keys@.len(),
                forall|j: int| 0 <= j < i ==> self.keys@[j] != key,
            decreases self.keys@.len() - i,
        {
            if self.keys[i].key_eq(&key) {
                return Some(i);
            }
            i += 1;
        }
        None
    }

    pub fn contains_key(&self, key: K) -> (r: bool)
        ensures
            r == self.has_key(key),
    {
        self.find(key).is_some()
    }

    /// A clone of the value stored under `key`, if any; the store is unchanged.
    pub fn get(&mut self, key: K) -> (r: Option<V>) where V: Clone
        requires
            old(self).wf(),
        ensures
            *final(self) == *old(self),
            match r {
                Some(v) => old(self).has_key(key) && cloned(old(self).value_of(key), v),
                None => !old(self).has_key(key),
            },
    {
        match self.find(key) {
            Some(i) => {
                proof {
                    let j = choose|j: int|
                        0 <= j < self.keys@.len() && self.keys@[j] == key;
                    if j != i as int {
                        assert(self.keys@[j] != self.keys@[i as int]);
                    }
                    assert(self.value_of(key) == self.vals@[i as int]);
                }
                Some(self.vals[i].clone())
            },
            None => None,
        }
    }

    /// Store `data` under `key`: an existing entry is replaced; a new entry
    /// is added only while the store is not full.
    pub fn insert(&mut self, key: K, data: V)
        requires
            old(self).wf(),
        ensures
            final(self).wf(),
            final(self).spec_capacity() == old(self).spec_capacity(),
            old(self).has_key(key) ==> final(self)@ == old(self)@.insert(key, data)
                && final(self).spec_len() == old(self).spec_len(),
            !old(self).has_key(key) && old(self).spec_len() < old(self).spec_capacity()
                ==> final(self)@ == old(self)@.insert(key, data) && final(self).spec_len()
                == old(self).spec_len() + 1,
            !old(self).has_key(key) && old(self).spec_len() == old(self).spec_capacity()
                ==> *final(self) == *old(self),
            forall|k: K| k != key ==> final(self).has_key(k) == old(self).has_key(k),
            final(self).has_key(key) == (old(self).has_key(key) || old(self).spec_len()
                < old(self).spec_capacity()),
            final(self).has_key(key) ==> final(self).value_of(key) == data,
            forall|k: K|
                k != key && old(self).has_key(k) ==> final(self).value_of(k) == old(
                    self,
                ).value_of(k),
    {
        let ghost pre = *self;
        match self.find(key) {
            Some(i) => {
                self.vals.set(i, data);
                proof {
                    lemma_unique_key_maps::<K, V>(pre, *self, key, i as int);
                }
            },
            None => {
                if self.keys.len() < self.capacity {
                    self.keys.push(key);
                    self.vals.push(data);
                    proof {
                        lemma_pushed_key_maps::<K, V>(pre, *self, key);
                    }
                }
            },
        }
    }

    /// The value under `key`, or the result of `func` stored there first:
    /// an entry can only be added while the store is not full.
    pub fn get_or_insert_with<F: FnOnce() -> V>(&mut self, key: K, func: F) -> (r: Option<
        V,
    >) where V: Clone
        requires
            old(self).wf(),
            func.requires(()),
        ensures
            final(self).wf(),
            final(self).spec_capacity() == old(self).spec_capacity(),
            old(self).has_key(key) ==> *final(self) == *old(self) && (r matches Some(v)
                && cloned(old(self).value_of(key), v)),
            !old(self).has_key(key) && old(self).spec_len() == old(self).spec_capacity()
                ==> *final(self) == *old(self) && r is None,
            !old(self).has_key(key) && old(self).spec_len() < old(self).spec_capacity() ==> {
                &&& final(self).spec_len() == old(self).spec_len() + 1
                &&& final(self).has_key(key)
                &&& func.ensures((), final(self).value_of(key))
                &&& (r matches Some(v) && cloned(final(self).value_of(key), v))
                &&& forall|k: K| k != key ==> final(self).has_key(k) == old(self).has_key(k)
            },
    {
        if self.contains_key(key) {
            self.get(key)
        } else if self.keys.len() == self.capacity {
            None
        } else {
            let v = func();
            let copy = v.clone();
            self.insert(key, v);
            Some(copy)
        }
    }

    /// Remove and return the entry under `key`, if any.
    pub fn remove(&mut self, key: K) -> (r: Option<V>)
        requires
            old(self).wf(),
        ensures
            final(self).wf(),
            final(self).spec_capacity() == old(self).spec_capacity(),
            match r {
                Some(v) => old(self).has_key(key) && v == old(self).value_of(key)
                    && final(self).spec_len() == old(self).spec_len() - 1,
                None => !old(self).has_key(key) && *final(self) == *old(self),
            },
            !final(self).has_key(key),
            forall|k: K| k != key ==> final(self).has_key(k) == old(self).has_key(k),
            forall|k: K|
                k != key && old(self).has_key(k) ==> final(self).value_of(k) == old(
                    self,
                ).value_of(k),
    {
        let ghost pre = *self;
        match self.find(key) {
            Some(i) => {
                let k = self.keys.swap_remove(i);
                let v = self.vals.swap_remove(i);
                proof {
                    lemma_swap_removed_maps::<K, V>(pre, *self, key, i as int);
                }
                Some(v)
            },
            None => None,
        }
    }
}

/// After replacing the value at the unique index of `key`, the store maps
/// `key` to the new value and all other keys as before.
proof fn lemma_unique_key_maps<K: StoreKey, V>(pre: Store<K, V>, post: Store<K, V>, key: K, i: int)
    requires
        pre.wf(),
        0 <= i < pre.keys@.len(),
        pre.keys@[i] == key,
        post.keys@ == pre.keys@,
        post.vals@ == pre.vals@.update(i, post.vals@[i]),
        post.capacity == pre.capacity,
    ensures
        post.wf(),
        post@ == pre@.insert(key, post.vals@[i]),
        post.spec_len() == pre.spec_len(),
        forall|k: K| post.has_key(k) == pre.has_key(k),
        post.has_key(key),
        post.value_of(key) == post.vals@[i],
        forall|k: K| k != key && pre.has_key(k) ==> post.value_of(k) == pre.value_of(k),
{
    assert(post.has_key(key)) by {
        assert(post.keys@[i] == key);
    }
    assert(post.value_of(key) == post.vals@[i]) by {
        let j = choose|j: int| 0 <= j < post.keys@.len() && post.keys@[j] == key;
        if j != i {
            assert(post.keys@[j] != post.keys@[i]);
        }
    }
    assert forall|k: K| k != key && pre.has_key(k) implies post.value_of(k) == pre.value_of(
        k,
    ) by {
        let j = choose|j: int| 0 <= j < pre.keys@.len() && pre.keys@[j] == k;
        let j2 = choose|j2: int| 0 <= j2 < post.keys@.len() && post.keys@[j2] == k;
        if j2 != j {
            assert(pre.keys@[j2] != pre.keys@[j]);
        }
        assert(j != i);
        assert(post.vals@[j] == pre.vals@[j]);
    }
    assert forall|k: K| post@.dom().contains(k) implies pre@.insert(key, post.vals@[i]).dom()
        .contains(k) by {}
    assert forall|k: K| pre@.insert(key, post.vals@[i]).dom().contains(k) implies post@.dom()
        .contains(k) by {}
    assert forall|k: K| #[trigger] post@.dom().contains(k) implies post@[k] == pre@.insert(
        key,
        post.vals@[i],
    )[k] by {
        let j = choose|j: int| 0 <= j < post.keys@.len() && post.keys@[j] == k;
        if k == key {
            assert(j == i);
        } else {
            assert(j != i);
        }
    }
    assert(post@ =~= pre@.insert(key, post.vals@[i]));
}

/// After pushing a fresh key and its value, the store maps the new key to
/// the new value and all other keys as before.
proof fn lemma_pushed_key_maps<K: StoreKey, V>(pre: Store<K, V>, post: Store<K, V>, key: K)
    requires
        pre.wf(),
        !pre.has_key(key),
        pre.keys@.len() < pre.capacity,
        post.keys@ == pre.keys@.push(key),
        post.vals@ == pre.vals@.push(post.vals@[pre.vals@.len() as int]),
        post.capacity == pre.capacity,
    ensures
        post.wf(),
        post@ == pre@.insert(key, post.vals@[pre.vals@.len() as int]),
        post.spec_len() == pre.spec_len() + 1,
        post.has_key(key),
        forall|k: K| k != key ==> post.has_key(k) == pre.has_key(k),
        post.value_of(key) == post.vals@[pre.vals@.len() as int],
        forall|k: K| k != key && pre.has_key(k) ==> post.value_of(k) == pre.value_of(k),
    {
    let n = pre.keys@.len() as int;
    let v = post.vals@[n];
    assert(post.keys@[n] == key);
    assert(post.wf()) by {
        assert forall|a: int, b: int| 0 <= a < b < post.keys@.len() implies post.keys@[a]
            != post.keys@[b] by {
            if b == n {
                assert(post.keys@[a] == pre.keys@[a]);
                if pre.keys@[a] == key {
                    assert(pre.has_key(key));
                }
            }
        }
    }
    assert(post.value_of(key) == post.vals@[n]) by {
        let j = choose|j: int| 0 <= j < post.keys@.len() && post.keys@[j] == key;
        if j != n {
            assert(post.keys@[j] != post.keys@[n]);
        }
    }
    assert forall|k: K| k != key && pre.has_key(k) implies post.value_of(k) == pre.value_of(
        k,
    ) by {
        let j = choose|j: int| 0 <= j < pre.keys@.len() && pre.keys@[j] == k;
        let j2 = choose|j2: int| 0 <= j2 < post.keys@.len() && post.keys@[j2] == k;
        assert(post.keys@[j] == k);
        if j2 != j {
            assert(post.keys@[j2] != post.keys@[j]);
        }
        assert(j != n);
        assert(post.vals@[j] == pre.vals@[j]);
    }
    assert forall|k: K| k != key implies post.has_key(k) == pre.has_key(k) by {
        if pre.has_key(k) {
            let j = choose|j: int| 0 <= j < pre.keys@.len() && pre.keys@[j] == k;
            assert(post.keys@[j] == k);
        }
        if post.has_key(k) {
            let j = choose|j: int| 0 <= j < post.keys@.len() && post.keys@[j] == k;
            assert(j != n);
            assert(pre.keys@[j] == k);
        }
    }
    assert forall|k: K| #[trigger] post@.dom().contains(k) implies post@[k]
        == pre@.insert(key, v)[k] by {
        let j = choose|j: int| 0 <= j < post.keys@.len() && post.keys@[j] == k;
        if k == key {
            if j != n {
                assert(pre.keys@[j] == key);
            }
        } else {
            assert(j != n);
            assert(pre.keys@[j] == k);
        }
    }
    assert forall|k: K| pre@.insert(key, v).dom().contains(k) implies post@.dom().contains(
        k,
    ) by {
        if k == key {
            assert(post.keys@[n] == k);
        } else {
            let j = choose|j: int| 0 <= j < pre.keys@.len() && pre.keys@[j] == k;
            assert(post.keys@[j] == k);
        }
    }
    assert(post@ =~= pre@.insert(key, v));
}

/// After swap-removing the unique index of `key`, the store no longer holds
/// `key` and holds every other key unchanged.
proof fn lemma_swap_removed_maps<K: StoreKey, V>(
    pre: Store<K, V>,
    post: Store<K, V>,
    key: K,
    i: int,
)
    requires
        pre.wf(),
        0 <= i < pre.keys@.len(),
        pre.keys@[i] == key,
        post.keys@ == pre.keys@.update(i, pre.keys@[pre.keys@.len() - 1]).drop_last(),
        post.vals@ == pre.vals@.update(i, pre.vals@[pre.vals@.len() - 1]).drop_last(),
        post.capacity == pre.capacity,
    ensures
        post.wf(),
        post.spec_len() == pre.spec_len() - 1,
        !post.has_key(key),
        forall|k: K| k != key ==> post.has_key(k) == pre.has_key(k),
        forall|k: K| k != key && pre.has_key(k) ==> post.value_of(k) == pre.value_of(k),
{
    let n = pre.keys@.len() as int;
    assert forall|a: int, b: int| 0 <= a < b < post.keys@.len() implies post.keys@[a]
        != post.keys@[b] by {
        if a == i {
            assert(post.keys@[a] == pre.keys@[n - 1]);
            assert(post.keys@[b] == pre.keys@[b]);
        } else if b == i {
            assert(post.keys@[b] == pre.keys@[n - 1]);
            assert(post.keys@[a] == pre.keys@[a]);
        } else {
            assert(post.keys@[a] == pre.keys@[a]);
            assert(post.keys@[b] == pre.keys@[b]);
        }
    }
    assert forall|j: int| 0 <= j < post.keys@.len() implies post.keys@[j] != key by {
        if j == i {
            assert(post.keys@[j] == pre.keys@[n - 1]);
            if pre.keys@[n - 1] == key && n - 1 != i {
                assert(pre.keys@[i] != pre.keys@[n - 1]);
            }
        } else {
            assert(post.keys@[j] == pre.keys@[j]);
            if pre.keys@[j] == key {
                assert(pre.keys@[j] != pre.keys@[i]);
            }
        }
    }
    assert forall|k: K| k != key implies post.has_key(k) == pre.has_key(k) by {
        if pre.has_key(k) {
            let j = choose|j: int| 0 <= j < pre.keys@.len() && pre.keys@[j] == k;
            if j == n - 1 {
                if i == n - 1 {
                    assert(k == key);
                } else {
                    assert(post.keys@[i] == k);
                }
            } else {
                assert(post.keys@[j] == k);
            }
        }
        if post.has_key(k) {
            let j = choose|j: int| 0 <= j < post.keys@.len() && post.keys@[j] == k;
            if j == i {
                assert(pre.keys@[n - 1] == k);
            } else {
                assert(pre.keys@[j] == k);
            }
        }
    }
    assert forall|k: K| k != key && pre.has_key(k) implies post.value_of(k) == pre.value_of(
        k,
    ) by {
        let jpre = choose|j: int| 0 <= j < pre.keys@.len() && pre.keys@[j] == k;
        let jpost = choose|j: int| 0 <= j < post.keys@.len() && post.keys@[j] == k;
        assert(pre.vals@[jpre] == pre.value_of(k));
        if jpost == i {
            assert(post.keys@[jpost] == pre.keys@[n - 1]);
            assert(jpre == n - 1) by {
                if jpre != n - 1 {
                    assert(pre.keys@[jpre] != pre.keys@[n - 1]);
                }
            }
            assert(post.vals@[jpost] == pre.vals@[n - 1]);
        } else {
            assert(post.keys@[jpost] == pre.keys@[jpost]);
            assert(jpre == jpost) by {
                if jpre != jpost {
                    assert(pre.keys@[jpre] != pre.keys@[jpost]);
                }
            }
            assert(post.vals@[jpost] == pre.vals@[jpost]);
        }
    }
}

} // verus!
