//! Async state keyed by its input, in the shape Solid, React Query and
//! Svelte settled on. When the key changes the work in flight is abandoned
//! and its result discarded: a finishing task may write only while its key
//! is still the current one. The application spawns and drops the tasks;
//! these are the decisions around them.

use vstd::prelude::*;
use vstd::std_specs::cmp::PartialEqSpec;

verus! {

/// What the view matches on. A fallible source returns `Result<T, E>` as
/// its `T`.
#[derive(Debug, Clone, PartialEq, Eq)]
pub enum Resource<T> {
    Loading,
    Ready(T),
}

impl<T> Resource<T> {
    /// The value, once it has arrived.
    pub fn ready(&self) -> (r: Option<&T>)
        ensures
            r == (match self {
                Resource::Loading => None,
                Resource::Ready(v) => Some(v),
            }),
    {
        match self {
            Resource::Loading => None,
            Resource::Ready(value) => Some(value),
        }
    }
}

/// The key beside the value, so a finishing task can check that it is
/// still the current one before writing.
pub struct ResourceState<K, T> {
    /// `None` until the first render starts work.
    key: Option<K>,
    value: Resource<T>,
}

/// A resource state taken as its key and value.
pub struct ResourceView<K, T> {
    pub key: Option<K>,
    pub value: Resource<T>,
}

impl<K, T> View for ResourceState<K, T> {
    type V = ResourceView<K, T>;

    closed spec fn view(&self) -> ResourceView<K, T> {
        ResourceView { key: self.key, value: self.value }
    }
}

/// Whether `current` is `Some` key equal, by `K`'s own `==`, to `key`.
pub open spec fn is_current<K: PartialEq>(current: Option<K>, key: K) -> bool {
    match current {
        Some(k) => k.eq_spec(&key),
        None => false,
    }
}

/// The state after a render with `key`: unchanged when `key` is already
/// current, else `key` with the value loading again.
pub open spec fn after_begin<K: PartialEq, T>(v: ResourceView<K, T>, key: K) -> ResourceView<K, T> {
    if is_current(v.key, key) {
        v
    } else {
        ResourceView { key: Some(key), value: Resource::Loading }
    }
}

/// The state after work for `key` finishes with `value`: it lands only
/// while `key` is current.
pub open spec fn after_finish<K: PartialEq, T>(v: ResourceView<K, T>, key: K, value: T) -> ResourceView<K, T> {
    if is_current(v.key, key) {
        ResourceView { key: v.key, value: Resource::Ready(value) }
    } else {
        v
    }
}

impl<K: PartialEq, T> ResourceState<K, T> {
    /// Nothing started yet: loading, no key.
    pub fn new() -> (r: Self)
        ensures
            r@.key is None,
            r@.value is Loading,
    {
        ResourceState { key: None, value: Resource::Loading }
    }

    /// What the view matches on.
    pub fn value(&self) -> (r: &Resource<T>)
        ensures
            *r == self@.value,
    {
        &self.value
    }

    fn holds(&self, key: &K) -> (r: bool)
        requires
            K::obeys_eq_spec(),
        ensures
            r == is_current(self@.key, *key),
    {
        match &self.key {
            Some(k) => k == key,
            None => false,
        }
    }

    /// A render with `key`. The same key as the work already started
    /// changes nothing and returns `false`; any other key becomes current,
    /// the value goes back to loading, and `true` says to start work for it
    /// (dropping whatever was in flight).
    pub fn begin(&mut self, key: K) -> (start: bool)
        requires
            K::obeys_eq_spec(),
        ensures
            start == !is_current(old(self)@.key, key),
            final(self)@ == after_begin(old(self)@, key),
    {
        if self.holds(&key) {
            return false;
        }
        self.key = Some(key);
        self.value = Resource::Loading;
        true
    }

    /// Work started for `key` finished with `value`. It lands only while
    /// `key` is still the current one; a superseded result is dropped and
    /// `false` returned.
    pub fn finish(&mut self, key: &K, value: T) -> (delivered: bool)
        requires
            K::obeys_eq_spec(),
        ensures
            delivered == is_current(old(self)@.key, *key),
            final(self)@ == after_finish(old(self)@, *key, value),
    {
        if self.holds(key) {
            self.value = Resource::Ready(value);
            true
        } else {
            false
        }
    }
}

/// A result for a key that is no longer current never overwrites: once a
/// render moves the key to `new_key`, work for any `old_key` that `==`
/// does not match it finishing changes nothing.
pub proof fn lemma_stale_result_is_dropped<K: PartialEq, T>(
    v: ResourceView<K, T>,
    old_key: K,
    new_key: K,
    value: T,
)
    requires
        !is_current(v.key, new_key),
        !new_key.eq_spec(&old_key),
    ensures
        after_begin(v, new_key).key == Some(new_key),
        after_finish(after_begin(v, new_key), old_key, value) == after_begin(v, new_key),
{
}

/// Work for the current key lands: after a render with `key`, its result
/// is what the view reads, and the key stays.
pub proof fn lemma_current_result_lands<K: PartialEq, T>(v: ResourceView<K, T>, key: K, value: T)
    requires
        key.eq_spec(&key),
    ensures
        after_finish(after_begin(v, key), key, value).value == Resource::Ready(value),
        after_finish(after_begin(v, key), key, value).key == after_begin(v, key).key,
{
}

/// A render with the key already current restarts nothing: the value the
/// view reads, loading or ready, stays.
pub proof fn lemma_same_key_keeps_value<K: PartialEq, T>(v: ResourceView<K, T>, key: K)
    requires
        is_current(v.key, key),
    ensures
        after_begin(v, key) == v,
{
}

/// A slow result never overwrites the fast one that superseded it: from
/// any state, a render with a new key `k2` shows loading under `k2`; the
/// earlier key's work finishing then changes nothing; `k2`'s work
/// finishing shows its value; and the earlier work finishing after that
/// still changes nothing.
pub proof fn lemma_superseded_never_overwrites<K: PartialEq, T>(
    v: ResourceView<K, T>,
    k1: K,
    k2: K,
    x1: T,
    x2: T,
)
    requires
        !is_current(v.key, k2),
        !k2.eq_spec(&k1),
        k2.eq_spec(&k2),
    ensures
        ({
            let b = after_begin(v, k2);
            let c = after_finish(b, k2, x2);
            &&& b.key == Some(k2)
            &&& b.value == Resource::<T>::Loading
            &&& after_finish(b, k1, x1) == b
            &&& c.key == Some(k2)
            &&& c.value == Resource::Ready(x2)
            &&& after_finish(c, k1, x1) == c
        }),
{
}

/// The state after renders with each of `keys` in turn.
pub open spec fn after_begins<K: PartialEq, T>(v: ResourceView<K, T>, keys: Seq<K>) -> ResourceView<K, T>
    decreases keys.len(),
{
    if keys.len() == 0 {
        v
    } else {
        after_begin(after_begins(v, keys.drop_last()), keys.last())
    }
}

/// How many of those renders start work: those whose key is not current.
pub open spec fn begin_starts<K: PartialEq, T>(v: ResourceView<K, T>, keys: Seq<K>) -> nat
    decreases keys.len(),
{
    if keys.len() == 0 {
        0
    } else {
        let before = after_begins(v, keys.drop_last());
        begin_starts(v, keys.drop_last()) + if is_current(before.key, keys.last()) {
            0nat
        } else {
            1nat
        }
    }
}

/// How many of `keys` differ from the key before them, the first from
/// `current`.
pub open spec fn key_changes<K>(current: Option<K>, keys: Seq<K>) -> nat
    decreases keys.len(),
{
    if keys.len() == 0 {
        0
    } else {
        let before = if keys.len() == 1 {
            current
        } else {
            Some(keys[keys.len() - 2])
        };
        key_changes(current, keys.drop_last()) + if before == Some(keys.last()) {
            0nat
        } else {
            1nat
        }
    }
}

/// Work starts once per change of key, for a key type whose `==` is
/// equality: over a run of renders, as many starts as keys that differ
/// from the one before, and after it the last key is current; an
/// unchanged key restarts nothing and keeps the value.
pub proof fn lemma_work_starts_once_per_change<K: PartialEq, T>(v: ResourceView<K, T>, keys: Seq<K>)
    requires
        forall|a: K, b: K| #[trigger] a.eq_spec(&b) <==> a == b,
    ensures
        begin_starts(v, keys) == key_changes(v.key, keys),
        after_begins(v, keys).key == if keys.len() == 0 {
            v.key
        } else {
            Some(keys.last())
        },
        keys.len() > 0 && v.key == Some(keys[0]) && (forall|i: int| 0 <= i < keys.len() ==> #[trigger] keys[i] == keys[0])
            ==> after_begins(v, keys) == v,
    decreases keys.len(),
{
    if keys.len() > 0 {
        let n = keys.len() - 1;
        let front = keys.drop_last();
        lemma_work_starts_once_per_change(v, front);
        if n > 0 {
            assert(front.last() == keys[n - 1]);
        }
        if v.key == Some(keys[0]) && (forall|i: int| 0 <= i < keys.len() ==> #[trigger] keys[i] == keys[0]) {
            if n > 0 {
                assert(front[0] == keys[0]);
                assert(forall|i: int| 0 <= i < front.len() ==> #[trigger] front[i] == keys[i]);
            }
            assert(keys.last() == keys[0]);
        }
    }
}

} // verus!
