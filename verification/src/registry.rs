//! Registries of live objects keyed by the integer handles the host and
//! this crate exchange, and the counter that hands the handles out.
use vstd::hash_map::HashMapWithView;
use vstd::prelude::*;

verus! {

/// Live objects by handle.
#[verifier::reject_recursive_types(T)]
pub struct HandleRegistry<T> {
    entries: HashMapWithView<u64, T>,
}

impl<T> View for HandleRegistry<T> {
    type V = Map<u64, T>;

    closed spec fn view(&self) -> Map<u64, T> {
        self.entries@
    }
}

impl<T> HandleRegistry<T> {
    /// An empty registry.
    pub fn new() -> (r: Self)
        ensures
            r@ == Map::<u64, T>::empty(),
    {
        broadcast use vstd::std_specs::hash::group_hash_axioms;

        HandleRegistry { entries: HashMapWithView::new() }
    }

    /// Registers `value` under `handle`, replacing what was there.
    pub fn insert(&mut self, handle: u64, value: T)
        ensures
            final(self)@ == old(self)@.insert(handle, value),
    {
        self.entries.insert(handle, value);
    }

    /// Takes out what is registered under `handle`.
    pub fn remove(&mut self, handle: u64) -> (removed: Option<T>)
        ensures
            match removed {
                Some(v) => old(self)@.contains_key(handle) && v == old(self)@[handle]
                    && final(self)@ == old(self)@.remove(handle),
                None => !old(self)@.contains_key(handle) && final(self)@ == old(self)@,
            },
    {
        self.entries.remove(&handle)
    }

    /// What is registered under `handle`.
    pub fn get(&self, handle: u64) -> (found: Option<&T>)
        ensures
            match found {
                Some(v) => self@.contains_key(handle) && *v == self@[handle],
                None => !self@.contains_key(handle),
            },
    {
        self.entries.get(&handle)
    }

    /// Whether anything is registered under `handle`.
    pub fn contains(&self, handle: u64) -> (b: bool)
        ensures
            b == self@.contains_key(handle),
    {
        self.entries.contains_key(&handle)
    }
}

/// Hands out handles in order from 1, as an atomic counter does, wrapping
/// around after `u64::MAX`.
pub struct HandleCounter {
    next: u64,
}

impl View for HandleCounter {
    type V = u64;

    closed spec fn view(&self) -> u64 {
        self.next
    }
}

impl HandleCounter {
    /// A counter whose first handle is 1.
    pub fn new() -> (c: Self)
        ensures
            c@ == 1,
    {
        HandleCounter { next: 1 }
    }

    /// The next handle; the counter moves on by one, wrapping.
    pub fn next_handle(&mut self) -> (h: u64)
        ensures
            h == old(self)@,
            final(self)@ == (if old(self)@ == u64::MAX { 0 } else { (old(self)@ + 1) as u64 }),
    {
        let h = self.next;
        self.next = if h == u64::MAX { 0 } else { h + 1 };
        h
    }
}

/// Law: after `insert(handle, value)` on a registry, `get(handle)` finds
/// `value`, and what `get` finds under any other handle is unchanged.
pub proof fn law_registry_read_after_write<T>(before: HandleRegistry<T>, after: HandleRegistry<T>, handle: u64, value: T, other: u64)
    requires
        after@ == before@.insert(handle, value),
        other != handle,
    ensures
        after@.contains_key(handle) && after@[handle] == value,
        after@.contains_key(other) == before@.contains_key(other),
        before@.contains_key(other) ==> after@[other] == before@[other],
{
}

/// Law: `remove(handle)` right after `insert(handle, value)` gives back
/// `value`, and leaves the registry as `remove(handle)` would have left it
/// before the insert; `get(handle)` then finds nothing.
pub proof fn law_registry_remove_after_insert<T>(before: HandleRegistry<T>, inserted: HandleRegistry<T>, after: HandleRegistry<T>, handle: u64, value: T, removed: Option<T>)
    requires
        inserted@ == before@.insert(handle, value),
        match removed {
            Some(v) => inserted@.contains_key(handle) && v == inserted@[handle]
                && after@ == inserted@.remove(handle),
            None => !inserted@.contains_key(handle) && after@ == inserted@,
        },
    ensures
        removed == Some(value),
        after@ == before@.remove(handle),
        !after@.contains_key(handle),
{
    assert(before@.insert(handle, value).remove(handle) =~= before@.remove(handle));
}

/// The handle the counter gives `k` calls after reading `start`.
pub open spec fn handle_after(start: u64, k: nat) -> int {
    (start + k) % 0x1_0000_0000_0000_0000
}

/// Law: a counter hands out consecutive values, wrapping modulo 2^64, so
/// no two of any 2^64 consecutive handles are equal.
pub proof fn law_counter_consecutive(start: u64)
    ensures
        (if start == u64::MAX { 0int } else { start + 1 }) == handle_after(start, 1),
        forall|i: nat, j: nat| i < j < 0x1_0000_0000_0000_0000 ==> handle_after(start, i) != handle_after(start, j),
{
    assert forall|i: nat, j: nat| i < j < 0x1_0000_0000_0000_0000 implies handle_after(start, i) != handle_after(start, j) by {
        assert((start + i) % 0x1_0000_0000_0000_0000 != (start + j) % 0x1_0000_0000_0000_0000) by (nonlinear_arith)
            requires
                i < j < 0x1_0000_0000_0000_0000,
                0 <= start < 0x1_0000_0000_0000_0000,
        ;
    }
}

} // verus!
