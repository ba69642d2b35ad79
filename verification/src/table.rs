//! The resource table: an arena that maps opaque integer handles to tagged
//! values with add / borrow / take / close operations.
//!
//! Handles are handed out in increasing order and never reused, so a handle
//! that has left the table stays invalid for the rest of the table's life.

use vstd::prelude::*;
use std::collections::HashMap;
use crate::error::Error;

verus! {

broadcast use vstd::std_specs::hash::group_hash_axioms;

/// An opaque handle into a [`ResourceTable`].
pub type ResourceId = u32;

/// What a slot of the table holds.
#[derive(Debug, Clone, Copy, PartialEq, Eq, Structural)]
pub enum ResourceKind {
    /// A deferred router invocation that has not been driven yet.
    Request,
    /// The sending half of a cancellation pair.
    AbortSender,
    /// A receiving half of a cancellation pair.
    AbortReceiver,
    /// A response body that has not been read yet.
    Body,
}

/// One entry of the table: the value, the tag that says what it is, and the
/// handle it is linked to (its own handle unless it was added with a link).
pub struct Slot<T> {
    pub kind: ResourceKind,
    pub peer: ResourceId,
    pub value: T,
}

/// The table itself. `T` is whatever the host stores behind a handle.
pub struct ResourceTable<T> {
    slots: HashMap<ResourceId, Slot<T>>,
    next: ResourceId,
}

/// Whether `m` has an entry of kind `kind` under `rid`.
pub open spec fn holds<T>(m: Map<ResourceId, Slot<T>>, rid: ResourceId, kind: ResourceKind) -> bool {
    m.contains_key(rid) && m[rid].kind == kind
}

impl<T> ResourceTable<T> {
    /// The entries of the table, by handle.
    pub closed spec fn view(&self) -> Map<ResourceId, Slot<T>> {
        self.slots@
    }

    /// The handle that the next `add` will return.
    pub closed spec fn next_id(&self) -> ResourceId {
        self.next
    }

    /// Every handle in use, and every handle an entry is linked to, was handed
    /// out by this table.
    pub closed spec fn wf(&self) -> bool {
        forall|rid: ResourceId|
            #[trigger] self.slots@.contains_key(rid) ==> rid < self.next && self.slots@[rid].peer
                < self.next
    }

    /// How many more entries the table can take before it runs out of handles.
    pub open spec fn room(&self) -> int {
        u32::MAX - self.next_id()
    }

    /// Whether `later` can be a later state of this table: no handle that
    /// this table has handed out names anything in `later` that it did not
    /// name, unchanged, in this table.
    pub open spec fn precedes(&self, later: &Self) -> bool {
        &&& self.next_id() <= later.next_id()
        &&& forall|rid: ResourceId|
            rid < self.next_id() && #[trigger] later@.contains_key(rid) ==> self@.contains_key(rid)
                && later@[rid] == self@[rid]
    }

    /// Every table can be its own later state.
    pub proof fn lemma_precedes_itself(&self)
        ensures
            self.precedes(self),
    {
    }

    /// A later state of a later state is a later state.
    pub proof fn lemma_precedes_chains(&self, middle: &Self, later: &Self)
        requires
            self.precedes(middle),
            middle.precedes(later),
        ensures
            self.precedes(later),
    {
    }

    /// A resource is released once: a handle that was handed out and names
    /// nothing any more names nothing in any later state.
    pub proof fn lemma_released_stays_released(&self, later: &Self, rid: ResourceId)
        requires
            self.precedes(later),
            rid < self.next_id(),
            !self@.contains_key(rid),
        ensures
            !later@.contains_key(rid),
    {
    }

    /// Handles are never reused: whatever is in the table, or is linked to
    /// from it, lies below the next handle.
    pub proof fn lemma_handles_below_next(&self, rid: ResourceId)
        requires
            self.wf(),
            self@.contains_key(rid),
        ensures
            rid < self.next_id(),
            self@[rid].peer < self.next_id(),
    {
    }

    /// An empty table.
    pub fn new() -> (table: Self)
        ensures
            table.wf(),
            table@ == Map::<ResourceId, Slot<T>>::empty(),
            table.next_id() == 0,
    {
        ResourceTable { slots: HashMap::new(), next: 0 }
    }

    /// Whether at least `n` more entries can be added.
    pub fn has_room(&self, n: u32) -> (b: bool)
        ensures
            b == (self.room() >= n),
    {
        u32::MAX - self.next >= n
    }

    /// Stores `value` under a fresh handle, tagged `kind`, and returns the handle.
    pub fn add(&mut self, kind: ResourceKind, value: T) -> (rid: ResourceId)
        requires
            old(self).wf(),
            old(self).room() >= 1,
        ensures
            final(self).wf(),
            rid == old(self).next_id(),
            !old(self)@.contains_key(rid),
            final(self)@ == old(self)@.insert(rid, Slot { kind, peer: rid, value }),
            final(self).next_id() == old(self).next_id() + 1,
            old(self).precedes(final(self)),
    {
        let rid = self.next;
        self.next = rid + 1;
        self.slots.insert(rid, Slot { kind, peer: rid, value });
        rid
    }

    /// Stores `value` under a fresh handle, tagged `kind` and linked to the
    /// handle `peer`, which this table handed out earlier.
    pub fn add_linked(&mut self, kind: ResourceKind, peer: ResourceId, value: T) -> (rid:
        ResourceId)
        requires
            old(self).wf(),
            old(self).room() >= 1,
            peer < old(self).next_id(),
        ensures
            final(self).wf(),
            rid == old(self).next_id(),
            !old(self)@.contains_key(rid),
            final(self)@ == old(self)@.insert(rid, Slot { kind, peer, value }),
            final(self).next_id() == old(self).next_id() + 1,
            old(self).precedes(final(self)),
    {
        let rid = self.next;
        self.next = rid + 1;
        self.slots.insert(rid, Slot { kind, peer, value });
        rid
    }

    /// Whether `rid` names an entry, of any kind.
    pub fn has(&self, rid: ResourceId) -> (b: bool)
        ensures
            b == self@.contains_key(rid),
    {
        self.slots.contains_key(&rid)
    }

    /// Borrows the value under `rid` if it is of kind `kind`.
    pub fn get(&self, rid: ResourceId, kind: ResourceKind) -> (r: Result<&T, Error>)
        ensures
            holds(self@, rid, kind) ==> r == Ok::<&T, Error>(&self@[rid].value),
            !holds(self@, rid, kind) ==> r == Err::<&T, Error>(Error::NotFound(rid)),
    {
        match self.slots.get(&rid) {
            Some(slot) => {
                if slot.kind == kind {
                    Ok(&slot.value)
                } else {
                    Err(Error::NotFound(rid))
                }
            },
            None => Err(Error::NotFound(rid)),
        }
    }

    /// The handle that the entry under `rid` is linked to, if it is of kind `kind`.
    pub fn peer_of(&self, rid: ResourceId, kind: ResourceKind) -> (r: Result<ResourceId, Error>)
        ensures
            holds(self@, rid, kind) ==> r == Ok::<ResourceId, Error>(self@[rid].peer),
            !holds(self@, rid, kind) ==> r == Err::<ResourceId, Error>(Error::NotFound(rid)),
    {
        match self.slots.get(&rid) {
            Some(slot) => {
                if slot.kind == kind {
                    Ok(slot.peer)
                } else {
                    Err(Error::NotFound(rid))
                }
            },
            None => Err(Error::NotFound(rid)),
        }
    }

    /// Removes the entry under `rid` and hands its value to the caller, if it
    /// is of kind `kind`. Otherwise the table is left as it was.
    pub fn take(&mut self, rid: ResourceId, kind: ResourceKind) -> (r: Result<T, Error>)
        requires
            old(self).wf(),
        ensures
            final(self).wf(),
            final(self).next_id() == old(self).next_id(),
            holds(old(self)@, rid, kind) ==> r == Ok::<T, Error>(old(self)@[rid].value)
                && final(self)@ == old(self)@.remove(rid),
            !holds(old(self)@, rid, kind) ==> r == Err::<T, Error>(Error::NotFound(rid))
                && final(self)@ == old(self)@,
            old(self).precedes(final(self)),
    {
        let found = match self.slots.get(&rid) {
            Some(slot) => slot.kind == kind,
            None => false,
        };
        if !found {
            return Err(Error::NotFound(rid));
        }
        match self.slots.remove(&rid) {
            Some(slot) => Ok(slot.value),
            None => Err(Error::NotFound(rid)),
        }
    }

    /// Removes the entry under `rid`, whatever its kind, and drops its value.
    /// Fails, changing nothing, if there is no such entry.
    pub fn close(&mut self, rid: ResourceId) -> (r: Result<(), Error>)
        requires
            old(self).wf(),
        ensures
            final(self).wf(),
            final(self).next_id() == old(self).next_id(),
            final(self)@ == old(self)@.remove(rid),
            old(self)@.contains_key(rid) ==> r == Ok::<(), Error>(()),
            !old(self)@.contains_key(rid) ==> r == Err::<(), Error>(Error::NotFound(rid)),
            old(self).precedes(final(self)),
    {
        match self.slots.remove(&rid) {
            Some(_) => Ok(()),
            None => {
                assert(self.slots@ =~= old(self).slots@);
                Err(Error::NotFound(rid))
            },
        }
    }
}

} // verus!
