//! Node identities.
//!
//! Identities are issued by an explicit counter object handed to whoever
//! builds nodes, so that every identity drawn from one counter is unique
//! and later identities are strictly greater than earlier ones.

use vstd::prelude::*;

verus! {

/// A monotonic source of identities.  It starts at one, so an issued
/// identity is never zero.
#[derive(Debug)]
pub struct Counter {
    /// The value the next identity will have.
    pub value: u64,
}

impl Counter {
    /// Whether the counter can still issue a non-zero identity.
    pub open spec fn wf(self) -> bool {
        1 <= self.value
    }

    /// A fresh counter.
    pub fn new() -> (c: Self)
        ensures
            c.value == 1,
            c.wf(),
    {
        Counter { value: 1 }
    }

    /// Issue the next identity value; it is never zero.
    pub fn next_nonzero(&mut self) -> (r: u64)
        requires
            old(self).wf(),
            old(self).value < u64::MAX,
        ensures
            r == old(self).value,
            final(self).value == old(self).value + 1,
            r >= 1,
            final(self).wf(),
    {
        let r = self.value;
        self.value = self.value + 1;
        r
    }
}

/// The identity of a node: unique per counter, strictly increasing in
/// issue order, and never zero.
#[derive(Debug, Clone, Copy, PartialEq, Eq, Structural)]
pub struct Id(pub u64);

impl Id {
    /// Whether the identity is one a counter can have issued.
    pub open spec fn wf(self) -> bool {
        1 <= self.0
    }

    /// Draw the next identity from the counter.
    pub fn next(counter: &mut Counter) -> (id: Id)
        requires
            old(counter).wf(),
            old(counter).value < u64::MAX,
        ensures
            issues(*old(counter), *final(counter), id),
            id.wf(),
            final(counter).wf(),
    {
        Id(counter.next_nonzero())
    }

    /// The raw identity value.
    pub fn value(&self) -> (v: u64)
        ensures
            v == self.0,
    {
        self.0
    }
}

/// A path of identities from the root to a node.
pub type IdPath = Vec<Id>;

/// That one call of the allocator turned the counter state `before` into
/// `after` and returned `id`.
pub open spec fn issues(before: Counter, after: Counter, id: Id) -> bool {
    &&& id.0 == before.value
    &&& after.value == before.value + 1
}

/// Identities drawn from one counter are strictly increasing and never
/// repeat: every call leaves the counter strictly greater, so an identity
/// issued at a later state is strictly greater than one issued at an
/// earlier state.
pub proof fn lemma_ids_strictly_increase(
    b1: Counter,
    a1: Counter,
    i1: Id,
    b2: Counter,
    a2: Counter,
    i2: Id,
)
    requires
        issues(b1, a1, i1),
        issues(b2, a2, i2),
        a1.value <= b2.value,
    ensures
        i1.0 < i2.0,
        i1 != i2,
{
}

} // verus!
