//! The single-active-consumer connection model for one device.
//!
//! Each accepted connection is installed under a fresh generation number and
//! becomes the device's only current connection; installing the next one
//! supersedes it. Samples are routed to the current generation, or dropped
//! when no consumer is attached, which is not an error. A superseded
//! connection's generation is never routed to again; its writer simply stops
//! receiving events and ends on its own next failed operation, which the
//! registry does not record.

use vstd::prelude::*;

verus! {

/// Which connection, by generation number, currently receives a device's
/// events.
pub struct Registry {
    pub current: Option<u64>,
    pub next_gen: u64,
}

/// The registry after one connection is installed: the fresh generation
/// becomes current and the counter moves past it.
pub open spec fn install_next(r: Registry) -> Registry {
    Registry { current: Some(r.next_gen), next_gen: (r.next_gen + 1) as u64 }
}

impl Registry {
    /// A registry with no consumer attached.
    pub fn new() -> (r: Registry)
        ensures
            r.current.is_none(),
            r.next_gen == 0,
    {
        Registry { current: None, next_gen: 0 }
    }

    /// Install a newly accepted connection, superseding any current one, and
    /// hand back its fresh generation number.
    pub fn install(&mut self) -> (gen: u64)
        requires
            old(self).next_gen < u64::MAX,
        ensures
            *final(self) == install_next(*old(self)),
            gen == old(self).next_gen,
            final(self).current == Some(gen),
    {
        let gen = self.next_gen;
        self.next_gen = gen + 1;
        self.current = Some(gen);
        gen
    }

    /// The generation a sample must be routed to, or nothing when no
    /// consumer is attached and the sample is to be dropped.
    pub fn route(&self) -> (r: Option<u64>)
        ensures
            r == self.current,
    {
        if let Some(gen) = self.current {
            Some(gen)
        } else {
            None
        }
    }

    /// Whether the given generation is still the one events are routed to.
    pub fn is_current(&self, gen: u64) -> (r: bool)
        ensures
            r == (self.current == Some(gen)),
    {
        if let Some(cur) = self.current {
            cur == gen
        } else {
            false
        }
    }
}

/// Reconnect supersession: once connection B is installed after connection
/// A, only B's generation is routed to; A's generation is distinct and never
/// current again.
pub proof fn lemma_reconnect_supersession(r0: Registry)
    requires
        r0.next_gen + 1 < u64::MAX,
    ensures
        ({
            let a = r0.next_gen;
            let r1 = install_next(r0);
            let b = r1.next_gen;
            let r2 = install_next(r1);
            &&& r1.current == Some(a)
            &&& r2.current == Some(b)
            &&& a != b
            &&& r2.current != Some(a)
        }),
{
}

} // verus!
