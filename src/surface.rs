use vstd::prelude::*;

verus! {

/// Where the window stands in the configure/commit handshake.
#[derive(Debug, Clone, Copy, PartialEq, Eq, Structural)]
pub enum Phase {
    /// Window objects made and an empty commit sent; no configure seen yet.
    Created,
    /// A configure has been acknowledged; no buffer attached yet.
    Configured,
    /// A buffer has been attached and committed at least once.
    Committed,
}

/// The handshake state, and whether the buffer's current contents have
/// been presented (`buffer_committed`).
#[derive(Debug, Clone, Copy, PartialEq, Eq, Structural)]
pub struct Handshake {
    pub phase: Phase,
    pub buffer_committed: bool,
}

impl Handshake {
    pub fn new() -> (r: Handshake)
        ensures
            r.phase == Phase::Created,
            !r.buffer_committed,
    {
        Handshake { phase: Phase::Created, buffer_committed: false }
    }

    /// A configure has been acknowledged at least once.
    pub open spec fn configured(&self) -> bool {
        self.phase != Phase::Created
    }

    /// A buffer may be attached and committed now, given whether the
    /// compositor still holds it.
    pub open spec fn may_attach(&self, locked: bool) -> bool {
        self.configured() && !self.buffer_committed && !locked
    }

    /// The compositor sent a configure event: returns the serial that must
    /// be acknowledged before any attach.
    pub fn on_configure(&mut self, serial: u32) -> (ack: u32)
        ensures
            ack == serial,
            *final(self) == if old(self).phase == Phase::Created {
                Handshake { phase: Phase::Configured, ..*old(self) }
            } else {
                *old(self)
            },
    {
        if self.phase == Phase::Created {
            self.phase = Phase::Configured;
        }
        serial
    }

    /// The buffer was redrawn, with damage over the whole window.
    pub fn mark_dirty(&mut self)
        ensures
            *final(self) == (Handshake { buffer_committed: false, ..*old(self) }),
    {
        self.buffer_committed = false;
    }

    pub fn ready(&self, locked: bool) -> (r: bool)
        ensures
            r == self.may_attach(locked),
    {
        self.phase != Phase::Created && !self.buffer_committed && !locked
    }

    /// Records that the buffer was attached and committed.
    pub fn attach(&mut self)
        requires
            old(self).may_attach(false),
        ensures
            final(self).phase == Phase::Committed,
            final(self).buffer_committed,
    {
        self.phase = Phase::Committed;
        self.buffer_committed = true;
    }
}

} // verus!
