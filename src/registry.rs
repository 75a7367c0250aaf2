use vstd::prelude::*;

verus! {

/// The global objects that the menu needs from the compositor.
#[derive(Debug, Clone, Copy, PartialEq, Eq, Structural)]
pub enum Capability {
    /// Makes drawing surfaces.
    Compositor,
    /// Input devices, for the pointer.
    Seat,
    /// Makes shared-memory pools.
    Shm,
    /// Gives surfaces window semantics.
    WmBase,
}

impl Capability {
    pub open spec fn version_spec(&self) -> u32 {
        match self {
            Capability::Compositor => 4,
            Capability::Seat => 5,
            Capability::Shm => 1,
            Capability::WmBase => 2,
        }
    }

    /// The interface version that is bound.
    pub fn version(&self) -> (r: u32)
        ensures
            r == self.version_spec(),
    {
        match self {
            Capability::Compositor => 4,
            Capability::Seat => 5,
            Capability::Shm => 1,
            Capability::WmBase => 2,
        }
    }
}

/// The bound capabilities, all present.
pub struct Registry<C, S, H, W> {
    pub compositor: C,
    pub seat: S,
    pub shm: H,
    pub wm_base: W,
}

/// Which capabilities were never bound, in declaration order.
#[derive(Debug)]
pub struct Incomplete {
    pub missing: Vec<Capability>,
}

/// Capabilities gathered one by one as the compositor advertises them.
pub struct RegistryBuilder<C, S, H, W> {
    pub compositor: Option<C>,
    pub seat: Option<S>,
    pub shm: Option<H>,
    pub wm_base: Option<W>,
}

impl<C, S, H, W> RegistryBuilder<C, S, H, W> {
    pub open spec fn complete(&self) -> bool {
        self.compositor is Some && self.seat is Some && self.shm is Some && self.wm_base is Some
    }

    /// The capabilities still absent, in declaration order.
    pub open spec fn missing_spec(&self) -> Seq<Capability> {
        (if self.compositor is None { seq![Capability::Compositor] } else { Seq::empty() })
            + (if self.seat is None { seq![Capability::Seat] } else { Seq::empty() })
            + (if self.shm is None { seq![Capability::Shm] } else { Seq::empty() })
            + (if self.wm_base is None { seq![Capability::WmBase] } else { Seq::empty() })
    }

    pub fn new() -> (r: Self)
        ensures
            r.compositor is None,
            r.seat is None,
            r.shm is None,
            r.wm_base is None,
    {
        RegistryBuilder { compositor: None, seat: None, shm: None, wm_base: None }
    }

    pub fn is_complete(&self) -> (r: bool)
        ensures
            r == self.complete(),
    {
        self.compositor.is_some() && self.seat.is_some() && self.shm.is_some()
            && self.wm_base.is_some()
    }

    pub fn missing(&self) -> (r: Vec<Capability>)
        ensures
            r@ == self.missing_spec(),
    {
        let mut r: Vec<Capability> = Vec::new();
        if self.compositor.is_none() {
            r.push(Capability::Compositor);
        }
        if self.seat.is_none() {
            r.push(Capability::Seat);
        }
        if self.shm.is_none() {
            r.push(Capability::Shm);
        }
        if self.wm_base.is_none() {
            r.push(Capability::WmBase);
        }
        proof {
            assert(r@ =~= self.missing_spec());
        }
        r
    }

    /// The only way to a registry: all four capabilities, or the list of
    /// those missing.
    pub fn finish(self) -> (r: Result<Registry<C, S, H, W>, Incomplete>)
        ensures
            r is Ok <==> self.complete(),
            r matches Ok(reg) ==> Some(reg.compositor) == self.compositor && Some(reg.seat)
                == self.seat && Some(reg.shm) == self.shm && Some(reg.wm_base) == self.wm_base,
            r matches Err(e) ==> e.missing@ == self.missing_spec(),
    {
        let missing = self.missing();
        match (self.compositor, self.seat, self.shm, self.wm_base) {
            (Some(compositor), Some(seat), Some(shm), Some(wm_base)) => Ok(
                Registry { compositor, seat, shm, wm_base },
            ),
            _ => Err(Incomplete { missing }),
        }
    }
}

} // verus!
