//! The handles by which foreign callers name communicators.
//!
//! A handle is one of three things: the null communicator, a key to one of
//! the standing communicators of the universe, or the registration of a
//! communicator that a caller owns and has to free, once.

use crate::comm::Comm;
use crate::universe::{CommRegistration, Universe};
use vstd::pervasive::unreached;
use vstd::prelude::*;

verus! {

/// The standing communicators of a universe.
#[derive(Clone, Copy, Debug, PartialEq, Eq, Structural)]
pub enum StandingComm {
    /// The communicator of the process alone.
    Alone,
    /// The communicator of the world.
    World,
}

/// What a handle holds.
pub enum CommHandle {
    /// The null communicator, which stands for none.
    NullComm,
    /// A key to a standing communicator, looked up at each use.
    SystemComm(StandingComm),
    /// The registration of a communicator that the caller owns.
    UserComm(CommRegistration),
}

impl CommHandle {
    /// The handle leads to a communicator of `universe`.
    pub open spec fn resolves(&self, universe: &Universe) -> bool {
        match self {
            CommHandle::NullComm => false,
            CommHandle::SystemComm(_) => true,
            CommHandle::UserComm(registration) => universe.comms().is_live(registration@),
        }
    }

    /// The communicator of `universe` that the handle leads to.
    pub open spec fn target(&self, universe: &Universe) -> Option<Comm> {
        match self {
            CommHandle::NullComm => None,
            CommHandle::SystemComm(StandingComm::Alone) => universe.comm(
                universe.self_ticket()->0,
            ),
            CommHandle::SystemComm(StandingComm::World) => universe.comm(
                universe.world_ticket()->0,
            ),
            CommHandle::UserComm(registration) => universe.comm(registration@),
        }
    }

    /// The handle may be freed: it holds the live registration of a
    /// communicator that is none of the standing ones.
    pub open spec fn freeable(&self, universe: &Universe) -> bool {
        self matches CommHandle::UserComm(registration) && universe.comms().is_live(registration@)
            && !universe.is_standing(registration@)
    }

    /// Whether the handle leads to a communicator of `universe`.
    pub fn is_usable(&self, universe: &Universe) -> (usable: bool)
        requires
            universe.wf(),
        ensures
            usable == self.resolves(universe),
    {
        match self {
            CommHandle::NullComm => false,
            CommHandle::SystemComm(_) => true,
            CommHandle::UserComm(registration) => registration.get(universe).is_some(),
        }
    }

    /// Whether the handle may be freed.
    pub fn is_freeable(&self, universe: &Universe) -> (freeable: bool)
        requires
            universe.wf(),
        ensures
            freeable == self.freeable(universe),
    {
        match self {
            CommHandle::UserComm(registration) => universe.can_free(registration),
            _ => false,
        }
    }

    /// The communicator that the handle leads to. The null communicator and
    /// the registration of a communicator that has been freed lead to none
    /// and are no input to this function.
    pub fn get<'a>(&self, universe: &'a Universe) -> (comm: &'a Comm)
        requires
            universe.wf(),
            self.resolves(universe),
        ensures
            self.target(universe) == Some(*comm),
            comm@.wf(),
    {
        match self {
            CommHandle::SystemComm(StandingComm::Alone) => universe.comm_self(),
            CommHandle::SystemComm(StandingComm::World) => universe.comm_world(),
            CommHandle::UserComm(registration) => registration.unwrap(universe),
            CommHandle::NullComm => unreached(),
        }
    }
}

/// Once the communicator behind a handle has been freed, the handle leads
/// nowhere and cannot be freed again.
pub proof fn law_freed_handle_is_rejected(handle: CommHandle, before: Universe, after: Universe)
    requires
        before.inv(),
        handle.freeable(&before),
        after.comms() == before.comms().release(handle->UserComm_0@),
    ensures
        !handle.resolves(&after),
        !handle.freeable(&after),
        after.comms().has_issued(handle->UserComm_0@),
{
    before.law_registry_wf();
    crate::registrar::law_live_was_issued(before.comms(), handle->UserComm_0@);
}

/// A handle that leads nowhere stays so when a communicator is registered,
/// also when that communicator takes the slot that the handle names.
pub proof fn law_stale_handle_stays_stale(
    handle: CommHandle,
    before: Universe,
    after: Universe,
    comm: Comm,
)
    requires
        handle is UserComm,
        before.comms().wf(),
        before.comms().has_issued(handle->UserComm_0@),
        !handle.resolves(&before),
        after.comms() == before.comms().track(comm),
    ensures
        !handle.resolves(&after),
        !handle.freeable(&after),
        after.comms().has_issued(handle->UserComm_0@),
{
    crate::registrar::law_freed_stays_freed(
        before.comms(),
        handle->UserComm_0@,
        comm,
        handle->UserComm_0@,
    );
}

/// A handle as foreign callers hold it: a place that holds a [`CommHandle`],
/// or no place at all.
#[allow(non_camel_case_types)]
pub struct MPI_Comm {
    pub handle: Option<CommHandle>,
}

impl MPI_Comm {
    /// A place that holds `handle`.
    pub fn new(handle: CommHandle) -> (comm: Self)
        ensures
            comm.handle == Some(handle),
    {
        MPI_Comm { handle: Some(handle) }
    }

    /// The communicator that the handle leads to.
    pub fn get<'a>(&self, universe: &'a Universe) -> (comm: &'a Comm)
        requires
            universe.wf(),
            self.handle matches Some(handle) && handle.resolves(universe),
        ensures
            self.handle->0.target(universe) == Some(*comm),
            comm@.wf(),
    {
        self.handle.as_ref().unwrap().get(universe)
    }

    /// Whether the place holds the null communicator.
    pub fn is_null(&self) -> (null: bool)
        requires
            self.handle is Some,
        ensures
            null == (self.handle->0 is NullComm),
    {
        match &self.handle {
            Some(CommHandle::NullComm) => true,
            _ => false,
        }
    }

    /// Gives the place up, with what it holds.
    pub fn free(&mut self)
        requires
            old(self).handle is Some,
        ensures
            final(self).handle is None,
    {
        self.handle = None;
    }

    /// Takes the registration out of the place and leaves the null
    /// communicator there, so that a later use of the handle finds nothing
    /// to use. Only a handle that a caller owns holds a registration.
    pub fn expect_user_comm(&mut self) -> (registration: CommRegistration)
        requires
            old(self).handle matches Some(handle) && handle is UserComm,
        ensures
            old(self).handle == Some(CommHandle::UserComm(registration)),
            final(self).handle == Some(CommHandle::NullComm),
    {
        let held = self.handle.take().unwrap();
        self.handle = Some(CommHandle::NullComm);
        match held {
            CommHandle::UserComm(registration) => registration,
            _ => unreached(),
        }
    }
}

} // verus!
