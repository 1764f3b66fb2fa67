//! The life of the runtime in one process: set up once, torn down once.

use crate::mpi::handles::{CommHandle, MPI_Comm, StandingComm};
use crate::mpi::info::{Info, MPI_Info};
use crate::mpi::status::Error;
use crate::port::Port;
use crate::universe::{world_rank_reading, world_size_reading, EnvValue, Universe};
use vstd::prelude::*;

verus! {

/// The state of the runtime in one process: the universe while it lasts,
/// and the handles that every caller knows.
pub struct Runtime {
    pub universe: Option<Universe>,
    pub comm_self: MPI_Comm,
    pub comm_world: MPI_Comm,
    pub comm_null: MPI_Comm,
    pub info_null: MPI_Info,
}

impl Runtime {
    /// The runtime is set up: the universe is there and in use, and the
    /// standing handles hold what their names say.
    pub open spec fn initialized(&self) -> bool {
        &&& self.universe matches Some(universe) && universe.wf()
        &&& self.comm_self.handle == Some(CommHandle::SystemComm(StandingComm::Alone))
        &&& self.comm_world.handle == Some(CommHandle::SystemComm(StandingComm::World))
        &&& self.comm_null.handle == Some(CommHandle::NullComm)
        &&& self.info_null.handle == Some(None::<Info>)
    }

    /// The runtime is not set up: there is no universe, and no handle leads
    /// anywhere.
    pub open spec fn dormant(&self) -> bool {
        &&& self.universe is None
        &&& self.comm_self.handle is None
        &&& self.comm_world.handle is None
        &&& self.comm_null.handle is None
        &&& self.info_null.handle is None
    }

    /// The runtime of a process that has not set it up yet.
    pub fn new() -> (runtime: Self)
        ensures
            runtime.dormant(),
    {
        Runtime {
            universe: None,
            comm_self: MPI_Comm { handle: None },
            comm_world: MPI_Comm { handle: None },
            comm_null: MPI_Comm { handle: None },
            info_null: MPI_Info { handle: None },
        }
    }

    /// Whether the runtime is set up, as far as its universe tells.
    pub fn is_initialized(&self) -> (set_up: bool)
        ensures
            set_up == self.universe is Some,
    {
        self.universe.is_some()
    }

    /// The universe of this process. There is one only between set-up and
    /// tear-down.
    pub fn universe(&self) -> (universe: &Universe)
        requires
            self.universe is Some,
        ensures
            Some(*universe) == self.universe,
    {
        self.universe.as_ref().unwrap()
    }

    /// Sets the runtime up from what the environment holds for the world
    /// rank and the world size, and from the two ports that the caller has
    /// opened for the standing communicators.
    pub fn initialize_mpi(
        &mut self,
        rank: &EnvValue,
        size: &EnvValue,
        self_port: Port,
        world_port: Port,
    ) -> (status: Error)
        requires
            old(self).dormant(),
            !(rank is NotUnicode),
            !(size is NotUnicode),
            world_rank_reading(*rank).value < world_size_reading(*size).value,
            self_port.wf(),
            world_port.wf(),
        ensures
            status == Error::MPI_SUCCESS,
            final(self).initialized(),
            final(self).universe->0.has_room(),
            final(self).universe->0.ports() == Map::<Seq<char>, Port>::empty(),
            final(self).comm_world.handle->0.target(&final(self).universe->0)->0@.rank
                == world_rank_reading(*rank).value,
            final(self).comm_world.handle->0.target(&final(self).universe->0)->0@.size
                == world_size_reading(*size).value,
            final(self).comm_self.handle->0.target(&final(self).universe->0)->0@.size == 1,
    {
        self.universe = Some(Universe::from_env(rank, size, self_port, world_port));
        self.comm_self = MPI_Comm::new(CommHandle::SystemComm(StandingComm::Alone));
        self.comm_world = MPI_Comm::new(CommHandle::SystemComm(StandingComm::World));
        self.comm_null = MPI_Comm::new(CommHandle::NullComm);
        self.info_null = MPI_Info::null();
        Error::MPI_SUCCESS
    }

    /// Tears the runtime down: gives up the standing handles and the
    /// universe with every communicator and port in it.
    #[allow(non_snake_case)]
    pub fn MPI_Finalize(&mut self) -> (status: Error)
        requires
            old(self).comm_self.handle is Some,
            old(self).comm_world.handle is Some,
            old(self).comm_null.handle is Some,
            old(self).info_null.handle is Some,
        ensures
            status == Error::MPI_SUCCESS,
            final(self).dormant(),
    {
        self.comm_self.free();
        self.comm_world.free();
        self.comm_null.free();
        self.info_null.free();
        self.universe = None;
        Error::MPI_SUCCESS
    }
}

} // verus!
