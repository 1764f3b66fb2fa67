//! The universe: the root of one process's runtime state.
//!
//! It owns every communicator through a registrar, keeps the table of open
//! ports by name, and holds the two communicators that always exist: the one
//! of this process alone and the one of the world it was started in.

use crate::comm::Comm;
use crate::error::Error;
use crate::numeral::{parse_usize, usize_of};
use crate::port::Port;
use crate::registrar::{Registrar, Registration, Registry, Ticket};
use vstd::hash_map::StringHashMap;
use vstd::prelude::*;
use vstd::string::*;

verus! {

/// What the environment holds under a name.
#[derive(Debug, PartialEq, Eq)]
pub enum EnvValue {
    /// A value that is text.
    Present(String),
    /// No value.
    NotPresent,
    /// A value that is not text.
    NotUnicode,
}

/// A number read from the environment, and whether the default took the
/// place of a missing or malformed value, which deserves a warning.
#[derive(Clone, Copy, Debug, PartialEq, Eq, Structural)]
pub struct Reading {
    pub value: usize,
    pub fell_back: bool,
}

/// The number that `value` gives: the numeral it holds if that is at least
/// `least`, and `default` when the value is missing or malformed.
pub open spec fn integer_reading(value: EnvValue, least: usize, default: usize) -> Reading {
    match value {
        EnvValue::Present(text) => match usize_of(text@) {
            Some(number) => if number >= least {
                Reading { value: number, fell_back: false }
            } else {
                Reading { value: default, fell_back: true }
            },
            None => Reading { value: default, fell_back: true },
        },
        _ => Reading { value: default, fell_back: true },
    }
}

/// Reads a number from a value of the environment. A value that is not text
/// is no input to this function: the process must not start with one.
pub fn read_integer_variable(value: &EnvValue, least: usize, default: usize) -> (reading: Reading)
    requires
        !(value is NotUnicode),
    ensures
        reading == integer_reading(*value, least, default),
{
    match value {
        EnvValue::Present(text) => match parse_usize(text.as_str()) {
            Some(number) => {
                if number >= least {
                    Reading { value: number, fell_back: false }
                } else {
                    Reading { value: default, fell_back: true }
                }
            },
            None => Reading { value: default, fell_back: true },
        },
        _ => Reading { value: default, fell_back: true },
    }
}

/// The world rank that the environment gives: zero unless it says otherwise.
pub open spec fn world_rank_reading(rank: EnvValue) -> Reading {
    integer_reading(rank, 0, 0)
}

/// The world size that the environment gives: one unless it names a
/// positive number.
pub open spec fn world_size_reading(size: EnvValue) -> Reading {
    integer_reading(size, 1, 1)
}

/// The registration of a communicator in a universe.
pub struct CommRegistration(Registration<Comm>);

impl View for CommRegistration {
    type V = Ticket;

    closed spec fn view(&self) -> Ticket {
        self.0@
    }
}

/// The root of the runtime state of one process.
pub struct Universe {
    ports: StringHashMap<Port>,
    comm_self: Option<CommRegistration>,
    comm_world: Option<CommRegistration>,
    comm_parent: Option<CommRegistration>,
    registrar: Registrar<Comm>,
}

impl Universe {
    /// The open ports, by name.
    pub closed spec fn ports(&self) -> Map<Seq<char>, Port> {
        self.ports@
    }

    /// The registry of communicators.
    pub closed spec fn comms(&self) -> Registry<Comm> {
        self.registrar@
    }

    /// The ticket of the communicator of this process alone.
    pub closed spec fn self_ticket(&self) -> Option<Ticket> {
        match self.comm_self {
            Some(registration) => Some(registration@),
            None => None,
        }
    }

    /// The ticket of the communicator of the world.
    pub closed spec fn world_ticket(&self) -> Option<Ticket> {
        match self.comm_world {
            Some(registration) => Some(registration@),
            None => None,
        }
    }

    /// The ticket of the communicator that leads to the parent, if this
    /// process has one.
    pub closed spec fn parent_ticket(&self) -> Option<Ticket> {
        match self.comm_parent {
            Some(registration) => Some(registration@),
            None => None,
        }
    }

    /// `t` is the ticket of one of the standing communicators.
    pub open spec fn is_standing(&self, t: Ticket) -> bool {
        self.self_ticket() == Some(t) || self.world_ticket() == Some(t) || self.parent_ticket()
            == Some(t)
    }

    /// The communicator behind `t`, if it is registered here.
    pub open spec fn comm(&self, t: Ticket) -> Option<Comm> {
        self.comms().resolve(t)
    }

    /// The state is consistent: the registry is well formed and so is every
    /// communicator in it; every open port is listed under its own name; and
    /// each standing communicator that has been set up is registered.
    pub closed spec fn inv(&self) -> bool {
        &&& self.registrar.wf()
        &&& forall|s: int|
            0 <= s < self.comms().slots.len() ==> ((#[trigger] self.comms().slots[s]) matches Some(
                held,
            ) ==> held.1@.wf())
        &&& forall|name: Seq<char>| #[trigger]
            self.ports().contains_key(name) ==> self.ports()[name].wf() && self.ports()[name].name_text()
                == name
        &&& self.self_ticket() matches Some(t) ==> self.comms().is_live(t)
        &&& self.world_ticket() matches Some(t) ==> self.comms().is_live(t)
        &&& self.parent_ticket() matches Some(t) ==> self.comms().is_live(t)
    }

    /// The universe is consistent and in use: the communicator of this
    /// process alone is an intra-communicator of size one, and the one of the
    /// world is an intra-communicator too.
    pub open spec fn wf(&self) -> bool {
        &&& self.inv()
        &&& self.self_ticket() matches Some(t) && self.comm(t) matches Some(alone)
            && alone@.wf() && !alone@.is_intercomm && alone@.size == 1 && alone@.rank == 0
        &&& self.world_ticket() matches Some(t) && self.comm(t) matches Some(world)
            && world@.wf() && !world@.is_intercomm
    }

    /// One more communicator can be registered.
    pub open spec fn has_room(&self) -> bool {
        self.comms().issued < u64::MAX
    }

    /// The registry of a consistent universe is well formed, and its
    /// standing communicators are registered.
    pub proof fn law_registry_wf(&self)
        requires
            self.inv(),
        ensures
            self.comms().wf(),
            forall|t: Ticket| self.is_standing(t) ==> #[trigger] self.comms().is_live(t),
    {
    }

    /// Every communicator that a consistent universe holds is well formed.
    pub proof fn law_registered_comms_wf(&self, t: Ticket)
        requires
            self.inv(),
            self.comms().is_live(t),
        ensures
            self.comm(t) matches Some(comm) && comm@.wf(),
    {
        assert(self.comms().slots[t.index as int] is Some);
    }

    /// Every open port is listed under its own name, so no two open ports
    /// share an address.
    pub proof fn law_ports_by_name(&self, name: Seq<char>, other: Seq<char>)
        requires
            self.inv(),
            self.ports().contains_key(name),
            self.ports().contains_key(other),
        ensures
            self.ports()[name].wf(),
            self.ports()[name].name_text() == name,
            name != other ==> self.ports()[name].name_text() != self.ports()[other].name_text(),
    {
    }

    /// A universe with no port, no communicator and nothing set up.
    fn new() -> (universe: Self)
        ensures
            universe.inv(),
            universe.ports() == Map::<Seq<char>, Port>::empty(),
            universe.comms() == Registry::<Comm>::empty(),
            universe.self_ticket() is None,
            universe.world_ticket() is None,
            universe.parent_ticket() is None,
    {
        Universe {
            ports: StringHashMap::new(),
            comm_self: None,
            comm_world: None,
            comm_parent: None,
            registrar: Registrar::new(),
        }
    }

    /// Sets up the communicator of this process alone around `port`.
    fn initialize_comm_self(&mut self, port: Port)
        requires
            old(self).inv(),
            old(self).has_room(),
            port.wf(),
        ensures
            final(self).inv(),
            final(self).ports() == old(self).ports(),
            final(self).world_ticket() == old(self).world_ticket(),
            final(self).parent_ticket() == old(self).parent_ticket(),
            final(self).self_ticket() == Some(old(self).comms().next_ticket()),
            exists|comm: Comm|
                #![trigger old(self).comms().track(comm)]
                final(self).comms() == old(self).comms().track(comm) && comm@.wf()
                    && !comm@.is_intercomm && comm@.size == 1 && comm@.rank == 0
                    && comm@.ports == seq![Some(port)],
    {
        let comm = Comm::intracomm(0, 1, port);
        assert(comm@.ports =~= seq![Some(port)]);
        let registration = self.register_comm(comm);
        self.comm_self = Some(registration);
    }

    /// Sets up the communicator of the world, of `size` members, in which
    /// this process is member `rank`, around `port`.
    fn initialize_comm_world(&mut self, rank: usize, size: usize, port: Port)
        requires
            old(self).inv(),
            old(self).has_room(),
            rank < size,
            port.wf(),
        ensures
            final(self).inv(),
            final(self).ports() == old(self).ports(),
            final(self).self_ticket() == old(self).self_ticket(),
            final(self).parent_ticket() == old(self).parent_ticket(),
            final(self).world_ticket() == Some(old(self).comms().next_ticket()),
            exists|comm: Comm|
                #![trigger old(self).comms().track(comm)]
                final(self).comms() == old(self).comms().track(comm) && comm@.wf()
                    && !comm@.is_intercomm && comm@.size == size && comm@.rank == rank
                    && comm@.ports[rank as int] == Some(port),
    {
        let comm = Comm::intracomm(rank, size, port);
        let registration = self.register_comm(comm);
        self.comm_world = Some(registration);
    }

    /// The universe of a process that stands alone: its world has one member.
    /// The caller has opened one port for each of the two communicators.
    pub fn root(self_port: Port, world_port: Port) -> (universe: Self)
        requires
            self_port.wf(),
            world_port.wf(),
        ensures
            universe.wf(),
            universe.has_room(),
            universe.ports() == Map::<Seq<char>, Port>::empty(),
            universe.parent_ticket() is None,
            universe.self_ticket() == Some(Ticket { index: 0, stamp: 0 }),
            universe.world_ticket() == Some(Ticket { index: 1, stamp: 1 }),
            universe.comms().slots.len() == 2,
            universe.comms().free.len() == 0,
            universe.comm(universe.self_ticket()->0)->0@.ports == seq![Some(self_port)],
            universe.comm(universe.world_ticket()->0)->0@.size == 1,
            universe.comm(universe.world_ticket()->0)->0@.rank == 0,
            universe.comm(universe.world_ticket()->0)->0@.ports == seq![Some(world_port)],
    {
        Self::with_world(0, 1, self_port, world_port)
    }

    /// The universe of a process whose place in its world is told by the
    /// environment: `rank` and `size` are what the environment holds for the
    /// world rank and the world size. A missing or malformed rank stands for
    /// zero, a missing or malformed size for one. The caller has opened one
    /// port for each of the two communicators.
    pub fn from_env(rank: &EnvValue, size: &EnvValue, self_port: Port, world_port: Port) -> (universe:
        Self)
        requires
            !(rank is NotUnicode),
            !(size is NotUnicode),
            world_rank_reading(*rank).value < world_size_reading(*size).value,
            self_port.wf(),
            world_port.wf(),
        ensures
            universe.wf(),
            universe.has_room(),
            universe.ports() == Map::<Seq<char>, Port>::empty(),
            universe.parent_ticket() is None,
            universe.self_ticket() == Some(Ticket { index: 0, stamp: 0 }),
            universe.world_ticket() == Some(Ticket { index: 1, stamp: 1 }),
            universe.comms().slots.len() == 2,
            universe.comms().free.len() == 0,
            universe.comm(universe.self_ticket()->0)->0@.ports == seq![Some(self_port)],
            universe.comm(universe.world_ticket()->0)->0@.size == world_size_reading(*size).value,
            universe.comm(universe.world_ticket()->0)->0@.rank == world_rank_reading(*rank).value,
            universe.comm(universe.world_ticket()->0)->0@.ports[world_rank_reading(
                *rank,
            ).value as int] == Some(world_port),
    {
        let rank = read_integer_variable(rank, 0, 0).value;
        let size = read_integer_variable(size, 1, 1).value;
        Self::with_world(rank, size, self_port, world_port)
    }

    /// The universe of the process that is member `rank` of a world of `size`.
    fn with_world(rank: usize, size: usize, self_port: Port, world_port: Port) -> (universe: Self)
        requires
            rank < size,
            self_port.wf(),
            world_port.wf(),
        ensures
            universe.wf(),
            universe.has_room(),
            universe.ports() == Map::<Seq<char>, Port>::empty(),
            universe.parent_ticket() is None,
            universe.self_ticket() == Some(Ticket { index: 0, stamp: 0 }),
            universe.world_ticket() == Some(Ticket { index: 1, stamp: 1 }),
            universe.comms().slots.len() == 2,
            universe.comms().free.len() == 0,
            universe.comm(universe.self_ticket()->0)->0@.ports == seq![Some(self_port)],
            universe.comm(universe.world_ticket()->0)->0@.size == size,
            universe.comm(universe.world_ticket()->0)->0@.rank == rank,
            universe.comm(universe.world_ticket()->0)->0@.ports[rank as int] == Some(world_port),
    {
        let mut universe = Universe::new();
        universe.initialize_comm_self(self_port);
        universe.initialize_comm_world(rank, size, world_port);
        universe
    }

    /// Whether one more communicator can be registered.
    pub fn room(&self) -> (room: bool)
        ensures
            room == self.has_room(),
    {
        self.registrar.has_room()
    }

    /// The communicator of this process alone.
    pub fn comm_self(&self) -> (comm: &Comm)
        requires
            self.wf(),
        ensures
            self.comm(self.self_ticket()->0) == Some(*comm),
            comm@.wf(),
            !comm@.is_intercomm,
            comm@.size == 1,
            comm@.rank == 0,
    {
        self.comm_self.as_ref().unwrap().unwrap(self)
    }

    /// The communicator of the world that this process was started in.
    pub fn comm_world(&self) -> (comm: &Comm)
        requires
            self.wf(),
        ensures
            self.comm(self.world_ticket()->0) == Some(*comm),
            comm@.wf(),
            !comm@.is_intercomm,
    {
        self.comm_world.as_ref().unwrap().unwrap(self)
    }

    /// Takes a communicator into the registry and returns its registration.
    pub fn register_comm(&mut self, comm: Comm) -> (registration: CommRegistration)
        requires
            old(self).inv(),
            old(self).has_room(),
            comm@.wf(),
        ensures
            final(self).inv(),
            final(self).comms() == old(self).comms().track(comm),
            registration@ == old(self).comms().next_ticket(),
            final(self).comm(registration@) == Some(comm),
            !final(self).is_standing(registration@),
            final(self).ports() == old(self).ports(),
            final(self).self_ticket() == old(self).self_ticket(),
            final(self).world_ticket() == old(self).world_ticket(),
            final(self).parent_ticket() == old(self).parent_ticket(),
            old(self).wf() ==> final(self).wf(),
    {
        let ghost before = self.comms();
        let ghost ports = self.ports();
        let registration = self.registrar.track_object(comm);
        proof {
            assert(self.ports() == ports);
            crate::registrar::law_issued_slot_is_vacant(before, before.next_ticket());
            assert forall|s: int| 0 <= s < self.comms().slots.len() implies ((
            #[trigger] self.comms().slots[s]) matches Some(held) ==> held.1@.wf()) by {
                if s != before.next_index() {
                    assert(self.comms().slots[s] == before.slots[s]);
                }
            }
            if let Some(standing) = self.self_ticket() {
                crate::registrar::law_live_was_issued(before, standing);
                crate::registrar::law_track_resolves(before, comm, standing);
            }
            if let Some(standing) = self.world_ticket() {
                crate::registrar::law_live_was_issued(before, standing);
                crate::registrar::law_track_resolves(before, comm, standing);
            }
            if let Some(standing) = self.parent_ticket() {
                crate::registrar::law_live_was_issued(before, standing);
                crate::registrar::law_track_resolves(before, comm, standing);
            }
            crate::registrar::law_track_resolves(before, comm, before.next_ticket());
        }
        CommRegistration(registration)
    }

    /// Whether `registration` may be freed: it stands for a communicator
    /// that is registered here and is none of the standing ones.
    pub fn can_free(&self, registration: &CommRegistration) -> (free: bool)
        requires
            self.inv(),
        ensures
            free == (self.comms().is_live(registration@) && !self.is_standing(registration@)),
    {
        if !self.registrar.is_live(&registration.0) {
            return false;
        }
        let standing = Self::same(&self.comm_self, registration) || Self::same(
            &self.comm_world,
            registration,
        ) || Self::same(&self.comm_parent, registration);
        !standing
    }

    /// Whether `held` is a registration with the ticket of `registration`.
    /// Both are live here, so they are the same when they name the same slot.
    fn same(held: &Option<CommRegistration>, registration: &CommRegistration) -> (same: bool)
        ensures
            same == (held matches Some(standing) && standing@.index == registration@.index),
    {
        match held {
            Some(standing) => standing.0.index() == registration.0.index(),
            None => false,
        }
    }

    /// Frees a communicator that a caller registered. The standing
    /// communicators stay for as long as the universe does.
    pub fn free_comm(&mut self, registration: CommRegistration)
        requires
            old(self).inv(),
            old(self).comms().is_live(registration@),
            !old(self).is_standing(registration@),
        ensures
            final(self).inv(),
            final(self).comms() == old(self).comms().release(registration@),
            final(self).comm(registration@) is None,
            final(self).ports() == old(self).ports(),
            final(self).self_ticket() == old(self).self_ticket(),
            final(self).world_ticket() == old(self).world_ticket(),
            final(self).parent_ticket() == old(self).parent_ticket(),
            old(self).wf() ==> final(self).wf(),
    {
        let ghost before = self.comms();
        let ghost t = registration@;
        let ghost ports = self.ports();
        self.registrar.free_object(registration.0);
        proof {
            assert(self.ports() == ports);
            assert forall|s: int| 0 <= s < self.comms().slots.len() implies ((
            #[trigger] self.comms().slots[s]) matches Some(held) ==> held.1@.wf()) by {
                if s != t.index {
                    assert(self.comms().slots[s] == before.slots[s]);
                }
            }
            if let Some(standing) = self.self_ticket() {
                crate::registrar::law_release_resolves(before, t, standing);
            }
            if let Some(standing) = self.world_ticket() {
                crate::registrar::law_release_resolves(before, t, standing);
            }
            if let Some(standing) = self.parent_ticket() {
                crate::registrar::law_release_resolves(before, t, standing);
            }
        }
    }

    /// Enters `port`, which the caller has opened, into the table under its
    /// name and returns the entry.
    pub fn open_port(&mut self, port: Port) -> (entry: &Port)
        requires
            old(self).inv(),
            port.wf(),
        ensures
            final(self).inv(),
            final(self).ports() == old(self).ports().insert(port.name_text(), port),
            *entry == port,
            final(self).comms() == old(self).comms(),
            final(self).self_ticket() == old(self).self_ticket(),
            final(self).world_ticket() == old(self).world_ticket(),
            final(self).parent_ticket() == old(self).parent_ticket(),
            old(self).wf() ==> final(self).wf(),
    {
        let port_name = String::from_str(port.name());
        let ghost before = self.ports();
        self.ports.insert(port_name.clone(), port);
        proof {
            assert forall|name: Seq<char>| #[trigger]
                self.ports().contains_key(name) implies self.ports()[name].wf()
                && self.ports()[name].name_text() == name by {
                if name != port.name_text() {
                    assert(before.contains_key(name));
                }
            }
        }
        self.ports.get(port_name.as_str()).unwrap()
    }

    /// Whether a port of this name is open.
    pub fn has_port(&self, port_name: &str) -> (open: bool)
        ensures
            open == self.ports().contains_key(port_name@),
    {
        self.ports.contains_key(port_name)
    }

    /// Takes the port named `port_name` out of the table. A name that was
    /// never opened, or that has been closed already, is reported as no such
    /// port, and nothing changes.
    pub fn close_port(&mut self, port_name: &str) -> (closed: Result<(), Error>)
        requires
            old(self).inv(),
        ensures
            final(self).inv(),
            closed is Ok <==> old(self).ports().contains_key(port_name@),
            closed matches Err(failure) ==> failure matches Error::NoSuchPort(name) && name@
                == port_name@,
            final(self).ports() == old(self).ports().remove(port_name@),
            !final(self).ports().contains_key(port_name@),
            final(self).comms() == old(self).comms(),
            final(self).self_ticket() == old(self).self_ticket(),
            final(self).world_ticket() == old(self).world_ticket(),
            final(self).parent_ticket() == old(self).parent_ticket(),
            old(self).wf() ==> final(self).wf(),
    {
        let ghost before = self.ports();
        if self.ports.contains_key(port_name) {
            self.ports.remove(port_name);
            proof {
                assert forall|name: Seq<char>| #[trigger]
                    self.ports().contains_key(name) implies self.ports()[name].wf()
                    && self.ports()[name].name_text() == name by {
                    assert(before.contains_key(name));
                }
            }
            Ok(())
        } else {
            assert(self.ports().remove(port_name@) =~= self.ports());
            Err(Error::NoSuchPort(String::from_str(port_name)))
        }
    }
}

impl CommRegistration {
    /// The communicator that this registration stands for.
    pub fn unwrap<'a>(&self, universe: &'a Universe) -> (comm: &'a Comm)
        requires
            universe.inv(),
            universe.comms().is_live(self@),
        ensures
            universe.comm(self@) == Some(*comm),
            comm@.wf(),
    {
        proof {
            universe.law_registered_comms_wf(self@);
        }
        self.0.get(&universe.registrar).unwrap()
    }

    /// The communicator that this registration stands for, or nothing when
    /// it has been freed.
    pub fn get<'a>(&self, universe: &'a Universe) -> (comm: Option<&'a Comm>)
        requires
            universe.inv(),
        ensures
            match comm {
                Some(found) => universe.comm(self@) == Some(*found),
                None => universe.comm(self@) is None,
            },
    {
        self.0.get(&universe.registrar)
    }

    /// A second registration for the same communicator.
    pub fn duplicate(&self) -> (copy: Self)
        ensures
            copy@ == self@,
    {
        CommRegistration(self.0.duplicate())
    }
}

/// Closing a port twice in a row: the second close finds no such port.
/// So does closing a name that was never opened.
pub proof fn law_closed_port_is_gone(ports: Map<Seq<char>, Port>, name: Seq<char>)
    ensures
        !ports.remove(name).contains_key(name),
        !ports.contains_key(name) ==> ports.remove(name) == ports,
{
    assert(!ports.contains_key(name) ==> ports.remove(name) =~= ports);
}

} // verus!
