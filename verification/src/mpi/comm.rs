//! The operations on communicator handles.

use crate::mpi::convert::c_int_of;
use crate::mpi::handles::{CommHandle, MPI_Comm};
use crate::mpi::status::Error;
use crate::universe::Universe;
use vstd::prelude::*;

verus! {

/// The rank of the calling process in the communicator of `comm`.
#[allow(non_snake_case)]
pub fn MPI_Comm_rank(universe: &Universe, comm: &MPI_Comm) -> (out: (Error, i32))
    requires
        universe.wf(),
        comm.handle matches Some(handle) && handle.resolves(universe),
        comm.handle->0.target(universe)->0@.rank <= i32::MAX,
    ensures
        out.0 == Error::MPI_SUCCESS,
        out.1 == comm.handle->0.target(universe)->0@.rank,
{
    let rank = c_int_of(comm.get(universe).rank()).unwrap();
    (Error::MPI_SUCCESS, rank)
}

/// The number of members of the communicator of `comm`.
#[allow(non_snake_case)]
pub fn MPI_Comm_size(universe: &Universe, comm: &MPI_Comm) -> (out: (Error, i32))
    requires
        universe.wf(),
        comm.handle matches Some(handle) && handle.resolves(universe),
        comm.handle->0.target(universe)->0@.size <= i32::MAX,
    ensures
        out.0 == Error::MPI_SUCCESS,
        out.1 == comm.handle->0.target(universe)->0@.size,
{
    let size = c_int_of(comm.get(universe).size()).unwrap();
    (Error::MPI_SUCCESS, size)
}

/// Whether the communicator of `comm` is an inter-communicator: one if it
/// is, zero if not.
#[allow(non_snake_case)]
pub fn MPI_Comm_test_inter(universe: &Universe, comm: &MPI_Comm) -> (out: (Error, i32))
    requires
        universe.wf(),
        comm.handle matches Some(handle) && handle.resolves(universe),
    ensures
        out.0 == Error::MPI_SUCCESS,
        out.1 == (if comm.handle->0.target(universe)->0@.is_intercomm {
            1i32
        } else {
            0i32
        }),
{
    let flag: i32 = if comm.get(universe).is_intercomm() {
        1
    } else {
        0
    };
    (Error::MPI_SUCCESS, flag)
}

/// The communicator that leads to the parent of this process. No parent is
/// looked up yet: the call succeeds and gives no handle.
#[allow(non_snake_case)]
pub fn MPI_Comm_get_parent() -> (status: Error)
    ensures
        status == Error::MPI_SUCCESS,
{
    Error::MPI_SUCCESS
}

/// Whether `comm` may be given to [`MPI_Comm_free`]: it is a handle that a
/// caller owns, and its communicator has not been freed.
pub fn may_free(universe: &Universe, comm: &MPI_Comm) -> (free: bool)
    requires
        universe.wf(),
    ensures
        free == (comm.handle matches Some(handle) && handle.freeable(universe)),
{
    match &comm.handle {
        Some(handle) => handle.is_freeable(universe),
        None => false,
    }
}

/// Frees the communicator that the caller owns through `comm` and leaves
/// the null communicator in the handle. The handle cannot be freed again,
/// and leads to no communicator any more.
#[allow(non_snake_case)]
pub fn MPI_Comm_free(universe: &mut Universe, comm: &mut MPI_Comm) -> (status: Error)
    requires
        old(universe).wf(),
        old(comm).handle matches Some(handle) && handle.freeable(old(universe)),
    ensures
        status == Error::MPI_SUCCESS,
        final(universe).wf(),
        final(comm).handle == Some(CommHandle::NullComm),
        old(comm).handle matches Some(CommHandle::UserComm(registration))
            && final(universe).comms() == old(universe).comms().release(registration@)
            && final(universe).comm(registration@) is None,
        final(universe).ports() == old(universe).ports(),
        final(universe).self_ticket() == old(universe).self_ticket(),
        final(universe).world_ticket() == old(universe).world_ticket(),
        final(universe).parent_ticket() == old(universe).parent_ticket(),
        !final(comm).handle->0.freeable(final(universe)),
        !final(comm).handle->0.resolves(final(universe)),
{
    let registration = comm.expect_user_comm();
    universe.free_comm(registration);
    Error::MPI_SUCCESS
}

} // verus!
