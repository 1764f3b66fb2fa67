//! The operations on named ports.

use crate::mpi::buffer::{bytes_of, c_string, c_string_of};
use crate::mpi::constants::MAX_PORT_NAME;
use crate::mpi::status::{to_mpi_error, Error};
use crate::port::Port;
use crate::universe::Universe;
use vstd::prelude::*;

verus! {

/// Enters `port`, which the caller has opened, into the table of `universe`
/// and gives its name for the caller's buffer: as much of the name as the
/// buffer takes, closed by a zero.
#[allow(non_snake_case)]
pub fn MPI_Open_port(universe: &mut Universe, port: Port) -> (out: (Error, Vec<u8>))
    requires
        old(universe).inv(),
        port.wf(),
    ensures
        out.0 == Error::MPI_SUCCESS,
        out.1@ == c_string(bytes_of(port.name_text()), MAX_PORT_NAME as nat),
        out.1@.len() <= MAX_PORT_NAME,
        final(universe).inv(),
        final(universe).ports() == old(universe).ports().insert(port.name_text(), port),
        final(universe).comms() == old(universe).comms(),
        final(universe).self_ticket() == old(universe).self_ticket(),
        final(universe).world_ticket() == old(universe).world_ticket(),
        final(universe).parent_ticket() == old(universe).parent_ticket(),
        old(universe).wf() ==> final(universe).wf(),
{
    let entry = universe.open_port(port);
    let name = c_string_of(entry.name(), MAX_PORT_NAME);
    (Error::MPI_SUCCESS, name)
}

/// Closes the port named `port_name`. A name that is not open is reported
/// with the status for ports, and nothing changes.
#[allow(non_snake_case)]
pub fn MPI_Close_port(universe: &mut Universe, port_name: &str) -> (status: Error)
    requires
        old(universe).inv(),
    ensures
        status == (if old(universe).ports().contains_key(port_name@) {
            Error::MPI_SUCCESS
        } else {
            Error::MPI_ERR_PORT
        }),
        final(universe).inv(),
        final(universe).ports() == old(universe).ports().remove(port_name@),
        !final(universe).ports().contains_key(port_name@),
        final(universe).comms() == old(universe).comms(),
        final(universe).self_ticket() == old(universe).self_ticket(),
        final(universe).world_ticket() == old(universe).world_ticket(),
        final(universe).parent_ticket() == old(universe).parent_ticket(),
        old(universe).wf() ==> final(universe).wf(),
{
    match universe.close_port(port_name) {
        Ok(_) => Error::MPI_SUCCESS,
        Err(failure) => to_mpi_error(failure),
    }
}

} // verus!
