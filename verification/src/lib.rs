//! Process-management core of a message-passing runtime: a registry of
//! communicators with recyclable slots, rendezvous port descriptors, the
//! process universe, and the planning and bookkeeping of batch spawns.
//!
//! The crate is verified, but for two integer conversions that it takes on
//! trust from the `conv` crate. Work that needs the operating system
//! (binding sockets, starting processes) is done by the caller, which hands
//! the library plain values and acts on the plain values it gets back.

pub mod comm;
pub mod error;
pub mod mpi;
pub mod mpiexec;
pub mod numeral;
pub mod port;
pub mod registrar;
pub mod universe;
