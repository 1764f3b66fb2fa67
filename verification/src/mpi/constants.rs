//! The limits of the boundary.

use vstd::prelude::*;

verus! {

/// The longest key of an info dictionary, in bytes.
pub const MPI_MAX_INFO_KEY: usize = 255;

/// The longest value of an info dictionary, in bytes.
pub const MPI_MAX_INFO_VAL: usize = 1024;

/// The size of the buffer that a caller gives for a port name, in bytes,
/// the closing zero included.
pub const MAX_PORT_NAME: usize = 256;

} // verus!
