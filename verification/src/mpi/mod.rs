//! The boundary: the operations that foreign callers reach, on plain values.

pub mod buffer;
pub mod comm;
pub mod constants;
pub mod convert;
pub mod handles;
pub mod info;
pub mod init;
pub mod port;
pub mod spawn;
pub mod status;
