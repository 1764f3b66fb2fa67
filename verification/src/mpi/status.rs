//! The status codes that the boundary returns, and how the runtime's
//! failures map onto them.

use crate::error;
use vstd::prelude::*;

verus! {

/// The status of a call at the boundary. The variants stand in the order of
/// their numeric codes, which start at zero.
#[allow(non_camel_case_types)]
#[derive(Clone, Copy, Debug, PartialEq, Eq, Structural)]
pub enum Error {
    MPI_SUCCESS,
    MPI_ERR_BUFFER,
    MPI_ERR_COUNT,
    MPI_ERR_TYPE,
    MPI_ERR_TAG,
    MPI_ERR_COMM,
    MPI_ERR_RANK,
    MPI_ERR_REQUEST,
    MPI_ERR_ROOT,
    MPI_ERR_GROUP,
    MPI_ERR_OP,
    MPI_ERR_TOPOLOGY,
    MPI_ERR_DIMS,
    MPI_ERR_ARG,
    MPI_ERR_UNKNOWN,
    MPI_ERR_TRUNCATE,
    MPI_ERR_OTHER,
    MPI_ERR_INTERN,
    MPI_ERR_PENDING,
    MPI_ERR_IN_STATUS,
    MPI_ERR_ACCESS,
    MPI_ERR_AMODE,
    MPI_ERR_ASSERT,
    MPI_ERR_BAD_FILE,
    MPI_ERR_BASE,
    MPI_ERR_CONVERSION,
    MPI_ERR_DISP,
    MPI_ERR_DUP_DATAREP,
    MPI_ERR_FILE_EXISTS,
    MPI_ERR_FILE_IN_USE,
    MPI_ERR_FILE,
    MPI_ERR_INFO_KEY,
    MPI_ERR_INFO_NOKEY,
    MPI_ERR_INFO_VALUE,
    MPI_ERR_INFO,
    MPI_ERR_IO,
    MPI_ERR_KEYVAL,
    MPI_ERR_LOCKTYPE,
    MPI_ERR_NAME,
    MPI_ERR_NO_MEM,
    MPI_ERR_NOT_SAME,
    MPI_ERR_NO_SPACE,
    MPI_ERR_NO_SUCH_FILE,
    MPI_ERR_PORT,
    MPI_ERR_QUOTA,
    MPI_ERR_READ_ONLY,
    MPI_ERR_RMA_ATTACH,
    MPI_ERR_RMA_CONFLICT,
    MPI_ERR_RMA_RANGE,
    MPI_ERR_RMA_SHARED,
    MPI_ERR_RMA_SYNC,
    MPI_ERR_RMA_FLAVOR,
    MPI_ERR_SERVICE,
    MPI_ERR_SIZE,
    MPI_ERR_SPAWN,
    MPI_ERR_UNSUPPORTED_DATAREP,
    MPI_ERR_UNSUPPORTED_OPERATION,
    MPI_ERR_WIN,
    MPI_T_ERR_CANNOT_INIT,
    MPI_T_ERR_NOT_INITIALIZED,
    MPI_T_ERR_MEMORY,
    MPI_T_ERR_INVALID,
    MPI_T_ERR_INVALID_INDEX,
    MPI_T_ERR_INVALID_ITEM,
    MPI_T_ERR_INVALID_SESSION,
    MPI_T_ERR_INVALID_HANDLE,
    MPI_T_ERR_INVALID_NAME,
    MPI_T_ERR_OUT_OF_HANDLES,
    MPI_T_ERR_OUT_OF_SESSIONS,
    MPI_T_ERR_CVAR_SET_NOT_NOW,
    MPI_T_ERR_CVAR_SET_NEVER,
    MPI_T_ERR_PVAR_NO_WRITE,
    MPI_T_ERR_PVAR_NO_STARTSTOP,
    MPI_T_ERR_PVAR_NO_ATOMIC,
    MPI_ERR_LASTCODE,
}

impl Error {
    /// The numeric code of each status.
    pub open spec fn code_of(self) -> int {
        match self {
            Error::MPI_SUCCESS => 0,
            Error::MPI_ERR_BUFFER => 1,
            Error::MPI_ERR_COUNT => 2,
            Error::MPI_ERR_TYPE => 3,
            Error::MPI_ERR_TAG => 4,
            Error::MPI_ERR_COMM => 5,
            Error::MPI_ERR_RANK => 6,
            Error::MPI_ERR_REQUEST => 7,
            Error::MPI_ERR_ROOT => 8,
            Error::MPI_ERR_GROUP => 9,
            Error::MPI_ERR_OP => 10,
            Error::MPI_ERR_TOPOLOGY => 11,
            Error::MPI_ERR_DIMS => 12,
            Error::MPI_ERR_ARG => 13,
            Error::MPI_ERR_UNKNOWN => 14,
            Error::MPI_ERR_TRUNCATE => 15,
            Error::MPI_ERR_OTHER => 16,
            Error::MPI_ERR_INTERN => 17,
            Error::MPI_ERR_PENDING => 18,
            Error::MPI_ERR_IN_STATUS => 19,
            Error::MPI_ERR_ACCESS => 20,
            Error::MPI_ERR_AMODE => 21,
            Error::MPI_ERR_ASSERT => 22,
            Error::MPI_ERR_BAD_FILE => 23,
            Error::MPI_ERR_BASE => 24,
            Error::MPI_ERR_CONVERSION => 25,
            Error::MPI_ERR_DISP => 26,
            Error::MPI_ERR_DUP_DATAREP => 27,
            Error::MPI_ERR_FILE_EXISTS => 28,
            Error::MPI_ERR_FILE_IN_USE => 29,
            Error::MPI_ERR_FILE => 30,
            Error::MPI_ERR_INFO_KEY => 31,
            Error::MPI_ERR_INFO_NOKEY => 32,
            Error::MPI_ERR_INFO_VALUE => 33,
            Error::MPI_ERR_INFO => 34,
            Error::MPI_ERR_IO => 35,
            Error::MPI_ERR_KEYVAL => 36,
            Error::MPI_ERR_LOCKTYPE => 37,
            Error::MPI_ERR_NAME => 38,
            Error::MPI_ERR_NO_MEM => 39,
            Error::MPI_ERR_NOT_SAME => 40,
            Error::MPI_ERR_NO_SPACE => 41,
            Error::MPI_ERR_NO_SUCH_FILE => 42,
            Error::MPI_ERR_PORT => 43,
            Error::MPI_ERR_QUOTA => 44,
            Error::MPI_ERR_READ_ONLY => 45,
            Error::MPI_ERR_RMA_ATTACH => 46,
            Error::MPI_ERR_RMA_CONFLICT => 47,
            Error::MPI_ERR_RMA_RANGE => 48,
            Error::MPI_ERR_RMA_SHARED => 49,
            Error::MPI_ERR_RMA_SYNC => 50,
            Error::MPI_ERR_RMA_FLAVOR => 51,
            Error::MPI_ERR_SERVICE => 52,
            Error::MPI_ERR_SIZE => 53,
            Error::MPI_ERR_SPAWN => 54,
            Error::MPI_ERR_UNSUPPORTED_DATAREP => 55,
            Error::MPI_ERR_UNSUPPORTED_OPERATION => 56,
            Error::MPI_ERR_WIN => 57,
            Error::MPI_T_ERR_CANNOT_INIT => 58,
            Error::MPI_T_ERR_NOT_INITIALIZED => 59,
            Error::MPI_T_ERR_MEMORY => 60,
            Error::MPI_T_ERR_INVALID => 61,
            Error::MPI_T_ERR_INVALID_INDEX => 62,
            Error::MPI_T_ERR_INVALID_ITEM => 63,
            Error::MPI_T_ERR_INVALID_SESSION => 64,
            Error::MPI_T_ERR_INVALID_HANDLE => 65,
            Error::MPI_T_ERR_INVALID_NAME => 66,
            Error::MPI_T_ERR_OUT_OF_HANDLES => 67,
            Error::MPI_T_ERR_OUT_OF_SESSIONS => 68,
            Error::MPI_T_ERR_CVAR_SET_NOT_NOW => 69,
            Error::MPI_T_ERR_CVAR_SET_NEVER => 70,
            Error::MPI_T_ERR_PVAR_NO_WRITE => 71,
            Error::MPI_T_ERR_PVAR_NO_STARTSTOP => 72,
            Error::MPI_T_ERR_PVAR_NO_ATOMIC => 73,
            Error::MPI_ERR_LASTCODE => 74,
        }
    }

    /// The numeric code of this status.
    pub fn code(&self) -> (code: i32)
        ensures
            code == self.code_of(),
            0 <= code <= 74,
            (code == 0) == (*self == Error::MPI_SUCCESS),
    {
        match self {
            Error::MPI_SUCCESS => 0,
            Error::MPI_ERR_BUFFER => 1,
            Error::MPI_ERR_COUNT => 2,
            Error::MPI_ERR_TYPE => 3,
            Error::MPI_ERR_TAG => 4,
            Error::MPI_ERR_COMM => 5,
            Error::MPI_ERR_RANK => 6,
            Error::MPI_ERR_REQUEST => 7,
            Error::MPI_ERR_ROOT => 8,
            Error::MPI_ERR_GROUP => 9,
            Error::MPI_ERR_OP => 10,
            Error::MPI_ERR_TOPOLOGY => 11,
            Error::MPI_ERR_DIMS => 12,
            Error::MPI_ERR_ARG => 13,
            Error::MPI_ERR_UNKNOWN => 14,
            Error::MPI_ERR_TRUNCATE => 15,
            Error::MPI_ERR_OTHER => 16,
            Error::MPI_ERR_INTERN => 17,
            Error::MPI_ERR_PENDING => 18,
            Error::MPI_ERR_IN_STATUS => 19,
            Error::MPI_ERR_ACCESS => 20,
            Error::MPI_ERR_AMODE => 21,
            Error::MPI_ERR_ASSERT => 22,
            Error::MPI_ERR_BAD_FILE => 23,
            Error::MPI_ERR_BASE => 24,
            Error::MPI_ERR_CONVERSION => 25,
            Error::MPI_ERR_DISP => 26,
            Error::MPI_ERR_DUP_DATAREP => 27,
            Error::MPI_ERR_FILE_EXISTS => 28,
            Error::MPI_ERR_FILE_IN_USE => 29,
            Error::MPI_ERR_FILE => 30,
            Error::MPI_ERR_INFO_KEY => 31,
            Error::MPI_ERR_INFO_NOKEY => 32,
            Error::MPI_ERR_INFO_VALUE => 33,
            Error::MPI_ERR_INFO => 34,
            Error::MPI_ERR_IO => 35,
            Error::MPI_ERR_KEYVAL => 36,
            Error::MPI_ERR_LOCKTYPE => 37,
            Error::MPI_ERR_NAME => 38,
            Error::MPI_ERR_NO_MEM => 39,
            Error::MPI_ERR_NOT_SAME => 40,
            Error::MPI_ERR_NO_SPACE => 41,
            Error::MPI_ERR_NO_SUCH_FILE => 42,
            Error::MPI_ERR_PORT => 43,
            Error::MPI_ERR_QUOTA => 44,
            Error::MPI_ERR_READ_ONLY => 45,
            Error::MPI_ERR_RMA_ATTACH => 46,
            Error::MPI_ERR_RMA_CONFLICT => 47,
            Error::MPI_ERR_RMA_RANGE => 48,
            Error::MPI_ERR_RMA_SHARED => 49,
            Error::MPI_ERR_RMA_SYNC => 50,
            Error::MPI_ERR_RMA_FLAVOR => 51,
            Error::MPI_ERR_SERVICE => 52,
            Error::MPI_ERR_SIZE => 53,
            Error::MPI_ERR_SPAWN => 54,
            Error::MPI_ERR_UNSUPPORTED_DATAREP => 55,
            Error::MPI_ERR_UNSUPPORTED_OPERATION => 56,
            Error::MPI_ERR_WIN => 57,
            Error::MPI_T_ERR_CANNOT_INIT => 58,
            Error::MPI_T_ERR_NOT_INITIALIZED => 59,
            Error::MPI_T_ERR_MEMORY => 60,
            Error::MPI_T_ERR_INVALID => 61,
            Error::MPI_T_ERR_INVALID_INDEX => 62,
            Error::MPI_T_ERR_INVALID_ITEM => 63,
            Error::MPI_T_ERR_INVALID_SESSION => 64,
            Error::MPI_T_ERR_INVALID_HANDLE => 65,
            Error::MPI_T_ERR_INVALID_NAME => 66,
            Error::MPI_T_ERR_OUT_OF_HANDLES => 67,
            Error::MPI_T_ERR_OUT_OF_SESSIONS => 68,
            Error::MPI_T_ERR_CVAR_SET_NOT_NOW => 69,
            Error::MPI_T_ERR_CVAR_SET_NEVER => 70,
            Error::MPI_T_ERR_PVAR_NO_WRITE => 71,
            Error::MPI_T_ERR_PVAR_NO_STARTSTOP => 72,
            Error::MPI_T_ERR_PVAR_NO_ATOMIC => 73,
            Error::MPI_ERR_LASTCODE => 74,
        }
    }
}

/// The status that stands for a failure of the runtime.
pub open spec fn status_of(err: error::Error) -> Error {
    match err {
        error::Error::CommandNotFound(_) => Error::MPI_ERR_NO_SUCH_FILE,
        error::Error::NoSuchPort(_) => Error::MPI_ERR_PORT,
        error::Error::IoError(_) => Error::MPI_ERR_IO,
        error::Error::FailExitCode(_) => Error::MPI_ERR_SPAWN,
    }
}

/// The status that stands for the report of one launch.
pub open spec fn status_of_result(result: Result<(), error::Error>) -> Error {
    match result {
        Ok(_) => Error::MPI_SUCCESS,
        Err(err) => status_of(err),
    }
}

/// Maps a failure of the runtime to its status.
pub fn to_mpi_error(err: error::Error) -> (status: Error)
    ensures
        status == status_of(err),
        status != Error::MPI_SUCCESS,
{
    match err {
        error::Error::CommandNotFound(_) => Error::MPI_ERR_NO_SUCH_FILE,
        error::Error::NoSuchPort(_) => Error::MPI_ERR_PORT,
        error::Error::IoError(_) => Error::MPI_ERR_IO,
        error::Error::FailExitCode(_) => Error::MPI_ERR_SPAWN,
    }
}

/// Maps the report of one launch to its status.
pub fn result_to_mpi_error(result: &Result<(), error::Error>) -> (status: Error)
    ensures
        status == status_of_result(*result),
        (status == Error::MPI_SUCCESS) == (result is Ok),
{
    match result {
        Ok(_) => Error::MPI_SUCCESS,
        Err(error::Error::CommandNotFound(_)) => Error::MPI_ERR_NO_SUCH_FILE,
        Err(error::Error::NoSuchPort(_)) => Error::MPI_ERR_PORT,
        Err(error::Error::IoError(_)) => Error::MPI_ERR_IO,
        Err(error::Error::FailExitCode(_)) => Error::MPI_ERR_SPAWN,
    }
}

} // verus!
